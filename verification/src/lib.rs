//! gpubox: auto-detecting GPU container launcher.
//!
//! The pipeline: [`probe`] classifies the host's GPUs, [`stack`] resolves a
//! classification into an image and its quirks, [`device`] decides how the
//! GPU is handed over, [`mounts`] ties the container to the host, [`launch`]
//! makes one plan out of all that, and [`backend`] turns the plan into a
//! command. [`run`] carries a plan out step by step, [`doctor`] explains it,
//! and [`generate`] writes it down.
//!
//! Nothing here does I/O. What a function has to know about the host it takes
//! as an argument, and what it wants done it returns.

pub mod backend;
pub mod cache;
pub mod cli;
pub mod container;
pub mod device;
pub mod doctor;
pub mod generate;
pub mod json;
pub mod launch;
pub mod mounts;
pub mod paths;
pub mod probe;
pub mod run;
pub mod stack;
pub mod table;
pub mod text;
