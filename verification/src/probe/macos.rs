//! macOS hardware probe.
//!
//! Apple Silicon Macs have an integrated GPU that's inseparable from the
//! SoC, so there's no PCI vendor/device pair to read - the CPU architecture
//! is sufficient. Intel Macs are out of scope for GPU passthrough; they fall
//! through to CPU.

use vstd::prelude::*;
use crate::probe::{GpuClass, GpuClassView, GpuDevice, GpuDeviceView};

verus! {

/// The GPUs of a Mac: the one of its SoC, if it is Apple Silicon.
pub open spec fn mac_devices(apple_silicon: bool) -> Seq<GpuDeviceView> {
    if apple_silicon {
        seq![
            GpuDeviceView {
                vendor_id: None,
                device_id: None,
                node: Some("Apple GPU (integrated)"@),
                class: GpuClassView::Apple,
            },
        ]
    } else {
        Seq::empty()
    }
}

/// Lists the GPUs of a Mac, given whether its CPU is Apple Silicon.
pub fn probe(apple_silicon: bool) -> (r: Vec<GpuDevice>)
    ensures
        r.deep_view() == mac_devices(apple_silicon),
{
    let mut r: Vec<GpuDevice> = Vec::new();
    if apple_silicon {
        r.push(
            GpuDevice {
                vendor_id: None,
                device_id: None,
                node: Some("Apple GPU (integrated)".to_string()),
                class: GpuClass::Apple,
            },
        );
    }
    assert(r.deep_view() =~= mac_devices(apple_silicon));
    r
}

} // verus!
