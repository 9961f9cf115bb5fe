//! Process-isolated Windows container backend - the CUDA-capable
//! alternative to Windows Sandbox.
//!
//! Windows Sandbox's `<VGpu>Enable</VGpu>` only gives WDDM/DirectX
//! paravirtualization, which is *not* a CUDA-capable path. Process-isolated
//! Windows containers with GPU compute support (`docker run --isolation
//! process --device class/<GPU class GUID>`) share the host's kernel
//! directly, so the host's already-installed driver - kernel-mode component
//! and userspace DLLs alike - is used as-is by whatever runs inside. The
//! container image must be Windows-based.

use vstd::prelude::*;
use crate::backend::linux;
use crate::backend::linux::{env_args, push_env, push_workdir, tty_args, workdir_args};
use crate::backend::{BackendError, Invocation, InvocationView, LaunchSpec, LaunchSpecView};
use crate::mounts::{BindMount, BindMountView};
use crate::text;

verus! {

/// The stable device class GUID for the "Display" (GPU) device class,
/// used by Windows containers' GPU compute/rendering support to select
/// which host devices to project into the container. Documented by
/// Microsoft under "GPU acceleration in Windows containers".
pub const GPU_DEVICE_CLASS_GUID: &'static str = "5B45201D-F2F2-4F3B-85BB-30FF1F953599";

/// A mount in the form `type=bind,source=...,target=...[,readonly]`: Windows
/// paths themselves contain a colon, which makes `-v`'s colon-delimited form
/// ambiguous.
pub open spec fn bind(mount: BindMountView) -> Seq<char> {
    if mount.read_only {
        "type=bind,source="@ + mount.host + ",target="@ + mount.container + ",readonly"@
    } else {
        "type=bind,source="@ + mount.host + ",target="@ + mount.container
    }
}

/// The flags of the given mounts.
pub open spec fn bind_args(mounts: Seq<BindMountView>) -> Seq<Seq<char>>
    decreases mounts.len(),
{
    if mounts.len() == 0 {
        Seq::empty()
    } else {
        bind_args(mounts.drop_last()) + seq!["--mount"@, bind(mounts.last())]
    }
}

fn push_binds(args: &mut Vec<String>, mounts: &Vec<BindMount>)
    ensures
        final(args).deep_view() == old(args).deep_view() + bind_args(mounts.deep_view()),
{
    let ghost before = args.deep_view();
    let ghost view = mounts.deep_view();
    let mut i: usize = 0;
    assert(before + bind_args(view.take(0)) =~= before);
    while i < mounts.len()
        invariant
            view == mounts.deep_view(),
            i <= mounts@.len(),
            args.deep_view() == before + bind_args(view.take(i as int)),
        decreases mounts@.len() - i,
    {
        let mount = &mounts[i];
        assert(view.take(i + 1).drop_last() =~= view.take(i as int));
        assert(view.take(i + 1).last() == mount.deep_view());
        let ghost now = args.deep_view();
        text::push_str(args, "--mount");
        let mut value = text::join3("type=bind,source=", mount.host.as_str(), ",target=");
        value.append(mount.container.as_str());
        if mount.read_only {
            value.append(",readonly");
        }
        text::push_string(args, value);
        assert(args.deep_view() =~= now + seq!["--mount"@, bind(mount.deep_view())]);
        assert(args.deep_view() =~= before + bind_args(view.take(i + 1)));
        i += 1;
    }
    assert(view.take(i as int) =~= view);
}

/// The command of a launch: its own, or an interactive command prompt.
pub open spec fn command_or_prompt(command: Seq<Seq<char>>) -> Seq<Seq<char>> {
    if command.len() == 0 {
        seq!["cmd.exe"@]
    } else {
        command
    }
}

/// The arguments of a Windows container.
pub open spec fn container_args(spec: LaunchSpecView) -> Seq<Seq<char>> {
    seq![
        "run"@,
        "--rm"@,
        "--isolation"@,
        "process"@,
        "--device"@,
        "class/"@ + GPU_DEVICE_CLASS_GUID@,
    ] + tty_args(spec.interactive) + bind_args(spec.mounts) + env_args(spec.env) + spec.extra_args
        + workdir_args(spec.workdir) + seq![spec.image] + command_or_prompt(spec.command)
}

/// The invocation of a Windows container.
pub open spec fn container_invocation(spec: LaunchSpecView) -> InvocationView {
    InvocationView {
        program: "docker"@,
        args: container_args(spec),
        generated_files: Seq::empty(),
    }
}

/// Build the `docker run --isolation process --device class/<GUID> ...`
/// invocation. Windows containers have no `/bin/sh`, no `setpriv`, and no
/// POSIX uid/gid model, so there is no wrapper: commands run directly as the
/// container's configured user.
pub fn build_invocation(spec: &LaunchSpec) -> (r: Result<Invocation, BackendError>)
    ensures
        r matches Ok(invocation) && invocation.deep_view() == container_invocation(
            spec.deep_view(),
        ),
{
    let mut args = text::no_strings();
    text::push_str(&mut args, "run");
    text::push_str(&mut args, "--rm");
    text::push_str(&mut args, "--isolation");
    text::push_str(&mut args, "process");
    text::push_str(&mut args, "--device");
    text::push_string(&mut args, text::join2("class/", GPU_DEVICE_CLASS_GUID));
    let ghost a0 = args.deep_view();
    if spec.interactive {
        text::push_str(&mut args, "-it");
    }
    assert(args.deep_view() =~= a0 + tty_args(spec.interactive));
    push_binds(&mut args, &spec.mounts);
    push_env(&mut args, &spec.env);
    text::push_all(&mut args, &spec.extra_args);
    push_workdir(&mut args, &spec.workdir);
    let ghost a1 = args.deep_view();
    text::push_str(&mut args, spec.image.as_str());
    assert(args.deep_view() =~= a1 + seq![spec.image@]);
    let ghost a2 = args.deep_view();
    assert(spec.deep_view().command.len() == spec.command@.len());
    if spec.command.len() == 0 {
        text::push_str(&mut args, "cmd.exe");
    } else {
        text::push_all(&mut args, &spec.command);
    }
    assert(args.deep_view() =~= a2 + command_or_prompt(spec.deep_view().command));
    Ok(Invocation { program: "docker".to_string(), args, generated_files: text::no_pairs() })
}

/// Whether each mount has its `--mount` and its bind, with `,readonly` after it
/// if it is read-only, from the given place on, in order.
pub open spec fn binds_stand_at(args: Seq<Seq<char>>, at: int, mounts: Seq<BindMountView>) -> bool {
    forall|i: int|
        #![trigger mounts[i]]
        0 <= i < mounts.len() ==> args.subrange(at + 2 * i, at + 2 * i + 2) == seq![
            "--mount"@,
            "type=bind,source="@ + mounts[i].host + ",target="@ + mounts[i].container + (
            if mounts[i].read_only {
                ",readonly"@
            } else {
                Seq::empty()
            }),
        ]
}

proof fn lemma_bind_args(mounts: Seq<BindMountView>, i: int)
    ensures
        bind_args(mounts).len() == 2 * mounts.len(),
        0 <= i < mounts.len() ==> bind_args(mounts)[2 * i] == "--mount"@ && bind_args(mounts)[2 * i
            + 1] == bind(mounts[i]),
    decreases mounts.len(),
{
    if mounts.len() > 0 {
        let front = mounts.drop_last();
        lemma_bind_args(front, i);
        if 0 <= i < front.len() {
            assert(bind_args(mounts)[2 * i] == bind_args(front)[2 * i]);
            assert(bind_args(mounts)[2 * i + 1] == bind_args(front)[2 * i + 1]);
        }
    }
}

proof fn lemma_binds_stand(
    before: Seq<Seq<char>>,
    mounts: Seq<BindMountView>,
    after: Seq<Seq<char>>,
)
    ensures
        bind_args(mounts).len() == 2 * mounts.len(),
        binds_stand_at(before + bind_args(mounts) + after, before.len() as int, mounts),
{
    lemma_bind_args(mounts, 0);
    let args = before + bind_args(mounts) + after;
    let at = before.len() as int;
    assert forall|i: int|
        #![trigger mounts[i]]
        0 <= i < mounts.len() implies args.subrange(at + 2 * i, at + 2 * i + 2) == seq![
        "--mount"@,
        "type=bind,source="@ + mounts[i].host + ",target="@ + mounts[i].container + (
        if mounts[i].read_only {
            ",readonly"@
        } else {
            Seq::empty()
        }),
    ] by {
        lemma_bind_args(mounts, i);
        let value = "type=bind,source="@ + mounts[i].host + ",target="@ + mounts[i].container + (
        if mounts[i].read_only {
            ",readonly"@
        } else {
            Seq::empty()
        });
        assert(bind(mounts[i]) =~= value);
        assert(args[at + 2 * i] == bind_args(mounts)[2 * i]);
        assert(args[at + 2 * i + 1] == bind_args(mounts)[2 * i + 1]);
        assert(args.subrange(at + 2 * i, at + 2 * i + 2) =~= seq!["--mount"@, value]);
    }
}

/// What a Windows container is run with, argument by argument: removed at its
/// end, isolated as a process, with the GPU device class; with a terminal if it
/// is interactive; all mounts, variables and extra flags of the launch; its
/// working directory; the image; and the command itself, without a wrapper, or
/// a command prompt if there is none.
#[verifier::spinoff_prover]
#[verifier::rlimit(40)]
pub proof fn law_windows_containers_get_everything(spec: LaunchSpecView)
    ensures
        container_invocation(spec).generated_files.len() == 0,
        ({
            let args = container_invocation(spec).args;
            let mounts: int = if spec.interactive {
                7
            } else {
                6
            };
            let env = mounts + 2 * spec.mounts.len();
            let extra = env + 2 * spec.env.len();
            let dir = extra + spec.extra_args.len();
            let image = if spec.workdir is Some {
                dir + 2
            } else {
                dir
            };
            &&& args.take(5) == seq![
                "run"@,
                "--rm"@,
                "--isolation"@,
                "process"@,
                "--device"@,
            ]
            &&& args[5] == "class/"@ + "5B45201D-F2F2-4F3B-85BB-30FF1F953599"@
            &&& spec.interactive ==> args[6] == "-it"@
            &&& binds_stand_at(args, mounts, spec.mounts)
            &&& linux::env_stands_at(args, env, spec.env)
            &&& args.subrange(extra, dir) == spec.extra_args
            &&& spec.workdir matches Some(path) ==> args[dir] == "-w"@ && args[dir + 1] == path
            &&& args[image] == spec.image
            &&& spec.command.len() > 0 ==> args.skip(image + 1) == spec.command
            &&& spec.command.len() == 0 ==> args.skip(image + 1) == seq!["cmd.exe"@]
        }),
{
    let start = seq![
        "run"@,
        "--rm"@,
        "--isolation"@,
        "process"@,
        "--device"@,
        "class/"@ + GPU_DEVICE_CLASS_GUID@,
    ];
    let head = start + tty_args(spec.interactive);
    let b = bind_args(spec.mounts);
    let e = env_args(spec.env);
    let x = spec.extra_args;
    let dir = workdir_args(spec.workdir);
    let command = command_or_prompt(spec.command);
    let tail = x + dir + seq![spec.image] + command;
    let args = container_args(spec);
    lemma_binds_stand(head, spec.mounts, e + tail);
    assert(args =~= head + b + (e + tail));
    linux::lemma_env_stands(head + b, spec.env, tail);
    assert(args =~= (head + b) + e + tail);
    assert(args.take(5) =~= seq!["run"@, "--rm"@, "--isolation"@, "process"@, "--device"@]);
    assert(args[5] == start[5]);
    let at = head.len() + b.len() + e.len() + 0int;
    assert(args.subrange(at, at + x.len()) =~= x);
    let d = at + x.len();
    if spec.workdir is Some {
        assert(args[d] == dir[0]);
        assert(args[d + 1] == dir[1]);
    }
    assert(args[d + dir.len()] == spec.image);
    assert(args.skip(d + dir.len() + 1) =~= command);
}

} // verus!
