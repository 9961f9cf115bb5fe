//! Seatbelt backend: the command runs natively on the host under
//! `sandbox-exec`, against the host's own Metal stack.

use vstd::prelude::*;
use crate::backend::linux::{command_or_shell, command_tail};
use crate::backend::{Invocation, InvocationView, LaunchSpec, LaunchSpecView, Platform};
use crate::mounts::{BindMount, BindMountView};
use crate::paths;
use crate::text;

verus! {

/// `path` inside a string of the profile language.
pub open spec fn profile_string(path: Seq<char>) -> Seq<char>
    decreases path.len(),
{
    if path.len() == 0 {
        Seq::empty()
    } else if path.last() == '"' || path.last() == '\\' {
        profile_string(path.drop_last()).push('\\').push(path.last())
    } else {
        profile_string(path.drop_last()).push(path.last())
    }
}

fn escape_path(path: &str) -> (r: String)
    ensures
        r@ == profile_string(path@),
{
    let chars = text::chars_of(path);
    let mut r = String::new();
    let mut i: usize = 0;
    while i < chars.len()
        invariant
            chars@ == path@,
            i <= chars@.len(),
            r@ == profile_string(path@.take(i as int)),
        decreases chars@.len() - i,
    {
        assert(path@.take(i + 1).drop_last() =~= path@.take(i as int));
        if chars[i] == '"' || chars[i] == '\\' {
            r.push('\\');
        }
        r.push(chars[i]);
        i += 1;
    }
    assert(path@.take(i as int) =~= path@);
    r
}

/// The rules that allow writes again under the writable mounts.
pub open spec fn write_rules(mounts: Seq<BindMountView>) -> Seq<char>
    decreases mounts.len(),
{
    if mounts.len() == 0 {
        Seq::empty()
    } else if mounts.last().read_only {
        write_rules(mounts.drop_last())
    } else {
        write_rules(mounts.drop_last()) + "(allow file-write* (subpath \""@ + profile_string(
            mounts.last().host,
        ) + "\"))\n"@
    }
}

/// The Seatbelt profile of a launch: everything is allowed but writes, which
/// are allowed only under the writable mounts.
pub open spec fn profile(mounts: Seq<BindMountView>) -> Seq<char> {
    "(version 1)\n(allow default)\n(deny file-write*)\n"@ + write_rules(mounts)
}

/// Writes the Seatbelt profile of a launch.
pub fn render_profile(mounts: &Vec<BindMount>) -> (r: String)
    ensures
        r@ == profile(mounts.deep_view()),
{
    let ghost view = mounts.deep_view();
    let mut rules = String::new();
    let mut i: usize = 0;
    while i < mounts.len()
        invariant
            view == mounts.deep_view(),
            i <= mounts@.len(),
            rules@ == write_rules(view.take(i as int)),
        decreases mounts@.len() - i,
    {
        let mount = &mounts[i];
        assert(view.take(i + 1).drop_last() =~= view.take(i as int));
        assert(view.take(i + 1).last() == mount.deep_view());
        if !mount.read_only {
            rules.append("(allow file-write* (subpath \"");
            rules.append(escape_path(mount.host.as_str()).as_str());
            rules.append("\"))\n");
        }
        i += 1;
    }
    assert(view.take(i as int) =~= view);
    text::join2("(version 1)\n(allow default)\n(deny file-write*)\n", rules.as_str())
}

/// The invocation of a command under Seatbelt.
pub open spec fn seatbelt_invocation(spec: LaunchSpecView, scratch_dir: Seq<char>) -> InvocationView {
    let path = paths::path_join(Platform::MacOs, scratch_dir, "gpubox.sb"@);
    InvocationView {
        program: "sandbox-exec"@,
        args: seq!["-f"@, path, "/usr/bin/env"@] + text::assignments(spec.env) + command_or_shell(
            spec.command,
        ),
        generated_files: seq![(path, profile(spec.mounts))],
    }
}

/// Build the `sandbox-exec -f <profile> ...` invocation.
pub fn build_invocation(spec: &LaunchSpec, scratch_dir: &str) -> (r: Invocation)
    ensures
        r.deep_view() == seatbelt_invocation(spec.deep_view(), scratch_dir@),
{
    let path = paths::join_paths(Platform::MacOs, scratch_dir, "gpubox.sb");
    let mut args = text::no_strings();
    text::push_str(&mut args, "-f");
    text::push_str(&mut args, path.as_str());
    text::push_str(&mut args, "/usr/bin/env");
    text::push_all(&mut args, &text::assign(&spec.env));
    text::push_all(&mut args, &command_tail(spec));
    let mut generated_files = text::no_pairs();
    text::push_pair(&mut generated_files, path.as_str(), render_profile(&spec.mounts).as_str());
    Invocation { program: "sandbox-exec".to_string(), args, generated_files }
}

/// A Seatbelt profile names no path but those of the writable mounts: a mount
/// that is read-only adds nothing to it.
pub proof fn law_read_only_mounts_grant_no_writes(mounts: Seq<BindMountView>, mount: BindMountView)
    requires
        mount.read_only,
    ensures
        profile(mounts.push(mount)) == profile(mounts),
{
    assert(mounts.push(mount).drop_last() =~= mounts);
}

/// A path is written into a profile character by character, a quote or a
/// backslash after a backslash and any other character as it is.
pub proof fn law_profile_strings(a: Seq<char>, b: Seq<char>, c: char)
    ensures
        profile_string(a + b) == profile_string(a) + profile_string(b),
        c == '"' || c == '\\' ==> profile_string(seq![c]) == seq!['\\', c],
        c != '"' && c != '\\' ==> profile_string(seq![c]) == seq![c],
    decreases b.len(),
{
    reveal_with_fuel(profile_string, 2);
    assert(seq![c].drop_last() =~= Seq::empty());
    if c == '"' || c == '\\' {
        assert(profile_string(seq![c]) =~= seq!['\\', c]);
    } else {
        assert(profile_string(seq![c]) =~= seq![c]);
    }
    if b.len() == 0 {
        assert(a + b =~= a);
        assert(profile_string(a) + profile_string(b) =~= profile_string(a));
    } else {
        law_profile_strings(a, b.drop_last(), c);
        assert((a + b).drop_last() =~= a + b.drop_last());
        assert(profile_string(a + b) =~= profile_string(a) + profile_string(b));
    }
}

proof fn lemma_write_rules(a: Seq<BindMountView>, b: Seq<BindMountView>)
    ensures
        write_rules(a + b) == write_rules(a) + write_rules(b),
    decreases b.len(),
{
    if b.len() == 0 {
        assert(a + b =~= a);
        assert(write_rules(a) + write_rules(b) =~= write_rules(a));
    } else {
        lemma_write_rules(a, b.drop_last());
        assert((a + b).drop_last() =~= a + b.drop_last());
        assert(write_rules(a + b) =~= write_rules(a) + write_rules(b));
    }
}

/// The profile allows everything but writing, and then writing under each
/// mount that is not read-only: the rule of every such mount is in it.
pub proof fn law_profiles_allow_writes_to_mounts_only(mounts: Seq<BindMountView>, i: int)
    ensures
        profile(Seq::empty()) == "(version 1)\n(allow default)\n(deny file-write*)\n"@,
        text::has_prefix(profile(mounts), profile(Seq::empty())),
        0 <= i < mounts.len() && !mounts[i].read_only ==> text::occurs_in(
            profile(mounts),
            "(allow file-write* (subpath \""@ + profile_string(mounts[i].host) + "\"))\n"@,
        ),
        (forall|j: int| 0 <= j < mounts.len() ==> (#[trigger] mounts[j]).read_only) ==> profile(
            mounts,
        ) == profile(Seq::empty()),
    decreases mounts.len(),
{
    let start = "(version 1)\n(allow default)\n(deny file-write*)\n"@;
    assert(profile(Seq::empty()) =~= start);
    assert(profile(mounts).subrange(0, start.len() as int) =~= start);
    if 0 <= i < mounts.len() && !mounts[i].read_only {
        let before = mounts.take(i);
        let after = mounts.skip(i + 1);
        let one = seq![mounts[i]];
        assert(mounts =~= before + one + after);
        lemma_write_rules(before + one, after);
        lemma_write_rules(before, one);
        let rule = "(allow file-write* (subpath \""@ + profile_string(mounts[i].host) + "\"))\n"@;
        reveal_with_fuel(write_rules, 2);
        assert(one.drop_last() =~= Seq::empty());
        assert(write_rules(one) =~= rule);
        text::law_parts_occur(start + write_rules(before), rule, write_rules(after));
        assert(profile(mounts) =~= start + write_rules(before) + rule + write_rules(after));
    }
    if mounts.len() > 0 && forall|j: int|
        0 <= j < mounts.len() ==> (#[trigger] mounts[j]).read_only {
        let front = mounts.drop_last();
        assert forall|j: int| 0 <= j < front.len() implies (#[trigger] front[j]).read_only by {
            assert(mounts[j].read_only);
        }
        law_profiles_allow_writes_to_mounts_only(front, -1);
        assert(mounts[mounts.len() - 1].read_only);
    }
}

/// What a sandboxed process is run with: the profile that is written for it,
/// then `env` with each variable of the launch, in order, and then the command
/// itself, or a shell if there is none.
pub proof fn law_seatbelt_runs_the_command(spec: LaunchSpecView, dir: Seq<char>, i: int)
    ensures
        ({
            let found = seatbelt_invocation(spec, dir);
            let command = 3 + spec.env.len() as int;
            &&& found.program == "sandbox-exec"@
            &&& found.generated_files.len() == 1
            &&& found.generated_files[0].1 == profile(spec.mounts)
            &&& found.generated_files[0].0 == paths::path_join(
                Platform::MacOs,
                dir,
                "gpubox.sb"@,
            )
            &&& found.args[0] == "-f"@
            &&& found.args[1] == found.generated_files[0].0
            &&& found.args[2] == "/usr/bin/env"@
            &&& 0 <= i < spec.env.len() ==> found.args[3 + i] == spec.env[i].0 + "="@
                + spec.env[i].1
            &&& spec.command.len() > 0 ==> found.args.skip(command) == spec.command
            &&& spec.command.len() == 0 ==> found.args.skip(command) == seq!["/bin/bash"@]
        }),
{
    let found = seatbelt_invocation(spec, dir);
    let tail = command_or_shell(spec.command);
    assert(found.args.skip(3 + spec.env.len() as int) =~= tail);
}

} // verus!
