//! Windows Sandbox backend: a lightweight Hyper-V-backed VM with virtualized
//! GPU acceleration, described by a `.wsb` configuration.

use vstd::prelude::*;
use crate::backend::{Invocation, InvocationView, LaunchSpec, LaunchSpecView, Platform};
use crate::mounts::BindMountView;
use crate::paths;
use crate::text;

verus! {

/// One character of XML text.
pub open spec fn xml_char(c: char) -> Seq<char> {
    if c == '&' {
        "&amp;"@
    } else if c == '<' {
        "&lt;"@
    } else if c == '>' {
        "&gt;"@
    } else {
        seq![c]
    }
}

/// `s` as XML text.
pub open spec fn xml_text(s: Seq<char>) -> Seq<char>
    decreases s.len(),
{
    if s.len() == 0 {
        Seq::empty()
    } else {
        xml_text(s.drop_last()) + xml_char(s.last())
    }
}

fn escape_xml(s: &str) -> (r: String)
    ensures
        r@ == xml_text(s@),
{
    let chars = text::chars_of(s);
    let mut r = String::new();
    let mut i: usize = 0;
    while i < chars.len()
        invariant
            chars@ == s@,
            i <= chars@.len(),
            r@ == xml_text(s@.take(i as int)),
        decreases chars@.len() - i,
    {
        assert(s@.take(i + 1).drop_last() =~= s@.take(i as int));
        let ghost before = r@;
        let c = chars[i];
        if c == '&' {
            r.append("&amp;");
        } else if c == '<' {
            r.append("&lt;");
        } else if c == '>' {
            r.append("&gt;");
        } else {
            r.push(c);
        }
        assert(r@ =~= before + xml_char(c));
        i += 1;
    }
    assert(s@.take(i as int) =~= s@);
    r
}

/// The mapped folder of a mount.
pub open spec fn mapped_folder(mount: BindMountView) -> Seq<char> {
    "    <MappedFolder>\n      <HostFolder>"@ + xml_text(mount.host)
        + "</HostFolder>\n      <SandboxFolder>"@ + xml_text(mount.container)
        + "</SandboxFolder>\n      <ReadOnly>"@ + (if mount.read_only {
        "true"@
    } else {
        "false"@
    }) + "</ReadOnly>\n    </MappedFolder>\n"@
}

/// The mapped folders of the given mounts.
pub open spec fn mapped_folders(mounts: Seq<BindMountView>) -> Seq<char>
    decreases mounts.len(),
{
    if mounts.len() == 0 {
        Seq::empty()
    } else {
        mapped_folders(mounts.drop_last()) + mapped_folder(mounts.last())
    }
}

/// The command that the sandbox runs when it has booted.
pub open spec fn logon_command(command: Seq<Seq<char>>) -> Seq<char> {
    if command.len() == 0 {
        Seq::empty()
    } else {
        "  <LogonCommand>\n    <Command>"@ + xml_text(text::joined(command, " "@))
            + "</Command>\n  </LogonCommand>\n"@
    }
}

/// The `.wsb` configuration of a launch.
pub open spec fn configuration(spec: LaunchSpecView) -> Seq<char> {
    "<Configuration>\n  <VGpu>Enable</VGpu>\n  <MappedFolders>\n"@ + mapped_folders(spec.mounts)
        + "  </MappedFolders>\n"@ + logon_command(spec.command) + "</Configuration>\n"@
}

/// Writes the `.wsb` configuration of a launch.
pub fn render_configuration(spec: &LaunchSpec) -> (r: String)
    ensures
        r@ == configuration(spec.deep_view()),
{
    let ghost view = spec.deep_view().mounts;
    let mut folders = String::new();
    let mut i: usize = 0;
    while i < spec.mounts.len()
        invariant
            view == spec.mounts.deep_view(),
            i <= spec.mounts@.len(),
            folders@ == mapped_folders(view.take(i as int)),
        decreases spec.mounts@.len() - i,
    {
        let mount = &spec.mounts[i];
        assert(view.take(i + 1).drop_last() =~= view.take(i as int));
        assert(view.take(i + 1).last() == mount.deep_view());
        let mut folder = text::join3(
            "    <MappedFolder>\n      <HostFolder>",
            escape_xml(mount.host.as_str()).as_str(),
            "</HostFolder>\n      <SandboxFolder>",
        );
        folder.append(escape_xml(mount.container.as_str()).as_str());
        folder.append("</SandboxFolder>\n      <ReadOnly>");
        if mount.read_only {
            folder.append("true");
        } else {
            folder.append("false");
        }
        folder.append("</ReadOnly>\n    </MappedFolder>\n");
        folders.append(folder.as_str());
        i += 1;
    }
    assert(view.take(i as int) =~= view);
    let mut command = String::new();
    assert(spec.deep_view().command.len() == spec.command@.len());
    if spec.command.len() > 0 {
        let line = text::join(&spec.command, " ");
        command = text::join3(
            "  <LogonCommand>\n    <Command>",
            escape_xml(line.as_str()).as_str(),
            "</Command>\n  </LogonCommand>\n",
        );
    }
    let mut r = text::join3(
        "<Configuration>\n  <VGpu>Enable</VGpu>\n  <MappedFolders>\n",
        folders.as_str(),
        "  </MappedFolders>\n",
    );
    r.append(command.as_str());
    r.append("</Configuration>\n");
    r
}

/// The invocation of Windows Sandbox.
pub open spec fn sandbox_invocation(spec: LaunchSpecView, scratch_dir: Seq<char>) -> InvocationView {
    let path = paths::path_join(Platform::Windows, scratch_dir, "gpubox.wsb"@);
    InvocationView {
        program: "WindowsSandbox.exe"@,
        args: seq![path],
        generated_files: seq![(path, configuration(spec))],
    }
}

/// Build the `WindowsSandbox.exe <config>` invocation.
pub fn build_invocation(spec: &LaunchSpec, scratch_dir: &str) -> (r: Invocation)
    ensures
        r.deep_view() == sandbox_invocation(spec.deep_view(), scratch_dir@),
{
    let path = paths::join_paths(Platform::Windows, scratch_dir, "gpubox.wsb");
    let mut args = text::no_strings();
    text::push_str(&mut args, path.as_str());
    let mut generated_files = text::no_pairs();
    text::push_pair(&mut generated_files, path.as_str(), render_configuration(spec).as_str());
    Invocation { program: "WindowsSandbox.exe".to_string(), args, generated_files }
}

/// Text is written into XML character by character; the characters that XML
/// gives a meaning are written as entities, and any other as it is.
pub proof fn law_xml_text(a: Seq<char>, b: Seq<char>, c: char)
    ensures
        xml_text(a + b) == xml_text(a) + xml_text(b),
        xml_text(seq!['&']) == "&amp;"@,
        xml_text(seq!['<']) == "&lt;"@,
        xml_text(seq!['>']) == "&gt;"@,
        c != '&' && c != '<' && c != '>' ==> xml_text(seq![c]) == seq![c],
    decreases b.len(),
{
    reveal_with_fuel(xml_text, 2);
    assert(seq![c].drop_last() =~= Seq::empty());
    assert(seq!['&'].drop_last() =~= Seq::<char>::empty());
    assert(seq!['<'].drop_last() =~= Seq::<char>::empty());
    assert(seq!['>'].drop_last() =~= Seq::<char>::empty());
    assert(xml_text(seq!['&']) =~= "&amp;"@);
    assert(xml_text(seq!['<']) =~= "&lt;"@);
    assert(xml_text(seq!['>']) =~= "&gt;"@);
    if c != '&' && c != '<' && c != '>' {
        assert(xml_text(seq![c]) =~= seq![c]);
    }
    if b.len() == 0 {
        assert(a + b =~= a);
        assert(xml_text(a) + xml_text(b) =~= xml_text(a));
    } else {
        law_xml_text(a, b.drop_last(), c);
        assert((a + b).drop_last() =~= a + b.drop_last());
        assert(xml_text(a + b) =~= xml_text(a) + xml_text(b));
    }
}

proof fn lemma_mapped_folders(a: Seq<BindMountView>, b: Seq<BindMountView>)
    ensures
        mapped_folders(a + b) == mapped_folders(a) + mapped_folders(b),
    decreases b.len(),
{
    if b.len() == 0 {
        assert(a + b =~= a);
        assert(mapped_folders(a) + mapped_folders(b) =~= mapped_folders(a));
    } else {
        lemma_mapped_folders(a, b.drop_last());
        assert((a + b).drop_last() =~= a + b.drop_last());
        assert(mapped_folders(a + b) =~= mapped_folders(a) + mapped_folders(b));
    }
}

/// The sandbox has the virtual GPU enabled; every mount as a mapped folder,
/// read-only exactly if the mount is; and the command to run at logon, if there
/// is one.
#[verifier::spinoff_prover]
#[verifier::rlimit(40)]
pub proof fn law_sandboxes_get_everything(spec: LaunchSpecView, i: int)
    ensures
        text::has_prefix(
            configuration(spec),
            "<Configuration>\n  <VGpu>Enable</VGpu>\n  <MappedFolders>\n"@,
        ),
        0 <= i < spec.mounts.len() ==> text::occurs_in(
            configuration(spec),
            "    <MappedFolder>\n      <HostFolder>"@ + xml_text(spec.mounts[i].host)
                + "</HostFolder>\n      <SandboxFolder>"@ + xml_text(spec.mounts[i].container)
                + "</SandboxFolder>\n      <ReadOnly>"@ + (if spec.mounts[i].read_only {
                "true"@
            } else {
                "false"@
            }) + "</ReadOnly>\n    </MappedFolder>\n"@,
        ),
        spec.command.len() > 0 ==> text::occurs_in(
            configuration(spec),
            "  <LogonCommand>\n    <Command>"@ + xml_text(text::joined(spec.command, " "@))
                + "</Command>\n  </LogonCommand>\n"@,
        ),
        spec.mounts.len() == 0 && spec.command.len() == 0 ==> configuration(spec)
            == "<Configuration>\n  <VGpu>Enable</VGpu>\n  <MappedFolders>\n"@
            + "  </MappedFolders>\n"@ + "</Configuration>\n"@,
{
    let start = "<Configuration>\n  <VGpu>Enable</VGpu>\n  <MappedFolders>\n"@;
    let close = "  </MappedFolders>\n"@;
    let end = "</Configuration>\n"@;
    let all = configuration(spec);
    let folders = mapped_folders(spec.mounts);
    let logon = logon_command(spec.command);
    assert(all.subrange(0, start.len() as int) =~= start);
    if 0 <= i < spec.mounts.len() {
        let before = spec.mounts.take(i);
        let after = spec.mounts.skip(i + 1);
        let one = seq![spec.mounts[i]];
        assert(spec.mounts =~= before + one + after);
        lemma_mapped_folders(before + one, after);
        lemma_mapped_folders(before, one);
        reveal_with_fuel(mapped_folders, 2);
        assert(one.drop_last() =~= Seq::empty());
        let folder = mapped_folder(spec.mounts[i]);
        assert(mapped_folders(one) =~= folder);
        let rest = mapped_folders(after) + close + logon + end;
        text::law_parts_occur(start + mapped_folders(before), folder, rest);
        assert(all =~= start + mapped_folders(before) + folder + rest);
    }
    if spec.command.len() > 0 {
        text::law_parts_occur(start + folders + close, logon, end);
        assert(all =~= start + folders + close + logon + end);
    }
    if spec.mounts.len() == 0 && spec.command.len() == 0 {
        assert(all =~= start + close + end);
    }
}

/// Windows Sandbox is run on the configuration that is written for it.
pub proof fn law_sandboxes_are_run_on_their_configuration(spec: LaunchSpecView, dir: Seq<char>)
    ensures
        sandbox_invocation(spec, dir).program == "WindowsSandbox.exe"@,
        sandbox_invocation(spec, dir).args == seq![
            paths::path_join(Platform::Windows, dir, "gpubox.wsb"@),
        ],
        sandbox_invocation(spec, dir).generated_files == seq![
            (paths::path_join(Platform::Windows, dir, "gpubox.wsb"@), configuration(spec)),
        ],
{
}

} // verus!
