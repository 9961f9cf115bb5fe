//! What the command line decides: the overrides of its flags, `rm`,
//! `generate`, and how an argument is shown. (`run` has a module of its own.)

use vstd::prelude::*;
use crate::backend;
use crate::backend::linux;
use crate::backend::linux::ContainerEngine;
use crate::backend::{Engine, Invocation, InvocationView, Outcome, Platform, Tools};
use crate::container;
use crate::container::{RemoveError, RemoveErrorView};
use crate::generate;
use crate::generate::{Format, NoImage, NoImageView};
use crate::launch;
use crate::launch::{Host, HostView, Overrides, OverridesView, PlanError, PlanErrorView};
use crate::probe::pciids::{PciIds, PciIdsView};
use crate::stack::{QuirksDb, QuirksDbView};
use crate::text;

verus! {

/// Whether a character has the Unicode properties that make it alphanumeric.
pub uninterp spec fn alphanumeric(c: char) -> bool;

/// Whether a character is an ASCII letter or digit.
pub open spec fn ascii_alphanumeric(c: char) -> bool {
    'a' <= c <= 'z' || 'A' <= c <= 'Z' || '0' <= c <= '9'
}

/// `char::is_alphanumeric` looks a character up in the Unicode tables: true
/// for what is alphabetic or numeric. Of the ASCII characters these are the
/// letters and the digits.
pub assume_specification[ char::is_alphanumeric ](c: char) -> (r: bool)
    ensures
        r == alphanumeric(c),
        (c as u32) < 128 ==> r == ascii_alphanumeric(c),
;

/// Whether a character needs no quotes.
pub open spec fn is_plain(c: char) -> bool {
    alphanumeric(c) || "-_./:=@"@.contains(c)
}

fn plain_char(c: char) -> (r: bool)
    ensures
        r == is_plain(c),
        r ==> c != '\'' && c != '\\',
{
    proof {
        reveal_strlit("-_./:=@");
    }
    c.is_alphanumeric() || text::contains_char(&text::chars_of("-_./:=@"), c)
}

/// `arg` with every single quote taken out of the quotes that it would end.
pub open spec fn escape_quotes(arg: Seq<char>) -> Seq<char>
    decreases arg.len(),
{
    if arg.len() == 0 {
        Seq::empty()
    } else if arg.last() == '\'' {
        escape_quotes(arg.drop_last()) + "'\\''"@
    } else {
        escape_quotes(arg.drop_last()).push(arg.last())
    }
}

/// How an argument is written for a shell: as it is when all of it is plain,
/// in single quotes otherwise.
pub open spec fn shell_quoted(arg: Seq<char>) -> Seq<char> {
    if forall|i: int| 0 <= i < arg.len() ==> is_plain(#[trigger] arg[i]) {
        arg
    } else {
        "'"@ + escape_quotes(arg) + "'"@
    }
}

/// What a POSIX shell makes of a word: single quotes keep everything up to the
/// next one, and outside of them a backslash keeps the character after it.
/// `quoted` says whether the word is read from inside quotes.
pub open spec fn shell_reads(word: Seq<char>, quoted: bool) -> Seq<char>
    decreases word.len(),
{
    if word.len() == 0 {
        Seq::empty()
    } else if word[0] == '\'' {
        shell_reads(word.skip(1), !quoted)
    } else if !quoted && word[0] == '\\' && word.len() > 1 {
        seq![word[1]] + shell_reads(word.skip(2), false)
    } else {
        seq![word[0]] + shell_reads(word.skip(1), quoted)
    }
}

/// Whether nothing in `word` ends a word or means more to a POSIX shell than
/// itself: outside of single quotes every character is plain or escaped, and
/// the quotes are closed at the end. `quoted` says whether it is read from
/// inside quotes.
pub open spec fn stays_one_word(word: Seq<char>, quoted: bool) -> bool
    decreases word.len(),
{
    if word.len() == 0 {
        !quoted
    } else if word[0] == '\'' {
        stays_one_word(word.skip(1), !quoted)
    } else if quoted {
        stays_one_word(word.skip(1), true)
    } else if word[0] == '\\' {
        word.len() > 1 && stays_one_word(word.skip(2), false)
    } else {
        is_plain(word[0]) && stays_one_word(word.skip(1), false)
    }
}

/// Whether a POSIX shell takes `word` as one word that stands for itself.
/// Nothing at all, outside of quotes, is no word.
pub open spec fn is_shell_word(word: Seq<char>, quoted: bool) -> bool {
    (quoted || word.len() > 0) && stays_one_word(word, quoted)
}

proof fn lemma_plain_word(word: Seq<char>)
    requires
        forall|i: int| 0 <= i < word.len() ==> is_plain(#[trigger] word[i]),
        forall|i: int| 0 <= i < word.len() ==> #[trigger] word[i] != '\'' && word[i] != '\\',
    ensures
        shell_reads(word, false) == word,
        stays_one_word(word, false),
    decreases word.len(),
{
    if word.len() > 0 {
        assert(is_plain(word[0]));
        assert(word[0] != '\'');
        assert forall|i: int| 0 <= i < word.skip(1).len() implies is_plain(
            #[trigger] word.skip(1)[i],
        ) by {
            assert(is_plain(word[i + 1]));
        }
        assert forall|i: int| 0 <= i < word.skip(1).len() implies #[trigger] word.skip(1)[i]
            != '\'' && word.skip(1)[i] != '\\' by {
            assert(word[i + 1] != '\'');
        }
        lemma_plain_word(word.skip(1));
        assert(seq![word[0]] + word.skip(1) =~= word);
    } else {
        assert(shell_reads(word, false) =~= word);
    }
}

/// Reading an escaped argument from inside quotes gives the argument, and then
/// goes on with what follows it, still inside quotes.
proof fn lemma_escaped(arg: Seq<char>, rest: Seq<char>)
    ensures
        shell_reads(escape_quotes(arg) + rest, true) == arg + shell_reads(rest, true),
        stays_one_word(escape_quotes(arg) + rest, true) == stays_one_word(rest, true),
    decreases arg.len(),
{
    if arg.len() == 0 {
        assert(escape_quotes(arg) + rest =~= rest);
        assert(arg + shell_reads(rest, true) =~= shell_reads(rest, true));
    } else if arg.last() == '\'' {
        reveal_strlit("'\\''");
        let front = arg.drop_last();
        let tail = "'\\''"@ + rest;
        lemma_escaped(front, tail);
        assert(escape_quotes(arg) + rest =~= escape_quotes(front) + tail);
        assert(tail.skip(1).skip(2).skip(1) =~= rest);
        reveal_with_fuel(shell_reads, 4);
        reveal_with_fuel(stays_one_word, 4);
        assert(shell_reads(tail, true) == seq!['\''] + shell_reads(rest, true));
        assert(front + shell_reads(tail, true) =~= arg + shell_reads(rest, true));
    } else {
        let front = arg.drop_last();
        let tail = seq![arg.last()] + rest;
        lemma_escaped(front, tail);
        assert(escape_quotes(arg) + rest =~= escape_quotes(front) + tail);
        assert(tail.skip(1) =~= rest);
        assert(front + shell_reads(tail, true) =~= arg + shell_reads(rest, true));
    }
}

/// Writes an argument for a shell: as one word, out of which the shell reads
/// the argument back. An empty argument is written as nothing at all, in which
/// a shell sees no word.
pub fn shell_quote(arg: &str) -> (r: String)
    ensures
        r@ == shell_quoted(arg@),
        shell_reads(r@, false) == arg@,
        arg@.len() > 0 ==> is_shell_word(r@, false),
        arg@.len() == 0 ==> r@.len() == 0,
{
    let chars = text::chars_of(arg);
    let mut plain = true;
    let mut escaped = String::new();
    let mut i: usize = 0;
    while i < chars.len()
        invariant
            chars@ == arg@,
            i <= chars@.len(),
            plain == (forall|j: int| 0 <= j < i ==> is_plain(#[trigger] arg@[j])),
            plain ==> forall|j: int|
                0 <= j < i ==> #[trigger] arg@[j] != '\'' && arg@[j] != '\\',
            escaped@ == escape_quotes(arg@.take(i as int)),
        decreases chars@.len() - i,
    {
        assert(arg@.take(i + 1).drop_last() =~= arg@.take(i as int));
        assert(arg@.take(i + 1).last() == arg@[i as int]);
        if !plain_char(chars[i]) {
            assert(!is_plain(arg@[i as int]));
            plain = false;
        }
        if chars[i] == '\'' {
            escaped.append("'\\''");
        } else {
            escaped.push(chars[i]);
        }
        i += 1;
    }
    assert(arg@.take(i as int) =~= arg@);
    if plain {
        proof {
            lemma_plain_word(arg@);
        }
        arg.to_string()
    } else {
        proof {
            reveal_strlit("'");
            reveal_with_fuel(shell_reads, 2);
            reveal_with_fuel(stays_one_word, 2);
            lemma_escaped(arg@, "'"@);
            assert(shell_quoted(arg@).skip(1) =~= escape_quotes(arg@) + "'"@);
            assert("'"@.skip(1) =~= Seq::empty());
            assert(arg@ + shell_reads("'"@, true) =~= arg@);
        }
        text::join3("'", escaped.as_str(), "'")
    }
}

/// Build an [`Overrides`] from the global flags.
pub fn overrides_from(
    backend: Option<String>,
    image: Option<String>,
    gfx_override: Option<String>,
    gpu: Option<String>,
    no_home: bool,
    read_only_home: bool,
) -> (r: Overrides)
    ensures
        r.deep_view() == (OverridesView {
            backend: backend.deep_view(),
            image: image.deep_view(),
            gfx_override: gfx_override.deep_view(),
            gpu: gpu.deep_view(),
            name: None,
            ephemeral: false,
            no_home,
            read_only_home,
        }),
{
    Overrides {
        backend,
        image,
        gfx_override,
        gpu,
        name: None,
        ephemeral: false,
        no_home,
        read_only_home,
    }
}

/// Why nothing can be removed.
#[derive(Debug, PartialEq, Eq)]
pub enum RmError {
    /// A `--backend` that names no engine.
    UnknownBackend { name: String },
    /// A backend that has no containers to remove.
    Unsupported,
}

/// What an [`RmError`] stands for.
#[verifier::ext_equal]
pub enum RmErrorView {
    UnknownBackend { name: Seq<char> },
    Unsupported,
}

impl DeepView for RmError {
    type V = RmErrorView;

    open spec fn deep_view(&self) -> RmErrorView {
        match self {
            RmError::UnknownBackend { name } => RmErrorView::UnknownBackend { name: name@ },
            RmError::Unsupported => RmErrorView::Unsupported,
        }
    }
}

/// What the user is told when nothing can be removed.
pub open spec fn rm_message(e: RmErrorView) -> Seq<char> {
    match e {
        RmErrorView::UnknownBackend { name } => launch::unknown_backend_message(name),
        RmErrorView::Unsupported =>
            "`gpubox rm` is only supported with the docker/podman backends"@,
    }
}

impl RmError {
    /// The error as it is shown to people.
    pub fn message(&self) -> (r: String)
        ensures
            r@ == rm_message(self.deep_view()),
    {
        match self {
            RmError::UnknownBackend { name } => {
                text::join3("unrecognized --backend `", name.as_str(), "`")
            },
            RmError::Unsupported => {
                "`gpubox rm` is only supported with the docker/podman backends".to_string()
            },
        }
    }
}

/// What `gpubox rm` comes down to.
#[derive(Debug, PartialEq, Eq)]
pub enum RmAction {
    /// Print this line, and be done.
    Print(String),
    /// Execute this, and see [`removed_line`].
    Remove { engine: ContainerEngine, name: String, invocation: Invocation },
}

/// What an [`RmAction`] stands for.
#[verifier::ext_equal]
pub enum RmActionView {
    Print(Seq<char>),
    Remove { engine: ContainerEngine, name: Seq<char>, invocation: InvocationView },
}

impl DeepView for RmAction {
    type V = RmActionView;

    open spec fn deep_view(&self) -> RmActionView {
        match self {
            RmAction::Print(line) => RmActionView::Print(line@),
            RmAction::Remove { engine, name, invocation } => RmActionView::Remove {
                engine: *engine,
                name: name@,
                invocation: invocation.deep_view(),
            },
        }
    }
}

/// The engine of `gpubox rm`, or why there is none.
pub open spec fn rm_engine(backend: Option<Seq<char>>, platform: Platform, tools: Tools) -> Result<
    ContainerEngine,
    RmErrorView,
> {
    let engine = match backend {
        Some(name) => backend::engine_named(name),
        None => Some(backend::platform_default(platform, tools)),
    };
    match engine {
        Some(engine) => match backend::container_engine(engine) {
            Some(engine) => Ok(engine),
            None => Err(RmErrorView::Unsupported),
        },
        None => Err(RmErrorView::UnknownBackend { name: backend.unwrap() }),
    }
}

/// What `gpubox rm` comes down to, or why it cannot.
pub open spec fn rm_decision(
    backend: Option<Seq<char>>,
    dry_run: bool,
    name: Option<Seq<char>>,
    platform: Platform,
    tools: Tools,
) -> Result<RmActionView, RmErrorView> {
    match rm_engine(backend, platform, tools) {
        Err(e) => Err(e),
        Ok(engine) => {
            let name = container::container_for(name);
            if dry_run {
                Ok(RmActionView::Print(linux::engine_program(engine) + " rm -f "@ + name))
            } else {
                Ok(
                    RmActionView::Remove {
                        engine,
                        name,
                        invocation: container::removal(engine, name),
                    },
                )
            }
        },
    }
}

/// Decides what `gpubox rm [name]` does. Unlike `run`, it never needs a
/// hardware probe: the default container name is not derived from the
/// resolved stack, so picking the engine only ever needs `--backend`/the
/// platform default.
pub fn rm_cmd(
    backend: &Option<String>,
    dry_run: bool,
    name: &Option<String>,
    platform: Platform,
    tools: &Tools,
) -> (r: Result<RmAction, RmError>)
    ensures
        match r {
            Ok(action) => rm_decision(
                backend.deep_view(),
                dry_run,
                name.deep_view(),
                platform,
                *tools,
            ) == Ok::<RmActionView, RmErrorView>(action.deep_view()),
            Err(e) => rm_decision(
                backend.deep_view(),
                dry_run,
                name.deep_view(),
                platform,
                *tools,
            ) == Err::<RmActionView, RmErrorView>(e.deep_view()),
        },
{
    let engine = match backend {
        Some(name) => match Engine::parse(name.as_str()) {
            Some(engine) => engine,
            None => return Err(RmError::UnknownBackend { name: name.clone() }),
        },
        None => Engine::default_for_platform(platform, tools),
    };
    let engine = match engine.as_container_engine() {
        Some(engine) => engine,
        None => return Err(RmError::Unsupported),
    };
    let name = container::full_name(name);
    if dry_run {
        return Ok(RmAction::Print(text::join3(engine.program(), " rm -f ", name.as_str())));
    }
    let invocation = container::remove_invocation(engine, name.as_str());
    Ok(RmAction::Remove { engine, name, invocation })
}

/// What is printed after a removal, or why it failed.
pub open spec fn removal_report(
    engine: ContainerEngine,
    name: Seq<char>,
    outcome: Outcome,
) -> Result<Seq<char>, RemoveErrorView> {
    match container::removed(engine, name, outcome) {
        Ok(_) => Ok("removed "@ + name),
        Err(e) => Err(e),
    }
}

/// What is printed after a removal, or why it failed.
pub fn removed_line(engine: ContainerEngine, name: &str, outcome: Outcome) -> (r: Result<
    String,
    RemoveError,
>)
    ensures
        match r {
            Ok(line) => removal_report(engine, name@, outcome) == Ok::<Seq<char>, RemoveErrorView>(
                line@,
            ),
            Err(e) => removal_report(engine, name@, outcome) == Err::<Seq<char>, RemoveErrorView>(
                e.deep_view(),
            ),
        },
{
    match container::remove(engine, name, outcome) {
        Ok(_) => Ok(text::join2("removed ", name)),
        Err(e) => Err(e),
    }
}

/// What `gpubox run` reattaches to is what `gpubox rm` removes: the same name
/// stands for the same container in both, whatever the stack is.
pub proof fn law_rm_removes_what_run_uses(
    backend: Option<Seq<char>>,
    name: Option<Seq<char>>,
    platform: Platform,
    tools: Tools,
)
    ensures
        rm_decision(backend, false, name, platform, tools) matches Ok(action) ==> (action matches
            RmActionView::Remove { engine, name: removed, invocation } && removed
            == container::container_for(name) && invocation == container::removal(engine, removed)),
{
}

/// Why no file could be generated.
#[derive(Debug, PartialEq, Eq)]
pub enum GenerateError {
    /// No launch could be planned.
    Plan(PlanError),
    /// A `--format` that names no format.
    UnknownFormat { name: String },
    /// A format that does not fit the stack.
    NoImage(NoImage),
}

/// What a [`GenerateError`] stands for.
#[verifier::ext_equal]
pub enum GenerateErrorView {
    Plan(PlanErrorView),
    UnknownFormat { name: Seq<char> },
    NoImage(NoImageView),
}

impl DeepView for GenerateError {
    type V = GenerateErrorView;

    open spec fn deep_view(&self) -> GenerateErrorView {
        match self {
            GenerateError::Plan(e) => GenerateErrorView::Plan(e.deep_view()),
            GenerateError::UnknownFormat { name } => GenerateErrorView::UnknownFormat {
                name: name@,
            },
            GenerateError::NoImage(e) => GenerateErrorView::NoImage(e.deep_view()),
        }
    }
}

/// What the user is told when no file could be generated.
pub open spec fn generate_message(e: GenerateErrorView) -> Seq<char> {
    match e {
        GenerateErrorView::Plan(e) => launch::plan_message(e),
        GenerateErrorView::UnknownFormat { name } => "unrecognized --format `"@ + name + "`"@,
        GenerateErrorView::NoImage(e) => generate::no_image_message(e),
    }
}

impl GenerateError {
    /// The error as it is shown to people.
    pub fn message(&self) -> (r: String)
        ensures
            r@ == generate_message(self.deep_view()),
    {
        match self {
            GenerateError::Plan(e) => e.message(),
            GenerateError::UnknownFormat { name } => {
                text::join3("unrecognized --format `", name.as_str(), "`")
            },
            GenerateError::NoImage(e) => e.message(),
        }
    }
}

/// The format that is asked for, or else the platform's.
pub open spec fn chosen_format(format: Option<Seq<char>>, platform: Platform) -> Option<Format> {
    match format {
        Some(name) => generate::format_named(name),
        None => Some(generate::platform_format(platform)),
    }
}

/// The generated file, or why there is none.
pub open spec fn generated(
    ids: PciIdsView,
    quirks: QuirksDbView,
    host: HostView,
    overrides: OverridesView,
    format: Option<Seq<char>>,
) -> Result<Seq<char>, GenerateErrorView> {
    match launch::launch_plan(ids, quirks, host, overrides, Seq::empty(), true) {
        Err(e) => Err(GenerateErrorView::Plan(e)),
        Ok(plan) => match chosen_format(format, host.platform) {
            None => Err(GenerateErrorView::UnknownFormat { name: format.unwrap() }),
            Some(format) => if generate::needs_image(format) && plan.resolved.image == "none"@ {
                Err(
                    GenerateErrorView::NoImage(
                        NoImageView { format, stack: plan.resolved.stack },
                    ),
                )
            } else {
                Ok(generate::rendering(format, plan.resolved, plan.spec))
            },
        },
    }
}

/// Plans a launch on the host and renders it.
pub fn generate_cmd(
    ids: &PciIds,
    quirks: &QuirksDb,
    host: &Host,
    overrides: &Overrides,
    format: &Option<String>,
) -> (r: Result<String, GenerateError>)
    ensures
        match r {
            Ok(content) => generated(
                ids.deep_view(),
                quirks.deep_view(),
                host.deep_view(),
                overrides.deep_view(),
                format.deep_view(),
            ) == Ok::<Seq<char>, GenerateErrorView>(content@),
            Err(e) => generated(
                ids.deep_view(),
                quirks.deep_view(),
                host.deep_view(),
                overrides.deep_view(),
                format.deep_view(),
            ) == Err::<Seq<char>, GenerateErrorView>(e.deep_view()),
        },
{
    let plan = match launch::plan(ids, quirks, host, overrides, text::no_strings(), true) {
        Ok(plan) => plan,
        Err(e) => return Err(GenerateError::Plan(e)),
    };
    let chosen = match format {
        Some(name) => match Format::parse(name.as_str()) {
            Some(format) => format,
            None => return Err(GenerateError::UnknownFormat { name: name.clone() }),
        },
        None => Format::default_for_platform(host.platform),
    };
    match generate::validate_format_for_stack(chosen, &plan.resolved) {
        Ok(_) => Ok(generate::render(chosen, &plan.resolved, &plan.spec)),
        Err(e) => Err(GenerateError::NoImage(e)),
    }
}

/// Which engine `rm` uses: the one that `--backend` names, or else the default
/// of the platform; it has to be Docker or Podman.
pub proof fn law_rm_uses_container_engines(
    backend: Option<Seq<char>>,
    platform: Platform,
    tools: Tools,
    name: Seq<char>,
)
    ensures
        backend == Some(name) && backend::engine_named(name) == Some(Engine::Docker) ==> rm_engine(
            backend,
            platform,
            tools,
        ) == Ok::<ContainerEngine, RmErrorView>(ContainerEngine::Docker),
        backend == Some(name) && backend::engine_named(name) == Some(Engine::Podman) ==> rm_engine(
            backend,
            platform,
            tools,
        ) == Ok::<ContainerEngine, RmErrorView>(ContainerEngine::Podman),
        backend == Some(name) && backend::engine_named(name) is None ==> rm_engine(
            backend,
            platform,
            tools,
        ) == Err::<ContainerEngine, RmErrorView>(RmErrorView::UnknownBackend { name }),
        (backend matches Some(asked) && backend::engine_named(asked) matches Some(engine) && engine
            != Engine::Docker && engine != Engine::Podman) ==> rm_engine(backend, platform, tools)
            == Err::<ContainerEngine, RmErrorView>(RmErrorView::Unsupported),
        rm_engine(None, Platform::Linux, tools) == Ok::<ContainerEngine, RmErrorView>(
            if tools.podman && !tools.docker {
                ContainerEngine::Podman
            } else {
                ContainerEngine::Docker
            },
        ),
        rm_engine(None, Platform::MacOs, tools) is Err,
        rm_engine(None, Platform::Windows, tools) is Err,
{
}

/// `rm` without a name removes `gpubox`, and with one the container of that
/// name; a dry run prints the command that would remove it instead.
pub proof fn law_rm_removes_the_named_container(
    backend: Option<Seq<char>>,
    name: Option<Seq<char>>,
    platform: Platform,
    tools: Tools,
)
    ensures
        rm_engine(backend, platform, tools) matches Ok(engine) ==> {
            let container = match name {
                Some(name) => "gpubox-"@ + name,
                None => "gpubox"@,
            };
            let program = if engine == ContainerEngine::Docker {
                "docker"@
            } else {
                "podman"@
            };
            &&& rm_decision(backend, true, name, platform, tools) matches Ok(RmActionView::Print(
                line,
            )) && line == program + " rm -f "@ + container
            &&& rm_decision(backend, false, name, platform, tools) matches Ok(
                RmActionView::Remove { engine: with, name: removed, invocation },
            ) && with == engine && removed == container && invocation.program == program
                && invocation.args == seq!["rm"@, "-f"@, container]
        },
        rm_engine(backend, platform, tools) matches Err(e) ==> forall|dry_run: bool| #[trigger]
            rm_decision(backend, dry_run, name, platform, tools) == Err::<
                RmActionView,
                RmErrorView,
            >(e),
{
}

/// What is said about a removal: that the container is removed if the engine
/// did it, and the error if not.
pub proof fn law_removals_are_reported(engine: ContainerEngine, name: Seq<char>, outcome: Outcome)
    ensures
        outcome == (Outcome::Exited { code: Some(0i32) }) ==> removal_report(engine, name, outcome)
            == Ok::<Seq<char>, RemoveErrorView>("removed "@ + name),
        outcome != (Outcome::Exited { code: Some(0i32) }) ==> removal_report(engine, name, outcome)
            is Err,
{
}

/// What `generate` gives: the plan's error if there is no plan; an error for a
/// format that does not exist, or that needs an image where the stack has none;
/// and else the rendering of the plan, in the format asked for or that of the
/// platform.
pub proof fn law_generate_renders_the_plan(
    ids: PciIdsView,
    quirks: QuirksDbView,
    host: HostView,
    overrides: OverridesView,
    format: Option<Seq<char>>,
)
    ensures
        match launch::launch_plan(ids, quirks, host, overrides, Seq::empty(), true) {
            Err(e) => generated(ids, quirks, host, overrides, format) == Err::<
                Seq<char>,
                GenerateErrorView,
            >(GenerateErrorView::Plan(e)),
            Ok(plan) => {
                let chosen = match format {
                    Some(name) => generate::format_named(name),
                    None => Some(generate::platform_format(host.platform)),
                };
                &&& chosen is None ==> generated(ids, quirks, host, overrides, format) == Err::<
                    Seq<char>,
                    GenerateErrorView,
                >(GenerateErrorView::UnknownFormat { name: format->0 })
                &&& chosen matches Some(found) ==> {
                    let unfit = plan.resolved.image == "none"@ && found != Format::Seatbelt && found
                        != Format::WindowsSandbox;
                    &&& !unfit ==> generated(ids, quirks, host, overrides, format) == Ok::<
                        Seq<char>,
                        GenerateErrorView,
                    >(generate::rendering(found, plan.resolved, plan.spec))
                    &&& unfit ==> generated(ids, quirks, host, overrides, format) == Err::<
                        Seq<char>,
                        GenerateErrorView,
                    >(
                        GenerateErrorView::NoImage(
                            NoImageView { format: found, stack: plan.resolved.stack },
                        ),
                    )
                }
            },
        },
{
}

/// A word of letters, digits and the characters `-_./:=@` is written for a
/// shell as it is; and a word with a space, a quote, a dollar sign or any other
/// character of ASCII is put in quotes.
pub proof fn law_only_odd_words_are_quoted(arg: Seq<char>, i: int)
    ensures
        (forall|k: int| 0 <= k < arg.len() ==> is_plain(#[trigger] arg[k])) ==> shell_quoted(arg)
            == arg,
        0 <= i < arg.len() && !is_plain(arg[i]) ==> shell_quoted(arg).len() >= arg.len() + 2
            && shell_quoted(arg)[0] == '\'' && shell_quoted(arg).last() == '\'',
        is_plain('-') && is_plain('_') && is_plain('.') && is_plain('/') && is_plain(':')
            && is_plain('=') && is_plain('@'),
{
    reveal_strlit("-_./:=@");
    reveal_strlit("'");
    let marks = "-_./:=@"@;
    assert(marks[0] == '-' && marks[1] == '_' && marks[2] == '.' && marks[3] == '/' && marks[4]
        == ':' && marks[5] == '=' && marks[6] == '@');
    lemma_escaping_adds(arg);
}

proof fn lemma_escaping_adds(arg: Seq<char>)
    ensures
        escape_quotes(arg).len() >= arg.len(),
    decreases arg.len(),
{
    reveal_strlit("'\\''");
    if arg.len() > 0 {
        lemma_escaping_adds(arg.drop_last());
    }
}

/// The characters that need no quotes: those that are alphanumeric, and
/// `-_./:=@`; no others.
pub proof fn law_plain_characters(c: char)
    ensures
        is_plain(c) <==> alphanumeric(c) || c == '-' || c == '_' || c == '.' || c == '/' || c == ':'
            || c == '=' || c == '@',
{
    reveal_strlit("-_./:=@");
    let marks = "-_./:=@"@;
    assert(marks[0] == '-' && marks[1] == '_' && marks[2] == '.' && marks[3] == '/' && marks[4]
        == ':' && marks[5] == '=' && marks[6] == '@');
    if marks.contains(c) {
        let i = marks.index_of(c);
        assert(0 <= i < 7);
    }
}

/// What the user is told when nothing can be removed or generated.
pub proof fn law_cli_messages(name: Seq<char>, e: PlanErrorView, n: NoImageView)
    ensures
        rm_message(RmErrorView::UnknownBackend { name }) == "unrecognized --backend `"@ + name
            + "`"@,
        rm_message(RmErrorView::Unsupported)
            == "`gpubox rm` is only supported with the docker/podman backends"@,
        generate_message(GenerateErrorView::UnknownFormat { name }) == "unrecognized --format `"@
            + name + "`"@,
        generate_message(GenerateErrorView::Plan(e)) == launch::plan_message(e),
        generate_message(GenerateErrorView::NoImage(n)) == "--format "@ + generate::format_name(
            n.format,
        ) + " needs a container image, but stack `"@ + n.stack + "` has none"@,
{
}

} // verus!
