//! How paths are put together on the host's platform.

use vstd::prelude::*;
use crate::backend::Platform;
use crate::text;

verus! {

/// Whether a character separates the components of a Windows path.
pub open spec fn is_separator(c: char) -> bool {
    c == '\\' || c == '/'
}

/// Whether a character ends a component: in a verbatim path only a backslash
/// does.
pub open spec fn ends_component(c: char, verbatim: bool) -> bool {
    c == '\\' || (c == '/' && !verbatim)
}

/// Whether a Windows path has a drive, as in `C:`, at `from`.
pub open spec fn has_drive(path: Seq<char>, from: int) -> bool {
    path.len() >= from + 2 && ('a' <= path[from] <= 'z' || 'A' <= path[from] <= 'Z') && path[from
        + 1] == ':'
}

/// Whether a Windows path is verbatim: it starts with `\\?\`.
pub open spec fn is_verbatim(path: Seq<char>) -> bool {
    path.len() >= 4 && path[0] == '\\' && path[1] == '\\' && path[2] == '?' && path[3] == '\\'
}

/// Where the component of a Windows path that starts at `from` ends.
pub open spec fn component_end(path: Seq<char>, from: nat, verbatim: bool) -> nat
    decreases path.len() - from,
{
    if from >= path.len() || ends_component(path[from as int], verbatim) {
        from
    } else {
        component_end(path, from + 1, verbatim)
    }
}

/// Where the two components of a Windows path that start at `from` end, a
/// server and a share: where the first of them does if the other is empty.
pub open spec fn share_end(path: Seq<char>, from: nat, verbatim: bool) -> nat {
    let server = component_end(path, from, verbatim);
    let share = component_end(path, server + 1, verbatim);
    if server + 1 < share {
        share
    } else {
        server
    }
}

/// The length of what a verbatim path says about where its root is:
/// `\\?\UNC\server\share`, `\\?\C:`, or `\\?\` and any other name.
pub open spec fn verbatim_prefix_len(path: Seq<char>) -> nat {
    if path.len() >= 8 && path[4] == 'U' && path[5] == 'N' && path[6] == 'C' && is_separator(
        path[7],
    ) {
        share_end(path, 8, true)
    } else if has_drive(path, 4) && (path.len() == 6 || is_separator(path[6])) {
        6
    } else {
        component_end(path, 4, true)
    }
}

/// The length of what a Windows path says about where its root is: a drive
/// (`C:`), a server and a share (`\\server\share`), a device (`\\.\COM1`), or
/// the prefix of a verbatim path. 0 if it says nothing.
pub open spec fn prefix_len(path: Seq<char>) -> nat {
    if has_drive(path, 0) {
        2
    } else if is_verbatim(path) {
        verbatim_prefix_len(path)
    } else if path.len() >= 2 && is_separator(path[0]) && is_separator(path[1]) {
        if path.len() >= 4 && path[2] == '.' && is_separator(path[3]) {
            component_end(path, 4, false)
        } else {
            let server = component_end(path, 2, false);
            if server > 2 && share_end(path, 2, false) > server {
                share_end(path, 2, false)
            } else {
                0
            }
        }
    } else {
        0
    }
}

proof fn component_end_bounds(path: Seq<char>, from: nat, verbatim: bool)
    ensures
        from <= component_end(path, from, verbatim),
        from <= path.len() ==> component_end(path, from, verbatim) <= path.len(),
    decreases path.len() - from,
{
    if from < path.len() && !ends_component(path[from as int], verbatim) {
        component_end_bounds(path, from + 1, verbatim);
    }
}

/// The components of a Windows path from `from` on; empty ones are none.
pub open spec fn components(path: Seq<char>, from: nat, verbatim: bool) -> Seq<Seq<char>>
    decreases path.len() + 1 - from,
    via components_decrease
{
    if from >= path.len() {
        Seq::empty()
    } else {
        let end = component_end(path, from, verbatim);
        let rest = components(path, end + 1, verbatim);
        if end > from {
            seq![path.subrange(from as int, end as int)] + rest
        } else {
            rest
        }
    }
}

#[via_fn]
proof fn components_decrease(path: Seq<char>, from: nat, verbatim: bool) {
    component_end_bounds(path, from, verbatim);
}

/// Where one component leads: `.` stays, `..` goes up unless there is no name
/// to leave, and a name goes down.
pub open spec fn stepped(names: Seq<Seq<char>>, component: Seq<char>) -> Seq<Seq<char>> {
    if component == "."@ {
        names
    } else if component == ".."@ {
        if names.len() > 0 && names.last() != "."@ && names.last() != ".."@ {
            names.drop_last()
        } else {
            names
        }
    } else {
        names.push(component)
    }
}

/// Where components lead one after the other.
pub open spec fn walked(names: Seq<Seq<char>>, components: Seq<Seq<char>>) -> Seq<Seq<char>>
    decreases components.len(),
{
    if components.len() == 0 {
        names
    } else {
        stepped(walked(names, components.drop_last()), components.last())
    }
}

/// `child` as seen from the verbatim directory `base`. Nothing resolves `.`
/// and `..` in a verbatim path later on, so they are resolved here.
pub open spec fn verbatim_join(base: Seq<char>, child: Seq<char>) -> Seq<char> {
    let prefix = prefix_len(base);
    let from_root = child.len() > 0 && is_separator(child[0]);
    let above = if from_root {
        Seq::empty()
    } else {
        components(base, prefix + 1, true)
    };
    let names = walked(above, components(child, 0, false));
    base.take(prefix as int) + (if from_root || base.len() > prefix || names.len() > 0 {
        "\\"@
    } else {
        Seq::empty()
    }) + text::joined(names, "\\"@)
}

/// `child` as seen from the directory `base` on POSIX systems: an absolute
/// path is its own place, any other goes below `base`.
pub open spec fn posix_join(base: Seq<char>, child: Seq<char>) -> Seq<char> {
    if child.len() > 0 && child[0] == '/' {
        child
    } else if base.len() == 0 || base.last() == '/' {
        base + child
    } else {
        base + "/"@ + child
    }
}

/// `child` as seen from the directory `base` on Windows: a path with a prefix
/// is its own place, one that starts at the root stays below the prefix of
/// `base`, and any other goes below `base`. What is joined to a bare drive is
/// relative to that drive's current directory. Below a verbatim path `.` and
/// `..` are resolved.
pub open spec fn windows_join(base: Seq<char>, child: Seq<char>) -> Seq<char> {
    if prefix_len(child) > 0 {
        child
    } else if is_verbatim(base) && child.len() > 0 {
        verbatim_join(base, child)
    } else if child.len() > 0 && is_separator(child[0]) {
        base.take(prefix_len(base) as int) + child
    } else if base.len() == 0 || is_separator(base.last()) || (has_drive(base, 0) && base.len()
        == 2) {
        base + child
    } else {
        base + "\\"@ + child
    }
}

/// `child` as seen from the directory `base`.
pub open spec fn path_join(platform: Platform, base: Seq<char>, child: Seq<char>) -> Seq<char> {
    if platform == Platform::Windows {
        windows_join(base, child)
    } else {
        posix_join(base, child)
    }
}

fn separates(c: char) -> (r: bool)
    ensures
        r == is_separator(c),
{
    c == '\\' || c == '/'
}

fn drive_at(path: &Vec<char>, from: usize) -> (r: bool)
    requires
        from <= 4,
    ensures
        r == has_drive(path@, from as int),
{
    path.len() >= from + 2 && (('a' <= path[from] && path[from] <= 'z') || ('A' <= path[from]
        && path[from] <= 'Z')) && path[from + 1] == ':'
}

fn starts_verbatim(path: &Vec<char>) -> (r: bool)
    ensures
        r == is_verbatim(path@),
{
    path.len() >= 4 && path[0] == '\\' && path[1] == '\\' && path[2] == '?' && path[3] == '\\'
}

fn end_of_component(path: &Vec<char>, from: usize, verbatim: bool) -> (r: usize)
    requires
        from <= path@.len(),
    ensures
        r == component_end(path@, from as nat, verbatim),
        from <= r <= path@.len(),
{
    let mut i: usize = from;
    while i < path.len() && !(path[i] == '\\' || (path[i] == '/' && !verbatim))
        invariant
            from <= i <= path@.len(),
            component_end(path@, from as nat, verbatim) == component_end(
                path@,
                i as nat,
                verbatim,
            ),
        decreases path@.len() - i,
    {
        i += 1;
    }
    i
}

fn end_of_share(path: &Vec<char>, from: usize, verbatim: bool) -> (r: usize)
    requires
        from <= path@.len(),
    ensures
        r == share_end(path@, from as nat, verbatim),
        from <= r <= path@.len(),
{
    let server: usize = end_of_component(path, from, verbatim);
    if server == path.len() {
        return server;
    }
    let share: usize = end_of_component(path, server + 1, verbatim);
    if server + 1 < share {
        share
    } else {
        server
    }
}

fn length_of_prefix(path: &Vec<char>) -> (r: usize)
    ensures
        r == prefix_len(path@),
        r <= path@.len(),
{
    if drive_at(path, 0) {
        return 2;
    }
    if starts_verbatim(path) {
        if path.len() >= 8 && path[4] == 'U' && path[5] == 'N' && path[6] == 'C' && separates(
            path[7],
        ) {
            return end_of_share(path, 8, true);
        }
        if drive_at(path, 4) && (path.len() == 6 || separates(path[6])) {
            return 6;
        }
        return end_of_component(path, 4, true);
    }
    if path.len() < 2 || !separates(path[0]) || !separates(path[1]) {
        return 0;
    }
    if path.len() >= 4 && path[2] == '.' && separates(path[3]) {
        return end_of_component(path, 4, false);
    }
    let server: usize = end_of_component(path, 2, false);
    let share: usize = end_of_share(path, 2, false);
    if server > 2 && share > server {
        share
    } else {
        0
    }
}

fn split(path: &Vec<char>, from: usize, verbatim: bool) -> (r: Vec<String>)
    requires
        from <= path@.len(),
    ensures
        r.deep_view() == components(path@, from as nat, verbatim),
{
    let ghost all = components(path@, from as nat, verbatim);
    let mut r = text::no_strings();
    let mut i: usize = from;
    assert(r.deep_view() + components(path@, i as nat, verbatim) =~= all);
    while i < path.len()
        invariant
            i <= path@.len(),
            all == components(path@, from as nat, verbatim),
            r.deep_view() + components(path@, i as nat, verbatim) == all,
        decreases path@.len() - i,
    {
        let ghost before = r.deep_view();
        let end: usize = end_of_component(path, i, verbatim);
        let ghost rest = components(path@, end as nat + 1, verbatim);
        if end > i {
            text::push_string(&mut r, text::string_of(path, i, end));
            let ghost name = path@.subrange(i as int, end as int);
            assert(before + (seq![name] + rest) =~= before.push(name) + rest);
        }
        if end == path.len() {
            assert(rest =~= Seq::empty());
            assert(r.deep_view() + rest =~= r.deep_view());
            return r;
        }
        i = end + 1;
    }
    assert(r.deep_view() + components(path@, i as nat, verbatim) =~= r.deep_view());
    r
}

fn walk(names: Vec<String>, components: &Vec<String>) -> (r: Vec<String>)
    ensures
        r.deep_view() == walked(names.deep_view(), components.deep_view()),
{
    let ghost start = names.deep_view();
    let ghost view = components.deep_view();
    let mut r = names;
    let mut i: usize = 0;
    assert(view.take(0) =~= Seq::empty());
    while i < components.len()
        invariant
            view == components.deep_view(),
            i <= components@.len(),
            r.deep_view() == walked(start, view.take(i as int)),
        decreases components@.len() - i,
    {
        assert(view.take(i + 1).drop_last() =~= view.take(i as int));
        assert(view.take(i + 1).last() == components@[i as int]@);
        let ghost before = r.deep_view();
        let component = components[i].as_str();
        if text::same(component, "..") {
            assert(before.len() == r@.len());
            if r.len() > 0 {
                let last = r[r.len() - 1].as_str();
                assert(before.last() == last@);
                if !text::same(last, ".") && !text::same(last, "..") {
                    let left = r.pop();
                    assert(r.deep_view() =~= before.drop_last());
                }
            }
        } else if !text::same(component, ".") {
            text::push_str(&mut r, component);
        }
        proof {
            reveal_strlit(".");
            reveal_strlit("..");
            assert("."@.len() != ".."@.len());
        }
        assert(r.deep_view() =~= stepped(before, component@));
        i += 1;
    }
    assert(view.take(i as int) =~= view);
    r
}

fn join_verbatim(base: &str, child: &str) -> (r: String)
    ensures
        r@ == verbatim_join(base@, child@),
{
    let upper = text::chars_of(base);
    let lower = text::chars_of(child);
    let prefix: usize = length_of_prefix(&upper);
    let from_root = lower.len() > 0 && separates(lower[0]);
    let above = if from_root || upper.len() == prefix {
        text::no_strings()
    } else {
        split(&upper, prefix + 1, true)
    };
    let names = walk(above, &split(&lower, 0, false));
    let mut r = text::string_of(&upper, 0, prefix);
    assert(r@ =~= base@.take(prefix as int));
    let ghost start = r@;
    let ghost found = names.deep_view();
    assert(found.len() == names@.len());
    if from_root || upper.len() > prefix || names.len() > 0 {
        r.append("\\");
    }
    assert(r@ =~= start + (if from_root || base@.len() > prefix || found.len() > 0 {
        "\\"@
    } else {
        Seq::empty()
    }));
    r.append(text::join(&names, "\\").as_str());
    r
}

fn join_windows(base: &str, child: &str) -> (r: String)
    ensures
        r@ == windows_join(base@, child@),
{
    let above = text::chars_of(base);
    let below = text::chars_of(child);
    if length_of_prefix(&below) > 0 {
        return child.to_string();
    }
    if starts_verbatim(&above) && below.len() > 0 {
        return join_verbatim(base, child);
    }
    if below.len() > 0 && separates(below[0]) {
        let prefix = text::string_of(&above, 0, length_of_prefix(&above));
        assert(prefix@ =~= base@.take(prefix_len(base@) as int));
        return text::join2(prefix.as_str(), child);
    }
    if above.len() == 0 || separates(above[above.len() - 1]) || (drive_at(&above, 0)
        && above.len() == 2) {
        text::join2(base, child)
    } else {
        text::join3(base, "\\", child)
    }
}

/// Joins two paths by the rule of the platform.
pub fn join_paths(platform: Platform, base: &str, child: &str) -> (r: String)
    ensures
        r@ == path_join(platform, base@, child@),
{
    if platform == Platform::Windows {
        return join_windows(base, child);
    }
    let above = text::chars_of(base);
    let below = text::chars_of(child);
    if below.len() > 0 && below[0] == '/' {
        child.to_string()
    } else if above.len() == 0 || above[above.len() - 1] == '/' {
        text::join2(base, child)
    } else {
        text::join3(base, "/", child)
    }
}

/// How paths are joined everywhere but on Windows: an absolute path stands for
/// itself, and a relative one goes under the base, with one slash between them.
pub proof fn law_posix_paths_are_joined(
    platform: Platform,
    base: Seq<char>,
    child: Seq<char>,
)
    requires
        platform != Platform::Windows,
    ensures
        path_join(platform, base, "/"@ + child) == "/"@ + child,
        child.len() == 0 || child[0] != '/' ==> path_join(platform, base + "/"@, child) == base
            + "/"@ + child,
        (child.len() == 0 || child[0] != '/') && base.len() > 0 && base.last() != '/'
            ==> path_join(platform, base, child) == base + "/"@ + child,
        (child.len() == 0 || child[0] != '/') ==> path_join(platform, Seq::empty(), child) == child,
{
    reveal_strlit("/");
    assert(("/"@ + child)[0] == '/');
    assert((base + "/"@).last() == '/');
    assert(Seq::<char>::empty() + child =~= child);
}

/// How paths are joined on Windows, where the base is on a drive: a path with a
/// drive of its own stands for itself; one from the root stays on the base's
/// drive; and any other goes under the base, with a backslash between them
/// unless the base ends in a separator or is the bare drive.
pub proof fn law_windows_paths_are_joined(base: Seq<char>, child: Seq<char>)
    requires
        base.len() >= 2,
        'a' <= base[0] <= 'z' || 'A' <= base[0] <= 'Z',
        base[1] == ':',
    ensures
        child.len() >= 2 && ('a' <= child[0] <= 'z' || 'A' <= child[0] <= 'Z') && child[1] == ':'
            ==> path_join(Platform::Windows, base, child) == child,
        child.len() >= 1 && (child[0] == '\\' || child[0] == '/') && (child.len() == 1 || (child[1]
            != '\\' && child[1] != '/' && child[1] != ':')) ==> path_join(
            Platform::Windows,
            base,
            child,
        ) == base.take(2) + child,
        child.len() >= 2 && child[0] != '\\' && child[0] != '/' && child[1] != ':' && base.len() > 2
            && base.last() != '\\' && base.last() != '/' ==> path_join(
            Platform::Windows,
            base,
            child,
        ) == base + "\\"@ + child,
        child.len() >= 2 && child[0] != '\\' && child[0] != '/' && child[1] != ':' && (base.len()
            == 2 || base.last() == '\\' || base.last() == '/') ==> path_join(
            Platform::Windows,
            base,
            child,
        ) == base + child,
{
}

/// Below a base that is taken literally, a path is walked component by
/// component: `.` stays, `..` leaves the last component if there is one, and
/// any other name is entered.
pub proof fn law_components_are_walked(
    names: Seq<Seq<char>>,
    components: Seq<Seq<char>>,
    name: Seq<char>,
)
    ensures
        walked(names, Seq::empty()) == names,
        walked(names, components.push("."@)) == walked(names, components),
        name != "."@ && name != ".."@ ==> walked(names, components.push(name)) == walked(
            names,
            components,
        ).push(name),
        name != "."@ && name != ".."@ ==> walked(names, components.push(name).push(".."@))
            == walked(names, components),
        walked(Seq::empty(), seq![".."@]) == Seq::<Seq<char>>::empty(),
{
    reveal_strlit(".");
    reveal_strlit("..");
    assert("."@.len() == 1 && ".."@.len() == 2);
    assert(components.push("."@).drop_last() =~= components);
    assert(components.push(name).drop_last() =~= components);
    assert(components.push(name).push(".."@).drop_last() =~= components.push(name));
    let before = walked(names, components);
    assert(before.push(name).drop_last() =~= before);
    reveal_with_fuel(walked, 2);
    assert(seq![".."@].drop_last() =~= Seq::<Seq<char>>::empty());
}

} // verus!
