//! Strings as sequences of characters: the handful of text operations that
//! the launcher is built from, each stated over `Seq<char>`.

use vstd::prelude::*;

verus! {

/// `String::push` appends the given character to the end of the string and
/// leaves what was there before it as it was.
pub assume_specification[ String::push ](s: &mut String, c: char)
    ensures
        final(s)@ == old(s)@.push(c),
;

/// The characters of `s`, one by one.
pub fn chars_of(s: &str) -> (chars: Vec<char>)
    ensures
        chars@ == s@,
{
    let mut chars: Vec<char> = Vec::new();
    for c in it: s.chars()
        invariant
            it.seq() == s@,
            chars@ == s@.take(it.index()),
    {
        assert(s@.take(it.index() + 1) =~= s@.take(it.index()).push(c));
        chars.push(c);
    }
    assert(s@.take(s@.len() as int) =~= s@);
    chars
}

/// The string made of the characters `chars[from..to]`.
pub fn string_of(chars: &Vec<char>, from: usize, to: usize) -> (s: String)
    requires
        from <= to <= chars@.len(),
    ensures
        s@ == chars@.subrange(from as int, to as int),
{
    let mut s = String::new();
    let mut i: usize = from;
    while i < to
        invariant
            from <= i <= to <= chars@.len(),
            s@ == chars@.subrange(from as int, i as int),
        decreases to - i,
    {
        s.push(chars[i]);
        assert(chars@.subrange(from as int, i + 1) =~= chars@.subrange(from as int, i as int).push(
            chars@[i as int],
        ));
        i += 1;
    }
    s
}

/// Whether two strings hold the same characters.
pub fn same(a: &str, b: &str) -> (r: bool)
    ensures
        r == (a@ == b@),
{
    let left = a.to_string();
    let right = b.to_string();
    left == right
}

/// An empty string.
pub fn empty() -> (s: String)
    ensures
        s@ == Seq::<char>::empty(),
{
    let s = String::new();
    assert(s@ =~= Seq::<char>::empty());
    s
}

/// `a` followed by `b`.
pub fn join2(a: &str, b: &str) -> (s: String)
    ensures
        s@ == a@ + b@,
{
    let mut s = a.to_string();
    s.append(b);
    s
}

/// `a`, `b` and `c`, one after the other.
pub fn join3(a: &str, b: &str, c: &str) -> (s: String)
    ensures
        s@ == a@ + b@ + c@,
{
    let mut s = a.to_string();
    s.append(b);
    s.append(c);
    s
}

/// The ASCII lower-case form of one character; every other character is its
/// own.
pub open spec fn lower_char(c: char) -> char {
    if 'A' <= c <= 'Z' {
        (c as u8 + 32) as char
    } else {
        c
    }
}

/// `s` with its ASCII capitals in lower case.
pub open spec fn lower(s: Seq<char>) -> Seq<char> {
    Seq::new(s.len(), |i: int| lower_char(s[i]))
}

/// Lower-cases one ASCII character.
pub fn ascii_lower_char(c: char) -> (r: char)
    ensures
        r == lower_char(c),
{
    if 'A' <= c && c <= 'Z' {
        (c as u8 + 32) as char
    } else {
        c
    }
}

/// Lower-cases the ASCII letters of `s` and keeps everything else.
pub fn ascii_lowercase(s: &str) -> (r: String)
    ensures
        r@ == lower(s@),
{
    let chars = chars_of(s);
    let mut r = String::new();
    let mut i: usize = 0;
    while i < chars.len()
        invariant
            i <= chars@.len(),
            r@ == lower(chars@).take(i as int),
        decreases chars@.len() - i,
    {
        r.push(ascii_lower_char(chars[i]));
        assert(lower(chars@).take(i + 1) =~= lower(chars@).take(i as int).push(
            lower(chars@)[i as int],
        ));
        i += 1;
    }
    assert(lower(chars@).take(i as int) =~= lower(s@));
    r
}

/// Lower-casing a second time changes nothing.
pub proof fn law_lower_is_idempotent(s: Seq<char>)
    ensures
        lower(lower(s)) == lower(s),
{
    assert(lower(lower(s)) =~= lower(s));
}

/// Whether `needle` stands in `hay` at position `at`.
pub open spec fn occurs_at(hay: Seq<char>, needle: Seq<char>, at: int) -> bool {
    0 <= at && at + needle.len() <= hay.len() && hay.subrange(at, at + needle.len() as int)
        == needle
}

/// Whether `s` begins with `prefix`.
pub open spec fn has_prefix(s: Seq<char>, prefix: Seq<char>) -> bool {
    occurs_at(s, prefix, 0)
}

/// Whether `needle` stands in `hay` at position `at`.
pub fn matches_at(hay: &Vec<char>, needle: &Vec<char>, at: usize) -> (r: bool)
    ensures
        r == occurs_at(hay@, needle@, at as int),
{
    if needle.len() > hay.len() || at > hay.len() - needle.len() {
        return false;
    }
    let mut i: usize = 0;
    while i < needle.len()
        invariant
            at + needle.len() <= hay.len(),
            i <= needle.len(),
            forall|j: int| 0 <= j < i ==> hay@[at + j] == needle@[j],
        decreases needle@.len() - i,
    {
        if hay[at + i] != needle[i] {
            assert(hay@.subrange(at as int, at + needle@.len())[i as int] != needle@[i as int]);
            return false;
        }
        i += 1;
    }
    assert(hay@.subrange(at as int, at + needle@.len()) =~= needle@);
    true
}

/// Whether `s` begins with `prefix`.
pub fn starts_with(s: &str, prefix: &str) -> (r: bool)
    ensures
        r == has_prefix(s@, prefix@),
{
    matches_at(&chars_of(s), &chars_of(prefix), 0)
}

/// Where `needle` stands first in `hay`, if it does.
pub open spec fn position(hay: Seq<char>, needle: Seq<char>) -> Option<nat>
    decreases hay.len(),
{
    if occurs_at(hay, needle, 0) {
        Some(0)
    } else if hay.len() == 0 {
        None
    } else {
        match position(hay.skip(1), needle) {
            Some(k) => Some(k + 1),
            None => None,
        }
    }
}

/// `position` is the least place where the needle stands.
pub proof fn law_position_is_first(hay: Seq<char>, needle: Seq<char>)
    ensures
        position(hay, needle) matches Some(at) ==> occurs_at(hay, needle, at as int),
        position(hay, needle) matches Some(at) ==> forall|k: int|
            0 <= k < at ==> !#[trigger] occurs_at(hay, needle, k),
        position(hay, needle) is None ==> forall|k: int| !#[trigger] occurs_at(hay, needle, k),
    decreases hay.len(),
{
    if !occurs_at(hay, needle, 0) && hay.len() > 0 {
        let rest = hay.skip(1);
        law_position_is_first(rest, needle);
        assert forall|k: int| 0 < k implies #[trigger] occurs_at(hay, needle, k) == occurs_at(
            rest,
            needle,
            k - 1,
        ) by {
            if k + needle.len() <= hay.len() {
                assert(hay.subrange(k, k + needle.len() as int) =~= rest.subrange(
                    k - 1,
                    k - 1 + needle.len() as int,
                ));
            }
        }
    }
}

/// Finds where `needle` stands first in `hay`.
pub fn find(hay: &Vec<char>, needle: &Vec<char>) -> (r: Option<usize>)
    ensures
        match r {
            Some(at) => position(hay@, needle@) == Some(at as nat),
            None => position(hay@, needle@) is None,
        },
{
    proof {
        law_position_is_first(hay@, needle@);
    }
    if needle.len() > hay.len() {
        assert(!occurs_at(hay@, needle@, position(hay@, needle@)->0 as int));
        return None;
    }
    let last: usize = hay.len() - needle.len();
    let mut at: usize = 0;
    loop
        invariant
            at <= last,
            last + needle@.len() == hay@.len(),
            forall|k: int| 0 <= k < at ==> !#[trigger] occurs_at(hay@, needle@, k),
            position(hay@, needle@) matches Some(at) ==> occurs_at(hay@, needle@, at as int),
            position(hay@, needle@) matches Some(at) ==> forall|k: int|
                0 <= k < at ==> !#[trigger] occurs_at(hay@, needle@, k),
            position(hay@, needle@) is None ==> forall|k: int|
                !#[trigger] occurs_at(hay@, needle@, k),
        decreases last - at,
    {
        if matches_at(hay, needle, at) {
            return Some(at);
        }
        if at == last {
            return None;
        }
        at += 1;
    }
}

/// Whether the character `c` is in `s`.
pub fn contains_char(s: &Vec<char>, c: char) -> (r: bool)
    ensures
        r == s@.contains(c),
{
    let mut i: usize = 0;
    while i < s.len()
        invariant
            i <= s@.len(),
            forall|j: int| 0 <= j < i ==> s@[j] != c,
        decreases s@.len() - i,
    {
        if s[i] == c {
            assert(s@[i as int] == c);
            return true;
        }
        i += 1;
    }
    false
}

/// The decimal digit of `d`.
pub open spec fn digit_char(d: nat) -> char {
    (('0' as u8) + d) as char
}

/// The decimal numeral of `n`, without leading zeros.
pub open spec fn decimal(n: nat) -> Seq<char>
    decreases n,
{
    if n < 10 {
        seq![digit_char(n)]
    } else {
        decimal(n / 10).push(digit_char(n % 10))
    }
}

/// Writes `n` in decimal.
pub fn to_decimal(n: u64) -> (s: String)
    ensures
        s@ == decimal(n as nat),
    decreases n,
{
    if n < 10 {
        let mut s = String::new();
        s.push(('0' as u8 + n as u8) as char);
        assert(s@ =~= decimal(n as nat));
        s
    } else {
        let mut s = to_decimal(n / 10);
        s.push(('0' as u8 + (n % 10) as u8) as char);
        s
    }
}

/// The lower-case hexadecimal digit of `d`.
pub open spec fn hex_char(d: nat) -> char {
    if d < 10 {
        (('0' as u8) + d) as char
    } else {
        (('a' as u8) + (d - 10)) as char
    }
}

/// The last `width` lower-case hexadecimal digits of `n`, zeros in front.
pub open spec fn hex(n: nat, width: nat) -> Seq<char>
    decreases width,
{
    if width == 0 {
        Seq::empty()
    } else {
        hex(n / 16, (width - 1) as nat).push(hex_char(n % 16))
    }
}

/// Writes the last `width` hexadecimal digits of `n` in lower case.
pub fn to_hex(n: u64, width: usize) -> (s: String)
    ensures
        s@ == hex(n as nat, width as nat),
    decreases width,
{
    if width == 0 {
        String::new()
    } else {
        let mut s = to_hex(n / 16, width - 1);
        let d: u8 = (n % 16) as u8;
        if d < 10 {
            s.push(('0' as u8 + d) as char);
        } else {
            s.push(('a' as u8 + (d - 10)) as char);
        }
        s
    }
}

/// What the digit `c` stands for in base `radix` (at most 36), letters of
/// either case after `9`.
pub open spec fn digit_value(c: char, radix: nat) -> Option<nat> {
    let d: int = if '0' <= c <= '9' {
        c as int - '0' as int
    } else if 'a' <= c <= 'z' {
        c as int - 'a' as int + 10
    } else if 'A' <= c <= 'Z' {
        c as int - 'A' as int + 10
    } else {
        radix as int
    };
    if d < radix {
        Some(d as nat)
    } else {
        None
    }
}

/// The number that the digits `s` write in base `radix`, most significant
/// digit first; nothing when one of them is no digit.
pub open spec fn numeral(s: Seq<char>, radix: nat) -> Option<nat>
    decreases s.len(),
{
    if s.len() == 0 {
        Some(0)
    } else {
        match (numeral(s.drop_last(), radix), digit_value(s.last(), radix)) {
            (Some(v), Some(d)) => Some(v * radix + d),
            _ => None,
        }
    }
}

/// The digits of a numeral: what follows an optional leading `+`.
pub open spec fn unsigned_digits(s: Seq<char>) -> Seq<char> {
    if s.len() > 0 && s[0] == '+' {
        s.skip(1)
    } else {
        s
    }
}

/// The unsigned number that `s` writes in base `radix`: an optional `+`, then
/// at least one digit and nothing else, and no more than `max`.
pub open spec fn unsigned(s: Seq<char>, radix: nat, max: nat) -> Option<nat> {
    let digits = unsigned_digits(s);
    match numeral(digits, radix) {
        Some(v) if digits.len() > 0 && v <= max => Some(v),
        _ => None,
    }
}

/// A numeral only grows with its digits: where a prefix is no numeral the
/// whole is none, and where it is one the whole is no smaller.
proof fn lemma_numeral_grows(s: Seq<char>, k: int, radix: nat)
    requires
        0 <= k <= s.len(),
        radix >= 1,
    ensures
        numeral(s.take(k), radix) is None ==> numeral(s, radix) is None,
        numeral(s.take(k), radix) matches Some(v) ==> (numeral(s, radix) matches Some(w) ==> v
            <= w),
    decreases s.len() - k,
{
    if k == s.len() {
        assert(s.take(k) =~= s);
    } else {
        lemma_numeral_grows(s, k + 1, radix);
        assert(s.take(k + 1).drop_last() =~= s.take(k));
        if let Some(v) = numeral(s.take(k), radix) {
            assert(v <= v * radix) by (nonlinear_arith)
                requires
                    radix >= 1,
            ;
        }
    }
}

/// Reads one digit in base `radix`.
pub fn read_digit(c: char, radix: u64) -> (r: Option<u64>)
    requires
        radix <= 36,
    ensures
        match r {
            Some(d) => digit_value(c, radix as nat) == Some(d as nat),
            None => digit_value(c, radix as nat) is None,
        },
{
    let d: u64 = if '0' <= c && c <= '9' {
        c as u64 - '0' as u64
    } else if 'a' <= c && c <= 'z' {
        c as u64 - 'a' as u64 + 10
    } else if 'A' <= c && c <= 'Z' {
        c as u64 - 'A' as u64 + 10
    } else {
        radix
    };
    if d < radix {
        Some(d)
    } else {
        None
    }
}

/// Reads an unsigned number in base `radix`, at most `max`.
pub fn parse_unsigned(s: &Vec<char>, radix: u64, max: u64) -> (r: Option<u64>)
    requires
        1 <= radix <= 36,
    ensures
        match r {
            Some(v) => unsigned(s@, radix as nat, max as nat) == Some(v as nat),
            None => unsigned(s@, radix as nat, max as nat) is None,
        },
{
    let start: usize = if s.len() > 0 && s[0] == '+' {
        1
    } else {
        0
    };
    let ghost digits = unsigned_digits(s@);
    assert(digits =~= s@.skip(start as int));
    if start == s.len() {
        return None;
    }
    let mut value: u64 = 0;
    let mut i: usize = start;
    assert(digits.take(0) =~= Seq::empty());
    while i < s.len()
        invariant
            1 <= radix <= 36,
            start <= i <= s@.len(),
            start < s@.len(),
            digits == s@.skip(start as int),
            digits == unsigned_digits(s@),
            value <= max,
            numeral(digits.take(i - start), radix as nat) == Some(value as nat),
        decreases s@.len() - i,
    {
        proof {
            lemma_numeral_grows(digits, i - start + 1, radix as nat);
            assert(digits.take(i - start + 1).drop_last() =~= digits.take(i - start));
            assert(digits.take(i - start + 1).last() == s@[i as int]);
        }
        match read_digit(s[i], radix) {
            None => {
                return None;
            },
            Some(d) => {
                assert(0 <= value * radix <= u64::MAX * 36) by (nonlinear_arith)
                    requires
                        0 <= value <= u64::MAX,
                        0 <= radix <= 36,
                ;
                let next: u128 = value as u128 * radix as u128 + d as u128;
                if next > max as u128 {
                    return None;
                }
                value = next as u64;
            },
        }
        i += 1;
    }
    assert(digits.take(i - start) =~= digits);
    Some(value)
}

/// The characters with the Unicode property `White_Space`.
pub open spec fn is_space(c: char) -> bool {
    let u = c as u32;
    ||| 0x9 <= u <= 0xd
    ||| u == 0x20
    ||| u == 0x85
    ||| u == 0xa0
    ||| u == 0x1680
    ||| 0x2000 <= u <= 0x200a
    ||| u == 0x2028
    ||| u == 0x2029
    ||| u == 0x202f
    ||| u == 0x205f
    ||| u == 0x3000
}

/// Whether `c` is white space.
pub fn is_space_char(c: char) -> (r: bool)
    ensures
        r == is_space(c),
{
    let u: u32 = c as u32;
    (0x9 <= u && u <= 0xd) || u == 0x20 || u == 0x85 || u == 0xa0 || u == 0x1680 || (0x2000 <= u
        && u <= 0x200a) || u == 0x2028 || u == 0x2029 || u == 0x202f || u == 0x205f || u == 0x3000
}

/// `s` without the white space in front.
pub open spec fn trim_start(s: Seq<char>) -> Seq<char>
    decreases s.len(),
{
    if s.len() > 0 && is_space(s[0]) {
        trim_start(s.skip(1))
    } else {
        s
    }
}

/// `s` without the white space at its end.
pub open spec fn trim_end(s: Seq<char>) -> Seq<char>
    decreases s.len(),
{
    if s.len() > 0 && is_space(s.last()) {
        trim_end(s.drop_last())
    } else {
        s
    }
}

/// `s` without white space on either side.
pub open spec fn trim(s: Seq<char>) -> Seq<char> {
    trim_end(trim_start(s))
}

/// Takes the white space off both ends of `s`.
pub fn trimmed(s: &str) -> (r: String)
    ensures
        r@ == trim(s@),
{
    let chars = chars_of(s);
    let mut from: usize = 0;
    assert(chars@.skip(0) =~= chars@);
    while from < chars.len() && is_space_char(chars[from])
        invariant
            from <= chars@.len(),
            trim_start(chars@) == trim_start(chars@.skip(from as int)),
        decreases chars@.len() - from,
    {
        assert(chars@.skip(from as int).skip(1) =~= chars@.skip(from + 1));
        from += 1;
    }
    let ghost rest = chars@.skip(from as int);
    assert(trim_start(chars@) == rest);
    let mut to: usize = chars.len();
    assert(chars@.subrange(from as int, to as int) =~= rest);
    while from < to && is_space_char(chars[to - 1])
        invariant
            from <= to <= chars@.len(),
            trim_end(rest) == trim_end(chars@.subrange(from as int, to as int)),
        decreases to,
    {
        assert(chars@.subrange(from as int, to as int).drop_last() =~= chars@.subrange(
            from as int,
            to - 1,
        ));
        to -= 1;
    }
    string_of(&chars, from, to)
}

/// Where the first line of `s` ends: its first line feed, or its length.
pub open spec fn line_end(s: Seq<char>) -> nat
    decreases s.len(),
{
    if s.len() == 0 || s[0] == '\n' {
        0
    } else {
        1 + line_end(s.skip(1))
    }
}

/// `s` without one carriage return at its end.
pub open spec fn without_return(s: Seq<char>) -> Seq<char> {
    if s.len() > 0 && s.last() == '\r' {
        s.drop_last()
    } else {
        s
    }
}

/// The lines of `s`. A line ends with a line feed or with a carriage return
/// and a line feed, and the last one may lack its ending.
pub open spec fn lines(s: Seq<char>) -> Seq<Seq<char>>
    decreases s.len(),
{
    let n = line_end(s);
    if s.len() == 0 {
        Seq::empty()
    } else if n < s.len() {
        seq![without_return(s.take(n as int))] + lines(s.skip(n as int + 1))
    } else {
        seq![s]
    }
}

/// What `line_end` says of a given position.
proof fn lemma_line_end(s: Seq<char>, n: int)
    requires
        0 <= n <= s.len(),
        forall|k: int| 0 <= k < n ==> s[k] != '\n',
        n == s.len() || s[n] == '\n',
    ensures
        line_end(s) == n,
    decreases s.len(),
{
    if n > 0 {
        lemma_line_end(s.skip(1), n - 1);
    }
}

/// Splits `s` into its lines.
pub fn lines_of(s: &str) -> (r: Vec<String>)
    ensures
        r.deep_view() == lines(s@),
{
    let chars = chars_of(s);
    let mut r: Vec<String> = Vec::new();
    let mut start: usize = 0;
    assert(chars@.skip(0) =~= s@);
    assert(r.deep_view() + lines(s@) =~= lines(s@));
    while start < chars.len()
        invariant
            start <= chars@.len(),
            chars@ == s@,
            r.deep_view() + lines(chars@.skip(start as int)) == lines(s@),
        decreases chars@.len() - start,
    {
        let ghost rest = chars@.skip(start as int);
        let ghost before = r.deep_view();
        let mut end: usize = start;
        while end < chars.len() && chars[end] != '\n'
            invariant
                start <= end <= chars@.len(),
                forall|k: int| start <= k < end ==> chars@[k] != '\n',
            decreases chars@.len() - end,
        {
            end += 1;
        }
        proof {
            lemma_line_end(rest, end - start);
            assert(rest.take(end - start) =~= chars@.subrange(start as int, end as int));
        }
        if end < chars.len() {
            let cut: usize = if end > start && chars[end - 1] == '\r' {
                end - 1
            } else {
                end
            };
            let line = string_of(&chars, start, cut);
            assert(line@ =~= without_return(rest.take(end - start)));
            assert(rest.skip(end - start + 1) =~= chars@.skip(end + 1));
            r.push(line);
            assert(r.deep_view() =~= before.push(line@));
            assert(r.deep_view() + lines(chars@.skip(end + 1)) =~= before + lines(rest));
            start = end + 1;
        } else {
            let line = string_of(&chars, start, end);
            assert(line@ =~= rest);
            r.push(line);
            assert(r.deep_view() =~= before.push(line@));
            assert(chars@.skip(end as int) =~= Seq::empty());
            assert(r.deep_view() + lines(chars@.skip(end as int)) =~= before + lines(rest));
            start = end;
        }
    }
    assert(chars@.skip(start as int) =~= Seq::empty());
    assert(r.deep_view() + lines(chars@.skip(start as int)) =~= r.deep_view());
    r
}

/// Adds a copy of `s` at the end of `list`.
pub fn push_str(list: &mut Vec<String>, s: &str)
    ensures
        final(list).deep_view() == old(list).deep_view().push(s@),
{
    list.push(s.to_string());
    assert(list.deep_view() =~= old(list).deep_view().push(s@));
}

/// Adds `s` at the end of `list`.
pub fn push_string(list: &mut Vec<String>, s: String)
    ensures
        final(list).deep_view() == old(list).deep_view().push(s@),
{
    list.push(s);
    assert(list.deep_view() =~= old(list).deep_view().push(s@));
}

/// Adds copies of all of `more` at the end of `list`.
pub fn push_all(list: &mut Vec<String>, more: &Vec<String>)
    ensures
        final(list).deep_view() == old(list).deep_view() + more.deep_view(),
{
    let ghost before = list.deep_view();
    let mut i: usize = 0;
    assert(before + more.deep_view().take(0) =~= before);
    while i < more.len()
        invariant
            i <= more@.len(),
            list.deep_view() == before + more.deep_view().take(i as int),
        decreases more@.len() - i,
    {
        let ghost now = list.deep_view();
        list.push(more[i].clone());
        assert(list.deep_view() =~= now.push(more.deep_view()[i as int]));
        assert(before + more.deep_view().take(i + 1) =~= (before + more.deep_view().take(
            i as int,
        )).push(more.deep_view()[i as int]));
        i += 1;
    }
    assert(more.deep_view().take(i as int) =~= more.deep_view());
}

/// An empty list.
pub fn no_strings() -> (list: Vec<String>)
    ensures
        list.deep_view() == Seq::<Seq<char>>::empty(),
{
    let list: Vec<String> = Vec::new();
    assert(list.deep_view() =~= Seq::<Seq<char>>::empty());
    list
}

/// A copy of a list of strings.
pub fn clone_strings(list: &Vec<String>) -> (r: Vec<String>)
    ensures
        r.deep_view() == list.deep_view(),
{
    let mut r = no_strings();
    push_all(&mut r, list);
    assert(r.deep_view() =~= list.deep_view());
    r
}

/// `parts` one after the other with `sep` between them.
pub open spec fn joined(parts: Seq<Seq<char>>, sep: Seq<char>) -> Seq<char>
    decreases parts.len(),
{
    if parts.len() == 0 {
        Seq::empty()
    } else if parts.len() == 1 {
        parts[0]
    } else {
        joined(parts.drop_last(), sep) + sep + parts.last()
    }
}

/// Puts `parts` together with `sep` between them.
pub fn join(parts: &Vec<String>, sep: &str) -> (s: String)
    ensures
        s@ == joined(parts.deep_view(), sep@),
{
    let mut s = String::new();
    let mut i: usize = 0;
    assert(parts.deep_view().take(0) =~= Seq::empty());
    while i < parts.len()
        invariant
            i <= parts@.len(),
            s@ == joined(parts.deep_view().take(i as int), sep@),
        decreases parts@.len() - i,
    {
        assert(parts.deep_view().take(i + 1).drop_last() =~= parts.deep_view().take(i as int));
        if i > 0 {
            s.append(sep);
        }
        s.append(parts[i].as_str());
        assert(s@ =~= joined(parts.deep_view().take(i + 1), sep@));
        i += 1;
    }
    assert(parts.deep_view().take(i as int) =~= parts.deep_view());
    s
}

/// Each of `items` between `before` and `after`, one after the other.
pub open spec fn framed(items: Seq<Seq<char>>, before: Seq<char>, after: Seq<char>) -> Seq<char>
    decreases items.len(),
{
    if items.len() == 0 {
        Seq::empty()
    } else {
        framed(items.drop_last(), before, after) + before + items.last() + after
    }
}

/// Writes each of `items` between `before` and `after`.
pub fn frame(items: &Vec<String>, before: &str, after: &str) -> (s: String)
    ensures
        s@ == framed(items.deep_view(), before@, after@),
{
    let ghost view = items.deep_view();
    let mut s = String::new();
    let mut i: usize = 0;
    while i < items.len()
        invariant
            view == items.deep_view(),
            i <= items@.len(),
            s@ == framed(view.take(i as int), before@, after@),
        decreases items@.len() - i,
    {
        assert(view.take(i + 1).drop_last() =~= view.take(i as int));
        assert(view.take(i + 1).last() == items@[i as int]@);
        s.append(before);
        s.append(items[i].as_str());
        s.append(after);
        i += 1;
    }
    assert(view.take(i as int) =~= view);
    s
}

/// A list under a heading, left out if it is empty.
pub open spec fn section(
    heading: Seq<char>,
    items: Seq<Seq<char>>,
    before: Seq<char>,
    after: Seq<char>,
) -> Seq<char> {
    if items.len() == 0 {
        Seq::empty()
    } else {
        heading + framed(items, before, after)
    }
}

/// Writes a list under a heading, or nothing if it is empty.
pub fn render_section(heading: &str, items: &Vec<String>, before: &str, after: &str) -> (r: String)
    ensures
        r@ == section(heading@, items.deep_view(), before@, after@),
{
    assert(items.deep_view().len() == items@.len());
    if items.len() == 0 {
        empty()
    } else {
        join2(heading, frame(items, before, after).as_str())
    }
}

/// The line of an optional value.
pub open spec fn optional_line(before: Seq<char>, value: Option<Seq<char>>) -> Seq<char> {
    match value {
        Some(value) => before + value + "\n"@,
        None => Seq::empty(),
    }
}

/// Writes the line of an optional value, or nothing.
pub fn render_optional(before: &str, value: &Option<String>) -> (r: String)
    ensures
        r@ == optional_line(before@, value.deep_view()),
{
    match value {
        Some(value) => join3(before, value.as_str(), "\n"),
        None => empty(),
    }
}

/// The given variables in the form `NAME=value`.
pub open spec fn assignments(env: Seq<(Seq<char>, Seq<char>)>) -> Seq<Seq<char>> {
    Seq::new(env.len(), |i: int| env[i].0 + "="@ + env[i].1)
}

/// Writes variables in the form `NAME=value`.
pub fn assign(env: &Vec<(String, String)>) -> (r: Vec<String>)
    ensures
        r.deep_view() == assignments(env.deep_view()),
{
    let ghost expected = assignments(env.deep_view());
    let mut r = no_strings();
    let mut i: usize = 0;
    assert(expected.take(0) =~= Seq::empty());
    while i < env.len()
        invariant
            expected == assignments(env.deep_view()),
            i <= env@.len(),
            r.deep_view() == expected.take(i as int),
        decreases env@.len() - i,
    {
        push_string(&mut r, join3(env[i].0.as_str(), "=", env[i].1.as_str()));
        assert(expected.take(i + 1) =~= expected.take(i as int).push(expected[i as int]));
        i += 1;
    }
    assert(expected.take(i as int) =~= expected);
    r
}

/// Adds a name and its value at the end of `list`.
pub fn push_pair(list: &mut Vec<(String, String)>, name: &str, value: &str)
    ensures
        final(list).deep_view() == old(list).deep_view().push((name@, value@)),
{
    list.push((name.to_string(), value.to_string()));
    assert(list.deep_view() =~= old(list).deep_view().push((name@, value@)));
}

/// Adds copies of all of `more` at the end of `list`.
pub fn push_pairs(list: &mut Vec<(String, String)>, more: &Vec<(String, String)>)
    ensures
        final(list).deep_view() == old(list).deep_view() + more.deep_view(),
{
    let ghost before = list.deep_view();
    let mut i: usize = 0;
    assert(before + more.deep_view().take(0) =~= before);
    while i < more.len()
        invariant
            i <= more@.len(),
            list.deep_view() == before + more.deep_view().take(i as int),
        decreases more@.len() - i,
    {
        let ghost now = list.deep_view();
        push_pair(list, more[i].0.as_str(), more[i].1.as_str());
        assert(list.deep_view() =~= now.push(more.deep_view()[i as int]));
        assert(before + more.deep_view().take(i + 1) =~= (before + more.deep_view().take(
            i as int,
        )).push(more.deep_view()[i as int]));
        i += 1;
    }
    assert(more.deep_view().take(i as int) =~= more.deep_view());
}

/// An empty list of names and values.
pub fn no_pairs() -> (list: Vec<(String, String)>)
    ensures
        list.deep_view() == Seq::<(Seq<char>, Seq<char>)>::empty(),
{
    let list: Vec<(String, String)> = Vec::new();
    assert(list.deep_view() =~= Seq::<(Seq<char>, Seq<char>)>::empty());
    list
}

/// A copy of a list of names and values.
pub fn clone_pairs(list: &Vec<(String, String)>) -> (r: Vec<(String, String)>)
    ensures
        r.deep_view() == list.deep_view(),
{
    let mut r = no_pairs();
    push_pairs(&mut r, list);
    assert(r.deep_view() =~= list.deep_view());
    r
}

/// Whether `line` stands in `text` from the beginning of a line, at `k`, to its
/// end.
pub open spec fn line_at(text: Seq<char>, line: Seq<char>, k: int) -> bool {
    &&& 0 <= k
    &&& k + line.len() < text.len()
    &&& k == 0 || text[k - 1] == '\n'
    &&& text.subrange(k, k + line.len()) == line
    &&& text[k + line.len()] == '\n'
}

/// Whether `text` has the given line.
#[verifier::opaque]
pub open spec fn has_line(text: Seq<char>, line: Seq<char>) -> bool {
    exists|k: int| line_at(text, line, k)
}

/// Whether what follows `text` begins a line.
pub open spec fn ends_lines(text: Seq<char>) -> bool {
    text.len() == 0 || text.last() == '\n'
}

/// Text has the lines of what it begins with.
pub proof fn lemma_line_stays(text: Seq<char>, more: Seq<char>, line: Seq<char>)
    requires
        has_line(text, line),
    ensures
        has_line(text + more, line),
{
    reveal(has_line);
    let k = choose|k: int| line_at(text, line, k);
    assert((text + more).subrange(k, k + line.len()) =~= text.subrange(k, k + line.len()));
    assert(line_at(text + more, line, k));
}

/// Text has the lines of what follows its own.
pub proof fn lemma_line_follows(text: Seq<char>, more: Seq<char>, line: Seq<char>)
    requires
        ends_lines(text),
        has_line(more, line),
    ensures
        has_line(text + more, line),
{
    reveal(has_line);
    let k = choose|k: int| line_at(more, line, k);
    let n = text.len() as int;
    assert((text + more).subrange(n + k, n + k + line.len()) =~= more.subrange(
        k,
        k + line.len(),
    ));
    assert(line_at(text + more, line, n + k));
}

/// A label and its value are a line, between lines before and what begins the
/// next one.
pub proof fn lemma_labelled_line(
    text: Seq<char>,
    label: Seq<char>,
    value: Seq<char>,
    next: Seq<char>,
)
    requires
        ends_lines(text),
        next.len() > 0,
        next[0] == '\n',
    ensures
        has_line(text + label + value + next, label + value),
{
    reveal(has_line);
    let whole = text + label + value + next;
    let line = label + value;
    let n = text.len() as int;
    assert(whole.subrange(n, n + line.len()) =~= line);
    assert(line_at(whole, line, n));
}

/// Framed items that each end a line are lines.
pub proof fn lemma_framed_lines(items: Seq<Seq<char>>, before: Seq<char>)
    ensures
        ends_lines(framed(items, before, "\n"@)),
        forall|i: int|
            0 <= i < items.len() ==> has_line(
                framed(items, before, "\n"@),
                before + #[trigger] items[i],
            ),
    decreases items.len(),
{
    reveal_strlit("\n");
    if items.len() > 0 {
        let front = items.drop_last();
        lemma_framed_lines(front, before);
        let text = framed(front, before, "\n"@);
        assert forall|i: int| 0 <= i < items.len() implies has_line(
            framed(items, before, "\n"@),
            before + #[trigger] items[i],
        ) by {
            if i < front.len() {
                assert(front[i] == items[i]);
                lemma_line_stays(text, before, before + items[i]);
                lemma_line_stays(text + before, items.last(), before + items[i]);
                lemma_line_stays(text + before + items.last(), "\n"@, before + items[i]);
            } else {
                lemma_labelled_line(text, before, items.last(), "\n"@);
            }
        }
    }
}

/// A section ends its lines, and has its items as lines.
pub proof fn lemma_section_lines(heading: Seq<char>, items: Seq<Seq<char>>, before: Seq<char>)
    requires
        ends_lines(heading),
    ensures
        ends_lines(section(heading, items, before, "\n"@)),
        forall|i: int|
            0 <= i < items.len() ==> has_line(
                section(heading, items, before, "\n"@),
                before + #[trigger] items[i],
            ),
{
    lemma_framed_lines(items, before);
    let lines = framed(items, before, "\n"@);
    assert forall|i: int| 0 <= i < items.len() implies has_line(
        section(heading, items, before, "\n"@),
        before + #[trigger] items[i],
    ) by {
        lemma_line_follows(heading, lines, before + items[i]);
    }
    if items.len() > 0 && lines.len() > 0 {
        assert((heading + lines).last() == lines.last());
    } else if items.len() > 0 {
        assert(heading + lines =~= heading);
    }
}

/// Lower case: each ASCII capital becomes its small letter, and every other
/// character stays as it is.
pub proof fn law_lower_changes_capitals_only(s: Seq<char>, i: int)
    requires
        0 <= i < s.len(),
    ensures
        lower(s).len() == s.len(),
        'A' <= s[i] <= 'Z' ==> lower(s)[i] as int - 'a' as int == s[i] as int - 'A' as int,
        !('A' <= s[i] <= 'Z') ==> lower(s)[i] == s[i],
{
}

/// What begins with a text is the text and something after it.
pub proof fn law_prefix_is_followed(s: Seq<char>, prefix: Seq<char>)
    ensures
        has_prefix(s, prefix) <==> exists|rest: Seq<char>| s == #[trigger] (prefix + rest),
{
    if has_prefix(s, prefix) {
        assert(s =~= prefix + s.skip(prefix.len() as int));
    }
    if exists|rest: Seq<char>| s == #[trigger] (prefix + rest) {
        let rest = choose|rest: Seq<char>| s == #[trigger] (prefix + rest);
        assert(s.subrange(0, prefix.len() as int) =~= prefix);
    }
}

/// Whether a text occurs in another.
pub open spec fn occurs_in(hay: Seq<char>, needle: Seq<char>) -> bool {
    exists|at: int| occurs_at(hay, needle, at)
}

/// A text occurs where it was put.
pub proof fn law_parts_occur(before: Seq<char>, part: Seq<char>, after: Seq<char>)
    ensures
        occurs_at(before + part + after, part, before.len() as int),
        occurs_in(before + part + after, part),
{
    let at = before.len() as int;
    assert((before + part + after).subrange(at, at + part.len()) =~= part);
}

/// Where one character is no digit there is no number.
pub proof fn law_numbers_hold_digits_only(s: Seq<char>, radix: nat, i: int)
    requires
        0 <= i < s.len(),
        digit_value(s[i], radix) is None,
    ensures
        numeral(s, radix) is None,
    decreases s.len(),
{
    if i < s.len() - 1 {
        assert(s.drop_last()[i] == s[i]);
        law_numbers_hold_digits_only(s.drop_last(), radix, i);
    }
}

/// A word that begins with a letter is no decimal number.
pub proof fn law_words_are_no_numbers(s: Seq<char>, max: nat)
    requires
        s.len() > 0,
        'a' <= s[0] <= 'z' || 'A' <= s[0] <= 'Z',
    ensures
        unsigned(s, 10, max) is None,
{
    law_numbers_hold_digits_only(s, 10, 0);
}

/// The decimal numeral of a number is read back as the number. It holds the
/// digits `0` to `9` only, the last of them the number's remainder by ten, and
/// begins with no zero.
pub proof fn law_decimal_is_read_back(n: nat)
    ensures
        numeral(decimal(n), 10) == Some(n),
        decimal(n).len() > 0,
        forall|i: int| 0 <= i < decimal(n).len() ==> '0' <= #[trigger] decimal(n)[i] <= '9',
        decimal(n).last() as int == '0' as int + n % 10,
        n > 0 ==> decimal(n)[0] != '0',
    decreases n,
{
    if n < 10 {
        assert(decimal(n).drop_last() =~= Seq::empty());
        reveal_with_fuel(numeral, 2);
    } else {
        let front = decimal(n / 10);
        law_decimal_is_read_back(n / 10);
        assert(decimal(n).drop_last() =~= front);
        assert(numeral(decimal(n), 10) == Some((n / 10) * 10 + n % 10));
        assert forall|i: int| 0 <= i < decimal(n).len() implies '0' <= #[trigger] decimal(n)[i]
            <= '9' by {
            if i < front.len() {
                assert(decimal(n)[i] == front[i]);
            }
        }
        assert(decimal(n)[0] == front[0]);
    }
}

/// The decimal numeral of a number within the limit is parsed as the number.
pub proof fn law_decimal_is_parsed(n: nat, max: nat)
    requires
        n <= max,
    ensures
        unsigned(decimal(n), 10, max) == Some(n),
{
    law_decimal_is_read_back(n);
    assert('0' <= decimal(n)[0] <= '9');
}

/// Four hexadecimal digits write a number below `0x10000`, and are read back as
/// the number.
pub proof fn law_hex_is_read_back(n: nat)
    requires
        n <= 0xffff,
    ensures
        numeral(hex(n, 4), 16) == Some(n),
        unsigned(hex(n, 4), 16, 0xffff) == Some(n),
        hex(n, 4).len() == 4,
        forall|i: int|
            0 <= i < 4 ==> '0' <= #[trigger] hex(n, 4)[i] <= '9' || 'a' <= hex(n, 4)[i] <= 'f',
{
    reveal_with_fuel(hex, 5);
    reveal_with_fuel(numeral, 5);
    let h3 = hex(n / 16, 3);
    let h2 = hex(n / 16 / 16, 2);
    let h1 = hex(n / 16 / 16 / 16, 1);
    assert(hex(n, 4).drop_last() =~= h3);
    assert(h3.drop_last() =~= h2);
    assert(h2.drop_last() =~= h1);
    assert(h1.drop_last() =~= Seq::empty());
    assert(n / 16 / 16 / 16 < 16);
    assert(numeral(h1, 16) == Some(n / 16 / 16 / 16));
    assert(numeral(h2, 16) == Some(n / 16 / 16));
    assert(numeral(h3, 16) == Some(n / 16));
    assert(hex(n, 4)[0] == h1[0] && hex(n, 4)[1] == h2[1] && hex(n, 4)[2] == h3[2]);
}

/// Whether a text is white space throughout.
pub open spec fn is_blank(s: Seq<char>) -> bool {
    forall|i: int| 0 <= i < s.len() ==> is_space(#[trigger] s[i])
}

proof fn lemma_trim_start(blank: Seq<char>, s: Seq<char>)
    requires
        is_blank(blank),
        s.len() == 0 || !is_space(s[0]),
    ensures
        trim_start(blank + s) == s,
    decreases blank.len(),
{
    if blank.len() == 0 {
        assert(blank + s =~= s);
    } else {
        assert(is_space(blank[0]));
        assert forall|i: int| 0 <= i < blank.skip(1).len() implies is_space(
            #[trigger] blank.skip(1)[i],
        ) by {
            assert(is_space(blank[i + 1]));
        }
        lemma_trim_start(blank.skip(1), s);
        assert((blank + s).skip(1) =~= blank.skip(1) + s);
    }
}

proof fn lemma_trim_end(s: Seq<char>, blank: Seq<char>)
    requires
        is_blank(blank),
        s.len() == 0 || !is_space(s.last()),
    ensures
        trim_end(s + blank) == s,
    decreases blank.len(),
{
    if blank.len() == 0 {
        assert(s + blank =~= s);
    } else {
        assert(is_space(blank.last()));
        assert forall|i: int| 0 <= i < blank.drop_last().len() implies is_space(
            #[trigger] blank.drop_last()[i],
        ) by {
            assert(is_space(blank[i]));
        }
        lemma_trim_end(s, blank.drop_last());
        assert((s + blank).drop_last() =~= s + blank.drop_last());
    }
}

proof fn lemma_trim_start_splits(s: Seq<char>) -> (blank: Seq<char>)
    ensures
        is_blank(blank),
        s == blank + trim_start(s),
        trim_start(s).len() > 0 ==> !is_space(trim_start(s)[0]),
    decreases s.len(),
{
    if s.len() > 0 && is_space(s[0]) {
        let rest = lemma_trim_start_splits(s.skip(1));
        let blank = seq![s[0]] + rest;
        assert forall|i: int| 0 <= i < blank.len() implies is_space(#[trigger] blank[i]) by {
            if i > 0 {
                assert(is_space(rest[i - 1]));
            }
        }
        assert(s =~= seq![s[0]] + s.skip(1));
        assert(s =~= blank + trim_start(s));
        blank
    } else {
        assert(s =~= Seq::<char>::empty() + s);
        Seq::empty()
    }
}

proof fn lemma_trim_end_splits(s: Seq<char>) -> (blank: Seq<char>)
    ensures
        is_blank(blank),
        s == trim_end(s) + blank,
        trim_end(s).len() > 0 ==> !is_space(trim_end(s).last()),
    decreases s.len(),
{
    if s.len() > 0 && is_space(s.last()) {
        let rest = lemma_trim_end_splits(s.drop_last());
        let blank = rest.push(s.last());
        assert forall|i: int| 0 <= i < blank.len() implies is_space(#[trigger] blank[i]) by {
            if i < rest.len() {
                assert(is_space(rest[i]));
            }
        }
        assert(s =~= s.drop_last().push(s.last()));
        assert(s =~= trim_end(s) + blank);
        blank
    } else {
        assert(s =~= s + Seq::<char>::empty());
        Seq::empty()
    }
}

/// Trimming takes the white space off both ends and nothing else: what was
/// trimmed is blank, and what is left neither begins nor ends with white space.
pub proof fn law_trim_takes_blanks_off(s: Seq<char>) -> (blanks: (Seq<char>, Seq<char>))
    ensures
        is_blank(blanks.0),
        is_blank(blanks.1),
        s == blanks.0 + trim(s) + blanks.1,
        trim(s).len() > 0 ==> !is_space(trim(s)[0]) && !is_space(trim(s).last()),
{
    let before = lemma_trim_start_splits(s);
    let after = lemma_trim_end_splits(trim_start(s));
    assert(s =~= before + trim(s) + after);
    if trim(s).len() > 0 {
        assert(trim_start(s)[0] == trim(s)[0]);
    }
    (before, after)
}

/// Blanks round a text that neither begins nor ends with white space are
/// trimmed off it.
pub proof fn law_trim_leaves_the_text(before: Seq<char>, s: Seq<char>, after: Seq<char>)
    requires
        is_blank(before),
        is_blank(after),
        s.len() > 0,
        !is_space(s[0]),
        !is_space(s.last()),
    ensures
        trim(before + s + after) == s,
{
    assert(before + s + after =~= before + (s + after));
    assert((s + after)[0] == s[0]);
    lemma_trim_start(before, s + after);
    lemma_trim_end(s, after);
}

/// The white space of ASCII: tab to carriage return, and the space. No
/// character from `!` to `~` is white space.
pub proof fn law_ascii_white_space(c: char)
    requires
        (c as u32) < 0x80,
    ensures
        is_space(c) <==> c == ' ' || 0x9 <= c as u32 <= 0xd,
{
}

proof fn lemma_line_feed_ends(line: Seq<char>, rest: Seq<char>)
    requires
        !line.contains('\n'),
    ensures
        line_end(line + "\n"@ + rest) == line.len(),
        line_end(line) == line.len(),
    decreases line.len(),
{
    reveal_strlit("\n");
    if line.len() > 0 {
        assert(line.contains(line[0]));
        let front = line.skip(1);
        assert(!front.contains('\n')) by {
            if front.contains('\n') {
                let i = front.index_of('\n');
                assert(line[i + 1] == '\n');
            }
        }
        lemma_line_feed_ends(front, rest);
        assert((line + "\n"@ + rest).skip(1) =~= front + "\n"@ + rest);
    } else {
        assert((line + "\n"@ + rest)[0] == '\n');
    }
}

/// A text is read line by line: what stands before a line feed, without the
/// carriage return that may end it, and then the lines of what follows; and
/// what no line feed ends is a line too.
pub proof fn law_lines_end_at_line_feeds(line: Seq<char>, rest: Seq<char>)
    requires
        !line.contains('\n'),
    ensures
        line.len() == 0 || line.last() != '\r' ==> lines(line + "\n"@ + rest) == seq![line] + lines(
            rest,
        ),
        line.len() > 0 && line.last() == '\r' ==> lines(line + "\n"@ + rest) == seq![
            line.drop_last(),
        ] + lines(rest),
        line.len() > 0 ==> lines(line) == seq![line],
        lines(Seq::empty()) == Seq::<Seq<char>>::empty(),
{
    reveal_strlit("\n");
    lemma_line_feed_ends(line, rest);
    let text = line + "\n"@ + rest;
    assert(text.take(line.len() as int) =~= line);
    assert(text.skip(line.len() as int + 1) =~= rest);
}

/// Joined texts stand one after the other with the separator between them.
pub proof fn law_joined_grows_at_the_end(parts: Seq<Seq<char>>, part: Seq<char>, sep: Seq<char>)
    ensures
        joined(Seq::empty(), sep) == Seq::<char>::empty(),
        joined(seq![part], sep) == part,
        parts.len() > 0 ==> joined(parts.push(part), sep) == joined(parts, sep) + sep + part,
{
    assert(parts.push(part).drop_last() =~= parts);
}

/// What occurs in a part occurs in the whole.
pub proof fn lemma_occurs_within(
    before: Seq<char>,
    part: Seq<char>,
    after: Seq<char>,
    needle: Seq<char>,
)
    requires
        occurs_in(part, needle),
    ensures
        occurs_in(before + part + after, needle),
{
    let at = choose|at: int| occurs_at(part, needle, at);
    let whole = before + part + after;
    assert(whole.subrange(before.len() + at, before.len() + at + needle.len()) =~= part.subrange(
        at,
        at + needle.len(),
    ));
    assert(occurs_at(whole, needle, before.len() + at));
}

/// Framed items stand one after the other, each in its frame.
pub proof fn law_framed_items_are_all_there(
    a: Seq<Seq<char>>,
    b: Seq<Seq<char>>,
    item: Seq<char>,
    before: Seq<char>,
    after: Seq<char>,
)
    ensures
        framed(a + b, before, after) == framed(a, before, after) + framed(b, before, after),
        framed(seq![item], before, after) == before + item + after,
        framed(Seq::empty(), before, after) == Seq::<char>::empty(),
    decreases b.len(),
{
    reveal_with_fuel(framed, 2);
    assert(seq![item].drop_last() =~= Seq::empty());
    assert(framed(seq![item], before, after) =~= before + item + after);
    if b.len() == 0 {
        assert(a + b =~= a);
        assert(framed(a, before, after) + framed(b, before, after) =~= framed(a, before, after));
    } else {
        law_framed_items_are_all_there(a, b.drop_last(), item, before, after);
        assert((a + b).drop_last() =~= a + b.drop_last());
        assert(framed(a + b, before, after) =~= framed(a, before, after) + framed(
            b,
            before,
            after,
        ));
    }
}

/// Each framed item occurs in its frame.
pub proof fn lemma_framed_occurs(
    items: Seq<Seq<char>>,
    before: Seq<char>,
    after: Seq<char>,
    i: int,
)
    requires
        0 <= i < items.len(),
    ensures
        occurs_in(framed(items, before, after), before + items[i] + after),
        has_prefix(framed(items, before, after), before + items[0] + after),
{
    let first = items.take(i);
    let one = seq![items[i]];
    let rest = items.skip(i + 1);
    assert(items =~= first + one + rest);
    law_framed_items_are_all_there(first + one, rest, items[i], before, after);
    law_framed_items_are_all_there(first, one, items[i], before, after);
    law_parts_occur(
        framed(first, before, after),
        before + items[i] + after,
        framed(rest, before, after),
    );
    let head = seq![items[0]];
    assert(items =~= head + items.skip(1));
    law_framed_items_are_all_there(head, items.skip(1), items[0], before, after);
    let start = before + items[0] + after;
    assert(framed(items, before, after).subrange(0, start.len() as int) =~= start);
}

/// A section occurs with its heading and all of its items, and without items
/// not at all.
pub proof fn lemma_section_occurs(
    start: Seq<char>,
    heading: Seq<char>,
    items: Seq<Seq<char>>,
    before: Seq<char>,
    after: Seq<char>,
    end: Seq<char>,
    i: int,
)
    ensures
        items.len() > 0 ==> occurs_in(
            start + section(heading, items, before, after) + end,
            heading + before + items[0] + after,
        ),
        0 <= i < items.len() ==> occurs_in(
            start + section(heading, items, before, after) + end,
            before + items[i] + after,
        ),
{
    if items.len() > 0 {
        let lines = framed(items, before, after);
        lemma_framed_occurs(items, before, after, 0);
        let first = before + items[0] + after;
        let rest = lines.skip(first.len() as int);
        assert(lines =~= first + rest) by {
            assert(lines.subrange(0, first.len() as int) == first);
            assert(lines =~= lines.subrange(0, first.len() as int) + rest);
        }
        let headed = heading + before + items[0] + after;
        law_parts_occur(start, headed, rest + end);
        assert(start + section(heading, items, before, after) + end =~= start + headed + (rest
            + end));
        if 0 <= i < items.len() {
            lemma_framed_occurs(items, before, after, i);
            lemma_occurs_within(start + heading, lines, end, before + items[i] + after);
            assert(start + section(heading, items, before, after) + end =~= start + heading + lines
                + end);
        }
    }
}

/// Each of the joined texts occurs.
pub proof fn lemma_joined_occurs(parts: Seq<Seq<char>>, sep: Seq<char>, i: int)
    requires
        0 <= i < parts.len(),
    ensures
        occurs_in(joined(parts, sep), parts[i]),
    decreases parts.len(),
{
    let none = Seq::<char>::empty();
    if parts.len() == 1 {
        law_parts_occur(none, parts[0], none);
        assert(none + parts[0] + none =~= parts[0]);
    } else if i == parts.len() - 1 {
        let front = joined(parts.drop_last(), sep) + sep;
        law_parts_occur(front, parts[i], none);
        assert(front + parts[i] + none =~= joined(parts, sep));
    } else {
        let front = parts.drop_last();
        lemma_joined_occurs(front, sep, i);
        lemma_occurs_within(none, joined(front, sep), sep + parts.last(), parts[i]);
        assert(none + joined(front, sep) + (sep + parts.last()) =~= joined(parts, sep));
    }
}

/// A section without items is nothing, not even its heading; and so is a line
/// without a value.
pub proof fn law_nothing_to_say_is_nothing(
    heading: Seq<char>,
    before: Seq<char>,
    after: Seq<char>,
    value: Seq<char>,
)
    ensures
        section(heading, Seq::empty(), before, after).len() == 0,
        optional_line(before, None).len() == 0,
        optional_line(before, Some(value)) == before + value + "\n"@,
        section(heading, seq![value], before, after) == heading + before + value + after,
{
    law_framed_items_are_all_there(Seq::empty(), Seq::empty(), value, before, after);
    assert(section(heading, seq![value], before, after) =~= heading + before + value + after);
}

/// An assignment is a name, an equals sign and a value; they stand in the order
/// of the variables.
pub proof fn law_assignments(env: Seq<(Seq<char>, Seq<char>)>, i: int)
    requires
        0 <= i < env.len(),
    ensures
        assignments(env).len() == env.len(),
        assignments(env)[i] == env[i].0 + "="@ + env[i].1,
{
}

/// What a digit stands for: `0` to `9` for themselves, and the letters from `a`
/// on, small or capital, for ten and more; beyond the base nothing is a digit.
pub proof fn law_digits(c: char, radix: nat)
    requires
        radix == 10 || radix == 16,
    ensures
        '0' <= c <= '9' ==> digit_value(c, radix) == Some((c as int - '0' as int) as nat),
        radix == 16 && 'a' <= c <= 'f' ==> digit_value(c, radix) == Some(
            (c as int - 'a' as int + 10) as nat,
        ),
        radix == 16 && 'A' <= c <= 'F' ==> digit_value(c, radix) == Some(
            (c as int - 'A' as int + 10) as nat,
        ),
        radix == 10 && !('0' <= c <= '9') ==> digit_value(c, radix) is None,
        radix == 16 && !('0' <= c <= '9') && !('a' <= c <= 'f') && !('A' <= c <= 'F')
            ==> digit_value(c, radix) is None,
{
}

/// A number is what its digits say, most significant first, with or without a
/// plus sign before them; it has at least one digit, and is within the limit.
pub proof fn law_numbers(digits: Seq<char>, c: char, radix: nat, max: nat, value: nat)
    ensures
        numeral(digits, radix) == Some(value) ==> numeral(digits.push(c), radix) == (
        match digit_value(c, radix) {
            Some(d) => Some(value * radix + d),
            None => None,
        }),
        numeral(digits, radix) == Some(value) && digits.len() > 0 && digits[0] != '+' && value
            <= max ==> unsigned(digits, radix, max) == Some(value) && unsigned(
            seq!['+'] + digits,
            radix,
            max,
        ) == Some(value),
        numeral(digits, radix) == Some(value) && value > max && (digits.len() == 0 || digits[0]
            != '+') ==> unsigned(digits, radix, max) is None,
        unsigned(Seq::empty(), radix, max) is None,
        unsigned(seq!['+'], radix, max) is None,
{
    assert(digits.push(c).drop_last() =~= digits);
    assert((seq!['+'] + digits).skip(1) =~= digits);
    assert(seq!['+'].skip(1) =~= Seq::<char>::empty());
}

} // verus!
