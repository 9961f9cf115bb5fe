//! JSON text: strings, and arrays and objects of strings.

use vstd::prelude::*;
use crate::text;

verus! {

/// One character inside a JSON string.
pub open spec fn json_char(c: char) -> Seq<char> {
    if c == '"' {
        "\\\""@
    } else if c == '\\' {
        "\\\\"@
    } else if c == '\n' {
        "\\n"@
    } else if c == '\r' {
        "\\r"@
    } else if c == '\t' {
        "\\t"@
    } else if (c as u32) < 0x20 {
        "\\u"@ + text::hex((c as u32) as nat, 4)
    } else {
        seq![c]
    }
}

/// The characters between the quotes of a JSON string.
pub open spec fn json_body(s: Seq<char>) -> Seq<char>
    decreases s.len(),
{
    if s.len() == 0 {
        Seq::empty()
    } else {
        json_body(s.drop_last()) + json_char(s.last())
    }
}

/// A JSON string (which is a YAML string too).
pub open spec fn json_string(s: Seq<char>) -> Seq<char> {
    "\""@ + json_body(s) + "\""@
}

/// Writes a JSON string.
pub fn to_json_string(s: &str) -> (r: String)
    ensures
        r@ == json_string(s@),
{
    let chars = text::chars_of(s);
    let mut body = String::new();
    let mut i: usize = 0;
    while i < chars.len()
        invariant
            chars@ == s@,
            i <= chars@.len(),
            body@ == json_body(s@.take(i as int)),
        decreases chars@.len() - i,
    {
        assert(s@.take(i + 1).drop_last() =~= s@.take(i as int));
        let ghost before = body@;
        let c = chars[i];
        let code: u32 = c as u32;
        if c == '"' {
            body.append("\\\"");
        } else if c == '\\' {
            body.append("\\\\");
        } else if c == '\n' {
            body.append("\\n");
        } else if c == '\r' {
            body.append("\\r");
        } else if c == '\t' {
            body.append("\\t");
        } else if code < 0x20 {
            body.append(text::join2("\\u", text::to_hex(code as u64, 4).as_str()).as_str());
        } else {
            body.push(c);
        }
        assert(body@ =~= before + json_char(c));
        i += 1;
    }
    assert(s@.take(i as int) =~= s@);
    text::join3("\"", body.as_str(), "\"")
}

/// Each item as a JSON string.
pub open spec fn json_strings(items: Seq<Seq<char>>) -> Seq<Seq<char>> {
    Seq::new(items.len(), |i: int| json_string(items[i]))
}

/// Writes each item as a JSON string.
pub fn to_json_strings(items: &Vec<String>) -> (r: Vec<String>)
    ensures
        r.deep_view() == json_strings(items.deep_view()),
{
    let ghost expected = json_strings(items.deep_view());
    let mut r = text::no_strings();
    let mut i: usize = 0;
    assert(expected.take(0) =~= Seq::empty());
    while i < items.len()
        invariant
            expected == json_strings(items.deep_view()),
            i <= items@.len(),
            r.deep_view() == expected.take(i as int),
        decreases items@.len() - i,
    {
        text::push_string(&mut r, to_json_string(items[i].as_str()));
        assert(expected.take(i + 1) =~= expected.take(i as int).push(expected[i as int]));
        i += 1;
    }
    assert(expected.take(i as int) =~= expected);
    r
}

/// A JSON array of strings.
pub open spec fn json_array(items: Seq<Seq<char>>) -> Seq<char> {
    "["@ + text::joined(json_strings(items), ", "@) + "]"@
}

/// Writes a JSON array of strings.
pub fn to_json_array(items: &Vec<String>) -> (r: String)
    ensures
        r@ == json_array(items.deep_view()),
{
    text::join3("[", text::join(&to_json_strings(items), ", ").as_str(), "]")
}

/// The members of a JSON object of strings.
pub open spec fn json_members(pairs: Seq<(Seq<char>, Seq<char>)>) -> Seq<Seq<char>> {
    Seq::new(pairs.len(), |i: int| json_string(pairs[i].0) + ": "@ + json_string(pairs[i].1))
}

/// A JSON object of strings.
pub open spec fn json_object(pairs: Seq<(Seq<char>, Seq<char>)>) -> Seq<char> {
    "{"@ + text::joined(json_members(pairs), ", "@) + "}"@
}

/// Writes a JSON object of strings.
pub fn to_json_object(pairs: &Vec<(String, String)>) -> (r: String)
    ensures
        r@ == json_object(pairs.deep_view()),
{
    let ghost expected = json_members(pairs.deep_view());
    let mut members = text::no_strings();
    let mut i: usize = 0;
    assert(expected.take(0) =~= Seq::empty());
    while i < pairs.len()
        invariant
            expected == json_members(pairs.deep_view()),
            i <= pairs@.len(),
            members.deep_view() == expected.take(i as int),
        decreases pairs@.len() - i,
    {
        let name = to_json_string(pairs[i].0.as_str());
        let value = to_json_string(pairs[i].1.as_str());
        text::push_string(&mut members, text::join3(name.as_str(), ": ", value.as_str()));
        assert(expected.take(i + 1) =~= expected.take(i as int).push(expected[i as int]));
        i += 1;
    }
    assert(expected.take(i as int) =~= expected);
    text::join3("{", text::join(&members, ", ").as_str(), "}")
}

/// The optional JSON string of an optional value.
pub open spec fn json_option(value: Option<Seq<char>>) -> Option<Seq<char>> {
    match value {
        Some(value) => Some(json_string(value)),
        None => None,
    }
}

/// Writes the optional JSON string of an optional value.
pub fn to_json_option(value: &Option<String>) -> (r: Option<String>)
    ensures
        r.deep_view() == json_option(value.deep_view()),
{
    match value {
        Some(value) => Some(to_json_string(value.as_str())),
        None => None,
    }
}

/// What a JSON reader reads out of the inside of a string.
pub open spec fn json_reads(s: Seq<char>) -> Seq<char>
    decreases s.len(),
{
    if s.len() == 0 {
        Seq::empty()
    } else if s[0] != '\\' || s.len() == 1 {
        seq![s[0]] + json_reads(s.skip(1))
    } else if s[1] == 'n' {
        seq!['\n'] + json_reads(s.skip(2))
    } else if s[1] == 'r' {
        seq!['\r'] + json_reads(s.skip(2))
    } else if s[1] == 't' {
        seq!['\t'] + json_reads(s.skip(2))
    } else if s[1] == 'u' && s.len() >= 6 {
        match text::numeral(s.subrange(2, 6), 16) {
            Some(code) => seq![code as char] + json_reads(s.skip(6)),
            None => Seq::empty(),
        }
    } else {
        seq![s[1]] + json_reads(s.skip(2))
    }
}

proof fn lemma_char_is_read(c: char, rest: Seq<char>)
    ensures
        json_reads(json_char(c) + rest) == seq![c] + json_reads(rest),
{
    reveal_strlit("\\\"");
    reveal_strlit("\\\\");
    reveal_strlit("\\n");
    reveal_strlit("\\r");
    reveal_strlit("\\t");
    reveal_strlit("\\u");
    let text = json_char(c) + rest;
    if c == '"' || c == '\\' || c == '\n' || c == '\r' || c == '\t' {
        assert(text[0] == '\\');
        assert(text.skip(2) =~= rest);
    } else if (c as u32) < 0x20 {
        let code = (c as u32) as nat;
        text::law_hex_is_read_back(code);
        assert(json_char(c).len() == 6);
        assert(text[0] == '\\' && text[1] == 'u');
        assert(text.subrange(2, 6) =~= text::hex(code, 4));
        assert(text.skip(6) =~= rest);
        assert(code as char == c);
    } else {
        assert(text[0] == c);
        assert(text.skip(1) =~= rest);
    }
}

proof fn lemma_body_is_read(s: Seq<char>, rest: Seq<char>)
    ensures
        json_reads(json_body(s) + rest) == s + json_reads(rest),
    decreases s.len(),
{
    if s.len() == 0 {
        assert(json_body(s) + rest =~= rest);
        assert(s + json_reads(rest) =~= json_reads(rest));
    } else {
        let front = s.drop_last();
        let tail = json_char(s.last()) + rest;
        lemma_body_is_read(front, tail);
        lemma_char_is_read(s.last(), rest);
        assert(json_body(s) + rest =~= json_body(front) + tail);
        assert(front + (seq![s.last()] + json_reads(rest)) =~= s + json_reads(rest));
    }
}

proof fn lemma_body_is_clean(s: Seq<char>, i: int)
    requires
        0 <= i < json_body(s).len(),
    ensures
        json_body(s)[i] as u32 >= 0x20,
        json_body(s)[i] == '"' ==> i > 0 && json_body(s)[i - 1] == '\\',
    decreases s.len(),
{
    let front = json_body(s.drop_last());
    if i < front.len() {
        lemma_body_is_clean(s.drop_last(), i);
    } else {
        reveal_strlit("\\\"");
        reveal_strlit("\\\\");
        reveal_strlit("\\n");
        reveal_strlit("\\r");
        reveal_strlit("\\t");
        reveal_strlit("\\u");
        let c = s.last();
        let k = i - front.len();
        assert(json_body(s)[i] == json_char(c)[k]);
        if c != '"' && c != '\\' && c != '\n' && c != '\r' && c != '\t' && (c as u32) < 0x20 {
            text::law_hex_is_read_back((c as u32) as nat);
            if k >= 2 {
                let d = text::hex((c as u32) as nat, 4)[k - 2];
                assert('0' <= d <= '9' || 'a' <= d <= 'f');
                assert(json_char(c)[k] == d);
            }
        }
        if k > 0 {
            assert(json_body(s)[i - 1] == json_char(c)[k - 1]);
        }
    }
}

/// A JSON string stands in quotes; a JSON reader reads the very text out of it;
/// and inside the quotes there is no control character, and no quote without a
/// backslash before it.
pub proof fn law_json_strings_are_read_back(s: Seq<char>, i: int)
    ensures
        json_string(s) == "\""@ + json_body(s) + "\""@,
        json_reads(json_body(s)) == s,
        0 <= i < json_body(s).len() ==> json_body(s)[i] as u32 >= 0x20,
        0 <= i < json_body(s).len() && json_body(s)[i] == '"' ==> i > 0 && json_body(s)[i - 1]
            == '\\',
{
    lemma_body_is_read(s, Seq::empty());
    assert(json_body(s) + Seq::<char>::empty() =~= json_body(s));
    assert(s + json_reads(Seq::empty()) =~= s);
    if 0 <= i < json_body(s).len() {
        lemma_body_is_clean(s, i);
    }
}

/// Arrays hold each text as a string, and objects each pair as a member, in
/// order and with a comma between them.
pub proof fn law_json_lists(
    items: Seq<Seq<char>>,
    item: Seq<char>,
    pairs: Seq<(Seq<char>, Seq<char>)>,
    pair: (Seq<char>, Seq<char>),
)
    ensures
        json_array(Seq::empty()) == "["@ + "]"@,
        json_array(seq![item]) == "["@ + json_string(item) + "]"@,
        items.len() > 0 ==> json_array(items.push(item)) == json_array(items).drop_last() + ", "@
            + json_string(item) + "]"@,
        json_object(Seq::empty()) == "{"@ + "}"@,
        json_object(seq![pair]) == "{"@ + json_string(pair.0) + ": "@ + json_string(pair.1) + "}"@,
        pairs.len() > 0 ==> json_object(pairs.push(pair)) == json_object(pairs).drop_last() + ", "@
            + json_string(pair.0) + ": "@ + json_string(pair.1) + "}"@,
{
    reveal_strlit("]");
    reveal_strlit("}");
    let none = Seq::<Seq<char>>::empty();
    let no_pairs = Seq::<(Seq<char>, Seq<char>)>::empty();
    assert(json_strings(none) =~= none);
    assert(json_members(no_pairs) =~= none);
    assert(json_array(none) =~= "["@ + "]"@);
    assert(json_object(no_pairs) =~= "{"@ + "}"@);
    assert(json_strings(seq![item]) =~= seq![json_string(item)]);
    let member = json_string(pair.0) + ": "@ + json_string(pair.1);
    assert(json_members(seq![pair]) =~= seq![member]);
    assert(json_object(seq![pair]) =~= "{"@ + json_string(pair.0) + ": "@ + json_string(pair.1)
        + "}"@);
    if items.len() > 0 {
        text::law_joined_grows_at_the_end(json_strings(items), json_string(item), ", "@);
        assert(json_strings(items.push(item)) =~= json_strings(items).push(json_string(item)));
        assert(json_array(items.push(item)) =~= json_array(items).drop_last() + ", "@ + json_string(
            item,
        ) + "]"@);
    }
    if pairs.len() > 0 {
        text::law_joined_grows_at_the_end(json_members(pairs), member, ", "@);
        assert(json_members(pairs.push(pair)) =~= json_members(pairs).push(member));
        assert(json_object(pairs.push(pair)) =~= json_object(pairs).drop_last() + ", "@
            + json_string(pair.0) + ": "@ + json_string(pair.1) + "}"@);
    }
}

} // verus!
