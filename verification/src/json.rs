use vstd::prelude::*;
use crate::text::{digit_char, str_eq};

verus! {

/// A JSON number as the reply logic reads it: its value when it is an
/// unsigned integer that fits in a `u64` (what `as_u64` gives), and its JSON
/// text.
#[derive(Debug)]
pub struct JsonNumber {
    pub as_u64: Option<u64>,
    pub text: String,
}

/// A JSON value returned by the page, with object members in document order.
#[derive(Debug)]
pub enum JsonValue {
    Null,
    Bool(bool),
    Number(JsonNumber),
    Str(String),
    Array(Vec<JsonValue>),
    Object(Vec<(String, JsonValue)>),
}

/// The value of the first member named `key`.
pub open spec fn member(entries: Seq<(String, JsonValue)>, key: Seq<char>) -> Option<JsonValue>
    decreases entries.len(),
{
    if entries.len() == 0 {
        None
    } else if entries[0].0@ == key {
        Some(entries[0].1)
    } else {
        member(entries.drop_first(), key)
    }
}

/// The member `key` of an object; `None` for a missing member or a value that
/// is no object.
pub open spec fn field(v: JsonValue, key: Seq<char>) -> Option<JsonValue> {
    match v {
        JsonValue::Object(entries) => member(entries@, key),
        _ => None,
    }
}

/// The string held by member `key`, if it is a string.
pub open spec fn str_field(v: JsonValue, key: Seq<char>) -> Option<Seq<char>> {
    match field(v, key) {
        Some(JsonValue::Str(s)) => Some(s@),
        _ => None,
    }
}

/// The boolean held by member `key`, if it is one.
pub open spec fn bool_field(v: JsonValue, key: Seq<char>) -> Option<bool> {
    match field(v, key) {
        Some(JsonValue::Bool(b)) => Some(b),
        _ => None,
    }
}

/// The `u64` held by member `key`, if it is an unsigned integer that fits.
pub open spec fn u64_field(v: JsonValue, key: Seq<char>) -> Option<u64> {
    match field(v, key) {
        Some(JsonValue::Number(n)) => n.as_u64,
        _ => None,
    }
}

/// The member `key` of `v`, if `v` is an object that has one.
pub fn get<'a>(v: &'a JsonValue, key: &str) -> (r: Option<&'a JsonValue>)
    ensures
        match r {
            Some(x) => field(*v, key@) == Some(*x),
            None => field(*v, key@) is None,
        },
{
    match v {
        JsonValue::Object(entries) => {
            let mut i: usize = 0;
            assert(entries@.skip(0) =~= entries@);
            while i < entries.len()
                invariant
                    i <= entries@.len(),
                    field(*v, key@) == member(entries@, key@),
                    member(entries@, key@) == member(entries@.skip(i as int), key@),
                decreases entries.len() - i,
            {
                let ghost rest = entries@.skip(i as int);
                assert(rest[0] == entries@[i as int]);
                assert(rest.drop_first() =~= entries@.skip(i + 1));
                if str_eq(entries[i].0.as_str(), key) {
                    return Some(&entries[i].1);
                }
                i = i + 1;
            }
            None
        },
        _ => None,
    }
}

/// The string member `key`, if there is one.
pub fn get_str<'a>(v: &'a JsonValue, key: &str) -> (r: Option<&'a String>)
    ensures
        match r {
            Some(s) => str_field(*v, key@) == Some(s@),
            None => str_field(*v, key@) is None,
        },
{
    match get(v, key) {
        Some(JsonValue::Str(s)) => Some(s),
        _ => None,
    }
}

/// The boolean member `key`, if there is one.
pub fn get_bool(v: &JsonValue, key: &str) -> (r: Option<bool>)
    ensures
        r == bool_field(*v, key@),
{
    match get(v, key) {
        Some(JsonValue::Bool(b)) => Some(*b),
        _ => None,
    }
}

/// The unsigned integer member `key`, if there is one that fits a `u64`.
pub fn get_u64(v: &JsonValue, key: &str) -> (r: Option<u64>)
    ensures
        r == u64_field(*v, key@),
{
    match get(v, key) {
        Some(JsonValue::Number(n)) => n.as_u64,
        _ => None,
    }
}

/// How `serde_json` writes one character inside a string literal: `"` and
/// `\` behind a backslash; backspace, tab, line feed, form feed and carriage
/// return as `\b`, `\t`, `\n`, `\f`, `\r`; any other character below U+0020 as
/// `\u00` and two lower-case hexadecimal digits; every other character as
/// itself.
pub open spec fn json_escape(c: char) -> Seq<char> {
    if c == '"' {
        seq!['\\', '"']
    } else if c == '\\' {
        seq!['\\', '\\']
    } else if c == '\u{8}' {
        seq!['\\', 'b']
    } else if c == '\t' {
        seq!['\\', 't']
    } else if c == '\n' {
        seq!['\\', 'n']
    } else if c == '\u{c}' {
        seq!['\\', 'f']
    } else if c == '\r' {
        seq!['\\', 'r']
    } else if (c as u32) < 0x20 {
        seq!['\\', 'u', '0', '0', digit_char((c as u32 / 16) as nat), digit_char((c as u32 % 16) as nat)]
    } else {
        seq![c]
    }
}

/// The characters of `s`, each written as `json_escape` writes it.
pub open spec fn json_escaped(s: Seq<char>) -> Seq<char>
    decreases s.len(),
{
    if s.len() == 0 {
        Seq::empty()
    } else {
        json_escape(s[0]) + json_escaped(s.drop_first())
    }
}

/// The JSON string literal `serde_json::to_string` writes for `s`: a double
/// quote, the escaped characters, a double quote.
pub open spec fn json_quoted(s: Seq<char>) -> Seq<char> {
    seq!['"'] + json_escaped(s) + seq!['"']
}

/// `serde_json::to_string(s)` for a string slice: the JSON string literal for
/// `s` (see `json_quoted`; the escape table is `ESCAPE` and
/// `write_char_escape` in serde_json's `ser.rs`). Serialising a `str` does
/// not fail, so the empty fallback for an error is never taken.
#[verifier::external_body]
pub(crate) fn json_quote(s: &str) -> (r: String)
    ensures
        r@ == json_quoted(s@),
{
    serde_json::to_string(s).unwrap_or_default()
}

/// The elements of a pretty-printed array of strings: each on a new line
/// indented by two spaces, separated by commas.
pub open spec fn pretty_items(items: Seq<Seq<char>>) -> Seq<char>
    decreases items.len(),
{
    if items.len() == 0 {
        Seq::empty()
    } else if items.len() == 1 {
        "\n  "@ + json_quoted(items[0])
    } else {
        pretty_items(items.drop_last()) + ",\n  "@ + json_quoted(items.last())
    }
}

/// The pretty-printed JSON array `serde_json::to_string_pretty` writes for a
/// list of strings: `[]` when it is empty, else `[`, the items, a new line and
/// `]`.
pub open spec fn pretty_string_list(items: Seq<Seq<char>>) -> Seq<char> {
    if items.len() == 0 {
        "[]"@
    } else {
        "["@ + pretty_items(items) + "\n]"@
    }
}

/// `serde_json::to_string_pretty` of a list of strings (see
/// `pretty_string_list`; the layout is `PrettyFormatter`'s array methods with
/// its two-space indent). Serialising strings does not fail, so the empty
/// fallback for an error is never taken.
#[verifier::external_body]
pub(crate) fn pretty_strings(items: &Vec<String>) -> (r: String)
    ensures
        r@ == pretty_string_list(items@.map_values(|s: String| s@)),
{
    serde_json::to_string_pretty(items).unwrap_or_default()
}

// ---------------------------------------------------------------------------
// A spliced string literal cannot be broken out of
// ---------------------------------------------------------------------------

/// Reading the body of a double-quoted JavaScript (or JSON) string literal
/// from position `i` of `t`: the position of the double quote that closes
/// it, if it closes. A backslash takes the character after it with it.
pub open spec fn closing_quote(t: Seq<char>, i: int) -> Option<int>
    decreases t.len() - i,
{
    if i < 0 || i >= t.len() {
        None
    } else if t[i] == '"' {
        Some(i)
    } else if t[i] == '\\' {
        if i + 1 < t.len() {
            closing_quote(t, i + 2)
        } else {
            None
        }
    } else {
        closing_quote(t, i + 1)
    }
}

/// No escape sequence holds a character below U+0020 (a raw line break
/// among them).
proof fn lemma_escape_printable(c: char)
    ensures
        forall|j: int| 0 <= j < json_escape(c).len() ==> json_escape(c)[j] as u32 >= 0x20,
{
    if (c as u32) < 0x20 && c != '\u{8}' && c != '\t' && c != '\n' && c != '\u{c}' && c != '\r' {
        let e = json_escape(c);
        assert(digit_char((c as u32 / 16) as nat) as u32 >= 0x20);
        assert(digit_char((c as u32 % 16) as nat) as u32 >= 0x20);
        assert(e[4] == digit_char((c as u32 / 16) as nat));
        assert(e[5] == digit_char((c as u32 % 16) as nat));
    }
}

/// Scanning an escaped body followed by a double quote ends at that quote.
proof fn lemma_escaped_body_closes(s: Seq<char>, t: Seq<char>, p: int)
    requires
        0 <= p,
        p + json_escaped(s).len() < t.len(),
        t.subrange(p, p + json_escaped(s).len()) == json_escaped(s),
        t[p + json_escaped(s).len()] == '"',
    ensures
        closing_quote(t, p) == Some(p + json_escaped(s).len()),
        forall|j: int|
            p <= j < p + json_escaped(s).len() ==> #[trigger] t[j] as u32 >= 0x20,
    decreases s.len(),
{
    let body = json_escaped(s);
    if s.len() == 0 {
        assert(body.len() == 0);
    } else {
        let e = json_escape(s[0]);
        let rest = json_escaped(s.drop_first());
        assert(body == e + rest);
        let q = p + e.len();
        assert forall|j: int| 0 <= j < e.len() implies t[p + j] == e[j] by {
            assert(t.subrange(p, p + body.len())[j] == body[j]);
        }
        assert(t.subrange(q, q + rest.len()) =~= rest) by {
            assert forall|j: int| 0 <= j < rest.len() implies t.subrange(q, q + rest.len())[j]
                == rest[j] by {
                assert(t.subrange(p, p + body.len())[e.len() + j] == body[e.len() + j]);
            }
        }
        lemma_escaped_body_closes(s.drop_first(), t, q);
        lemma_escape_printable(s[0]);
        assert forall|j: int| p <= j < p + body.len() implies #[trigger] t[j] as u32 >= 0x20 by {
            if j < q {
                assert(t[p + (j - p)] == e[j - p]);
            }
        }
        let c = s[0];
        if c == '"' || c == '\\' || c == '\u{8}' || c == '\t' || c == '\n' || c == '\u{c}'
            || c == '\r' {
            assert(t[p] == '\\');
            assert(closing_quote(t, p) == closing_quote(t, p + 2));
        } else if (c as u32) < 0x20 {
            assert(t[p] == '\\');
            assert(t[p + 1] == 'u');
            assert(t[p + 2] == '0');
            assert(t[p + 3] == '0');
            assert(t[p + 4] == digit_char((c as u32 / 16) as nat));
            assert(t[p + 5] == digit_char((c as u32 % 16) as nat));
            assert(t[p + 4] != '"' && t[p + 4] != '\\');
            assert(t[p + 5] != '"' && t[p + 5] != '\\');
            assert(closing_quote(t, p + 2) == closing_quote(t, p + 3));
            assert(closing_quote(t, p + 3) == closing_quote(t, p + 4));
            assert(closing_quote(t, p + 4) == closing_quote(t, p + 5));
            assert(closing_quote(t, p + 5) == closing_quote(t, p + 6));
            assert(closing_quote(t, p) == closing_quote(t, p + 2));
        } else {
            assert(t[p] == c);
            assert(closing_quote(t, p) == closing_quote(t, p + 1));
        }
    }
}

/// A text spliced into a script as `json_quoted` cannot break out of its
/// string literal: whatever stands before and after it, the literal opened by
/// its first double quote closes exactly at its last one, and no character
/// in between is a raw control character such as a line break.
pub proof fn lemma_quoted_literal_closes(head: Seq<char>, s: Seq<char>, tail: Seq<char>)
    ensures
        ({
            let t = head + json_quoted(s) + tail;
            &&& t[head.len() as int] == '"'
            &&& closing_quote(t, head.len() as int + 1) == Some(head.len() + json_quoted(s).len() - 1)
            &&& forall|j: int|
                head.len() < j < head.len() + json_quoted(s).len() - 1 ==> #[trigger] t[j] as u32
                    >= 0x20
        }),
{
    let t = head + json_quoted(s) + tail;
    let body = json_escaped(s);
    let p: int = head.len() as int + 1;
    assert(json_quoted(s).len() == body.len() + 2);
    assert(t[head.len() as int] == '"');
    assert(t.subrange(p, p + body.len()) =~= body);
    assert(t[p + body.len()] == '"');
    lemma_escaped_body_closes(s, t, p);
}

} // verus!
