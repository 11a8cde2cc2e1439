//! JSON text handled through `serde_json`: string literals written exactly as
//! serde_json writes them, and the few reads of a parsed document that the
//! plugin header needs.

use vstd::prelude::*;

verus! {

#[verifier::external_type_specification]
#[verifier::external_body]
pub struct ExJsonError(serde_json::Error);

/// Lower-case hexadecimal digit of a value below 16.
pub open spec fn hex_digit(n: int) -> char {
    if n < 10 {
        (('0' as int) + n) as char
    } else {
        (('a' as int) + n - 10) as char
    }
}

/// How serde_json writes one character inside a string literal.
pub open spec fn json_escape(c: char) -> Seq<char> {
    if c == '"' {
        seq!['\\', '"']
    } else if c == '\\' {
        seq!['\\', '\\']
    } else if c == '\u{8}' {
        seq!['\\', 'b']
    } else if c == '\t' {
        seq!['\\', 't']
    } else if c == '\n' {
        seq!['\\', 'n']
    } else if c == '\u{c}' {
        seq!['\\', 'f']
    } else if c == '\r' {
        seq!['\\', 'r']
    } else if (c as int) < 0x20 {
        seq!['\\', 'u', '0', '0', hex_digit((c as int) / 16), hex_digit((c as int) % 16)]
    } else {
        seq![c]
    }
}

/// The escaped contents of a JSON string literal for `s`.
pub open spec fn json_escaped(s: Seq<char>) -> Seq<char>
    decreases s.len(),
{
    if s.len() == 0 {
        Seq::empty()
    } else {
        json_escaped(s.drop_last()) + json_escape(s.last())
    }
}

/// The JSON string literal for `s`, quotes included.
pub open spec fn json_quoted(s: Seq<char>) -> Seq<char> {
    seq!['"'] + json_escaped(s) + seq!['"']
}

/// An escaped character never holds a control character (below U+0020).
pub proof fn lemma_escape_no_control(c: char)
    ensures
        forall|i: int| 0 <= i < json_escape(c).len() ==> (json_escape(c)[i] as int) >= 0x20,
{
    if (c as int) < 0x20 && c != '\u{8}' && c != '\t' && c != '\n' && c != '\u{c}' && c != '\r' {
        let e = json_escape(c);
        assert((c as int) / 16 < 2);
        assert(e[4] == hex_digit((c as int) / 16));
        assert(e[5] == hex_digit((c as int) % 16));
    }
}

/// A JSON string literal holds no control character, a line feed least of
/// all: it fits on one line of a line-delimited protocol.
pub proof fn lemma_quoted_no_control(s: Seq<char>)
    ensures
        forall|i: int| 0 <= i < json_quoted(s).len() ==> (json_quoted(s)[i] as int) >= 0x20,
{
    lemma_escaped_no_control(s);
}

proof fn lemma_escaped_no_control(s: Seq<char>)
    ensures
        forall|i: int| 0 <= i < json_escaped(s).len() ==> (json_escaped(s)[i] as int) >= 0x20,
    decreases s.len(),
{
    if s.len() > 0 {
        lemma_escaped_no_control(s.drop_last());
        lemma_escape_no_control(s.last());
        let a = json_escaped(s.drop_last());
        let b = json_escape(s.last());
        assert forall|i: int| 0 <= i < (a + b).len() implies ((a + b)[i] as int) >= 0x20 by {
            if i >= a.len() {
                assert((a + b)[i] == b[i - a.len()]);
            }
        }
    }
}

/// `serde_json::to_string` on a string slice: the JSON string literal.
/// serde_json writes a `&str` into a `Vec<u8>` with its escape table and
/// never fails on it; the contract claims both.
#[verifier::external_body]
fn serde_quote(s: &str) -> (res: Result<String, serde_json::Error>)
    ensures
        res is Ok,
        res matches Ok(q) ==> q@ == json_quoted(s@),
{
    serde_json::to_string(s)
}

/// The JSON string literal for `s`, as serde_json writes it.
pub fn quote(s: &str) -> (res: String)
    ensures
        res@ == json_quoted(s@),
{
    match serde_quote(s) {
        Ok(q) => q,
        Err(_) => {
            proof {
                assert(false);
            }
            String::new()
        },
    }
}

/// The error message that serde_json gives when `text` is not one JSON
/// value (surrounded by whitespace at most); `None` when it is.
pub uninterp spec fn json_error_message(text: Seq<char>) -> Option<Seq<char>>;

/// The string held at `key` of the JSON object `text`: `None` when `text`
/// does not parse, is not an object, has no such key, or holds no string there.
pub uninterp spec fn json_str_member(text: Seq<char>, key: Seq<char>) -> Option<Seq<char>>;

/// The elements of the array held at `key` of the JSON object `text`, each
/// as its string or `None` when it is no string; `None` when there is no
/// such array.
pub uninterp spec fn json_list_member(text: Seq<char>, key: Seq<char>) -> Option<
    Seq<Option<Seq<char>>>,
>;

/// Whether `text` parses as one JSON value that is an array.
pub uninterp spec fn json_is_array(text: Seq<char>) -> bool;

pub open spec fn opt_view(o: Option<String>) -> Option<Seq<char>> {
    match o {
        Some(s) => Some(s@),
        None => None,
    }
}

/// `serde_json::from_str::<serde_json::Value>`, reduced to the text of its
/// error. The contract claims only that this text is a function of the input:
/// the name `json_error_message`, `None` exactly when the input parses.
#[verifier::external_body]
pub(crate) fn json_syntax_error(text: &str) -> (res: Option<String>)
    ensures
        opt_view(res) == json_error_message(text@),
{
    serde_json::from_str::<serde_json::Value>(text).err().map(|e| e.to_string())
}

/// `serde_json::from_str::<serde_json::Value>`, then `Value::get` with a
/// string key and `as_str`. The contract claims only that the result is a
/// function of the text and the key: the name `json_str_member`.
#[verifier::external_body]
pub(crate) fn json_string_member(text: &str, key: &str) -> (res: Option<String>)
    ensures
        opt_view(res) == json_str_member(text@, key@),
{
    serde_json::from_str::<serde_json::Value>(text).ok().and_then(
        |v| v.get(key).and_then(|m| m.as_str()).map(|s| s.to_string()),
    )
}

/// `serde_json::from_str::<serde_json::Value>`, then `Value::get` with a
/// string key, `as_array`, and `as_str` on each element. The contract claims
/// only that the result is a function of the text and the key: the name
/// `json_list_member`.
#[verifier::external_body]
pub(crate) fn json_string_list_member(text: &str, key: &str) -> (res: Option<Vec<Option<String>>>)
    ensures
        match res {
            Some(v) => json_list_member(text@, key@) == Some(v@.map_values(|e| opt_view(e))),
            None => json_list_member(text@, key@) is None,
        },
{
    serde_json::from_str::<serde_json::Value>(text).ok().and_then(
        |v|
            v.get(key).and_then(|m| m.as_array()).map(
                |a| a.iter().map(|e| e.as_str().map(|s| s.to_string())).collect(),
            ),
    )
}

/// `serde_json::from_str::<serde_json::Value>`, then `Value::is_array`; a text
/// that does not parse gives `false`. The contract claims only that the
/// result is a function of the text: the name `json_is_array`.
#[verifier::external_body]
pub(crate) fn json_array_test(text: &str) -> (res: bool)
    ensures
        res == json_is_array(text@),
{
    serde_json::from_str::<serde_json::Value>(text).map(|v| v.is_array()).unwrap_or(false)
}

/// The JSON object of strings that `text` is, as a map from keys to values
/// (a key given twice keeps its last value); `None` when `text` is not such
/// an object.
pub uninterp spec fn json_string_map(text: Seq<char>) -> Option<Map<Seq<char>, Seq<char>>>;

/// `pairs` lists the map `m`: every key once, each with its value.
pub open spec fn lists_map(pairs: Seq<(String, String)>, m: Map<Seq<char>, Seq<char>>) -> bool {
    &&& forall|i: int, j: int| 0 <= i < j < pairs.len() ==> pairs[i].0@ != pairs[j].0@
    &&& forall|i: int| 0 <= i < pairs.len() ==> m.contains_key(#[trigger] pairs[i].0@)
        && m[pairs[i].0@] == pairs[i].1@
    &&& forall|k: Seq<char>| #[trigger] m.contains_key(k) ==> exists|i: int|
        0 <= i < pairs.len() && pairs[i].0@ == k
}

/// `serde_json::from_str` into a `BTreeMap<String, String>`, listed in key
/// order (a map's iteration holds each key once). The contract claims that
/// the pairs list the map named `json_string_map` of the text, and `None`
/// exactly when that name gives none.
#[verifier::external_body]
pub(crate) fn json_string_pairs(text: &str) -> (res: Option<Vec<(String, String)>>)
    ensures
        match res {
            None => json_string_map(text@) is None,
            Some(v) => json_string_map(text@) is Some && lists_map(v@, json_string_map(text@)->Some_0),
        },
{
    serde_json::from_str::<std::collections::BTreeMap<String, String>>(text).ok().map(
        |m| m.into_iter().collect(),
    )
}

} // verus!
