//! JSON string literals, read with `serde_json`.

use vstd::prelude::*;

verus! {

/// The text that the JSON document `text` denotes when that document is a
/// single JSON string, as `serde_json` reads it; `None` when it is not one.
pub uninterp spec fn json_string_value(text: Seq<char>) -> Option<Seq<char>>;

/// Whether `c` may stand in a JSON string without an escape: any character
/// but the quotation mark, the reverse solidus and the control characters
/// U+0000 to U+001F.
pub open spec fn json_plain_char(c: char) -> bool {
    c != '"' && c != '\\' && (c as u32) >= 0x20
}

/// `t` between quotation marks.
pub open spec fn quoted(t: Seq<char>) -> Seq<char> {
    seq!['"'] + t + seq!['"']
}

/// `serde_json::from_str::<String>`: reads a JSON document that is a single
/// string. The contract names the result by `json_string_value` of the text,
/// and states the one fact that the JSON grammar (RFC 8259, section 7) plainly
/// gives: a quoted text without quotation mark, reverse solidus or control
/// character denotes that text itself.
#[verifier::external_body]
pub(crate) fn decode_json_string(text: &str) -> (r: Option<String>)
    ensures
        match r {
            Some(s) => json_string_value(text@) == Some(s@),
            None => json_string_value(text@) is None,
        },
        forall|t: Seq<char>|
            #![trigger quoted(t)]
            text@ == quoted(t) && (forall|i: int| 0 <= i < t.len() ==> json_plain_char(t[i]))
                ==> (r is Some && r->0@ == t),
{
    serde_json::from_str::<String>(text).ok()
}

/// Puts `t` between quotation marks.
pub fn quote_chars(t: &str) -> (r: String)
    ensures
        r@ == quoted(t@),
{
    let mut v: Vec<char> = Vec::new();
    v.push('"');
    crate::text::append_chars(&mut v, t);
    v.push('"');
    proof {
        assert(v@ == quoted(t@));
    }
    crate::text::string_from_chars(v.as_slice())
}

/// The text that `t` denotes once put between quotation marks and read as a JSON string.
pub fn decode_quoted(t: &str) -> (r: Option<String>)
    ensures
        match r {
            Some(s) => json_string_value(quoted(t@)) == Some(s@),
            None => json_string_value(quoted(t@)) is None,
        },
        (forall|i: int| 0 <= i < t@.len() ==> json_plain_char(t@[i])) ==> (r is Some && r->0@ == t@),
{
    let q = quote_chars(t);
    decode_json_string(q.as_str())
}

} // verus!
