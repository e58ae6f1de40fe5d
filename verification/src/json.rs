//! What JSON documents hold at a JSON Pointer.

use crate::pieces::{join, joined};
use crate::text::{opt_text, own, texts};
use serde_json::Value;
use vstd::prelude::*;
use vstd::string::*;

verus! {

/// A text as a JSON string: in quotes, with what needs escaping escaped.
pub uninterp spec fn json_quoted(s: Seq<char>) -> Seq<char>;

/// The string at a pointer of the document that a text parses to. `None`
/// where the text is no JSON, nothing is there, or it is no string.
pub uninterp spec fn json_text_at(document: Seq<char>, pointer: Seq<char>) -> Option<Seq<char>>;

/// The length of the array at a pointer of the document that a text parses
/// to. `None` where the text is no JSON, nothing is there, or it is no array.
pub uninterp spec fn json_len_at(document: Seq<char>, pointer: Seq<char>) -> Option<nat>;

/// The number at a pointer of the document that a text parses to. `None`
/// where the text is no JSON, nothing is there, or it is no number that a
/// `u64` holds.
pub uninterp spec fn json_number_at(document: Seq<char>, pointer: Seq<char>) -> Option<u64>;

/// Calls `serde_json::to_string` on a string, which does not fail. What it
/// writes is a function of the text alone, and is not said further.
#[verifier::external_body]
pub(crate) fn quote(s: &str) -> (r: String)
    ensures
        r@ == json_quoted(s@),
{
    serde_json::to_string(s).unwrap_or_default()
}

/// Texts as a JSON array of strings.
pub open spec fn json_list(items: Seq<Seq<char>>) -> Seq<char> {
    "["@ + joined(items.map_values(|s: Seq<char>| json_quoted(s)), ","@) + "]"@
}

/// Writes texts as a JSON array of strings.
pub(crate) fn quote_list(items: &Vec<String>) -> (r: String)
    ensures
        r@ == json_list(texts(items@)),
{
    let mut parts: Vec<String> = Vec::new();
    for i in 0..items.len()
        invariant
            parts@.len() == i,
            forall|k: int| 0 <= k < i ==> (#[trigger] parts@[k])@ == json_quoted(items@[k]@),
    {
        parts.push(quote(items[i].as_str()));
    }
    assert(texts(parts@) =~= texts(items@).map_values(|s: Seq<char>| json_quoted(s)));
    let mut r = own("[");
    r.append(join(&parts, ",").as_str());
    r.append("]");
    r
}

/// Calls `serde_json::from_str`, `Value::pointer` and `Value::as_str`. The
/// string is a function of the two texts alone, and is not said further.
#[verifier::external_body]
pub(crate) fn text_at(document: &str, pointer: &str) -> (r: Option<String>)
    ensures
        opt_text(r) == json_text_at(document@, pointer@),
{
    let value: Value = serde_json::from_str(document).ok()?;
    value.pointer(pointer)?.as_str().map(str::to_owned)
}

/// Calls `serde_json::from_str`, `Value::pointer` and `Value::as_array`. The
/// length is a function of the two texts alone, and is not said further.
#[verifier::external_body]
pub(crate) fn len_at(document: &str, pointer: &str) -> (r: Option<usize>)
    ensures
        json_len_at(document@, pointer@) == (match r {
            Some(n) => Some(n as nat),
            None => None,
        }),
{
    let value: Value = serde_json::from_str(document).ok()?;
    value.pointer(pointer)?.as_array().map(Vec::len)
}

/// Calls `serde_json::from_str`, `Value::pointer` and `Value::as_u64`. The
/// number is a function of the two texts alone, and is not said further.
#[verifier::external_body]
pub(crate) fn number_at(document: &str, pointer: &str) -> (r: Option<u64>)
    ensures
        r == json_number_at(document@, pointer@),
{
    let value: Value = serde_json::from_str(document).ok()?;
    value.pointer(pointer)?.as_u64()
}

// ---------------------------------------------------------------------------
// Laws
// ---------------------------------------------------------------------------

/// A list is written in brackets, its strings quoted and with commas between
/// them.
pub proof fn lists_are_written_in_brackets(items: Seq<Seq<char>>, s: Seq<char>, t: Seq<char>)
    ensures
        json_list(seq![s]) == "["@ + json_quoted(s) + "]"@,
        json_list(seq![s, t]) == "["@ + (json_quoted(s) + ","@ + json_quoted(t)) + "]"@,
{
    reveal_with_fuel(joined, 3);
    let one = seq![s].map_values(|s: Seq<char>| json_quoted(s));
    let two = seq![s, t].map_values(|s: Seq<char>| json_quoted(s));
    assert(one =~= seq![json_quoted(s)]);
    assert(two =~= seq![json_quoted(s), json_quoted(t)]);
    assert(two.drop_last() =~= seq![json_quoted(s)]);
    assert(joined(one, ","@) =~= json_quoted(s));
    assert(joined(two, ","@) =~= json_quoted(s) + ","@ + json_quoted(t));
}

} // verus!
