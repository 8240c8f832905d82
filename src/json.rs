//! The JSON text pieces that the wire messages are assembled from, and the
//! lookups that inbound messages are read with.

use vstd::prelude::*;

verus! {

/// What `serde_json` writes for a string: the quoted and escaped literal.
pub uninterp spec fn json_quoted(s: Seq<char>) -> Seq<char>;

/// What `serde_json` finds at a JSON pointer of the document `doc`: nothing
/// (the document does not parse, or holds nothing there), a value that is not
/// a string (`Some(None)`), or a string.
pub uninterp spec fn json_found(doc: Seq<u8>, pointer: Seq<char>) -> Option<Option<Seq<char>>>;

/// Where the first JSON value of `b` ends, counted from the start of `b`
/// (leading white space included), when `b` starts with one.
pub uninterp spec fn json_first_value_end(b: Seq<u8>) -> Option<int>;

/// Relies on `serde_json::StreamDeserializer` over `b`: its first item, and
/// `byte_offset`, the bytes taken by that item (at least one, at most all).
#[verifier::external_body]
pub(crate) fn first_value_end(b: &[u8]) -> (r: Option<usize>)
    ensures
        r is None ==> json_first_value_end(b@) is None,
        r matches Some(e) ==> json_first_value_end(b@) == Some(e as int) && 0 < e <= b@.len(),
{
    let mut items = serde_json::Deserializer::from_slice(b).into_iter::<serde_json::Value>();
    match items.next() {
        Some(Ok(_)) => Some(items.byte_offset()),
        _ => None,
    }
}

/// Relies on `serde_json::to_string` applied to a `str`: the JSON string
/// literal for `s`.
#[verifier::external_body]
fn json_string(s: &str) -> (r: String)
    ensures
        r@ == json_quoted(s@),
{
    serde_json::to_string(s).unwrap_or_default()
}

/// The JSON string literal for `s`.
pub fn quoted(s: &str) -> (r: String)
    ensures
        r@ == json_quoted(s@),
{
    json_string(s)
}

/// Relies on `serde_json::from_slice` into a `serde_json::Value`, then
/// `Value::pointer` and `Value::as_str` on the result.
#[verifier::external_body]
pub(crate) fn lookup(doc: &[u8], pointer: &str) -> (r: Option<Option<String>>)
    ensures
        r is None <==> json_found(doc@, pointer@) is None,
        r matches Some(f) ==> (f is None <==> json_found(doc@, pointer@)->0 is None),
        r matches Some(Some(t)) ==> json_found(doc@, pointer@) == Some(Some(t@)),
{
    match serde_json::from_slice::<serde_json::Value>(doc) {
        Ok(v) => v.pointer(pointer).map(|found| found.as_str().map(String::from)),
        Err(_) => None,
    }
}

/// The texts of `items` separated by commas.
pub open spec fn comma_list(items: Seq<Seq<char>>) -> Seq<char>
    decreases items.len(),
{
    if items.len() == 0 {
        Seq::empty()
    } else if items.len() == 1 {
        items[0]
    } else {
        comma_list(items.drop_last()) + ","@ + items.last()
    }
}

/// Appending one more item to a comma-separated list.
pub proof fn lemma_comma_list_push(items: Seq<Seq<char>>, x: Seq<char>)
    ensures
        comma_list(items.push(x)) == if items.len() == 0 {
            x
        } else {
            comma_list(items) + ","@ + x
        },
{
    assert(items.push(x).drop_last() =~= items);
}

/// Appends `item` to the comma-separated list held in `out`, which lists
/// `count` items so far.
pub fn push_list_item(out: &mut String, count: usize, item: &str)
    ensures
        final(out)@ == if count == 0 {
            old(out)@ + item@
        } else {
            old(out)@ + ","@ + item@
        },
{
    if count > 0 {
        out.append(",");
    }
    out.append(item);
}

} // verus!
