//! Bytes, as text.

use vstd::prelude::*;
use vstd::string::StringExecFns;
use vstd::utf8::{decode_utf8, valid_utf8};

verus! {

/// Calls `String::from_utf8`, which succeeds exactly on valid UTF-8 and then
/// gives the text that the bytes encode.
#[verifier::external_body]
fn string_from_utf8(bytes: Vec<u8>) -> (res: Option<String>)
    ensures
        match res {
            Some(text) => valid_utf8(bytes@) && text@ == decode_utf8(bytes@),
            None => !valid_utf8(bytes@),
        },
{
    String::from_utf8(bytes).ok()
}

/// What stands for bytes that are not text.
pub open spec fn not_utf8() -> Seq<char> {
    "<unknown-not-UTF8>"@
}

/// The text that `bytes` encode, or what stands for it.
pub open spec fn text_of(bytes: Seq<u8>) -> Seq<char> {
    if valid_utf8(bytes) {
        decode_utf8(bytes)
    } else {
        not_utf8()
    }
}

/// The `parts` one after the other, with a comma between any two.
pub open spec fn comma_separated(parts: Seq<Seq<char>>) -> Seq<char>
    decreases parts.len(),
{
    if parts.len() == 0 {
        Seq::empty()
    } else if parts.len() == 1 {
        parts.last()
    } else {
        comma_separated(parts.drop_last()) + ","@ + parts.last()
    }
}

/// The text that `val` encodes in UTF-8, or `<unknown-not-UTF8>` where it encodes none.
pub fn as_utf8(val: &[u8]) -> (res: String)
    ensures
        res@ == text_of(val@),
{
    match string_from_utf8(vstd::slice::slice_to_vec(val)) {
        Some(text) => text,
        None => "<unknown-not-UTF8>".to_owned(),
    }
}

/// The text of each of `val`, with a comma between any two.
pub fn as_utf8_vec(val: &[Vec<u8>]) -> (res: String)
    ensures
        res@ == comma_separated(val.deep_view().map_values(|bytes: Seq<u8>| text_of(bytes))),
{
    let ghost parts = val.deep_view().map_values(|bytes: Seq<u8>| text_of(bytes));
    let mut res = String::new();
    for i in 0..val.len()
        invariant
            parts == val.deep_view().map_values(|bytes: Seq<u8>| text_of(bytes)),
            res@ == comma_separated(parts.take(i as int)),
    {
        let text = as_utf8(val[i].as_slice());
        proof {
            let longer = parts.take(i + 1);
            assert(val.deep_view()[i as int] =~= val[i as int]@);
            assert(longer.last() == text@);
            assert(longer.drop_last() =~= parts.take(i as int));
        }
        if i > 0 {
            res.append(",");
            res.append(text.as_str());
        } else {
            res = text;
        }
    }
    assert(parts.take(val.len() as int) =~= parts);
    res
}

} // verus!
