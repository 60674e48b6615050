//! JSON documents, written by `serde_json`.

use vstd::prelude::*;

verus! {

/// A JSON document.
#[verifier::external_type_specification]
#[verifier::external_body]
pub struct ExValue(serde_json::Value);

/// The reason for which a value could not be written as JSON.
#[verifier::external_type_specification]
#[verifier::external_body]
pub struct ExError(serde_json::Error);

/// The bytes that `serde_json::to_vec` writes for a document, or `None` where
/// it fails.
pub uninterp spec fn json_bytes(value: serde_json::Value) -> Option<Seq<u8>>;

/// Calls `serde_json::to_vec` on a document.
///
/// What is written depends on the document alone, and so does whether writing
/// fails; nothing is said here of the bytes themselves, nor of the error.
#[verifier::external_body]
pub(crate) fn to_vec(value: &serde_json::Value) -> (res: Result<Vec<u8>, serde_json::Error>)
    ensures
        match res {
            Ok(bytes) => json_bytes(*value) == Some(bytes@),
            Err(_) => json_bytes(*value) is None,
        },
{
    serde_json::to_vec(value)
}

} // verus!
