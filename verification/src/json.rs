use vstd::prelude::*;
use crate::pairs::{texts_of, Entry};

verus! {

/// The error type of `serde_json`, carried through as it comes.
#[verifier::external_type_specification]
#[verifier::external_body]
pub struct ExJsonError(serde_json::Error);

/// Why a text could not be produced.
#[derive(Clone, Copy, Debug, PartialEq, Eq, Structural)]
pub enum EncodeError {
    /// The encoder refused the value.
    Json,
}

/// The JSON text that `serde_json` writes for an object with the given
/// members, each value a string.
pub uninterp spec fn json_object_text(members: Seq<(Seq<char>, Seq<char>)>) -> Seq<char>;

/// Calls `serde_json::to_string` on a `serde_json::Map` that holds each key of
/// `entries` with its value as a JSON string.
///
/// Not proved: that the call succeeds, and that the text handed back is the
/// one named by [`json_object_text`], that is, that it depends on the keys and
/// values alone. The encoder fails where a value refuses to be written or a
/// map has a key that is no string; a map from strings to strings has
/// neither.
#[verifier::external_body]
pub(crate) fn encode_object(entries: &Vec<Entry>) -> (r: Result<String, serde_json::Error>)
    ensures
        r is Ok,
        r matches Ok(text) ==> text@ == json_object_text(texts_of(entries@)),
{
    let object: serde_json::Map<String, serde_json::Value> = entries.iter().map(
        |e| (e.key.clone(), serde_json::Value::String(e.value.clone())),
    ).collect();
    serde_json::to_string(&object)
}

/// What is handed on for a result of the encoder: the text where there is
/// one, the library's own error where there is none.
pub fn encoded(r: Result<String, serde_json::Error>) -> (out: Result<String, EncodeError>)
    ensures
        match r {
            Ok(text) => out == Ok::<String, EncodeError>(text),
            Err(_) => out == Err::<String, EncodeError>(EncodeError::Json),
        },
{
    match r {
        Ok(text) => Ok(text),
        Err(_) => Err(EncodeError::Json),
    }
}

} // verus!
