//! Trusted boundary around the JSON encoding of a list of strings: the form
//! in which a project's technology list is persisted. Encoding and decoding
//! are deterministic in their input, so each result carries a name, and the
//! encoder is additionally known to produce what the decoder accepts.
use vstd::prelude::*;

verus! {

/// What the outside encoder produces for a list of strings: its JSON array
/// text.
pub uninterp spec fn json_of_strings(v: Seq<Seq<char>>) -> Seq<char>;

/// What the outside decoder makes of a string: the list of strings its JSON
/// array text denotes, or nothing when it is not such text.
pub uninterp spec fn strings_of_json(s: Seq<char>) -> Option<Seq<Seq<char>>>;

/// Relies on `serde_json::to_string` on a `Vec<String>`: the encoding
/// depends on the items alone, it always succeeds (its error paths arise
/// only from faulty `Serialize` impls or non-string map keys, and writing
/// to the byte buffer is infallible), and `serde_json::from_str` reads it
/// back as the same items.
#[verifier::external_body]
pub fn encode_string_list(v: &Vec<String>) -> (r: Result<String, String>)
    ensures
        r is Ok,
        r matches Ok(s) ==> s@ == json_of_strings(v.deep_view()) && strings_of_json(s@) == Some(
            v.deep_view(),
        ),
{
    match serde_json::to_string(v) {
        Ok(s) => Ok(s),
        Err(e) => Err(e.to_string()),
    }
}

/// Relies on `serde_json::from_str` into a `Vec<String>`: the verdict and
/// the items depend on the text alone.
#[verifier::external_body]
pub fn decode_string_list(s: &str) -> (r: Result<Vec<String>, String>)
    ensures
        r matches Ok(v) ==> strings_of_json(s@) == Some(v.deep_view()),
        r is Err ==> strings_of_json(s@) is None,
{
    match serde_json::from_str::<Vec<String>>(s) {
        Ok(v) => Ok(v),
        Err(e) => Err(e.to_string()),
    }
}

} // verus!
