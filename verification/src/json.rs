//! Lists of named numbers as JSON text, written and read by `serde_json`.

use vstd::prelude::*;

verus! {

/// Named numbers, each name as a sequence of characters.
pub open spec fn named_numbers(fields: Seq<(String, u64)>) -> Seq<(Seq<char>, u64)> {
    fields.map_values(|f: (String, u64)| (f.0@, f.1))
}

/// The JSON text that `serde_json` writes for a list of named numbers:
/// an array that holds, for each of them in order, the array of its name
/// and its number.
pub uninterp spec fn json_text(fields: Seq<(Seq<char>, u64)>) -> Seq<u8>;

/// The named numbers that `serde_json` reads from a JSON text, `None`
/// where the text is no array of pairs of a string and an unsigned number
/// below 2^64.
pub uninterp spec fn json_fields(text: Seq<u8>) -> Option<Seq<(Seq<char>, u64)>>;

/// `serde_json::to_vec` on a list of pairs of a string and a `u64`: the
/// compact JSON text of the list. Writing strings and numbers into a
/// vector cannot fail.
#[verifier::external_body]
pub(crate) fn write_json(fields: &Vec<(String, u64)>) -> (text: Vec<u8>)
    ensures
        text@ == json_text(named_numbers(fields@)),
{
    serde_json::to_vec(fields).unwrap()
}

/// `serde_json::from_slice` to a list of pairs of a string and a `u64`:
/// the list that the JSON text holds, `None` where it holds none.
#[verifier::external_body]
pub(crate) fn read_json(text: &[u8]) -> (fields: Option<Vec<(String, u64)>>)
    ensures
        match fields {
            Some(list) => json_fields(text@) == Some(named_numbers(list@)),
            None => json_fields(text@) is None,
        },
{
    serde_json::from_slice(text).ok()
}

} // verus!
