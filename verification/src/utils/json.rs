//! Reading and writing of the JSON texts that the stores hold.
//!
//! Records are flat JSON objects. What a member of such a text holds, and
//! which text is written for given members, is left to `serde_json` and only
//! named here.

use vstd::prelude::*;
use vstd::string::StringSliceAdditionalSpecFns;

verus! {

/// `serde_json::Error`, the error of reading or writing JSON. Nothing of it
/// is visible to the proofs.
#[verifier::external_type_specification]
#[verifier::external_body]
pub struct ExJsonError(serde_json::Error);

/// The unsigned integer that member `key` of the JSON object `text` holds.
/// `None` where `text` is no JSON object, has no such member, or the member
/// is no integer in the range of `u64`.
pub uninterp spec fn json_u64_member(text: Seq<char>, key: Seq<char>) -> Option<u64>;

/// The string that member `key` of the JSON object `text` holds. `None`
/// where `text` is no JSON object, has no such member, or the member is no
/// string.
pub uninterp spec fn json_string_member(text: Seq<char>, key: Seq<char>) -> Option<Seq<char>>;

/// The elements of the array that member `key` of the JSON object `text`
/// holds, each as an unsigned integer where it is one in the range of `u64`.
/// `None` where `text` is no JSON object, has no such member, or the member
/// is no array.
pub uninterp spec fn json_array_member(text: Seq<char>, key: Seq<char>) -> Option<
    Seq<Option<u64>>,
>;

/// The JSON text of an object with one member, an unsigned integer.
pub uninterp spec fn json_u64_object(key: Seq<char>, value: u64) -> Option<Seq<char>>;

/// The JSON text of an object with three members: a string, an array of
/// bytes and another string.
pub uninterp spec fn json_entry_object(
    first_key: Seq<char>,
    first: Seq<char>,
    bytes_key: Seq<char>,
    bytes: Seq<u8>,
    last_key: Seq<char>,
    last: Seq<char>,
) -> Option<Seq<char>>;

/// The elements of a JSON array of numbers that holds `bytes`.
pub open spec fn bytes_as_elements(bytes: Seq<u8>) -> Seq<Option<u64>> {
    Seq::new(bytes.len(), |i: int| Some(bytes[i] as u64))
}

/// Calls `serde_json::from_str` for a `Value`, then `Value::get` and
/// `Value::as_u64`.
///
/// Trusted: the result is what `json_u64_member` names.
#[verifier::external_body]
pub(crate) fn read_u64_member(text: &str, key: &str) -> (r: Option<u64>)
    ensures
        r == json_u64_member(text@, key@),
{
    let document: serde_json::Value = serde_json::from_str(text).ok()?;
    document.get(key)?.as_u64()
}

/// Calls `serde_json::from_str` for a `Value`, then `Value::get` and
/// `Value::as_str`.
///
/// Trusted: the result is what `json_string_member` names.
#[verifier::external_body]
pub(crate) fn read_string_member(text: &str, key: &str) -> (r: Option<String>)
    ensures
        match r {
            Some(s) => json_string_member(text@, key@) == Some(s@),
            None => json_string_member(text@, key@) is None,
        },
{
    let document: serde_json::Value = serde_json::from_str(text).ok()?;
    document.get(key)?.as_str().map(|s| s.to_owned())
}

/// Calls `serde_json::from_str` for a `Value`, then `Value::get` and
/// `Value::as_array`, and `Value::as_u64` on each element.
///
/// Trusted: the result is what `json_array_member` names.
#[verifier::external_body]
pub(crate) fn read_array_member(text: &str, key: &str) -> (r: Option<Vec<Option<u64>>>)
    ensures
        match r {
            Some(elements) => json_array_member(text@, key@) == Some(elements@),
            None => json_array_member(text@, key@) is None,
        },
{
    let document: serde_json::Value = serde_json::from_str(text).ok()?;
    Some(document.get(key)?.as_array()?.iter().map(|element| element.as_u64()).collect())
}

/// Builds a `serde_json::Map` with one number and calls
/// `serde_json::to_string` on it.
///
/// Trusted: the result is the text that `json_u64_object` names, and
/// `json_u64_member` reads the number back from it.
#[verifier::external_body]
pub(crate) fn write_u64_object(key: &str, value: u64) -> (r: Result<String, serde_json::Error>)
    ensures
        match r {
            Ok(text) => json_u64_object(key@, value) == Some(text@) && json_u64_member(
                text@,
                key@,
            ) == Some(value),
            Err(_) => json_u64_object(key@, value) is None,
        },
{
    let mut object = serde_json::Map::new();
    object.insert(key.to_owned(), serde_json::Value::from(value));
    serde_json::to_string(&serde_json::Value::Object(object))
}

/// Builds a `serde_json::Map` with a string, an array of numbers and another
/// string, and calls `serde_json::to_string` on it.
///
/// Trusted: the result is the text that `json_entry_object` names; where the
/// three keys differ, `json_string_member` and `json_array_member` read the
/// members back from it.
#[verifier::external_body]
pub(crate) fn write_entry_object(
    first_key: &str,
    first: &str,
    bytes_key: &str,
    bytes: &[u8],
    last_key: &str,
    last: &str,
) -> (r: Result<String, serde_json::Error>)
    ensures
        match r {
            Ok(text) => {
                &&& json_entry_object(first_key@, first@, bytes_key@, bytes@, last_key@, last@)
                    == Some(text@)
                &&& first_key@ != bytes_key@ && first_key@ != last_key@ && bytes_key@ != last_key@
                    ==> {
                    &&& json_string_member(text@, first_key@) == Some(first@)
                    &&& json_array_member(text@, bytes_key@) == Some(bytes_as_elements(bytes@))
                    &&& json_string_member(text@, last_key@) == Some(last@)
                }
            },
            Err(_) => json_entry_object(first_key@, first@, bytes_key@, bytes@, last_key@, last@)
                is None,
        },
{
    let mut object = serde_json::Map::new();
    object.insert(first_key.to_owned(), serde_json::Value::from(first));
    object.insert(bytes_key.to_owned(), serde_json::Value::from(bytes));
    object.insert(last_key.to_owned(), serde_json::Value::from(last));
    serde_json::to_string(&serde_json::Value::Object(object))
}

/// The bytes that a JSON array of numbers holds: `None` where an element is
/// no integer from 0 to 255.
pub open spec fn elements_as_bytes(elements: Seq<Option<u64>>) -> Option<Seq<u8>> {
    if forall|i: int| 0 <= i < elements.len() ==> is_byte(#[trigger] elements[i]) {
        Some(Seq::new(elements.len(), |i: int| elements[i].unwrap() as u8))
    } else {
        None
    }
}

/// Whether an element of a JSON array is an integer from 0 to 255.
pub open spec fn is_byte(element: Option<u64>) -> bool {
    element matches Some(n) && n <= 255
}

/// Turns the elements of a JSON array into bytes.
pub fn bytes_of_elements(elements: &Vec<Option<u64>>) -> (r: Option<Vec<u8>>)
    ensures
        match r {
            Some(bytes) => elements_as_bytes(elements@) == Some(bytes@),
            None => elements_as_bytes(elements@) is None,
        },
{
    let mut bytes: Vec<u8> = Vec::new();
    let mut i: usize = 0;
    while i < elements.len()
        invariant
            i <= elements.len(),
            bytes@.len() == i,
            forall|j: int| 0 <= j < i ==> is_byte(#[trigger] elements@[j]),
            forall|j: int| 0 <= j < i ==> bytes@[j] == elements@[j].unwrap() as u8,
        decreases elements.len() - i,
    {
        match elements[i] {
            Some(n) => {
                if n > 255 {
                    assert(!is_byte(elements@[i as int]));
                    return None;
                }
                bytes.push(n as u8);
            },
            None => {
                assert(!is_byte(elements@[i as int]));
                return None;
            },
        }
        i += 1;
    }
    assert(bytes@ =~= Seq::new(elements@.len(), |i: int| elements@[i].unwrap() as u8));
    Some(bytes)
}

/// Bytes written as a JSON array of numbers are read back as they were.
pub proof fn lemma_elements_of_bytes(bytes: Seq<u8>)
    ensures
        elements_as_bytes(bytes_as_elements(bytes)) == Some(bytes),
{
    let elements = bytes_as_elements(bytes);
    assert forall|i: int| 0 <= i < elements.len() implies is_byte(#[trigger] elements[i]) by {}
    assert(Seq::new(elements.len(), |i: int| elements[i].unwrap() as u8) =~= bytes);
}

} // verus!
