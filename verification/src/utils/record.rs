//! The registry's records: for each vault a JSON object that holds its id.

use super::json::{json_u64_member, json_u64_object, read_u64_member, write_u64_object};
use super::text::utf8_text;
use vstd::prelude::*;
use vstd::string::StringSliceAdditionalSpecFns;
use vstd::utf8::{decode_utf8, encode_utf8, valid_utf8};

verus! {

/// The member of a record that holds the vault's id.
pub const ID_KEY: &'static str = "id";

/// The id that a record holds: `None` where the value is no UTF-8 text, no
/// JSON object, or holds no id.
pub open spec fn record_id(value: Seq<u8>) -> Option<u64> {
    if valid_utf8(value) {
        json_u64_member(decode_utf8(value), ID_KEY@)
    } else {
        None
    }
}

/// The record that is written for an id, as text.
pub open spec fn record_text(id: u64) -> Option<Seq<char>> {
    json_u64_object(ID_KEY@, id)
}

/// Reads the id that a record holds.
pub fn read_record_id(value: &[u8]) -> (r: Option<u64>)
    ensures
        r == record_id(value@),
{
    match utf8_text(value) {
        Some(text) => {
            proof {
                vstd::utf8::encode_utf8_decode_utf8(text@);
            }
            read_u64_member(text, ID_KEY)
        },
        None => None,
    }
}

/// Writes the record for an id.
pub fn write_record(id: u64) -> (r: Option<String>)
    ensures
        match r {
            Some(text) => record_text(id) == Some(text@) && record_id(encode_utf8(text@))
                == Some(id),
            None => record_text(id) is None,
        },
{
    match write_u64_object(ID_KEY, id) {
        Ok(text) => {
            proof {
                vstd::utf8::encode_utf8_valid_utf8(text@);
                vstd::utf8::encode_utf8_decode_utf8(text@);
            }
            Some(text)
        },
        Err(_) => None,
    }
}

} // verus!
