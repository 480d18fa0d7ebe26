//! Trusted boundary to the JSON parser.
//!
//! The binary format's side-channel carries a small JSON object whose
//! optional members are arrays of track strings. `serde_json` parses it;
//! this module wraps that work in a single trusted reader per member.
//! Whether the text is well shaped and which strings a member carries
//! are functions of the text alone, so both are given names that the
//! decoder's contracts — and nothing else — speak through.

use crate::binary::strs_bytes;
use vstd::prelude::*;
use vstd::string::StringSliceAdditionalSpecFns;
use vstd::utf8::{decode_utf8, valid_utf8};

verus! {

/// Whether the side-channel text is a JSON object whose member under the
/// given key is absent or an array of strings.
pub uninterp spec fn sideband_member_ok(t: Seq<char>, key: Seq<char>) -> bool;

/// The strings (as their byte texts) of the side-channel object's array
/// member under the given key; an absent member reads as the empty list.
pub uninterp spec fn sideband_member(t: Seq<char>, key: Seq<char>) -> Seq<Seq<u8>>;

/// Relies on `core::str::from_utf8`: succeeds exactly on valid UTF-8 and
/// returns the text those bytes encode.
#[verifier::external_body]
pub fn utf8_to_str(b: &[u8]) -> (r: Option<&str>)
    ensures
        r is Some <==> valid_utf8(b@),
        r matches Some(s) ==> s.spec_bytes() == b@ && s@ == decode_utf8(b@),
{
    core::str::from_utf8(b).ok()
}

/// Relies on `serde_json::from_str::<Value>` and `Value::{is_object,
/// get, as_array, as_str}`: read the string-array member under `key` of
/// a JSON object, `None` when the text is not such an object or the
/// member is present with another shape, the empty list when the member
/// is absent. The calls decide on the text and key alone, so the result
/// is deterministic in them.
#[verifier::external_body]
pub fn sideband_member_list(text: &str, key: &str) -> (r: Option<Vec<String>>)
    ensures
        r is Some <==> sideband_member_ok(text@, key@),
        r matches Some(l) ==> strs_bytes(l@) == sideband_member(text@, key@),
{
    let v: serde_json::Value = serde_json::from_str(text).ok()?;
    if !v.is_object() {
        return None;
    }
    match v.get(key) {
        None => Some(Vec::new()),
        Some(m) => m.as_array()?.iter().map(|x| x.as_str().map(str::to_owned)).collect(),
    }
}

} // verus!
