//! Reading a song's on-disk descriptor out of its JSON text.
//!
//! What serde_json decodes is named, not restated: [`json_string_member`]
//! stands for the string member a JSON document carries under a key, and a
//! descriptor is decoded exactly when all five of its fields are such
//! members. Callers treat a missing descriptor as the normal degradation
//! case and fall back to the bare content hash.

use vstd::prelude::*;

use crate::data::SongInfoDat;

verus! {

/// The string member the JSON document `s` carries under `key`: absent when
/// the text does not parse, the document is no object, the key is missing,
/// or the member is no string. serde_json decides it; the result depends on
/// the text and the key alone, so it is named rather than restated.
pub uninterp spec fn json_string_member(s: Seq<char>, key: Seq<char>) -> Option<Seq<char>>;

/// Relies on `serde_json::from_str::<Value>`, `Value::get` and
/// `Value::as_str`: the string member of the parsed document under `key`.
/// The composition is a function of the text and the key alone; no input
/// panics (malformed text is an `Err`, a missing or non-string member a
/// `None`).
#[verifier::external_body]
fn json_string_field(text: &str, key: &str) -> (r: Option<String>)
    ensures
        r is Some <==> json_string_member(text@, key@) is Some,
        r matches Some(s) ==> s@ == json_string_member(text@, key@).unwrap(),
{
    serde_json::from_str::<serde_json::Value>(text)
        .ok()
        .and_then(|v| v.get(key).and_then(|m| m.as_str().map(str::to_string)))
}

/// Decodes a song descriptor from the text of its `info.dat` file.
///
/// Returns `Some` exactly when the document carries all five descriptor
/// fields as string members, and then returns exactly those members; any
/// other outcome is `None`, which callers treat as a missing descriptor,
/// never an error.
pub fn try_read_song_info(info_json: &str) -> (r: Option<SongInfoDat>)
    ensures
        r is Some <==> (json_string_member(info_json@, "_version"@) is Some
            && json_string_member(info_json@, "_songName"@) is Some && json_string_member(
            info_json@,
            "_songSubName"@,
        ) is Some && json_string_member(info_json@, "_songAuthorName"@) is Some
            && json_string_member(info_json@, "_levelAuthorName"@) is Some),
        r matches Some(si) ==> (si.version@ == json_string_member(
            info_json@,
            "_version"@,
        ).unwrap() && si.song_name@ == json_string_member(info_json@, "_songName"@).unwrap()
            && si.song_sub_name@ == json_string_member(info_json@, "_songSubName"@).unwrap()
            && si.song_author_name@ == json_string_member(info_json@, "_songAuthorName"@).unwrap()
            && si.level_author_name@ == json_string_member(
            info_json@,
            "_levelAuthorName"@,
        ).unwrap()),
{
    let version = match json_string_field(info_json, "_version") {
        Some(s) => s,
        None => {
            return None;
        },
    };
    let song_name = match json_string_field(info_json, "_songName") {
        Some(s) => s,
        None => {
            return None;
        },
    };
    let song_sub_name = match json_string_field(info_json, "_songSubName") {
        Some(s) => s,
        None => {
            return None;
        },
    };
    let song_author_name = match json_string_field(info_json, "_songAuthorName") {
        Some(s) => s,
        None => {
            return None;
        },
    };
    let level_author_name = match json_string_field(info_json, "_levelAuthorName") {
        Some(s) => s,
        None => {
            return None;
        },
    };
    Some(
        SongInfoDat {
            version,
            song_name,
            song_sub_name,
            song_author_name,
            level_author_name,
        },
    )
}

} // verus!
