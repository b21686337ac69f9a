//! Decoding of play-event log keys.
//!
//! A recognised key reads `custom_level_<40 upper-case hex chars>___<one
//! digit>___<alphanumeric tag>`; the hash, the difficulty digit and the tag
//! are extracted. Keys of any other shape are skipped, never an error.

use vstd::prelude::*;

use crate::data::RawSongPlay;
use crate::data::SongPlay;
use crate::data::SongPlayView;

verus! {

/// The raw play-event log: one entry per log key, each with its list of raw
/// play records.
pub type RawSongPlayData = Vec<(String, Vec<RawSongPlay>)>;

/// An ASCII decimal digit.
pub open spec fn is_digit_char(c: char) -> bool {
    48 <= c as u32 <= 57
}

/// An upper-case ASCII hexadecimal digit (`0-9A-F`).
pub open spec fn is_upper_hex_char(c: char) -> bool {
    48 <= c as u32 <= 57 || 65 <= c as u32 <= 70
}

/// An ASCII alphanumeric character (`0-9A-Za-z`).
pub open spec fn is_alnum_char(c: char) -> bool {
    48 <= c as u32 <= 57 || 65 <= c as u32 <= 90 || 97 <= c as u32 <= 122
}

/// Numeric value of an ASCII decimal digit.
pub open spec fn digit_val(c: char) -> int {
    c as u32 - 48
}

/// Whether `key` has the recognised shape: the fixed prefix, then exactly
/// forty upper-case hex characters, a triple underscore, one digit, a triple
/// underscore, and a non-empty alphanumeric tail.
pub open spec fn key_shape_ok(key: Seq<char>) -> bool {
    &&& key.len() >= 61
    &&& key.subrange(0, 13) == "custom_level_"@
    &&& forall|i: int| 13 <= i < 53 ==> is_upper_hex_char(#[trigger] key[i])
    &&& key.subrange(53, 56) == "___"@
    &&& is_digit_char(key[56])
    &&& key.subrange(57, 60) == "___"@
    &&& forall|i: int| 60 <= i < key.len() ==> is_alnum_char(#[trigger] key[i])
}

/// The content hash, difficulty and characteristic tag encoded in a
/// recognised key; `None` for keys of any other shape.
pub open spec fn spec_parse_song_key(key: Seq<char>) -> Option<(Seq<char>, int, Seq<char>)> {
    if key_shape_ok(key) {
        Some((key.subrange(13, 53), digit_val(key[56]), key.subrange(60, key.len() as int)))
    } else {
        None
    }
}

/// Decodes a play-event log key into its content hash, difficulty digit and
/// characteristic tag; `None` when the key is not of the recognised shape.
pub fn parse_song_key(key: &str) -> (r: Option<(String, i32, String)>)
    ensures
        match r {
            Some(p) => spec_parse_song_key(key@) == Some((p.0@, p.1 as int, p.2@)),
            None => spec_parse_song_key(key@) is None,
        },
{
    let n = key.unicode_len();
    if n < 61 {
        return None;
    }
    let prefix = key.substring_char(0, 13).to_owned();
    if !prefix.eq(&String::from_str("custom_level_")) {
        return None;
    }
    let mut i: usize = 13;
    while i < 53
        invariant
            13 <= i <= 53,
            n == key@.len(),
            n >= 61,
            forall|j: int| 13 <= j < i ==> is_upper_hex_char(#[trigger] key@[j]),
        decreases 53 - i,
    {
        let u = key.get_char(i) as u32;
        if !(48 <= u && u <= 57 || 65 <= u && u <= 70) {
            return None;
        }
        i += 1;
    }
    let sep1 = key.substring_char(53, 56).to_owned();
    if !sep1.eq(&String::from_str("___")) {
        return None;
    }
    let d = key.get_char(56) as u32;
    if !(48 <= d && d <= 57) {
        return None;
    }
    let sep2 = key.substring_char(57, 60).to_owned();
    if !sep2.eq(&String::from_str("___")) {
        return None;
    }
    let mut i: usize = 60;
    while i < n
        invariant
            60 <= i <= n,
            n == key@.len(),
            forall|j: int| 60 <= j < i ==> is_alnum_char(#[trigger] key@[j]),
        decreases n - i,
    {
        let u = key.get_char(i) as u32;
        if !(48 <= u && u <= 57 || 65 <= u && u <= 90 || 97 <= u && u <= 122) {
            return None;
        }
        i += 1;
    }
    let hash = key.substring_char(13, 53).to_owned();
    let tag = key.substring_char(60, n).to_owned();
    let difficulty: i32 = (d - 48) as i32;
    Some((hash, difficulty, tag))
}

/// The play events one log entry contributes: one per raw record when its
/// key is recognised, none otherwise.
pub open spec fn spec_plays_of_entry(key: Seq<char>, plays: Seq<RawSongPlay>) -> Seq<SongPlayView> {
    match spec_parse_song_key(key) {
        Some(p) => Seq::new(
            plays.len(),
            |i: int|
                SongPlayView {
                    timestamp: plays[i].date as int,
                    song_hash: p.0,
                    difficulty: p.1,
                    characteristic: p.2,
                    raw_song_play: plays[i],
                },
        ),
        None => Seq::empty(),
    }
}

/// Every play event the raw log describes, in log order: entries with
/// unrecognised keys are skipped, and each recognised entry contributes its
/// raw records in order.
pub open spec fn spec_read_song_plays(data: Seq<(String, Vec<RawSongPlay>)>) -> Seq<SongPlayView>
    decreases data.len(),
{
    if data.len() == 0 {
        Seq::empty()
    } else {
        spec_read_song_plays(data.drop_last()) + spec_plays_of_entry(
            data.last().0@,
            data.last().1@,
        )
    }
}

/// Decodes the raw play-event log into the flat list of play events.
///
/// Entries whose key is not of the recognised shape are silently skipped;
/// each recognised entry yields one event per raw play record, tagged with
/// the hash, difficulty and characteristic decoded from the key.
pub fn read_song_plays(data: &RawSongPlayData) -> (r: Vec<SongPlay>)
    ensures
        r@.map_values(|p: SongPlay| p@) == spec_read_song_plays(data@),
{
    let mut out: Vec<SongPlay> = Vec::new();
    let mut i: usize = 0;
    while i < data.len()
        invariant
            0 <= i <= data.len(),
            out@.map_values(|p: SongPlay| p@) == spec_read_song_plays(data@.take(i as int)),
        decreases data.len() - i,
    {
        proof {
            assert(data@.take(i + 1).drop_last() =~= data@.take(i as int));
            assert(data@.take(i + 1).last() == data@[i as int]);
        }
        let entry = &data[i];
        if let Some((hash, difficulty, tag)) = parse_song_key(entry.0.as_str()) {
            let plays = &entry.1;
            let mut k: usize = 0;
            while k < plays.len()
                invariant
                    0 <= k <= plays.len(),
                    spec_parse_song_key(entry.0@) == Some((hash@, difficulty as int, tag@)),
                    entry == data@[i as int],
                    0 <= i < data.len(),
                    out@.map_values(|p: SongPlay| p@) == spec_read_song_plays(
                        data@.take(i as int),
                    ) + spec_plays_of_entry(entry.0@, plays@).take(k as int),
                decreases plays.len() - k,
            {
                let raw = plays[k];
                let play = SongPlay {
                    timestamp: raw.date,
                    song_hash: hash.clone(),
                    difficulty: difficulty,
                    characteristic: tag.clone(),
                    raw_song_play: raw,
                };
                let ghost prev = out@.map_values(|p: SongPlay| p@);
                out.push(play);
                proof {
                    assert(out@.map_values(|p: SongPlay| p@) =~= prev.push(play@));
                    assert(spec_plays_of_entry(entry.0@, plays@).take(k + 1) =~= spec_plays_of_entry(
                        entry.0@,
                        plays@,
                    ).take(k as int).push(spec_plays_of_entry(entry.0@, plays@)[k as int]));
                    assert(spec_read_song_plays(data@.take(i as int)) + spec_plays_of_entry(
                        entry.0@,
                        plays@,
                    ).take(k + 1) =~= prev.push(play@));
                }
                k += 1;
            }
            proof {
                assert(spec_plays_of_entry(entry.0@, plays@).take(plays@.len() as int)
                    =~= spec_plays_of_entry(entry.0@, plays@));
            }
        } else {
            proof {
                assert(spec_plays_of_entry(entry.0@, entry.1@) =~= Seq::<SongPlayView>::empty());
                assert(out@.map_values(|p: SongPlay| p@) + Seq::<SongPlayView>::empty()
                    =~= out@.map_values(|p: SongPlay| p@));
            }
        }
        i += 1;
    }
    proof {
        assert(data@.take(data@.len() as int) =~= data@);
    }
    out
}

} // verus!
