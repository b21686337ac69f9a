//! Human-readable segment labels.
//!
//! A fully resolvable event is labelled `<song name> - <difficulty letter>
//! [<author>] <mapper>`, prefixed with `[F] ` when the play failed. When the
//! metadata store does not know the song, or its descriptor could not be
//! read, the label degrades to the bare content hash — degradation is never
//! an error.

use vstd::prelude::*;
use vstd::string::StringExecFns;

use crate::data::spec_lookup;
use crate::data::SongCoreDataCache;
use crate::data::SongCoreDataElement;
use crate::data::SongInfoDat;
use crate::data::SongPlay;

verus! {

/// The letter shown for a difficulty code. The fixed table maps both 0 and 3
/// to `E`; codes outside the table map to `?` rather than failing.
pub open spec fn spec_difficulty_letter(d: int) -> Seq<char> {
    if d == 0 {
        "E"@
    } else if d == 1 {
        "M"@
    } else if d == 2 {
        "H"@
    } else if d == 3 {
        "E"@
    } else if d == 4 {
        "Ep"@
    } else {
        "?"@
    }
}

/// The failure marker: present exactly when the play did not complete.
pub open spec fn spec_fail_prefix(p: SongPlay) -> Seq<char> {
    if p.is_failed() {
        "[F] "@
    } else {
        Seq::empty()
    }
}

/// The full label for an event whose descriptor was resolved.
pub open spec fn spec_full_label(p: SongPlay, si: SongInfoDat) -> Seq<char> {
    spec_fail_prefix(p) + si.song_name@ + " - "@ + spec_difficulty_letter(p.difficulty as int)
        + " ["@ + si.song_author_name@ + "] "@ + si.level_author_name@
}

/// What an `Option` of a reference points at.
pub open spec fn spec_opt_info(o: Option<&SongInfoDat>) -> Option<SongInfoDat> {
    match o {
        Some(si) => Some(*si),
        None => None,
    }
}

/// The label for an event: the full label when the metadata store knows the
/// song and its descriptor was read, the bare content hash otherwise.
pub open spec fn spec_song_info_str(
    p: SongPlay,
    cache: Seq<SongCoreDataElement>,
    info: Option<SongInfoDat>,
) -> Seq<char> {
    if spec_lookup(cache, p.song_hash@) is None {
        p.song_hash@
    } else {
        match info {
            Some(si) => spec_full_label(p, si),
            None => p.song_hash@,
        }
    }
}

/// An event whose song the metadata store does not know keeps its bare
/// content hash as label, whatever descriptor is offered.
pub proof fn lemma_label_fallback(
    p: SongPlay,
    cache: Seq<SongCoreDataElement>,
    info: Option<SongInfoDat>,
)
    requires
        spec_lookup(cache, p.song_hash@) is None,
    ensures
        spec_song_info_str(p, cache, info) == p.song_hash@,
{
}

/// Builds the label for one event.
///
/// `song_info` is the song's on-disk descriptor, when one could be read; the
/// label falls back to the bare content hash when the metadata store lacks
/// the song or no descriptor is given.
pub fn get_song_info_str(
    song_play: &SongPlay,
    song_core_data_cache: &SongCoreDataCache,
    song_info: Option<&SongInfoDat>,
) -> (r: String)
    ensures
        r@ == spec_song_info_str(*song_play, song_core_data_cache@, spec_opt_info(song_info)),
{
    if song_core_data_cache.lookup(&song_play.song_hash).is_none() {
        return song_play.song_hash.clone();
    }
    let si = match song_info {
        Some(si) => si,
        None => {
            return song_play.song_hash.clone();
        },
    };
    let mut out = String::new();
    if song_play.raw_song_play.last_note != -1 {
        out.append("[F] ");
    }
    out.append(si.song_name.as_str());
    out.append(" - ");
    match song_play.difficulty {
        0 => out.append("E"),
        1 => out.append("M"),
        2 => out.append("H"),
        3 => out.append("E"),
        4 => out.append("Ep"),
        _ => out.append("?"),
    }
    out.append(" [");
    out.append(si.song_author_name.as_str());
    out.append("] ");
    out.append(si.level_author_name.as_str());
    proof {
        assert(out@ =~= spec_full_label(*song_play, *si));
    }
    out
}

} // verus!
