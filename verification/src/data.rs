//! Core data model: play events, song metadata, and the metadata cache.
//!
//! Timestamps are milliseconds since the Unix epoch; durations are
//! milliseconds. The metadata cache is a vector-backed map keyed by the
//! song's content hash, with a well-formedness invariant: hashes are unique
//! and durations lie in `[0, MAX_TIME_MS]`.

use vstd::prelude::*;

verus! {

/// Upper bound (in magnitude) on every absolute time and duration the
/// library works with, chosen so that all the arithmetic the reconstruction
/// performs stays inside `i64`.
pub const MAX_TIME_MS: i64 = 0x2000_0000_0000_0000;

/// One raw play record from the play-event log: an epoch-millisecond
/// completion timestamp, two score fields, the "last note index" (where `-1`
/// signals a completed play and anything else a failed or aborted one), and
/// an integer parameter.
#[derive(Debug, Clone, Copy, PartialEq, Eq, Structural)]
pub struct RawSongPlay {
    pub date: i64,
    pub modified_score: i64,
    pub raw_score: i64,
    pub last_note: i64,
    pub param: i64,
}

/// A decoded play event: the raw record joined with the song identity
/// decoded from its log key.
#[derive(Debug)]
pub struct SongPlay {
    /// Completion instant, milliseconds since the Unix epoch.
    pub timestamp: i64,
    /// Content hash identifying the song (40 upper-case hex characters).
    pub song_hash: String,
    /// Difficulty code decoded from the log key (a single digit).
    pub difficulty: i32,
    /// Characteristic tag decoded from the log key.
    pub characteristic: String,
    /// The raw record this event was decoded from.
    pub raw_song_play: RawSongPlay,
}

/// Mathematical image of a [`SongPlay`].
pub ghost struct SongPlayView {
    pub timestamp: int,
    pub song_hash: Seq<char>,
    pub difficulty: int,
    pub characteristic: Seq<char>,
    pub raw_song_play: RawSongPlay,
}

impl View for SongPlay {
    type V = SongPlayView;

    open spec fn view(&self) -> SongPlayView {
        SongPlayView {
            timestamp: self.timestamp as int,
            song_hash: self.song_hash@,
            difficulty: self.difficulty as int,
            characteristic: self.characteristic@,
            raw_song_play: self.raw_song_play,
        }
    }
}

impl SongPlay {
    /// A play completed when the log recorded the success sentinel `-1` in
    /// its "last note" field; any other value marks a failed or aborted run.
    pub open spec fn is_failed(&self) -> bool {
        self.raw_song_play.last_note != -1
    }
}

impl Clone for SongPlay {
    fn clone(&self) -> (r: Self)
        ensures
            r == *self,
    {
        SongPlay {
            timestamp: self.timestamp,
            song_hash: self.song_hash.clone(),
            difficulty: self.difficulty,
            characteristic: self.characteristic.clone(),
            raw_song_play: self.raw_song_play,
        }
    }
}

/// A song's on-disk descriptor: the fields of its `info.dat` file.
#[derive(Debug, Clone)]
pub struct SongInfoDat {
    pub version: String,
    pub song_name: String,
    pub song_sub_name: String,
    pub song_author_name: String,
    pub level_author_name: String,
}

/// One entry of the song-hash store: maps an on-disk path to the song's
/// content hash (plus a directory hash used for cache invalidation).
#[derive(Debug, Clone)]
pub struct JsonSongHashDataElement {
    pub directory_hash: i64,
    pub song_hash: String,
}

/// One entry of the duration store: a catalog id and the song's duration in
/// milliseconds.
#[derive(Debug, Clone)]
pub struct JsonSongDurationCacheElement {
    pub id: String,
    /// Duration in milliseconds.
    pub duration: i64,
}

/// Joined per-song metadata: path, hashes, catalog id and duration
/// (milliseconds).
#[derive(Debug, Clone)]
pub struct SongCoreDataElement {
    pub path: String,
    pub directory_hash: i64,
    pub song_hash: String,
    pub id: String,
    /// Duration in milliseconds.
    pub duration: i64,
}

/// The song-hash store: pairs of on-disk path and hash record, in a fixed
/// walk order.
pub type JsonSongHashData = Vec<(String, JsonSongHashDataElement)>;

/// The duration store: pairs of on-disk path and duration record, in a fixed
/// walk order.
pub type JsonSongDurationCache = Vec<(String, JsonSongDurationCacheElement)>;

/// First entry of `s` whose `song_hash` reads `hash`, if any.
pub open spec fn spec_lookup(s: Seq<SongCoreDataElement>, hash: Seq<char>) -> Option<
    SongCoreDataElement,
>
    decreases s.len(),
{
    if s.len() == 0 {
        None
    } else if s[0].song_hash@ == hash {
        Some(s[0])
    } else {
        spec_lookup(s.drop_first(), hash)
    }
}

/// The per-song metadata store, keyed by content hash.
///
/// Backed by a vector whose invariant keeps the hashes unique, so a lookup
/// is unambiguous, and every duration inside `[0, MAX_TIME_MS]`, so segment
/// arithmetic cannot overflow.
#[derive(Debug, Clone)]
pub struct SongCoreDataCache {
    entries: Vec<SongCoreDataElement>,
}

impl View for SongCoreDataCache {
    type V = Seq<SongCoreDataElement>;

    closed spec fn view(&self) -> Seq<SongCoreDataElement> {
        self.entries@
    }
}

impl SongCoreDataCache {
    /// Well-formedness: unique hashes, durations within bounds.
    pub open spec fn wf(&self) -> bool {
        &&& forall|i: int, j: int|
            0 <= i < j < self@.len() ==> self@[i].song_hash@ != self@[j].song_hash@
        &&& forall|i: int| 0 <= i < self@.len() ==> 0 <= #[trigger] self@[i].duration <= MAX_TIME_MS
    }

    pub fn new() -> (r: SongCoreDataCache)
        ensures
            r@ == Seq::<SongCoreDataElement>::empty(),
            r.wf(),
    {
        SongCoreDataCache { entries: Vec::new() }
    }

    /// The entry for `hash`, if the store has one.
    pub fn lookup(&self, hash: &String) -> (r: Option<&SongCoreDataElement>)
        ensures
            match r {
                Some(e) => spec_lookup(self@, hash@) == Some(*e),
                None => spec_lookup(self@, hash@) is None,
            },
            self.wf() && r is Some ==> 0 <= r.unwrap().duration <= MAX_TIME_MS,
    {
        proof {
            assert(self@.skip(0) =~= self@);
        }
        let mut i: usize = 0;
        while i < self.entries.len()
            invariant
                0 <= i <= self.entries.len(),
                forall|j: int| 0 <= j < i ==> self@[j].song_hash@ != hash@,
                spec_lookup(self@, hash@) == spec_lookup(self@.skip(i as int), hash@),
            decreases self.entries.len() - i,
        {
            proof {
                lemma_lookup_skip_step(self@, hash@, i as int);
            }
            if self.entries[i].song_hash.eq(hash) {
                return Some(&self.entries[i]);
            }
            i += 1;
        }
        proof {
            assert(self@.skip(i as int) =~= Seq::<SongCoreDataElement>::empty());
        }
        None
    }
}

/// First entry of the duration store whose path reads `path`, if any.
pub open spec fn spec_dur_lookup(
    s: Seq<(String, JsonSongDurationCacheElement)>,
    path: Seq<char>,
) -> Option<JsonSongDurationCacheElement>
    decreases s.len(),
{
    if s.len() == 0 {
        None
    } else if s[0].0@ == path {
        Some(s[0].1)
    } else {
        spec_dur_lookup(s.drop_first(), path)
    }
}

/// The metadata entry joined from a path, its hash-store record and its
/// duration-store record.
pub open spec fn spec_joined_element(
    path: String,
    he: JsonSongHashDataElement,
    de: JsonSongDurationCacheElement,
) -> SongCoreDataElement {
    SongCoreDataElement {
        path: path,
        directory_hash: he.directory_hash,
        song_hash: he.song_hash,
        id: de.id,
        duration: de.duration,
    }
}

/// The join of the hash store with the duration store, walked in order.
///
/// A hash-store entry contributes a cache entry only when the duration store
/// has its path, the recorded duration lies in `[0, MAX_TIME_MS]`, and no
/// earlier entry already claimed the same content hash; everything else is
/// treated as missing metadata and skipped, never an error.
pub open spec fn spec_build_cache(
    hd: Seq<(String, JsonSongHashDataElement)>,
    dc: Seq<(String, JsonSongDurationCacheElement)>,
) -> Seq<SongCoreDataElement>
    decreases hd.len(),
{
    if hd.len() == 0 {
        Seq::empty()
    } else {
        let prev = spec_build_cache(hd.drop_last(), dc);
        let pair = hd.last();
        match spec_dur_lookup(dc, pair.0@) {
            Some(de) => {
                if 0 <= de.duration <= MAX_TIME_MS && spec_lookup(prev, pair.1.song_hash@) is None {
                    prev.push(spec_joined_element(pair.0, pair.1, de))
                } else {
                    prev
                }
            },
            None => prev,
        }
    }
}

/// A missing lookup result means no entry carries the hash at all.
pub proof fn lemma_lookup_none(s: Seq<SongCoreDataElement>, hash: Seq<char>)
    ensures
        (spec_lookup(s, hash) is None) <==> (forall|i: int|
            0 <= i < s.len() ==> s[i].song_hash@ != hash),
    decreases s.len(),
{
    if s.len() > 0 {
        lemma_lookup_none(s.drop_first(), hash);
        assert(forall|i: int| 1 <= i < s.len() ==> s[i] == s.drop_first()[i - 1]);
    }
}

/// Joins the song-hash store with the duration store into the metadata
/// cache, keyed by content hash.
///
/// The first hash-store entry (in input order) for a given content hash
/// wins; entries whose path the duration store lacks, or whose duration
/// falls outside `[0, MAX_TIME_MS]`, are skipped as missing metadata.
pub fn read_song_core_data_cache(
    song_hash_data: &JsonSongHashData,
    song_duration_cache: &JsonSongDurationCache,
) -> (r: SongCoreDataCache)
    ensures
        r@ == spec_build_cache(song_hash_data@, song_duration_cache@),
        r.wf(),
{
    let mut out = SongCoreDataCache::new();
    let mut i: usize = 0;
    while i < song_hash_data.len()
        invariant
            0 <= i <= song_hash_data.len(),
            out@ == spec_build_cache(song_hash_data@.take(i as int), song_duration_cache@),
            out.wf(),
        decreases song_hash_data.len() - i,
    {
        let pair = &song_hash_data[i];
        proof {
            assert(song_hash_data@.take(i + 1).drop_last() =~= song_hash_data@.take(i as int));
            assert(song_hash_data@.take(i + 1).last() == song_hash_data@[i as int]);
        }
        if let Some(de) = dur_lookup(song_duration_cache, &pair.0) {
            if 0 <= de.duration && de.duration <= MAX_TIME_MS {
                if out.lookup(&pair.1.song_hash).is_none() {
                    let ghost before = out@;
                    let e = SongCoreDataElement {
                        path: pair.0.clone(),
                        directory_hash: pair.1.directory_hash,
                        song_hash: pair.1.song_hash.clone(),
                        id: de.id.clone(),
                        duration: de.duration,
                    };
                    proof {
                        lemma_lookup_none(before, e.song_hash@);
                    }
                    out.entries.push(e);
                }
            }
        }
        i += 1;
    }
    proof {
        assert(song_hash_data@.take(song_hash_data@.len() as int) =~= song_hash_data@);
    }
    out
}

/// The duration-store entry for `path`, if any.
fn dur_lookup<'a>(
    s: &'a Vec<(String, JsonSongDurationCacheElement)>,
    path: &String,
) -> (r: Option<&'a JsonSongDurationCacheElement>)
    ensures
        match r {
            Some(e) => spec_dur_lookup(s@, path@) == Some(*e),
            None => spec_dur_lookup(s@, path@) is None,
        },
{
    proof {
        assert(s@.skip(0) =~= s@);
    }
    let mut i: usize = 0;
    while i < s.len()
        invariant
            0 <= i <= s.len(),
            spec_dur_lookup(s@, path@) == spec_dur_lookup(s@.skip(i as int), path@),
        decreases s.len() - i,
    {
        proof {
            lemma_dur_lookup_skip_step(s@, path@, i as int);
        }
        if s[i].0.eq(path) {
            return Some(&s[i].1);
        }
        i += 1;
    }
    proof {
        assert(s@.skip(i as int) =~= Seq::<(String, JsonSongDurationCacheElement)>::empty());
    }
    None
}

/// Unfolds one step of `spec_dur_lookup` over a suffix of `s`.
proof fn lemma_dur_lookup_skip_step(
    s: Seq<(String, JsonSongDurationCacheElement)>,
    path: Seq<char>,
    i: int,
)
    requires
        0 <= i < s.len(),
    ensures
        spec_dur_lookup(s.skip(i), path) == if s[i].0@ == path {
            Some(s[i].1)
        } else {
            spec_dur_lookup(s.skip(i + 1), path)
        },
{
    assert(s.skip(i).len() == s.len() - i);
    assert(s.skip(i)[0] == s[i]);
    assert(s.skip(i).drop_first() =~= s.skip(i + 1));
}

/// Unfolds one step of `spec_lookup` over a suffix of `s`.
proof fn lemma_lookup_skip_step(s: Seq<SongCoreDataElement>, hash: Seq<char>, i: int)
    requires
        0 <= i < s.len(),
    ensures
        spec_lookup(s.skip(i), hash) == if s[i].song_hash@ == hash {
            Some(s[i])
        } else {
            spec_lookup(s.skip(i + 1), hash)
        },
{
    assert(s.skip(i).len() == s.len() - i);
    assert(s.skip(i)[0] == s[i]);
    assert(s.skip(i).drop_first() =~= s.skip(i + 1));
}

} // verus!
