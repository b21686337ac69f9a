//! Segment reconstruction: the temporal-correlation core.
//!
//! Given a video's time window and the play-event list, the reconstructor
//! keeps the events completed inside the window (bounds inclusive), sorts
//! them by completion time (stable), estimates each clip's start by
//! subtracting the song's duration from its completion offset, and then runs
//! a single left-to-right fixup pass that pulls an overlapping start forward
//! to one buffer length past the previous segment's end. Only starts are
//! ever adjusted; ends are never touched.

use vstd::prelude::*;

use crate::data::spec_lookup;
use crate::data::SongCoreDataCache;
use crate::data::SongCoreDataElement;
use crate::data::SongPlay;
use crate::data::MAX_TIME_MS;

verus! {

/// Gap inserted between a pulled-forward segment start and the previous
/// segment's end, in milliseconds.
pub const BUFFER_MS: i64 = 1000;

/// The absolute time range one video covers, milliseconds since the Unix
/// epoch.
#[derive(Debug, Clone, Copy, PartialEq, Eq, Structural)]
pub struct TimeWindow {
    pub start: i64,
    pub end: i64,
}

impl TimeWindow {
    /// Validity: the window does not run backwards and stays inside the
    /// bounds that keep offset arithmetic exact.
    pub open spec fn wf(&self) -> bool {
        -MAX_TIME_MS <= self.start <= self.end <= MAX_TIME_MS
    }
}

/// One clip: offsets are milliseconds from the start of the video's time
/// window (the start may be negative when a play began before the
/// recording).
#[derive(Debug)]
pub struct ClipSegment {
    pub start: i64,
    pub end: i64,
    pub song_hash: String,
    pub song_play: SongPlay,
}

impl Clone for ClipSegment {
    fn clone(&self) -> (r: Self)
        ensures
            r == *self,
    {
        ClipSegment {
            start: self.start,
            end: self.end,
            song_hash: self.song_hash.clone(),
            song_play: self.song_play.clone(),
        }
    }
}

/// Whether `p` completed inside the window `[lo, hi]`, both bounds
/// inclusive.
pub open spec fn in_window(p: SongPlay, lo: int, hi: int) -> bool {
    lo <= p.timestamp as int <= hi
}

/// The events completed inside `[lo, hi]`, in their original order.
pub open spec fn spec_filter_window(plays: Seq<SongPlay>, lo: int, hi: int) -> Seq<SongPlay>
    decreases plays.len(),
{
    if plays.len() == 0 {
        Seq::empty()
    } else {
        let prev = spec_filter_window(plays.drop_last(), lo, hi);
        if in_window(plays.last(), lo, hi) {
            prev.push(plays.last())
        } else {
            prev
        }
    }
}

/// Inserts `x` into `s` after every event completed no later than `x`:
/// insertion sort's single step, which keeps the order of equal timestamps.
pub open spec fn spec_insert_play(s: Seq<SongPlay>, x: SongPlay) -> Seq<SongPlay>
    decreases s.len(),
{
    if s.len() == 0 {
        seq![x]
    } else if (x.timestamp as int) < (s.last().timestamp as int) {
        spec_insert_play(s.drop_last(), x).push(s.last())
    } else {
        s.push(x)
    }
}

/// Stable insertion sort by completion timestamp.
pub open spec fn spec_sort_plays(s: Seq<SongPlay>) -> Seq<SongPlay>
    decreases s.len(),
{
    if s.len() == 0 {
        Seq::empty()
    } else {
        spec_insert_play(spec_sort_plays(s.drop_last()), s.last())
    }
}

/// Non-decreasing completion timestamps.
pub open spec fn sorted_by_timestamp(s: Seq<SongPlay>) -> bool {
    forall|i: int, j: int| 0 <= i < j < s.len() ==> s[i].timestamp <= s[j].timestamp
}

/// The duration the metadata store records for `hash`, or the fallback of
/// zero milliseconds when the store has no entry: a missing song never
/// aborts reconstruction.
pub open spec fn spec_duration_of(cache: Seq<SongCoreDataElement>, hash: Seq<char>) -> int {
    match spec_lookup(cache, hash) {
        Some(e) => e.duration as int,
        None => 0,
    }
}

/// The naive segment for one event: the end is the completion offset from
/// the window start, and the start estimates the play's begin by going one
/// song duration back.
pub open spec fn spec_naive_segment(
    ws: int,
    cache: Seq<SongCoreDataElement>,
    p: SongPlay,
) -> ClipSegment {
    ClipSegment {
        start: (p.timestamp - ws - spec_duration_of(cache, p.song_hash@)) as i64,
        end: (p.timestamp - ws) as i64,
        song_hash: p.song_hash,
        song_play: p,
    }
}

/// Naive segments for the sorted events, one each, in order.
pub open spec fn spec_naive_segments(
    ws: int,
    cache: Seq<SongCoreDataElement>,
    sorted: Seq<SongPlay>,
) -> Seq<ClipSegment> {
    Seq::new(sorted.len(), |i: int| spec_naive_segment(ws, cache, sorted[i]))
}

/// One fixup step: a start overlapping the previous segment's end is pulled
/// forward to one buffer length past it; the end is never touched.
pub open spec fn spec_fixup_at(prev_end: int, seg: ClipSegment) -> ClipSegment {
    if (seg.start as int) < prev_end {
        ClipSegment {
            start: (prev_end + BUFFER_MS) as i64,
            end: seg.end,
            song_hash: seg.song_hash,
            song_play: seg.song_play,
        }
    } else {
        seg
    }
}

/// The fixup pass over a whole list: each segment after the first is fixed
/// against its predecessor's (never-changing) end.
pub open spec fn spec_fixup(s: Seq<ClipSegment>) -> Seq<ClipSegment> {
    Seq::new(
        s.len(),
        |i: int|
            if i == 0 {
                s[0]
            } else {
                spec_fixup_at(s[i - 1].end as int, s[i])
            },
    )
}

/// The whole reconstruction: filter to the window, sort by completion time,
/// build naive segments, run the fixup pass.
pub open spec fn spec_reconstruct(
    lo: int,
    hi: int,
    plays: Seq<SongPlay>,
    cache: Seq<SongCoreDataElement>,
) -> Seq<ClipSegment> {
    spec_fixup(spec_naive_segments(lo, cache, spec_sort_plays(spec_filter_window(plays, lo, hi))))
}

/// Everything the window filter keeps was completed inside the window, and
/// it keeps every event that was: completion exactly at either bound is
/// included, one tick outside either bound excluded.
pub proof fn lemma_window_filtering(plays: Seq<SongPlay>, lo: int, hi: int)
    ensures
        forall|j: int|
            0 <= j < spec_filter_window(plays, lo, hi).len() ==> in_window(
                #[trigger] spec_filter_window(plays, lo, hi)[j],
                lo,
                hi,
            ),
        forall|i: int|
            0 <= i < plays.len() && in_window(#[trigger] plays[i], lo, hi)
                ==> spec_filter_window(plays, lo, hi).contains(plays[i]),
        forall|i: int|
            0 <= i < plays.len() && !in_window(#[trigger] plays[i], lo, hi) ==> !spec_filter_window(
                plays,
                lo,
                hi,
            ).contains(plays[i]),
    decreases plays.len(),
{
    if plays.len() > 0 {
        lemma_window_filtering(plays.drop_last(), lo, hi);
        let prev = spec_filter_window(plays.drop_last(), lo, hi);
        let cur = spec_filter_window(plays, lo, hi);
        assert(forall|i: int| 0 <= i < plays.len() - 1 ==> plays[i] == plays.drop_last()[i]);
        assert forall|i: int| 0 <= i < plays.len() && in_window(#[trigger] plays[i], lo, hi)
            implies cur.contains(plays[i]) by {
            if i < plays.len() - 1 {
                let k = choose|k: int| 0 <= k < prev.len() && prev[k] == plays[i];
                if in_window(plays.last(), lo, hi) {
                    assert(cur[k] == plays[i]);
                } else {
                    assert(cur[k] == plays[i]);
                }
            } else {
                assert(cur.last() == plays[i]);
            }
        }
        assert forall|i: int| 0 <= i < plays.len() && !in_window(#[trigger] plays[i], lo, hi)
            implies !cur.contains(plays[i]) by {
            if cur.contains(plays[i]) {
                let k = choose|k: int| 0 <= k < cur.len() && cur[k] == plays[i];
                assert(in_window(cur[k], lo, hi));
            }
        }
    }
}

/// Insertion keeps the list sorted, grows it by one, and adds no element
/// but `x`.
proof fn lemma_insert_play_props(s: Seq<SongPlay>, x: SongPlay)
    requires
        sorted_by_timestamp(s),
    ensures
        sorted_by_timestamp(spec_insert_play(s, x)),
        spec_insert_play(s, x).len() == s.len() + 1,
        forall|i: int|
            0 <= i < spec_insert_play(s, x).len() ==> (#[trigger] spec_insert_play(s, x)[i] == x
                || s.contains(spec_insert_play(s, x)[i])),
    decreases s.len(),
{
    if s.len() == 0 {
    } else if (x.timestamp as int) < (s.last().timestamp as int) {
        let d = s.drop_last();
        assert(forall|i: int| 0 <= i < d.len() ==> d[i] == s[i]);
        lemma_insert_play_props(d, x);
        let t = spec_insert_play(d, x);
        let r = t.push(s.last());
        assert forall|i: int| 0 <= i < r.len() implies (#[trigger] r[i] == x || s.contains(
            r[i],
        )) by {
            if i < t.len() {
                assert(r[i] == t[i]);
                if t[i] != x {
                    let k = choose|k: int| 0 <= k < d.len() && d[k] == t[i];
                    assert(s[k] == t[i]);
                }
            } else {
                assert(r[i] == s[s.len() - 1]);
            }
        }
        assert forall|i: int, j: int| 0 <= i < j < r.len() implies r[i].timestamp
            <= r[j].timestamp by {
            if j < t.len() {
                assert(r[i] == t[i] && r[j] == t[j]);
            } else {
                assert(r[j] == s.last());
                assert(r[i] == t[i]);
                if t[i] != x {
                    let k = choose|k: int| 0 <= k < d.len() && d[k] == t[i];
                    assert(s[k].timestamp <= s[s.len() - 1].timestamp);
                }
            }
        }
    } else {
        let r = s.push(x);
        assert forall|i: int, j: int| 0 <= i < j < r.len() implies r[i].timestamp
            <= r[j].timestamp by {
            if j < s.len() {
                assert(r[i] == s[i] && r[j] == s[j]);
            } else {
                assert(r[j] == x);
                assert(r[i] == s[i]);
                assert(s[i].timestamp <= s[s.len() - 1].timestamp);
            }
        }
        assert forall|i: int| 0 <= i < r.len() implies (#[trigger] r[i] == x || s.contains(
            r[i],
        )) by {
            if i < s.len() {
                assert(r[i] == s[i]);
            }
        }
    }
}

/// The sorted event list is sorted, has one element per filtered event, and
/// stays inside the window when its input does.
pub proof fn lemma_sort_plays_props(s: Seq<SongPlay>, lo: int, hi: int)
    requires
        forall|i: int| 0 <= i < s.len() ==> in_window(#[trigger] s[i], lo, hi),
    ensures
        sorted_by_timestamp(spec_sort_plays(s)),
        spec_sort_plays(s).len() == s.len(),
        forall|i: int| 0 <= i < s.len() ==> in_window(#[trigger] spec_sort_plays(s)[i], lo, hi),
    decreases s.len(),
{
    if s.len() > 0 {
        let d = s.drop_last();
        assert(forall|i: int| 0 <= i < d.len() ==> d[i] == s[i]);
        lemma_sort_plays_props(d, lo, hi);
        lemma_insert_play_props(spec_sort_plays(d), s.last());
        let r = spec_insert_play(spec_sort_plays(d), s.last());
        assert forall|i: int| 0 <= i < s.len() implies in_window(#[trigger] r[i], lo, hi) by {
            if r[i] != s.last() {
                assert(spec_sort_plays(d).contains(r[i]));
                let k = choose|k: int|
                    0 <= k < spec_sort_plays(d).len() && spec_sort_plays(d)[k] == r[i];
                assert(in_window(spec_sort_plays(d)[k], lo, hi));
            }
        }
    }
}

/// `spec_insert_play` is insertion at the stable position: the first index
/// (from the right) whose predecessors all end no later than `x`.
proof fn lemma_insert_play_at(s: Seq<SongPlay>, x: SongPlay, j: int)
    requires
        0 <= j <= s.len(),
        forall|k: int| 0 <= k < j ==> (#[trigger] s[k]).timestamp <= x.timestamp,
        forall|k: int| j <= k < s.len() ==> (#[trigger] s[k]).timestamp > x.timestamp,
    ensures
        spec_insert_play(s, x) == s.insert(j, x),
    decreases s.len(),
{
    if s.len() == 0 {
        assert(spec_insert_play(s, x) =~= s.insert(j, x));
    } else if (x.timestamp as int) < (s.last().timestamp as int) {
        assert(j < s.len());
        assert(forall|i: int| 0 <= i < s.len() - 1 ==> s[i] == s.drop_last()[i]);
        lemma_insert_play_at(s.drop_last(), x, j);
        assert(spec_insert_play(s.drop_last(), x).push(s.last()) =~= s.drop_last().insert(
            j,
            x,
        ).push(s.last()));
        assert(s.drop_last().insert(j, x).push(s.last()) =~= s.insert(j, x));
    } else {
        assert(j == s.len());
        assert(s.push(x) =~= s.insert(j, x));
    }
}

/// Sorts the events by completion timestamp, keeping the original order of
/// equal timestamps.
fn sort_plays(v: Vec<SongPlay>) -> (r: Vec<SongPlay>)
    ensures
        r@ == spec_sort_plays(v@),
{
    let mut out: Vec<SongPlay> = Vec::new();
    let mut i: usize = 0;
    while i < v.len()
        invariant
            0 <= i <= v.len(),
            out@ == spec_sort_plays(v@.take(i as int)),
            sorted_by_timestamp(out@),
        decreases v.len() - i,
    {
        let x = v[i].clone();
        let mut j: usize = out.len();
        while j > 0 && out[j - 1].timestamp > x.timestamp
            invariant
                0 <= j <= out.len(),
                forall|k: int| j <= k < out@.len() ==> (#[trigger] out@[k]).timestamp > x.timestamp,
                sorted_by_timestamp(out@),
            decreases j,
        {
            j -= 1;
        }
        let ghost prev = out@;
        out.insert(j, x);
        proof {
            assert(forall|k: int| 0 <= k < j ==> (#[trigger] prev[k]).timestamp <= x.timestamp)
                by {
                assert(j > 0 ==> prev[j - 1].timestamp <= x.timestamp);
            }
            lemma_insert_play_at(prev, x, j as int);
            lemma_insert_play_props(prev, x);
            assert(v@.take(i + 1).drop_last() =~= v@.take(i as int));
            assert(v@.take(i + 1).last() == v@[i as int]);
            assert(out@ == spec_insert_play(prev, x));
        }
        i += 1;
    }
    proof {
        assert(v@.take(v@.len() as int) =~= v@);
    }
    out
}

/// Reconstructs the ordered clip-segment list for one video.
///
/// Keeps the events completed inside `[start_timestamp, end_timestamp]`
/// (bounds inclusive), sorts them by completion time (stable), gives each a
/// naive segment — end at the completion offset, start one song duration
/// earlier, with a fallback duration of zero when the metadata store lacks
/// the song — and pulls every overlapping start forward to one buffer length
/// past the previous segment's end. No events in the window yield the empty
/// list, not an error.
pub fn find_clip_segments(
    start_timestamp: i64,
    end_timestamp: i64,
    song_plays: &Vec<SongPlay>,
    song_core_data_cache: &SongCoreDataCache,
) -> (r: Vec<ClipSegment>)
    requires
        -MAX_TIME_MS <= start_timestamp <= end_timestamp <= MAX_TIME_MS,
        song_core_data_cache.wf(),
    ensures
        r@ == spec_reconstruct(
            start_timestamp as int,
            end_timestamp as int,
            song_plays@,
            song_core_data_cache@,
        ),
{
    let ghost lo = start_timestamp as int;
    let ghost hi = end_timestamp as int;
    // Filter to the window, bounds inclusive.
    let mut kept: Vec<SongPlay> = Vec::new();
    let mut i: usize = 0;
    while i < song_plays.len()
        invariant
            0 <= i <= song_plays.len(),
            lo == start_timestamp as int,
            hi == end_timestamp as int,
            kept@ == spec_filter_window(song_plays@.take(i as int), lo, hi),
        decreases song_plays.len() - i,
    {
        proof {
            assert(song_plays@.take(i + 1).drop_last() =~= song_plays@.take(i as int));
            assert(song_plays@.take(i + 1).last() == song_plays@[i as int]);
        }
        let p = &song_plays[i];
        let ghost prev_kept = kept@;
        if p.timestamp >= start_timestamp && p.timestamp <= end_timestamp {
            kept.push(p.clone());
            proof {
                assert(in_window(song_plays@[i as int], lo, hi));
                assert(kept@ == prev_kept.push(song_plays@[i as int]));
                assert(kept@ == spec_filter_window(song_plays@.take(i + 1), lo, hi));
            }
        } else {
            proof {
                assert(!in_window(song_plays@[i as int], lo, hi));
                assert(kept@ == spec_filter_window(song_plays@.take(i + 1), lo, hi));
            }
        }
        i += 1;
    }
    proof {
        assert(song_plays@.take(song_plays@.len() as int) =~= song_plays@);
        lemma_window_filtering(song_plays@, lo, hi);
        lemma_sort_plays_props(kept@, lo, hi);
    }
    // Sort by completion timestamp, stable.
    let ordered_plays = sort_plays(kept);
    // Naive segments: end at the completion offset, start one duration back.
    let ghost sorted = ordered_plays@;
    let mut segments: Vec<ClipSegment> = Vec::new();
    let mut i: usize = 0;
    while i < ordered_plays.len()
        invariant
            0 <= i <= ordered_plays.len(),
            lo == start_timestamp as int,
            hi == end_timestamp as int,
            sorted == ordered_plays@,
            segments@ =~= spec_naive_segments(lo, song_core_data_cache@, sorted).take(i as int),
            -MAX_TIME_MS <= start_timestamp <= end_timestamp <= MAX_TIME_MS,
            song_core_data_cache.wf(),
            forall|k: int| 0 <= k < sorted.len() ==> in_window(#[trigger] sorted[k], lo, hi),
        decreases ordered_plays.len() - i,
    {
        let p = &ordered_plays[i];
        proof {
            assert(in_window(sorted[i as int], lo, hi));
        }
        let duration: i64 = match song_core_data_cache.lookup(&p.song_hash) {
            Some(e) => e.duration,
            None => 0,
        };
        proof {
            assert(0 <= duration <= MAX_TIME_MS);
            assert(duration as int == spec_duration_of(song_core_data_cache@, p.song_hash@));
        }
        let end = p.timestamp - start_timestamp;
        let start = end - duration;
        segments.push(
            ClipSegment {
                start: start,
                end: end,
                song_hash: p.song_hash.clone(),
                song_play: p.clone(),
            },
        );
        proof {
            assert(segments@.last() == spec_naive_segment(
                lo,
                song_core_data_cache@,
                sorted[i as int],
            ));
            assert(segments@ =~= spec_naive_segments(lo, song_core_data_cache@, sorted).take(
                i + 1,
            ));
        }
        i += 1;
    }
    proof {
        assert(spec_naive_segments(lo, song_core_data_cache@, sorted).take(sorted.len() as int)
            =~= spec_naive_segments(lo, song_core_data_cache@, sorted));
    }
    // Fixup pass: pull overlapping starts forward; ends never change.
    let ghost naive = segments@;
    proof {
        assert forall|k: int| 0 <= k < naive.len() implies 0 <= (#[trigger] naive[k]).end as int
            <= hi - lo by {
            assert(naive[k] == spec_naive_segment(lo, song_core_data_cache@, sorted[k]));
        }
    }
    let mut fixed: Vec<ClipSegment> = Vec::new();
    let mut i: usize = 0;
    while i < segments.len()
        invariant
            0 <= i <= segments.len(),
            lo == start_timestamp as int,
            hi == end_timestamp as int,
            naive == segments@,
            fixed@ =~= spec_fixup(naive).take(i as int),
            forall|k: int| 0 <= k < naive.len() ==> 0 <= (#[trigger] naive[k]).end as int <= hi - lo,
            -MAX_TIME_MS <= start_timestamp <= end_timestamp <= MAX_TIME_MS,
        decreases segments.len() - i,
    {
        let seg = &segments[i];
        proof {
            assert(i > 0 ==> 0 <= naive[i - 1].end as int <= hi - lo);
        }
        if i > 0 && seg.start < segments[i - 1].end {
            fixed.push(
                ClipSegment {
                    start: segments[i - 1].end + BUFFER_MS,
                    end: seg.end,
                    song_hash: seg.song_hash.clone(),
                    song_play: seg.song_play.clone(),
                },
            );
        } else {
            fixed.push(seg.clone());
        }
        proof {
            assert(fixed@ =~= spec_fixup(naive).take(i + 1));
        }
        i += 1;
    }
    proof {
        assert(spec_fixup(naive).take(naive.len() as int) =~= spec_fixup(naive));
    }
    fixed
}

/// Ordering invariant: after reconstruction the ends are non-decreasing and
/// each start lies at or after the previous segment's end — no overlaps
/// survive the fixup pass.
pub proof fn lemma_ordering_invariant(
    lo: int,
    hi: int,
    plays: Seq<SongPlay>,
    cache: Seq<SongCoreDataElement>,
)
    requires
        -MAX_TIME_MS <= lo <= hi <= MAX_TIME_MS,
        forall|i: int| 0 <= i < cache.len() ==> 0 <= (#[trigger] cache[i]).duration <= MAX_TIME_MS,
    ensures
        forall|i: int|
            1 <= i < spec_reconstruct(lo, hi, plays, cache).len() ==> (#[trigger] spec_reconstruct(
                lo,
                hi,
                plays,
                cache,
            )[i]).end >= spec_reconstruct(lo, hi, plays, cache)[i - 1].end,
        forall|i: int|
            1 <= i < spec_reconstruct(lo, hi, plays, cache).len() ==> (#[trigger] spec_reconstruct(
                lo,
                hi,
                plays,
                cache,
            )[i]).start >= spec_reconstruct(lo, hi, plays, cache)[i - 1].end,
{
    let filtered = spec_filter_window(plays, lo, hi);
    lemma_window_filtering(plays, lo, hi);
    lemma_sort_plays_props(filtered, lo, hi);
    let sorted = spec_sort_plays(filtered);
    let naive = spec_naive_segments(lo, cache, sorted);
    let r = spec_reconstruct(lo, hi, plays, cache);
    assert forall|i: int| 1 <= i < r.len() implies r[i].end >= r[i - 1].end && r[i].start >= r[i
        - 1].end by {
        assert(naive[i] == spec_naive_segment(lo, cache, sorted[i]));
        assert(naive[i - 1] == spec_naive_segment(lo, cache, sorted[i - 1]));
        assert(in_window(sorted[i], lo, hi));
        assert(in_window(sorted[i - 1], lo, hi));
        assert(sorted[i - 1].timestamp <= sorted[i].timestamp);
        assert(r[i - 1].end == naive[i - 1].end);
        assert(r[i] == spec_fixup_at(naive[i - 1].end as int, naive[i]));
    }
}

/// Fixup idempotence: a second fixup pass changes nothing, on any list whose
/// ends stay within one window width (as every reconstructed list's do).
pub proof fn lemma_fixup_idempotent(s: Seq<ClipSegment>)
    requires
        forall|i: int|
            0 <= i < s.len() ==> -2 * MAX_TIME_MS <= (#[trigger] s[i]).end as int <= 2
                * MAX_TIME_MS,
    ensures
        spec_fixup(spec_fixup(s)) == spec_fixup(s),
{
    let f = spec_fixup(s);
    assert forall|i: int| 0 <= i < f.len() implies spec_fixup(f)[i] == f[i] by {
        if i > 0 {
            assert(f[i - 1].end == s[i - 1].end);
            assert(f[i] == spec_fixup_at(s[i - 1].end as int, s[i]));
        }
    }
    assert(spec_fixup(f) =~= f);
}

/// Graceful degradation: an event whose song the metadata store does not
/// know still yields exactly one segment, its naive start equal to its end
/// (the fallback duration is zero), and adding a store entry for that song
/// leaves every other event's segment — and every segment's end — exactly as
/// it was: siblings are affected through the normal fixup rule alone.
pub proof fn lemma_graceful_degradation(
    lo: int,
    hi: int,
    plays: Seq<SongPlay>,
    cache: Seq<SongCoreDataElement>,
    e: SongCoreDataElement,
)
    requires
        spec_lookup(cache, e.song_hash@) is None,
    ensures
        spec_reconstruct(lo, hi, plays, cache).len() == spec_filter_window(plays, lo, hi).len(),
        spec_reconstruct(lo, hi, plays, cache).len() == spec_reconstruct(
            lo,
            hi,
            plays,
            cache.push(e),
        ).len(),
        forall|j: int|
            0 <= j < spec_reconstruct(lo, hi, plays, cache).len() ==> (#[trigger] spec_reconstruct(
                lo,
                hi,
                plays,
                cache,
            )[j]).end == spec_reconstruct(lo, hi, plays, cache.push(e))[j].end,
        forall|j: int|
            0 <= j < spec_reconstruct(lo, hi, plays, cache).len() && spec_sort_plays(
                spec_filter_window(plays, lo, hi),
            )[j].song_hash@ != e.song_hash@ ==> (#[trigger] spec_reconstruct(lo, hi, plays, cache)[j])
                == spec_reconstruct(lo, hi, plays, cache.push(e))[j],
        forall|j: int|
            0 <= j < spec_reconstruct(lo, hi, plays, cache).len() && (#[trigger] spec_sort_plays(
                spec_filter_window(plays, lo, hi),
            )[j]).song_hash@ == e.song_hash@ ==> spec_naive_segments(
                lo,
                cache,
                spec_sort_plays(spec_filter_window(plays, lo, hi)),
            )[j].start == spec_naive_segments(
                lo,
                cache,
                spec_sort_plays(spec_filter_window(plays, lo, hi)),
            )[j].end,
{
    let filtered = spec_filter_window(plays, lo, hi);
    lemma_window_filtering(plays, lo, hi);
    lemma_sort_plays_props(filtered, lo, hi);
    let sorted = spec_sort_plays(filtered);
    let n1 = spec_naive_segments(lo, cache, sorted);
    let n2 = spec_naive_segments(lo, cache.push(e), sorted);
    assert forall|j: int| 0 <= j < sorted.len() implies n1[j].end == n2[j].end && (
    sorted[j].song_hash@ != e.song_hash@ ==> n1[j] == n2[j]) && (sorted[j].song_hash@
        == e.song_hash@ ==> n1[j].start == n1[j].end) by {
        lemma_lookup_push(cache, e, sorted[j].song_hash@);
        assert(n1[j] == spec_naive_segment(lo, cache, sorted[j]));
        assert(n2[j] == spec_naive_segment(lo, cache.push(e), sorted[j]));
    }
    let r1 = spec_reconstruct(lo, hi, plays, cache);
    let r2 = spec_reconstruct(lo, hi, plays, cache.push(e));
    assert forall|j: int| 0 <= j < r1.len() implies r1[j].end == r2[j].end && (sorted[j].song_hash@
        != e.song_hash@ ==> r1[j] == r2[j]) by {
        if j > 0 {
            assert(r1[j] == spec_fixup_at(n1[j - 1].end as int, n1[j]));
            assert(r2[j] == spec_fixup_at(n2[j - 1].end as int, n2[j]));
        }
    }
}

/// Appending a store entry changes no lookup of a different hash, and a
/// lookup of the appended hash that used to miss now finds the new entry.
pub proof fn lemma_lookup_push(
    cache: Seq<SongCoreDataElement>,
    e: SongCoreDataElement,
    hash: Seq<char>,
)
    ensures
        hash != e.song_hash@ ==> spec_lookup(cache.push(e), hash) == spec_lookup(cache, hash),
        hash == e.song_hash@ && spec_lookup(cache, hash) is None ==> spec_lookup(
            cache.push(e),
            hash,
        ) == Some(e),
    decreases cache.len(),
{
    if cache.len() == 0 {
        assert(cache.push(e)[0] == e);
        assert(cache.push(e).drop_first() =~= Seq::<SongCoreDataElement>::empty());
        assert(spec_lookup(Seq::<SongCoreDataElement>::empty(), hash) is None);
        assert(spec_lookup(cache, hash) is None);
        assert(spec_lookup(cache.push(e), hash) == if e.song_hash@ == hash {
            Some(e)
        } else {
            spec_lookup(Seq::<SongCoreDataElement>::empty(), hash)
        });
    } else {
        assert(cache.push(e)[0] == cache[0]);
        assert(cache.push(e).drop_first() =~= cache.drop_first().push(e));
        lemma_lookup_push(cache.drop_first(), e, hash);
        assert(spec_lookup(cache.push(e), hash) == if cache[0].song_hash@ == hash {
            Some(cache[0])
        } else {
            spec_lookup(cache.drop_first().push(e), hash)
        });
        assert(spec_lookup(cache, hash) == if cache[0].song_hash@ == hash {
            Some(cache[0])
        } else {
            spec_lookup(cache.drop_first(), hash)
        });
    }
}

} // verus!
