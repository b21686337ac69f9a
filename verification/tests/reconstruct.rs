use clipcuts::data::JsonSongDurationCacheElement;
use clipcuts::data::JsonSongHashDataElement;
use clipcuts::data::RawSongPlay;
use clipcuts::data::SongCoreDataCache;
use clipcuts::data::SongPlay;
use clipcuts::data::read_song_core_data_cache;
use clipcuts::keys::parse_song_key;
use clipcuts::keys::read_song_plays;
use clipcuts::segments::find_clip_segments;

fn raw_play(date: i64, last_note: i64) -> RawSongPlay {
    RawSongPlay { date, modified_score: 0, raw_score: 0, last_note, param: 0 }
}

fn play(timestamp: i64, hash: &str, difficulty: i32, last_note: i64) -> SongPlay {
    SongPlay {
        timestamp,
        song_hash: hash.to_string(),
        difficulty,
        characteristic: "Standard".to_string(),
        raw_song_play: raw_play(timestamp, last_note),
    }
}

fn cache_of(entries: &[(&str, &str, i64)]) -> SongCoreDataCache {
    let hash_data: Vec<(String, JsonSongHashDataElement)> = entries
        .iter()
        .map(|(path, hash, _)| {
            (
                path.to_string(),
                JsonSongHashDataElement { directory_hash: 7, song_hash: hash.to_string() },
            )
        })
        .collect();
    let duration_cache: Vec<(String, JsonSongDurationCacheElement)> = entries
        .iter()
        .map(|(path, _, duration)| {
            (
                path.to_string(),
                JsonSongDurationCacheElement { id: path.to_string(), duration: *duration },
            )
        })
        .collect();
    read_song_core_data_cache(&hash_data, &duration_cache)
}

#[test]
fn window_filter_includes_bounds_excludes_one_tick_outside() {
    let t = 1_000_000_000_000i64;
    let hi = t + 600_000;
    let plays = vec![
        play(t, "H1", 0, -1),
        play(hi, "H1", 0, -1),
        play(t - 1, "H1", 0, -1),
        play(hi + 1, "H1", 0, -1),
    ];
    let cache = cache_of(&[("p1", "H1", 120_000)]);
    let segments = find_clip_segments(t, hi, &plays, &cache);
    assert_eq!(segments.len(), 2);
    assert_eq!(segments[0].end, 0);
    assert_eq!(segments[1].end, 600_000);
}

#[test]
fn end_to_end_fixup_scenario() {
    // Window [T, T+600s]; song A completes at T+100s (success), song B at
    // T+150s (failure), both 120s long. Naive: A=[-20s,100s], B=[30s,150s];
    // fixup leaves A alone and pulls B's start to 101s.
    let t = 1_000_000_000_000i64;
    let plays = vec![play(t + 100_000, "HA", 0, -1), play(t + 150_000, "HB", 1, 5)];
    let cache = cache_of(&[("pa", "HA", 120_000), ("pb", "HB", 120_000)]);
    let segments = find_clip_segments(t, t + 600_000, &plays, &cache);
    assert_eq!(segments.len(), 2);
    assert_eq!(segments[0].start, -20_000);
    assert_eq!(segments[0].end, 100_000);
    assert_eq!(segments[1].start, 101_000);
    assert_eq!(segments[1].end, 150_000);
    assert_eq!(segments[0].song_hash, "HA");
    assert_eq!(segments[1].song_hash, "HB");
}

#[test]
fn ordering_invariant_on_shuffled_events() {
    let t = 0i64;
    let plays = vec![
        play(500_000, "H1", 0, -1),
        play(100_000, "H2", 0, 3),
        play(300_000, "H1", 0, -1),
        play(100_000, "H3", 0, -1),
    ];
    let cache = cache_of(&[("p1", "H1", 400_000), ("p2", "H2", 250_000), ("p3", "H3", 90_000)]);
    let segments = find_clip_segments(t, 600_000, &plays, &cache);
    assert_eq!(segments.len(), 4);
    for i in 1..segments.len() {
        assert!(segments[i].end >= segments[i - 1].end);
        assert!(segments[i].start >= segments[i - 1].end);
    }
}

#[test]
fn already_separated_segments_stay_unchanged() {
    // No overlaps in the naive layout, so the fixup pass changes nothing:
    // the fixed-up list is its own fixup.
    let plays = vec![play(100_000, "H1", 0, -1), play(300_000, "H1", 0, -1)];
    let cache = cache_of(&[("p1", "H1", 50_000)]);
    let segments = find_clip_segments(0, 600_000, &plays, &cache);
    assert_eq!(segments.len(), 2);
    assert_eq!(segments[0].start, 50_000);
    assert_eq!(segments[0].end, 100_000);
    assert_eq!(segments[1].start, 250_000);
    assert_eq!(segments[1].end, 300_000);
}

#[test]
fn unknown_song_degrades_to_zero_duration_segment() {
    // The second event's hash has no metadata entry: it still yields exactly
    // one segment, with the fallback duration of zero (start == end before
    // fixup; here fixup pulls it anyway since 100s < 150s is false -- the
    // naive start 150s does not overlap A's end 100s).
    let plays = vec![play(100_000, "HA", 0, -1), play(150_000, "HX", 0, -1)];
    let cache = cache_of(&[("pa", "HA", 120_000)]);
    let segments = find_clip_segments(0, 600_000, &plays, &cache);
    assert_eq!(segments.len(), 2);
    assert_eq!(segments[0].start, -20_000);
    assert_eq!(segments[0].end, 100_000);
    // fallback duration 0: naive start == end == 150s, no overlap with 100s
    assert_eq!(segments[1].start, 150_000);
    assert_eq!(segments[1].end, 150_000);
}

#[test]
fn zero_events_yield_empty_list() {
    let cache = cache_of(&[("p1", "H1", 120_000)]);
    let segments = find_clip_segments(0, 600_000, &Vec::new(), &cache);
    assert_eq!(segments.len(), 0);
}

#[test]
fn parse_song_key_accepts_well_formed_key() {
    let hash = "0123456789ABCDEF0123456789ABCDEF01234567";
    let key = format!("custom_level_{}___3___Standard", hash);
    let parsed = parse_song_key(&key).expect("key should parse");
    assert_eq!(parsed.0, hash);
    assert_eq!(parsed.1, 3);
    assert_eq!(parsed.2, "Standard");
}

#[test]
fn parse_song_key_rejects_malformed_keys() {
    let hash = "0123456789ABCDEF0123456789ABCDEF01234567";
    // lower-case hex digit
    assert!(parse_song_key(&format!("custom_level_{}___3___Standard", hash.to_lowercase()))
        .is_none());
    // hash one character short
    assert!(parse_song_key(&format!("custom_level_{}___3___Standard", &hash[1..])).is_none());
    // empty tag
    assert!(parse_song_key(&format!("custom_level_{}___3___", hash)).is_none());
    // wrong prefix
    assert!(parse_song_key(&format!("custom_track_{}___3___Standard", hash)).is_none());
    // non-alphanumeric tag
    assert!(parse_song_key(&format!("custom_level_{}___3___Stan dard", hash)).is_none());
}

#[test]
fn read_song_plays_skips_unrecognised_keys() {
    let hash = "0123456789ABCDEF0123456789ABCDEF01234567";
    let key = format!("custom_level_{}___2___Lawless", hash);
    let data = vec![
        (key, vec![raw_play(1_000_000, -1), raw_play(2_000_000, 7)]),
        ("some_other_key".to_string(), vec![raw_play(3_000_000, -1)]),
    ];
    let plays = read_song_plays(&data);
    assert_eq!(plays.len(), 2);
    assert_eq!(plays[0].timestamp, 1_000_000);
    assert_eq!(plays[0].song_hash, hash);
    assert_eq!(plays[0].difficulty, 2);
    assert_eq!(plays[0].characteristic, "Lawless");
    assert_eq!(plays[1].timestamp, 2_000_000);
    assert_eq!(plays[1].raw_song_play.last_note, 7);
}

#[test]
fn cache_join_skips_missing_duration_entries() {
    let hash_data = vec![
        (
            "with_duration".to_string(),
            JsonSongHashDataElement { directory_hash: 1, song_hash: "H1".to_string() },
        ),
        (
            "without_duration".to_string(),
            JsonSongHashDataElement { directory_hash: 2, song_hash: "H2".to_string() },
        ),
    ];
    let duration_cache = vec![(
        "with_duration".to_string(),
        JsonSongDurationCacheElement { id: "id1".to_string(), duration: 90_000 },
    )];
    let cache = read_song_core_data_cache(&hash_data, &duration_cache);
    let found = cache.lookup(&"H1".to_string()).expect("H1 present");
    assert_eq!(found.duration, 90_000);
    assert_eq!(found.path, "with_duration");
    assert_eq!(found.directory_hash, 1);
    assert_eq!(found.id, "id1");
    assert!(cache.lookup(&"H2".to_string()).is_none());
}

#[test]
fn cache_join_keeps_first_entry_per_hash() {
    let hash_data = vec![
        (
            "first".to_string(),
            JsonSongHashDataElement { directory_hash: 1, song_hash: "H1".to_string() },
        ),
        (
            "second".to_string(),
            JsonSongHashDataElement { directory_hash: 2, song_hash: "H1".to_string() },
        ),
    ];
    let duration_cache = vec![
        (
            "first".to_string(),
            JsonSongDurationCacheElement { id: "a".to_string(), duration: 10_000 },
        ),
        (
            "second".to_string(),
            JsonSongDurationCacheElement { id: "b".to_string(), duration: 20_000 },
        ),
    ];
    let cache = read_song_core_data_cache(&hash_data, &duration_cache);
    let found = cache.lookup(&"H1".to_string()).expect("H1 present");
    assert_eq!(found.path, "first");
    assert_eq!(found.duration, 10_000);
}
