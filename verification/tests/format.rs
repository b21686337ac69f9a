use clipcuts::csv::clip_segments_to_csv;
use clipcuts::csv::ms_to_decimal;
use clipcuts::csv::parse_csv_label_field;
use clipcuts::csv::quote_label;
use clipcuts::data::JsonSongDurationCacheElement;
use clipcuts::data::JsonSongHashDataElement;
use clipcuts::data::RawSongPlay;
use clipcuts::data::SongCoreDataCache;
use clipcuts::data::SongInfoDat;
use clipcuts::data::SongPlay;
use clipcuts::data::read_song_core_data_cache;
use clipcuts::label::get_song_info_str;
use clipcuts::segments::find_clip_segments;
use clipcuts::song_info::try_read_song_info;
use clipcuts::video::parse_video_timestamp;
use clipcuts::video::video_time_window;

fn play(timestamp: i64, hash: &str, difficulty: i32, last_note: i64) -> SongPlay {
    SongPlay {
        timestamp,
        song_hash: hash.to_string(),
        difficulty,
        characteristic: "Standard".to_string(),
        raw_song_play: RawSongPlay {
            date: timestamp,
            modified_score: 0,
            raw_score: 0,
            last_note,
            param: 0,
        },
    }
}

fn info(name: &str, author: &str, mapper: &str) -> SongInfoDat {
    SongInfoDat {
        version: "2.0.0".to_string(),
        song_name: name.to_string(),
        song_sub_name: String::new(),
        song_author_name: author.to_string(),
        level_author_name: mapper.to_string(),
    }
}

fn cache_of(entries: &[(&str, &str, i64)]) -> SongCoreDataCache {
    let hash_data: Vec<(String, JsonSongHashDataElement)> = entries
        .iter()
        .map(|(path, hash, _)| {
            (
                path.to_string(),
                JsonSongHashDataElement { directory_hash: 7, song_hash: hash.to_string() },
            )
        })
        .collect();
    let duration_cache: Vec<(String, JsonSongDurationCacheElement)> = entries
        .iter()
        .map(|(path, _, duration)| {
            (
                path.to_string(),
                JsonSongDurationCacheElement { id: path.to_string(), duration: *duration },
            )
        })
        .collect();
    read_song_core_data_cache(&hash_data, &duration_cache)
}

#[test]
fn ms_decimal_renders_exact_values() {
    assert_eq!(ms_to_decimal(0), "0");
    assert_eq!(ms_to_decimal(-20_000), "-20");
    assert_eq!(ms_to_decimal(100_000), "100");
    assert_eq!(ms_to_decimal(100_500), "100.5");
    assert_eq!(ms_to_decimal(250), "0.25");
    assert_eq!(ms_to_decimal(-500), "-0.5");
    assert_eq!(ms_to_decimal(1), "0.001");
    assert_eq!(ms_to_decimal(12_345), "12.345");
}

#[test]
fn quoted_label_round_trips_embedded_quotes() {
    let label = "He said \"hi\" - twice \"\"";
    let quoted = quote_label(label);
    assert_eq!(quoted, "\"He said \"\"hi\"\" - twice \"\"\"\"\"");
    let back = parse_csv_label_field(&quoted).expect("round trip parses");
    assert_eq!(back, label);
}

#[test]
fn quoted_plain_label_round_trips() {
    let label = "Song - E [Author] Mapper";
    let back = parse_csv_label_field(&quote_label(label)).expect("round trip parses");
    assert_eq!(back, label);
}

#[test]
fn lone_quote_field_is_rejected() {
    assert!(parse_csv_label_field("\"a\"b\"").is_none());
    assert!(parse_csv_label_field("no quotes").is_none());
    assert!(parse_csv_label_field("\"").is_none());
}

#[test]
fn label_uses_difficulty_table_and_fail_prefix() {
    let cache = cache_of(&[("p1", "H1", 120_000)]);
    let i = info("Song", "Author", "Mapper");
    let letters = [(0, "E"), (1, "M"), (2, "H"), (3, "E"), (4, "Ep"), (9, "?")];
    for (code, letter) in letters {
        let label = get_song_info_str(&play(0, "H1", code, -1), &cache, Some(&i));
        assert_eq!(label, format!("Song - {} [Author] Mapper", letter));
    }
    let failed = get_song_info_str(&play(0, "H1", 1, 42), &cache, Some(&i));
    assert_eq!(failed, "[F] Song - M [Author] Mapper");
}

#[test]
fn label_falls_back_to_bare_hash() {
    let cache = cache_of(&[("p1", "H1", 120_000)]);
    let i = info("Song", "Author", "Mapper");
    // unknown song: bare hash even when a descriptor is offered
    assert_eq!(get_song_info_str(&play(0, "HX", 0, -1), &cache, Some(&i)), "HX");
    // known song, missing descriptor: bare hash
    assert_eq!(get_song_info_str(&play(0, "H1", 0, -1), &cache, None), "H1");
}

#[test]
fn csv_output_matches_end_to_end_scenario() {
    let t = 1_000_000_000_000i64;
    let plays = vec![play(t + 100_000, "HA", 0, -1), play(t + 150_000, "HB", 1, 5)];
    let cache = cache_of(&[("pa", "HA", 120_000), ("pb", "HB", 120_000)]);
    let segments = find_clip_segments(t, t + 600_000, &plays, &cache);
    let infos = vec![
        Some(info("Alpha", "AuthA", "MapA")),
        Some(info("Beta", "AuthB", "MapB")),
    ];
    let csv = clip_segments_to_csv(&segments, &cache, &infos);
    assert_eq!(
        csv,
        "-20,100,\"Alpha - E [AuthA] MapA\"\n101,150,\"[F] Beta - M [AuthB] MapB\"\n"
    );
}

#[test]
fn csv_label_with_quotes_is_doubled() {
    let t = 0i64;
    let plays = vec![play(100_000, "HA", 0, -1)];
    let cache = cache_of(&[("pa", "HA", 60_000)]);
    let segments = find_clip_segments(t, 600_000, &plays, &cache);
    let infos = vec![Some(info("Say \"cheese\"", "A", "M"))];
    let csv = clip_segments_to_csv(&segments, &cache, &infos);
    assert_eq!(csv, "40,100,\"Say \"\"cheese\"\" - E [A] M\"\n");
}

#[test]
fn song_info_parses_complete_descriptor() {
    let text = "{\"_version\":\"2.0.0\",\"_songName\":\"Tune\",\"_songSubName\":\"sub\",\
                \"_songAuthorName\":\"Auth\",\"_levelAuthorName\":\"Map\",\"_extra\":3}";
    let si = try_read_song_info(text).expect("descriptor parses");
    assert_eq!(si.version, "2.0.0");
    assert_eq!(si.song_name, "Tune");
    assert_eq!(si.song_sub_name, "sub");
    assert_eq!(si.song_author_name, "Auth");
    assert_eq!(si.level_author_name, "Map");
}

#[test]
fn song_info_rejects_bad_documents() {
    // not JSON at all
    assert!(try_read_song_info("not json").is_none());
    // missing a required field
    assert!(try_read_song_info(
        "{\"_version\":\"2.0.0\",\"_songName\":\"Tune\",\"_songSubName\":\"\",\
         \"_songAuthorName\":\"Auth\"}"
    )
    .is_none());
    // field of the wrong type
    assert!(try_read_song_info(
        "{\"_version\":1,\"_songName\":\"Tune\",\"_songSubName\":\"\",\
         \"_songAuthorName\":\"Auth\",\"_levelAuthorName\":\"Map\"}"
    )
    .is_none());
}

#[test]
fn video_stem_parses_and_maps_to_epoch() {
    let c = parse_video_timestamp("2024-01-01 00-00-00").expect("stem parses");
    assert_eq!((c.year, c.month, c.day), (2024, 1, 1));
    assert_eq!((c.hour, c.minute, c.second), (0, 0, 0));
    let w = video_time_window("2024-01-01 00-00-00", 0, 600_000).expect("window");
    assert_eq!(w.start, 1_704_067_200_000);
    assert_eq!(w.end, 1_704_067_200_000 + 600_000);
    // epoch instant itself
    let w0 = video_time_window("1970-01-01 00-00-00", 0, 1_000).expect("window");
    assert_eq!(w0.start, 0);
    // an hour east of UTC starts an hour earlier in UTC
    let w1 = video_time_window("2024-01-01 00-00-00", 3_600, 600_000).expect("window");
    assert_eq!(w1.start, 1_704_067_200_000 - 3_600_000);
    // leap day exists in 2024
    let w2 = video_time_window("2024-02-29 12-30-15", 0, 1_000).expect("window");
    assert_eq!(w2.start, 1_709_209_815_000);
}

#[test]
fn batch_of_three_stems_fails_only_the_unparsable_one() {
    // Three video file stems, one with an unparsable name: the two good ones
    // get windows, the bad one reports failure, siblings unaffected.
    let stems = ["2024-01-01 00-00-00", "2023-02-29 10-00-00", "2024-06-05 18-30-00"];
    let results: Vec<_> = stems
        .iter()
        .map(|s| video_time_window(s, 0, 600_000))
        .collect();
    assert!(results[0].is_some());
    assert!(results[1].is_none());
    assert!(results[2].is_some());
}

#[test]
fn video_stem_shape_is_checked() {
    assert!(parse_video_timestamp("2024-01-01 00:00:00").is_none());
    assert!(parse_video_timestamp("2024-01-01 00-00").is_none());
    assert!(parse_video_timestamp("2024-13-01 00-00-00").is_none());
    assert!(parse_video_timestamp("2024-00-01 00-00-00").is_none());
    assert!(parse_video_timestamp("2024-01-32 00-00-00").is_none());
    assert!(parse_video_timestamp("2024-01-01 24-00-00").is_none());
    assert!(parse_video_timestamp("abcd-01-01 00-00-00").is_none());
}
