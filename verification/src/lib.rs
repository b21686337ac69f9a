//! Correlates recorded rhythm-game play events with video recordings and
//! produces per-video cut lists: ordered, non-overlapping clip segments with
//! human-readable labels, rendered as CSV records.
//!
//! All times are integer milliseconds: absolute instants are milliseconds
//! since the Unix epoch, and segment offsets are milliseconds from the start
//! of the video's time window.

pub mod csv;
pub mod data;
pub mod keys;
pub mod label;
pub mod segments;
pub mod song_info;
pub mod video;

pub use csv::clip_segments_to_csv;
pub use data::read_song_core_data_cache;
pub use data::JsonSongDurationCache;
pub use data::JsonSongDurationCacheElement;
pub use data::JsonSongHashData;
pub use data::JsonSongHashDataElement;
pub use data::RawSongPlay;
pub use data::SongCoreDataCache;
pub use data::SongCoreDataElement;
pub use data::SongInfoDat;
pub use data::SongPlay;
pub use keys::read_song_plays;
pub use keys::RawSongPlayData;
pub use label::get_song_info_str;
pub use segments::find_clip_segments;
pub use segments::ClipSegment;
pub use segments::TimeWindow;
pub use song_info::try_read_song_info;
pub use video::video_time_window;
