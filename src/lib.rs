//! Cleaning of timed captions: auto-generated, time-stamped lyric text is read into
//! timed events, near-duplicate neighbours are dropped or merged, markup is taken out,
//! and the result is written back as one `[MM:SS.ss]text` line per event. Beside it,
//! the settings records and link helpers of the download tools.

pub mod text;
pub mod marker;
pub mod timestamp;
pub mod similarity;
pub mod lrc;
pub mod coalesce;
pub mod sanitize;
pub mod render;
pub mod cleaner;
pub mod url_checker;
pub mod config;
pub mod ytdlp;
