//! Lyric resolution core: search-keyword construction, timed-lyrics parsing,
//! header stripping and candidate matching, with machine-checked contracts.

pub mod common;
pub mod github;
pub mod header;
pub mod innertube;
pub mod keyword;
pub mod kugou;
pub mod lrc;
pub mod lrclib;
pub mod numeral;
pub mod piped;
pub mod render;
pub mod sponsorblock;
pub mod text;
pub mod timeline;
pub mod translate;
pub mod web;
