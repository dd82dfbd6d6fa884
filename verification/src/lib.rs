//! Parser and generator for HLS (m3u8) playlist documents.
//!
//! A playlist is a line-oriented text document: directive lines begin with
//! `#EXT`, comment lines begin with `#`, and every other non-blank line is a
//! URI. This crate tokenizes such documents, decodes each directive into a
//! typed tag value, folds the tag stream into a validated [`MediaPlaylist`],
//! and renders playlists back to their canonical text form.

pub mod attribute;
pub mod error;
pub mod line;
pub mod media_playlist;
pub mod media_segment;
pub mod roundtrip;
pub mod tags;
pub mod text;
pub mod types;

pub use error::Error;
pub use media_playlist::MediaPlaylist;
pub use media_playlist::MediaPlaylistBuilder;
pub use media_segment::MediaSegment;
pub use media_segment::MediaSegmentBuilder;
