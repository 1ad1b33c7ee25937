//! Verified core of a downloader for multi-frame animated illustrations.
//!
//! The crate holds everything that is decided or computed on the way from an
//! illustration identifier to an animation file: which identifiers are
//! processed, how an archive becomes an ordered frame set, what the encoder is
//! told (frame rate, concatenation script, arguments), under which name the
//! result is stored, and how each stage's result is routed without losing the
//! identifier it belongs to. Network, file system and process handling stay
//! with the caller.

pub mod encoder;
pub mod illust;
pub mod pipeline;
pub mod pixiv;
pub mod ratio;
pub mod save;
pub mod text;
pub mod ugoira;
