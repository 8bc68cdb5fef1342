//! Recovery of the audio and the track metadata from an encrypted music
//! container.
//!
//! A container holds an encrypted key, encrypted metadata, a cover image and
//! an audio payload under a stream cipher that is keyed by the recovered key.
//! [`convert::process_file`] turns the bytes of a container into the audio,
//! the name of the file to write and the tag to write into it; the other
//! modules hold its steps, each with its own contract.

pub mod cipher;
pub mod container;
pub mod convert;
pub mod document;
pub mod error;
pub mod filename;
pub mod format;
pub mod keybox;
pub mod metadata;
pub mod stream;
pub mod tag;
