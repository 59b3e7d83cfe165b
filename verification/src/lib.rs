//! A verified line transcoder: it reads a byte stream as newline-delimited
//! lines under one codec (raw, gzip or xz, told apart by file-name suffix),
//! writes the lines back out under another, and counts the lines it copied
//! and the per-line writes that failed.

pub mod codec;
pub mod lines;
pub mod transcode;
