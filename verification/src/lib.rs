//! Line-oriented transcoding of text content into gzip-compressed form.
//!
//! The library models a text stream as a sequence of newline-delimited
//! lines, proves that rewriting the stream keeps those lines intact while
//! terminating each with exactly one newline, and compresses the rewritten
//! stream through a trusted binding to a gzip codec.

pub mod codec;
pub mod lines;
