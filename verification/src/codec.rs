//! The gzip codec around the line model.
//!
//! Trusted bindings to the compression crate give names to what the codec
//! produces and recovers; the verified transcoding turns content bytes into
//! a compressed stream whose decoded form is the normalized content.

use vstd::prelude::*;

use crate::lines::{join_terminated, lines_of, normalize_lines, normalized};

verus! {

/// Why a transcoding run failed, one variant per I/O boundary: opening the
/// input, creating the output, reading mid-transfer, writing mid-transfer.
/// No failure is retried; each aborts the run at once.
#[derive(Clone, Copy, Debug, PartialEq, Eq, Structural)]
pub enum TranscodeError {
    /// The input path could not be opened for reading.
    OpenInput,
    /// The output path could not be created for writing.
    OpenOutput,
    /// Reading from the input stream failed mid-transfer.
    ReadLine,
    /// Writing to the output or compression stream failed mid-transfer.
    WriteLine,
}

/// The gzip stream that the compression codec produces for given content
/// bytes at the default compression level.
pub uninterp spec fn gzip_of(content: Seq<u8>) -> Seq<u8>;

/// The content bytes that the compression codec recovers from a gzip
/// stream, or `None` when the stream does not decode as gzip.
pub uninterp spec fn gunzip_of(stream: Seq<u8>) -> Option<Seq<u8>>;

/// Relies on flate2::write::GzEncoder with flate2::Compression::default and
/// GzEncoder::finish: the finished stream is the gzip encoding of exactly
/// the bytes written, it depends on those bytes alone (the header carries no
/// timestamp and a fixed operating-system byte), and gzip is lossless, so
/// decoding the stream gives the written bytes back. Encoding into an
/// in-memory buffer always succeeds: a `Vec` writer never errors, and the
/// compressor fails only on stream misuse.
#[verifier::external_body]
fn gzip_encode(content: &Vec<u8>) -> (r: Option<Vec<u8>>)
    ensures
        r is Some,
        r matches Some(stream) ==> stream@ == gzip_of(content@) && gunzip_of(stream@)
            == Some(content@),
{
    let mut enc = flate2::write::GzEncoder::new(Vec::new(), flate2::Compression::default());
    if std::io::Write::write_all(&mut enc, content.as_slice()).is_err() {
        return None;
    }
    enc.finish().ok()
}

/// Relies on flate2::read::GzDecoder: decoding one gzip member is a
/// function of the stream bytes alone, and either recovers the encoded
/// content or fails on a stream that does not decode as gzip.
#[verifier::external_body]
fn gzip_decode(stream: &Vec<u8>) -> (r: Option<Vec<u8>>)
    ensures
        r matches Some(content) ==> gunzip_of(stream@) == Some(content@),
        r is None ==> gunzip_of(stream@) is None,
{
    let mut dec = flate2::read::GzDecoder::new(stream.as_slice());
    let mut content = Vec::new();
    match std::io::Read::read_to_end(&mut dec, &mut content) {
        Ok(_) => Some(content),
        Err(_) => None,
    }
}

/// Transcode content bytes: split them into lines, terminate each line
/// with a single newline, and compress the result into a gzip stream.
///
/// Compressing into memory cannot fail, so the call always succeeds; the
/// `Result` keeps the operation's error shape, whose variants arise at the
/// file boundary around the library.
pub fn transcode_content(input: &Vec<u8>) -> (r: Result<Vec<u8>, TranscodeError>)
    ensures
        r is Ok,
        r matches Ok(stream) ==> stream@ == gzip_of(normalized(input@)) && gunzip_of(stream@)
            == Some(normalized(input@)),
{
    let content = normalize_lines(input);
    match gzip_encode(&content) {
        Some(stream) => Ok(stream),
        None => Err(TranscodeError::WriteLine),
    }
}

/// Decode a gzip stream back to its content bytes; `None` when the stream
/// does not decode as gzip.
pub fn decompress_content(stream: &Vec<u8>) -> (r: Option<Vec<u8>>)
    ensures
        r matches Some(content) ==> gunzip_of(stream@) == Some(content@),
        r is None ==> gunzip_of(stream@) is None,
{
    gzip_decode(stream)
}

/// Round trip: a stream obtained by transcoding some input decodes to the
/// input's lines, in order, each followed by a single newline — whether or
/// not the input's last line was newline-terminated.
pub proof fn lemma_round_trip(input: Seq<u8>, stream: Seq<u8>)
    requires
        gunzip_of(stream) == Some(normalized(input)),
    ensures
        gunzip_of(stream) == Some(join_terminated(lines_of(input))),
        lines_of(gunzip_of(stream).unwrap()) == lines_of(input),
{
    crate::lines::lemma_lines_preserved(input);
}

/// Re-running the transcoding on the same input gives streams with the same
/// decoded content, whatever the two compressed streams themselves hold.
pub proof fn lemma_rerun_same_content(input: Seq<u8>, s1: Seq<u8>, s2: Seq<u8>)
    requires
        gunzip_of(s1) == Some(normalized(input)),
        gunzip_of(s2) == Some(normalized(input)),
    ensures
        gunzip_of(s1) == gunzip_of(s2),
{
}

} // verus!
