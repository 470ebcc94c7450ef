use fastq_writer::codec::{decompress_content, transcode_content};
use fastq_writer::lines::normalize_lines;
use std::io::Read;

/// Decode a gzip stream with the compression crate itself, independently of
/// the library's own decoder.
fn gunzip(stream: &[u8]) -> Vec<u8> {
    let mut dec = flate2::read::GzDecoder::new(stream);
    let mut content = Vec::new();
    dec.read_to_end(&mut content).expect("stream must decode as gzip");
    content
}

#[test]
fn four_line_record() {
    let input: Vec<u8> = b"@SEQ1\nACGT\n+\nIIII".to_vec();
    let stream = transcode_content(&input).expect("transcoding must succeed");
    assert_eq!(stream[0], 0x1f);
    assert_eq!(stream[1], 0x8b);
    assert_eq!(gunzip(&stream), b"@SEQ1\nACGT\n+\nIIII\n".to_vec());
}

#[test]
fn round_trip_terminated_input() {
    let input: Vec<u8> = b"@SEQ1\nACGT\n+\nIIII\n".to_vec();
    let stream = transcode_content(&input).expect("transcoding must succeed");
    let content = decompress_content(&stream).expect("stream must decode");
    assert_eq!(content, input);
    assert_eq!(gunzip(&stream), input);
}

#[test]
fn round_trip_unterminated_input() {
    let input: Vec<u8> = b"one line\nanother".to_vec();
    let stream = transcode_content(&input).expect("transcoding must succeed");
    let content = decompress_content(&stream).expect("stream must decode");
    assert_eq!(content, b"one line\nanother\n".to_vec());
}

#[test]
fn empty_input_gives_empty_content() {
    let input: Vec<u8> = Vec::new();
    let stream = transcode_content(&input).expect("transcoding must succeed");
    assert!(!stream.is_empty());
    let content = decompress_content(&stream).expect("stream must decode");
    assert_eq!(content, Vec::<u8>::new());
    assert_eq!(gunzip(&stream), Vec::<u8>::new());
}

#[test]
fn rerun_gives_identical_content() {
    let input: Vec<u8> = b"@SEQ1\nACGT\n+\nIIII".to_vec();
    let first = transcode_content(&input).expect("transcoding must succeed");
    let second = transcode_content(&input).expect("transcoding must succeed");
    assert_eq!(gunzip(&first), gunzip(&second));
}

#[test]
fn decompress_rejects_non_gzip() {
    let stream: Vec<u8> = b"not a gzip stream".to_vec();
    assert!(decompress_content(&stream).is_none());
}

#[test]
fn normalize_appends_missing_newline() {
    let input: Vec<u8> = b"ACGT".to_vec();
    assert_eq!(normalize_lines(&input), b"ACGT\n".to_vec());
}

#[test]
fn normalize_keeps_terminated_stream() {
    let input: Vec<u8> = b"ACGT\nTTTT\n".to_vec();
    assert_eq!(normalize_lines(&input), input);
}

#[test]
fn normalize_empty_stream() {
    let input: Vec<u8> = Vec::new();
    assert_eq!(normalize_lines(&input), Vec::<u8>::new());
}

#[test]
fn normalize_keeps_blank_lines() {
    let input: Vec<u8> = b"\n\n".to_vec();
    assert_eq!(normalize_lines(&input), input);
}

#[test]
fn normalize_keeps_other_bytes() {
    let input: Vec<u8> = b"a\r\nb\x00c".to_vec();
    assert_eq!(normalize_lines(&input), b"a\r\nb\x00c\n".to_vec());
}
