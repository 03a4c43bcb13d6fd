//! End-to-end tests of the chunked range reader, driven with real gzip data.

use std::io::Write;

use rangegz::decoder::PersistentDecompressor;
use rangegz::errors::StreamError;
use rangegz::reader::{ChunkedRangeReader, Pulled};
use rangegz::source::SwappableSource;

const PROBE: usize = 1024;

fn gzip_bytes(plain: &[u8]) -> Vec<u8> {
    let mut enc = flate2::write::GzEncoder::new(Vec::new(), flate2::Compression::default());
    enc.write_all(plain).unwrap();
    enc.finish().unwrap()
}

/// Pseudo-random, poorly compressible bytes.
fn noisy(n: usize) -> Vec<u8> {
    let mut x: u64 = 0x1234_5678_9abc_def0;
    let mut out = Vec::with_capacity(n);
    for _ in 0..n {
        x = x.wrapping_mul(6364136223846793005).wrapping_add(1442695040888963407);
        out.push((x >> 33) as u8);
    }
    out
}

fn header_for(total: usize) -> Vec<u8> {
    let last = if total > PROBE { PROBE - 1 } else { total - 1 };
    format!("bytes 0-{}/{}", last, total).into_bytes()
}

fn probe_of(compressed: &[u8]) -> Vec<u8> {
    compressed[..compressed.len().min(PROBE)].to_vec()
}

/// Drive a reader over `compressed` until `Done`, serving every requested
/// range from the slice. Returns the delivered bytes and the fetch count,
/// the discovery probe included.
fn drive(compressed: &[u8], chunk_size: u64) -> Result<(Vec<u8>, u64), StreamError> {
    let header = header_for(compressed.len());
    let mut reader = ChunkedRangeReader::start(Some(&header), probe_of(compressed), chunk_size)?;
    let mut out: Vec<u8> = Vec::new();
    let mut fetches: u64 = 1;
    loop {
        match reader.pull(4096)? {
            Pulled::Data(d) => out.extend_from_slice(&d),
            Pulled::NeedChunk(s, e) => {
                assert!(s <= e && (e as usize) < compressed.len());
                reader.supply_chunk(compressed[s as usize..=e as usize].to_vec());
                fetches += 1;
            }
            Pulled::Done => return Ok((out, fetches)),
        }
    }
}

fn expected_fetches(total: usize, chunk: usize) -> u64 {
    if total <= PROBE {
        1
    } else {
        1 + ((total - PROBE + chunk - 1) / chunk) as u64
    }
}

#[test]
fn missing_header_is_a_protocol_error() {
    let r = ChunkedRangeReader::start(None, Vec::new(), 1024);
    assert!(matches!(r, Err(StreamError::Protocol)));
}

#[test]
fn malformed_header_is_a_protocol_error() {
    let header = b"bytes 0-1023/none".to_vec();
    let r = ChunkedRangeReader::start(Some(&header), Vec::new(), 1024);
    assert!(matches!(r, Err(StreamError::Protocol)));
}

#[test]
fn zero_total_length_is_a_protocol_error() {
    let header = b"bytes 0-0/0".to_vec();
    let r = ChunkedRangeReader::start(Some(&header), Vec::new(), 1024);
    assert!(matches!(r, Err(StreamError::Protocol)));
}

#[test]
fn small_resource_single_fetch_round_trip() {
    let plain = b"hello, chunked range reader; this fits the probe with room to spare";
    let compressed = gzip_bytes(plain);
    assert!(compressed.len() <= PROBE);
    let (out, fetches) = drive(&compressed, 1024 * 1024).unwrap();
    assert_eq!(out, plain);
    assert_eq!(fetches, 1);
}

#[test]
fn multi_chunk_round_trip() {
    let plain = noisy(8 * 1024);
    let compressed = gzip_bytes(&plain);
    assert!(compressed.len() > PROBE);
    let (out, fetches) = drive(&compressed, 512).unwrap();
    assert_eq!(out, plain);
    assert_eq!(fetches, expected_fetches(compressed.len(), 512));
}

#[test]
fn fetch_count_matches_formula_for_many_chunk_sizes() {
    let plain = noisy(6 * 1024);
    let compressed = gzip_bytes(&plain);
    assert!(compressed.len() > PROBE);
    for chunk in [100usize, 512, 1000, 4096, 1024 * 1024] {
        let (out, fetches) = drive(&compressed, chunk as u64).unwrap();
        assert_eq!(out, plain);
        assert_eq!(fetches, expected_fetches(compressed.len(), chunk));
    }
}

#[test]
fn partial_pulls_respect_the_requested_maximum() {
    let plain = b"twelve bytes".to_vec();
    let compressed = gzip_bytes(&plain);
    let header = header_for(compressed.len());
    let mut reader =
        ChunkedRangeReader::start(Some(&header), probe_of(&compressed), 1024).unwrap();
    let first = reader.pull(5).unwrap();
    match first {
        Pulled::Data(d) => assert_eq!(d, b"twelv"),
        _ => panic!("expected data"),
    }
    let second = reader.pull(100).unwrap();
    match second {
        Pulled::Data(d) => assert_eq!(d, b"e bytes"),
        _ => panic!("expected data"),
    }
    assert!(matches!(reader.pull(100), Ok(Pulled::Done)));
}

#[test]
fn done_is_terminal_and_idempotent() {
    let plain = b"a short resource";
    let compressed = gzip_bytes(plain);
    let (out, _) = drive(&compressed, 256).unwrap();
    assert_eq!(out, plain);

    let header = header_for(compressed.len());
    let mut reader =
        ChunkedRangeReader::start(Some(&header), probe_of(&compressed), 256).unwrap();
    loop {
        match reader.pull(4096).unwrap() {
            Pulled::Data(_) => {}
            Pulled::NeedChunk(s, e) => {
                reader.supply_chunk(compressed[s as usize..=e as usize].to_vec())
            }
            Pulled::Done => break,
        }
    }
    for _ in 0..5 {
        match reader.pull(4096) {
            Ok(Pulled::Done) => {}
            other => panic!("pull after Done must keep reporting Done, got {:?}", name_of(&other)),
        }
    }
}

fn name_of(r: &Result<Pulled, StreamError>) -> &'static str {
    match r {
        Ok(Pulled::Data(_)) => "data",
        Ok(Pulled::NeedChunk(_, _)) => "need-chunk",
        Ok(Pulled::Done) => "done",
        Err(_) => "error",
    }
}

#[test]
fn truncated_middle_chunk_asks_for_the_next_chunk() {
    let plain = noisy(8 * 1024);
    let compressed = gzip_bytes(&plain);
    assert!(compressed.len() > PROBE + 1024);
    let chunk: u64 = 512;
    let header = header_for(compressed.len());
    let mut reader =
        ChunkedRangeReader::start(Some(&header), probe_of(&compressed), chunk).unwrap();
    // Drain the probe's output, then answer the first chunk request short.
    let (s1, e1) = loop {
        match reader.pull(4096).unwrap() {
            Pulled::Data(_) => {}
            Pulled::NeedChunk(s, e) => break (s, e),
            Pulled::Done => panic!("resource is longer than the probe"),
        }
    };
    assert_eq!(s1, PROBE as u64);
    assert_eq!(e1, PROBE as u64 + chunk - 1);
    let short_end = s1 as usize + 200;
    reader.supply_chunk(compressed[s1 as usize..short_end].to_vec());
    // The short chunk's bytes decode (or not); either way the reader must ask
    // for the next chunk rather than fail, since the resource has more bytes.
    loop {
        match reader.pull(4096).unwrap() {
            Pulled::Data(_) => {}
            Pulled::NeedChunk(s2, e2) => {
                assert_eq!(s2, s1 + chunk);
                assert_eq!(e2, s1 + 2 * chunk - 1);
                break;
            }
            Pulled::Done => panic!("resource cannot be done: bytes remain"),
        }
    }
}

#[test]
fn truncated_resource_ends_in_a_decode_error() {
    let plain = noisy(8 * 1024);
    let compressed = gzip_bytes(&plain);
    assert!(compressed.len() > PROBE + 100);
    // Pretend the resource ends 50 bytes early: the gzip stream can then
    // never complete, and the reader must fail once everything is fetched.
    let truncated = &compressed[..compressed.len() - 50];
    let r = drive(truncated, 512);
    assert!(matches!(r, Err(StreamError::Decode)));
}

#[test]
fn corrupt_probe_data_fails_only_after_delivery() {
    // A probe that is not gzip at all: starting succeeds (errors surface only
    // once the buffer — here empty — is exhausted), the first pull fails.
    let header = b"bytes 0-1023/4096".to_vec();
    let garbage = vec![0x55u8; 600];
    let mut reader = ChunkedRangeReader::start(Some(&header), garbage, 1024).unwrap();
    assert!(matches!(reader.pull(4096), Err(StreamError::Decode)));
    // And the failure is sticky.
    assert!(matches!(reader.pull(4096), Err(StreamError::Decode)));
}

#[test]
fn source_install_replaces_the_previous_stream() {
    let mut src = SwappableSource::new();
    assert!(src.is_drained());
    src.install(vec![1, 2, 3]);
    assert!(!src.is_drained());
    src.advance(2);
    assert_eq!(src.cursor(), 2);
    src.install(vec![9]);
    assert_eq!(src.cursor(), 0);
    assert_eq!(src.bytes(), &vec![9]);
    src.advance(1);
    assert!(src.is_drained());
}

#[test]
fn decompressor_survives_a_source_swap() {
    let plain = noisy(2000);
    let compressed = gzip_bytes(&plain);
    assert!(compressed.len() > 100);
    let mid = compressed.len() / 2;
    let mut src = SwappableSource::new();
    let mut dec = PersistentDecompressor::new();
    src.install(compressed[..mid].to_vec());
    let mut out = dec.decode_pass(&mut src);
    assert!(!dec.finished() && !dec.corrupt());
    assert!(src.is_drained());
    src.install(compressed[mid..].to_vec());
    let mut rest = dec.decode_pass(&mut src);
    out.append(&mut rest);
    assert!(dec.finished());
    assert!(!dec.corrupt());
    assert_eq!(out, plain);
}

#[test]
fn three_mib_resource_ten_mib_plaintext_four_fetches() {
    // A resource of exactly 3 MiB compressed that decompresses to exactly
    // 10 MiB: the gzip member, then padding the decompressor never needs.
    let mib = 1024 * 1024;
    let plain: Vec<u8> = {
        let mut p = Vec::with_capacity(10 * mib);
        let word = b"all work and no play makes a dull stream ";
        while p.len() < 10 * mib {
            let take = word.len().min(10 * mib - p.len());
            p.extend_from_slice(&word[..take]);
        }
        p
    };
    assert_eq!(plain.len(), 10 * mib);
    let mut compressed = gzip_bytes(&plain);
    assert!(compressed.len() < 3 * mib);
    compressed.resize(3 * mib, 0);
    let (out, fetches) = drive(&compressed, mib as u64).unwrap();
    assert_eq!(out.len(), 10 * mib);
    assert_eq!(out, plain);
    assert_eq!(fetches, 4);
}
