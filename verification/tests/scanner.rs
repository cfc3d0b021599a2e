use bytescan::forbidden::ForbiddenSet;
use bytescan::scanner::Scanner;

fn default_scanner() -> Scanner {
    Scanner::new(ForbiddenSet::build(&[0x00, 0x0A]))
}

#[test]
fn scan_plain_text_is_clean() {
    let mut sc = default_scanner();
    assert_eq!(sc.scan(b"abc"), false);
}

#[test]
fn scan_adjacent_markers() {
    let mut sc = default_scanner();
    assert_eq!(sc.scan(b"a--b"), true);
}

#[test]
fn scan_marker_pair_across_chunks() {
    let mut sc = default_scanner();
    assert_eq!(sc.scan(b"a-"), false);
    assert_eq!(sc.scan(b"-b"), true);
}

#[test]
fn scan_forbidden_byte() {
    let mut sc = default_scanner();
    assert_eq!(sc.scan(b"a\x00b"), true);
}

#[test]
fn scan_forbidden_newline() {
    let mut sc = default_scanner();
    assert_eq!(sc.scan(b"one\ntwo"), true);
}

#[test]
fn scan_empty_chunk_is_clean_and_keeps_state() {
    let mut sc = default_scanner();
    assert_eq!(sc.scan(b""), false);
    assert_eq!(sc.scan(b"a-"), false);
    // An empty chunk must not disturb the carried marker byte.
    assert_eq!(sc.scan(b""), false);
    assert_eq!(sc.scan(b"-b"), true);
}

#[test]
fn single_markers_apart_are_clean() {
    let mut sc = default_scanner();
    assert_eq!(sc.scan(b"a-b-c"), false);
    assert_eq!(sc.scan(b"-d"), false);
}

#[test]
fn is_forbidden_matches_configuration() {
    let sc = default_scanner();
    assert_eq!(sc.is_forbidden(0x0A), true);
    assert_eq!(sc.is_forbidden(0x00), true);
    assert_eq!(sc.is_forbidden(0x41), false);
}

#[test]
fn is_forbidden_is_stable_across_calls() {
    let mut sc = default_scanner();
    assert_eq!(sc.is_forbidden(0x0A), true);
    assert_eq!(sc.is_forbidden(0x0A), true);
    assert_eq!(sc.scan(b"a-"), false);
    let _ = sc.scan(b"\n");
    sc.reset();
    assert_eq!(sc.is_forbidden(0x0A), true);
    assert_eq!(sc.is_forbidden(0x41), false);
}

#[test]
fn reset_clears_carried_marker() {
    let mut sc = default_scanner();
    assert_eq!(sc.scan(b"a-"), false);
    sc.reset();
    // The pre-reset marker byte must not pair with the one that follows.
    assert_eq!(sc.scan(b"-b"), false);
    // But a fresh pair after the reset still triggers.
    assert_eq!(sc.scan(b"--"), true);
}

#[test]
fn empty_set_matches_no_byte() {
    let sc = Scanner::new(ForbiddenSet::build(&[]));
    for b in 0..=255u8 {
        assert_eq!(sc.is_forbidden(b), false);
    }
}

#[test]
fn empty_set_still_detects_marker_runs() {
    let mut sc = Scanner::new(ForbiddenSet::build(&[]));
    assert_eq!(sc.scan(b"a\x00\nb"), false);
    assert_eq!(sc.scan(b"c--d"), true);
}

#[test]
fn duplicate_bytes_in_configuration() {
    let sc = Scanner::new(ForbiddenSet::build(&[7, 7, 7, 9]));
    assert_eq!(sc.is_forbidden(7), true);
    assert_eq!(sc.is_forbidden(9), true);
    assert_eq!(sc.is_forbidden(8), false);
}

#[test]
fn chunking_never_changes_the_verdict() {
    let stream: &[u8] = b"xy-z--w";
    // Every way of cutting the stream in two, against the whole.
    for cut in 0..=stream.len() {
        let mut whole = default_scanner();
        let verdict = whole.scan(stream);
        let (left, right) = stream.split_at(cut);
        let mut split = default_scanner();
        let chunked = split.scan(left) || split.scan(right);
        assert_eq!(chunked, verdict);
    }
}

#[test]
fn chunking_a_clean_stream() {
    let stream: &[u8] = b"a-b-c-d";
    for cut in 0..=stream.len() {
        let (left, right) = stream.split_at(cut);
        let mut split = default_scanner();
        assert_eq!(split.scan(left), false);
        assert_eq!(split.scan(right), false);
    }
}

#[test]
fn full_byte_range_is_accepted() {
    let all: Vec<u8> = (0..=255u8).filter(|&b| b != b'-').collect();
    let mut sc = Scanner::new(ForbiddenSet::build(&[]));
    assert_eq!(sc.scan(&all), false);
    let sc2 = Scanner::new(ForbiddenSet::build(&all));
    for &b in &all {
        assert_eq!(sc2.is_forbidden(b), true);
    }
    assert_eq!(sc2.is_forbidden(b'-'), false);
}
