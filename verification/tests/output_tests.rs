use codex_launcher::capture::{
    output_record, system_record, AttemptCapture, NormalizedFragment, OutputFramers, StreamSource,
};
use codex_launcher::output::{
    get_snippet, ByteMarkerScanner, FramedLine, LineFramer, OutputTail, HIGH_DEMAND_MSG,
    MAX_LOGICAL_LINE_BYTES, OUTPUT_TAIL_MAX_BYTES, OUTPUT_TAIL_MAX_CHUNKS,
};

#[test]
fn output_tail_remains_bounded_under_large_output() {
    let mut tail = OutputTail::default();
    for index in 0..10_000 {
        tail.push(&format!("line-{index}-{}\n", "x".repeat(128)));
    }
    assert!(tail.byte_len() <= OUTPUT_TAIL_MAX_BYTES);
    assert!(tail.chunk_count() <= OUTPUT_TAIL_MAX_CHUNKS);
    assert!(tail.preview().chars().count() <= 283);
}

#[test]
fn line_framer_preserves_blank_lines_and_bounds_oversized_lines() {
    let mut framer = LineFramer::default();
    let framed = framer.push(b"first\n\nthird\n");
    assert_eq!(
        framed,
        [
            FramedLine { bytes: b"first".to_vec(), continuation: false },
            FramedLine { bytes: Vec::new(), continuation: false },
            FramedLine { bytes: b"third".to_vec(), continuation: false },
        ]
    );

    let oversized = vec![b'x'; MAX_LOGICAL_LINE_BYTES * 2 + 7];
    let fragments = framer.push(&oversized);
    assert_eq!(fragments.len(), 2);
    assert!(fragments.iter().all(|fragment| fragment.continuation));
    assert!(fragments.iter().all(|fragment| fragment.bytes.len() <= MAX_LOGICAL_LINE_BYTES));
    let final_fragment = framer.finish().expect("final bounded fragment");
    assert_eq!(final_fragment.bytes.len(), 7);
    assert!(!final_fragment.continuation);
}

#[test]
fn high_demand_marker_is_detected_across_raw_chunk_boundaries() {
    let mut scanner = ByteMarkerScanner::default();
    let split = HIGH_DEMAND_MSG.len() / 2;
    scanner.push(&HIGH_DEMAND_MSG.as_bytes()[..split]);
    assert!(!scanner.found());
    scanner.push(&HIGH_DEMAND_MSG.as_bytes()[split..]);
    assert!(scanner.found());
}

#[test]
fn crlf_is_stripped_even_when_split_across_chunks() {
    let mut framer = LineFramer::default();
    assert!(framer.push(b"abc\r").is_empty());
    let framed = framer.push(b"\nnext");
    assert_eq!(framed, [FramedLine { bytes: b"abc".to_vec(), continuation: false }]);
    assert_eq!(framer.finish(), Some(FramedLine { bytes: b"next".to_vec(), continuation: false }));
    assert_eq!(framer.finish(), None);
}

#[test]
fn scanner_keeps_reporting_after_the_marker_was_seen() {
    let mut scanner = ByteMarkerScanner::default();
    scanner.push(HIGH_DEMAND_MSG.as_bytes());
    scanner.push(b"more output");
    assert!(scanner.found());
    let mut other = ByteMarkerScanner::default();
    other.push(b"We're currently experiencing high");
    other.push(b" load");
    assert!(!other.found());
}

#[test]
fn snippet_collapses_whitespace_and_marks_the_cut() {
    assert_eq!(get_snippet("  a \n\t b  ", 280), "a b");
    assert_eq!(get_snippet("abcdef", 3), "abc...");
}

#[test]
fn tail_keeps_only_the_most_recent_chunks() {
    let mut tail = OutputTail::default();
    tail.push("");
    assert_eq!(tail.chunk_count(), 0);
    for _ in 0..(OUTPUT_TAIL_MAX_CHUNKS + 10) {
        tail.push("a");
    }
    tail.push("z");
    assert_eq!(tail.chunk_count(), OUTPUT_TAIL_MAX_CHUNKS);
    assert_eq!(tail.byte_len(), OUTPUT_TAIL_MAX_CHUNKS);
}

#[test]
fn capture_tracks_high_demand_per_stream_and_the_tail() {
    let mut capture = AttemptCapture::default();
    capture.push_raw(StreamSource::Stderr, &HIGH_DEMAND_MSG.as_bytes()[..10]);
    capture.push_raw(StreamSource::Stdout, &HIGH_DEMAND_MSG.as_bytes()[10..]);
    assert!(!capture.high_demand);
    capture.push_raw(StreamSource::Stderr, &HIGH_DEMAND_MSG.as_bytes()[10..]);
    assert!(capture.high_demand);
    capture.push_normalized(&[
        NormalizedFragment { text: "part".to_string(), continuation: true },
        NormalizedFragment { text: "end".to_string(), continuation: false },
    ]);
    assert_eq!(capture.tail.preview(), "partend");
    assert_eq!(StreamSource::Stdout.label(), "stdout");
}

#[test]
fn half_lines_of_concurrent_workers_do_not_mix() {
    let mut framers = OutputFramers::new();
    assert!(framers.push(0, StreamSource::Stdout, b"alpha-").is_empty());
    assert!(framers.push(1, StreamSource::Stdout, b"beta-").is_empty());
    assert!(framers.push(0, StreamSource::Stderr, b"warn").is_empty());
    let lines = framers.push(0, StreamSource::Stdout, b"done\nnext");
    assert_eq!(lines, vec![FramedLine { bytes: b"alpha-done".to_vec(), continuation: false }]);
    let lines = framers.push(1, StreamSource::Stdout, b"end\r\n");
    assert_eq!(lines, vec![FramedLine { bytes: b"beta-end".to_vec(), continuation: false }]);
    assert_eq!(
        framers.finish(0, StreamSource::Stderr),
        vec![FramedLine { bytes: b"warn".to_vec(), continuation: false }]
    );
    assert!(framers.finish(0, StreamSource::Stderr).is_empty());
    assert_eq!(
        framers.finish(0, StreamSource::Stdout),
        vec![FramedLine { bytes: b"next".to_vec(), continuation: false }]
    );
    assert!(framers.finish(7, StreamSource::Stdout).is_empty());
}

#[test]
fn log_records_carry_time_worker_and_stream() {
    assert_eq!(
        system_record("2026-08-01 10:00:00", Some(2), true, "start"),
        "[2026-08-01 10:00:00] [w2] [launcher] start\n"
    );
    assert_eq!(
        system_record("t", Some(2), false, "start"),
        "[t] [launcher] start\n"
    );
    assert_eq!(system_record("t", None, true, "m"), "[t] [launcher] m\n");
    assert_eq!(
        output_record("t", 0, true, StreamSource::Stderr, "oops", false),
        "[t] [w0] [stderr] oops\n"
    );
    assert_eq!(
        output_record("t", 3, false, StreamSource::Stdout, "long", true),
        "[t] [stdout] long … [logical line continues]\n"
    );
}
