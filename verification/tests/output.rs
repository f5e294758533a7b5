//! Captured output.
use shepherd::supervision::output::{reader_failure, reader_stopped};
use shepherd::{OutputChunk, OutputStream, ProcessOutput};

fn bytes(chunks: &[OutputChunk]) -> Vec<u8> {
    chunks.iter().flat_map(|c| c.bytes.clone()).collect()
}

#[test]
fn overflow_drops_oldest_exact_bytes_and_preserves_binary_tail() {
    let mut out = ProcessOutput::capture(4, 3);
    out.push(OutputStream::Stdout, &[0, 255, 1]);
    out.push(OutputStream::Stderr, &[2, 3, 4]);
    let s = out.read();
    assert_eq!(s.dropped_bytes, 2);
    assert_eq!(bytes(&s.chunks), vec![1, 2, 3, 4]);
    assert_eq!(bytes(&s.tail), vec![2, 3, 4]);
    assert!(out.read().chunks.is_empty());
    assert_eq!(out.read().tail, s.tail);
}

#[test]
fn oversized_chunk_and_zero_capacity_remain_bounded() {
    let mut out = ProcessOutput::capture(0, 2);
    out.push(OutputStream::Stdout, &[1, 2, 3, 4]);
    let s = out.read();
    assert!(s.chunks.is_empty());
    assert_eq!(s.dropped_bytes, 4);
    assert_eq!(s.tail[0].bytes, [3, 4]);
}

#[test]
fn reader_failure_is_observable() {
    let mut out = ProcessOutput::capture(8, 8);
    out.close(OutputStream::Stdout, Some("injected reader failure".to_string()));
    let s = out.read();
    assert!(s.stdout_closed);
    assert_eq!(s.errors, ["injected reader failure"]);
}

#[test]
fn closing_twice_keeps_the_first_reason() {
    let mut out = ProcessOutput::capture(8, 8);
    out.close(OutputStream::Stderr, None);
    out.close(OutputStream::Stderr, Some("late".to_string()));
    let s = out.read();
    assert!(s.stderr_closed);
    assert!(!s.stdout_closed);
    assert!(s.errors.is_empty());
}

#[test]
fn everything_within_capacity_is_read_back_in_order() {
    let mut out = ProcessOutput::capture(16, 4);
    out.push(OutputStream::Stdout, b"ab");
    out.push(OutputStream::Stderr, b"");
    out.push(OutputStream::Stderr, b"cd");
    let s = out.read();
    assert_eq!(s.dropped_bytes, 0);
    assert_eq!(
        s.chunks,
        vec![
            OutputChunk { stream: OutputStream::Stdout, bytes: b"ab".to_vec() },
            OutputChunk { stream: OutputStream::Stderr, bytes: b"cd".to_vec() },
        ]
    );
    out.push(OutputStream::Stdout, b"ef");
    let s = out.read();
    assert_eq!(bytes(&s.chunks), b"ef");
    assert_eq!(bytes(&s.tail), b"cdef");
}

#[test]
fn reader_messages() {
    assert_eq!(reader_failure("task 3 panicked"), "output reader failed: task 3 panicked");
    assert_eq!(reader_stopped(), "pipe remained open after root reap; reader stopped");
}
