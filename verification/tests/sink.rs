use flac_builder::BufferSink;

#[test]
fn new_sink_is_empty() {
    let sink = BufferSink::new();
    assert_eq!(sink.len(), 0);
    assert_eq!(sink.tell(), 0);
    assert_eq!(sink.into_bytes(), Vec::<u8>::new());
}

#[test]
fn sink_with_capacity_is_empty() {
    let sink = BufferSink::with_capacity(4096);
    assert_eq!(sink.len(), 0);
    assert_eq!(sink.tell(), 0);
}

#[test]
fn writes_append_and_move_the_cursor() {
    let mut sink = BufferSink::new();
    assert!(sink.write(&[1, 2, 3]));
    assert_eq!(sink.tell(), 3);
    assert!(sink.write(&[4, 5]));
    assert_eq!(sink.tell(), 5);
    assert_eq!(sink.as_slice(), &[1, 2, 3, 4, 5]);
}

#[test]
fn write_beyond_the_end_fills_the_gap_with_zeros() {
    let mut sink = BufferSink::new();
    assert!(sink.write(&[7, 7]));
    sink.seek(5);
    assert!(sink.write(&[9, 8]));
    assert_eq!(sink.as_slice(), &[7, 7, 0, 0, 0, 9, 8]);
    assert_eq!(sink.tell(), 7);
    assert_eq!(sink.len(), 7);
}

#[test]
fn length_after_a_write_is_the_larger_of_old_length_and_end_of_write() {
    let mut sink = BufferSink::new();
    assert!(sink.write(&[1; 10]));
    sink.seek(2);
    assert!(sink.write(&[2; 3]));
    assert_eq!(sink.len(), 10);
    sink.seek(8);
    assert!(sink.write(&[3; 5]));
    assert_eq!(sink.len(), 13);
    sink.seek(20);
    assert!(sink.write(&[4; 1]));
    assert_eq!(sink.len(), 21);
}

#[test]
fn seek_to_start_then_write_patches_the_first_bytes_only() {
    let mut sink = BufferSink::new();
    assert!(sink.write(&[10, 11, 12, 13, 14, 15]));
    sink.seek(0);
    assert!(sink.write(&[1, 2, 3]));
    assert_eq!(sink.as_slice(), &[1, 2, 3, 13, 14, 15]);
    assert_eq!(sink.tell(), 3);
}

#[test]
fn write_in_the_middle_may_run_over_the_end() {
    let mut sink = BufferSink::new();
    assert!(sink.write(&[1, 2, 3, 4]));
    sink.seek(3);
    assert!(sink.write(&[9, 9, 9]));
    assert_eq!(sink.as_slice(), &[1, 2, 3, 9, 9, 9]);
}

#[test]
fn empty_write_beyond_the_end_still_grows_the_buffer() {
    let mut sink = BufferSink::new();
    assert!(sink.write(&[1]));
    sink.seek(4);
    assert!(sink.write(&[]));
    assert_eq!(sink.as_slice(), &[1, 0, 0, 0]);
    assert_eq!(sink.tell(), 4);
}

#[test]
fn empty_write_inside_changes_nothing() {
    let mut sink = BufferSink::new();
    assert!(sink.write(&[1, 2, 3]));
    sink.seek(1);
    assert!(sink.write(&[]));
    assert_eq!(sink.as_slice(), &[1, 2, 3]);
    assert_eq!(sink.tell(), 1);
}

#[test]
fn seek_moves_the_cursor_and_keeps_the_bytes() {
    let mut sink = BufferSink::new();
    assert!(sink.write(&[5, 6]));
    sink.seek(1_000_000);
    assert_eq!(sink.tell(), 1_000_000);
    assert_eq!(sink.as_slice(), &[5, 6]);
    sink.seek(0);
    assert_eq!(sink.tell(), 0);
}

#[test]
fn write_that_cannot_fit_is_refused_and_changes_nothing() {
    let mut sink = BufferSink::new();
    assert!(sink.write(&[5, 6]));
    sink.seek(u64::MAX);
    assert!(!sink.write(&[1]));
    assert_eq!(sink.tell(), u64::MAX);
    assert_eq!(sink.as_slice(), &[5, 6]);
}

#[test]
fn cursor_is_inside_the_buffer_after_every_write() {
    let mut sink = BufferSink::new();
    let offsets: [u64; 5] = [0, 3, 1, 9, 4];
    for offset in offsets {
        sink.seek(offset);
        assert!(sink.write(&[1, 2]));
        assert!(sink.tell() <= sink.len() as u64);
    }
}
