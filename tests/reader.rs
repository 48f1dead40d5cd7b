use lightning_wire_msgs::{PeekReader, WireError};

#[test]
fn peeked_bytes_are_replayed() {
    let bytes = [1u8, 2, 3, 4, 5];
    let mut r = PeekReader::new(&bytes);
    assert_eq!(r.peek_exact(2), Ok(vec![1, 2]));
    assert_eq!(r.peek_exact(1), Ok(vec![3]));
    assert_eq!(r.read(2), vec![1, 2]);
    assert_eq!(r.read(10), vec![3, 4, 5]);
    assert_eq!(r.read(1), Vec::<u8>::new());
}

#[test]
fn flush_commits_peeked_bytes() {
    let bytes = [1u8, 2, 3];
    let mut r = PeekReader::new(&bytes);
    r.peek_exact(2).unwrap();
    r.flush_peeked();
    assert_eq!(r.read_exact(1), Ok(vec![3]));
}

#[test]
fn peek_past_end_fails_and_changes_nothing() {
    let bytes = [1u8, 2];
    let mut r = PeekReader::new(&bytes);
    assert_eq!(r.peek_exact(3), Err(WireError::UnexpectedEof));
    assert_eq!(r.read_exact(3), Err(WireError::UnexpectedEof));
    assert_eq!(r.read_exact(2), Ok(vec![1, 2]));
}
