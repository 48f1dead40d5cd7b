use lightning_wire_msgs::{peek_varint, read_varint, write_varint, PeekReader, WireError};

fn encoded(n: u64) -> Vec<u8> {
    let mut out = Vec::new();
    let count = write_varint(n, &mut out);
    assert_eq!(count, out.len());
    out
}

fn decoded(bytes: &[u8]) -> Result<u64, WireError> {
    read_varint(&mut PeekReader::new(bytes))
}

#[test]
fn varint_width_boundaries() {
    let cases: [(u64, Vec<u8>); 6] = [
        (0xfc, vec![0xfc]),
        (0xfd, vec![0xfd, 0x00, 0xfd]),
        (0xffff, vec![0xfd, 0xff, 0xff]),
        (0x10000, vec![0xfe, 0x00, 0x01, 0x00, 0x00]),
        (0xffffffff, vec![0xfe, 0xff, 0xff, 0xff, 0xff]),
        (
            0x100000000,
            vec![0xff, 0x00, 0x00, 0x00, 0x01, 0x00, 0x00, 0x00, 0x00],
        ),
    ];
    for (n, bytes) in cases.iter() {
        let out = encoded(*n);
        assert_eq!(&out, bytes);
        assert_eq!(decoded(&out), Ok(*n));
    }
}

#[test]
fn varint_lengths_by_range() {
    assert_eq!(encoded(0).len(), 1);
    assert_eq!(encoded(0xfc).len(), 1);
    assert_eq!(encoded(0xfd).len(), 3);
    assert_eq!(encoded(0xffff).len(), 3);
    assert_eq!(encoded(0x10000).len(), 5);
    assert_eq!(encoded(0xffffffff).len(), 5);
    assert_eq!(encoded(0x100000000).len(), 9);
    assert_eq!(encoded(u64::MAX).len(), 9);
    assert_eq!(decoded(&encoded(u64::MAX)), Ok(u64::MAX));
}

#[test]
fn varint_non_canonical_form_is_accepted() {
    assert_eq!(decoded(&[0xfd, 0x00, 0x05]), Ok(5));
}

#[test]
fn varint_truncated_is_eof() {
    assert_eq!(decoded(&[]), Err(WireError::UnexpectedEof));
    assert_eq!(decoded(&[0xfe, 0x00, 0x01]), Err(WireError::UnexpectedEof));
}

#[test]
fn varint_peek_leaves_stream() {
    let bytes = [0xfd, 0x01, 0x02, 0x07];
    let mut r = PeekReader::new(&bytes);
    assert_eq!(peek_varint(&mut r), Ok((0x0102, 3)));
    assert_eq!(peek_varint(&mut r), Ok((0x0102, 3)));
    assert_eq!(r.remaining(), 4);
    assert_eq!(read_varint(&mut r), Ok(0x0102));
    assert_eq!(read_varint(&mut r), Ok(7));
}

#[test]
fn varint_peek_fills_replay_buffer() {
    let bytes = [0xfd, 0x01, 0x02, 0x07, 0x08];
    let mut r = PeekReader::new(&bytes);
    assert_eq!(peek_varint(&mut r), Ok((0x0102, 3)));
    assert_eq!(r.peeked_range(0, 3), vec![0xfd, 0x01, 0x02]);
    r.flush_peeked();
    assert_eq!(r.read(10), vec![0x07, 0x08]);
}
