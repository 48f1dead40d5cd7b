use lightning_wire_msgs::items::TLVBuffer;
use lightning_wire_msgs::{write_varint, PeekReader, TLVWireItemReader, TLVWireItemWriter, WireError};

fn record(out: &mut Vec<u8>, tag: u64, payload: &[u8]) {
    write_varint(tag, out);
    write_varint(payload.len() as u64, out);
    out.extend_from_slice(payload);
}

#[test]
fn extension_scan_skips_unknown_and_absent() {
    let mut s = Vec::new();
    record(&mut s, 1, &[0xaa]);
    record(&mut s, 2, &[0x12, 0x34]);
    record(&mut s, 3, &[0xbb, 0xbb, 0xbb]);
    record(&mut s, 7, &[]);
    record(&mut s, 9, &[9, 8, 7]);
    record(&mut s, 12, &[0xcc]);
    let mut r = PeekReader::new(&s);
    let f2: Option<u16> = <u16 as TLVWireItemReader>::decode_tlv(&mut r, 2).unwrap();
    let f5: Option<u16> = <u16 as TLVWireItemReader>::decode_tlv(&mut r, 5).unwrap();
    let f9: Option<TLVBuffer> = <TLVBuffer as TLVWireItemReader>::decode_tlv(&mut r, 9).unwrap();
    assert_eq!(f2, Some(0x1234));
    assert_eq!(f5, None);
    assert_eq!(f9.unwrap().borrow(), &[9u8, 8, 7][..]);
    assert_eq!(r.remaining(), 3);
}

#[test]
fn extension_scan_higher_tag_is_left_for_later() {
    let mut s = Vec::new();
    record(&mut s, 9, &[0x01]);
    let mut r = PeekReader::new(&s);
    let f2: Option<u8> = <u8 as TLVWireItemReader>::decode_tlv(&mut r, 2).unwrap();
    let f5: Option<u8> = <u8 as TLVWireItemReader>::decode_tlv(&mut r, 5).unwrap();
    let f9: Option<u8> = <u8 as TLVWireItemReader>::decode_tlv(&mut r, 9).unwrap();
    assert_eq!((f2, f5, f9), (None, None, Some(1)));
    assert_eq!(r.remaining(), 0);
}

#[test]
fn extension_scan_end_of_stream_means_absent() {
    let mut r = PeekReader::new(&[]);
    let f: Option<u8> = <u8 as TLVWireItemReader>::decode_tlv(&mut r, 1).unwrap();
    assert_eq!(f, None);
    let mut r = PeekReader::new(&[0xfd, 0x00]);
    let f: Option<u8> = <u8 as TLVWireItemReader>::decode_tlv(&mut r, 1).unwrap();
    assert_eq!(f, None);
}

#[test]
fn extension_scan_truncated_record_is_eof() {
    let mut s = Vec::new();
    write_varint(1, &mut s);
    write_varint(5, &mut s);
    s.push(0);
    let mut r = PeekReader::new(&s);
    let f: Result<Option<u8>, WireError> = <u8 as TLVWireItemReader>::decode_tlv(&mut r, 4);
    assert_eq!(f, Err(WireError::UnexpectedEof));
}

#[test]
fn encode_tlv_writes_tag_length_payload() {
    let mut out = Vec::new();
    let n = 0x0102u16.encode_tlv(&mut out, 0xfd);
    assert_eq!(out, vec![0xfd, 0x00, 0xfd, 0x02, 0x01, 0x02]);
    assert_eq!(n, 6);
    let mut r = PeekReader::new(&out);
    let f: Option<u16> = <u16 as TLVWireItemReader>::decode_tlv(&mut r, 0xfd).unwrap();
    assert_eq!(f, Some(0x0102));
    let mut out = Vec::new();
    let bytes = [5u8, 6];
    TLVBuffer::from(&bytes[..]).encode_tlv(&mut out, 4);
    assert_eq!(out, vec![4, 2, 5, 6]);
}
