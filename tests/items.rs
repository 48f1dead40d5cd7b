use lightning_wire_msgs::items::feature::{Feature, RawFeatureVector};
use lightning_wire_msgs::items::fees::SatPerKWeight;
use lightning_wire_msgs::items::{Buffer, MaybeOwned, TLVBuffer};
use lightning_wire_msgs::{PeekReader, TLVWireItem, WireError, WireItem};

fn enc<T: WireItem>(v: &T) -> Vec<u8> {
    let mut out = Vec::new();
    let n = WireItem::encode(v, &mut out);
    assert_eq!(n, out.len());
    out
}

fn dec<T: WireItem>(bytes: &[u8]) -> Result<T, WireError> {
    <T as WireItem>::decode(&mut PeekReader::new(bytes))
}

#[test]
fn primitives_are_big_endian() {
    assert_eq!(enc(&0x12u8), vec![0x12]);
    assert_eq!(enc(&0x1234u16), vec![0x12, 0x34]);
    assert_eq!(enc(&0x12345678u32), vec![0x12, 0x34, 0x56, 0x78]);
    assert_eq!(
        enc(&0x0102030405060708u64),
        vec![1, 2, 3, 4, 5, 6, 7, 8]
    );
    assert_eq!(enc(&-2i16), vec![0xff, 0xfe]);
    assert_eq!(enc(&-1i8), vec![0xff]);
    assert_eq!(enc(&i32::MIN), vec![0x80, 0, 0, 0]);
    assert_eq!(enc(&-1i64), vec![0xff; 8]);
    assert_eq!(enc(&1u128).len(), 16);
    assert_eq!(enc(&i128::MIN)[0], 0x80);
}

#[test]
fn primitives_round_trip() {
    assert_eq!(dec::<u16>(&enc(&0xbeefu16)), Ok(0xbeef));
    assert_eq!(dec::<i16>(&enc(&i16::MIN)), Ok(i16::MIN));
    assert_eq!(dec::<i32>(&enc(&-123456i32)), Ok(-123456));
    assert_eq!(dec::<i64>(&enc(&i64::MAX)), Ok(i64::MAX));
    assert_eq!(dec::<u128>(&enc(&u128::MAX)), Ok(u128::MAX));
    assert_eq!(dec::<i128>(&enc(&i128::MIN)), Ok(i128::MIN));
    assert_eq!(dec::<i128>(&enc(&-5i128)), Ok(-5));
    assert_eq!(dec::<i8>(&[0x80]), Ok(-128));
}

#[test]
fn primitive_short_input_is_eof() {
    assert_eq!(dec::<u32>(&[1, 2, 3]), Err(WireError::UnexpectedEof));
    assert_eq!(dec::<u8>(&[]), Err(WireError::UnexpectedEof));
}

#[test]
fn unit_takes_no_bytes() {
    assert_eq!(enc(&()), Vec::<u8>::new());
    assert_eq!(dec::<()>(&[]), Ok(()));
}

#[test]
fn arrays_are_verbatim() {
    let a = [7u8; 16];
    assert_eq!(enc(&a), vec![7u8; 16]);
    assert_eq!(dec::<[u8; 4]>(&[1, 2, 3, 4, 5]), Ok([1, 2, 3, 4]));
    assert_eq!(dec::<[u8; 4]>(&[1, 2, 3]), Err(WireError::UnexpectedEof));
}

#[test]
fn buffer_prefixes_its_length() {
    let bytes = [1u8, 2, 3];
    let b = Buffer::from(&bytes[..]);
    assert_eq!(enc(&b), vec![3, 1, 2, 3]);
    let d: Buffer = dec(&[3, 9, 8, 7, 6]).unwrap();
    assert_eq!(d.to_vec(), vec![9, 8, 7]);
    assert!(matches!(dec::<Buffer>(&[4, 1, 2]), Err(WireError::UnexpectedEof)));
    let owned = Buffer::Vector(vec![5u8; 300]);
    let out = enc(&owned);
    assert_eq!(&out[..3], &[0xfd, 0x01, 0x2c]);
    assert_eq!(out.len(), 303);
}

#[test]
fn tlv_buffer_carries_no_length() {
    let bytes = [1u8, 2, 3];
    let b = TLVBuffer::from(&bytes[..]);
    let mut out = Vec::new();
    assert_eq!(TLVWireItem::encode(&b, &mut out), 3);
    assert_eq!(out, vec![1, 2, 3]);
    let mut r = PeekReader::new(&[4u8, 5, 6, 7]);
    let d = <TLVBuffer as TLVWireItem>::decode(&mut r, 2).unwrap();
    assert_eq!(d.borrow(), &[4u8, 5][..]);
    assert_eq!(r.remaining(), 2);
}

#[test]
fn maybe_owned_encodes_what_it_points_to() {
    let v = 0x0102u16;
    let b: MaybeOwned<u16> = MaybeOwned::Borrowed(&v);
    assert_eq!(enc(&b), vec![1, 2]);
    let d: MaybeOwned<u16> = dec(&[3, 4]).unwrap();
    assert!(matches!(d, MaybeOwned::Owned(0x0304)));
}

#[test]
fn fee_for_weight_truncates() {
    assert_eq!(SatPerKWeight(10).fee_for_weight(250), 2);
    assert_eq!(SatPerKWeight(-10).fee_for_weight(250), -2);
    assert_eq!(SatPerKWeight(1000).fee_for_weight(3), 3);
    assert_eq!(SatPerKWeight(7).fee_for_weight(0), 0);
    assert_eq!(SatPerKWeight(i64::MIN).fee_for_weight(1), i64::MIN / 1000);
}

#[test]
fn fee_rate_is_a_signed_64_bit_item() {
    assert_eq!(enc(&SatPerKWeight(-1)), vec![0xff; 8]);
    assert_eq!(dec::<SatPerKWeight>(&[0, 0, 0, 0, 0, 0, 1, 0]), Ok(SatPerKWeight(256)));
}

fn features(fs: &[Feature]) -> RawFeatureVector {
    let mut v = RawFeatureVector::new();
    for f in fs {
        v.add(*f);
    }
    v
}

#[test]
fn feature_set_empty_encoding() {
    assert_eq!(enc(&RawFeatureVector::new()), vec![0x00, 0x00]);
}

#[test]
fn feature_set_bit_placement() {
    let v = features(&[
        Feature::DataLossProtectRequired,
        Feature::DataLossProtectOptional,
        Feature::InitialRoutingSync,
        Feature::GossipQueriesRequired,
        Feature::GossipQueriesOptional,
    ]);
    assert_eq!(enc(&v), vec![0x00, 0x01, 0b1100_1011]);
    let v = features(&[Feature::InitialRoutingSync]);
    assert_eq!(enc(&v), vec![0x00, 0x01, 0b0000_1000]);
}

#[test]
fn feature_set_round_trip() {
    let v = features(&[Feature::GossipQueriesOptional, Feature::DataLossProtectRequired]);
    let d: RawFeatureVector = dec(&enc(&v)).unwrap();
    assert!(d.contains(Feature::GossipQueriesOptional));
    assert!(d.contains(Feature::DataLossProtectRequired));
    assert!(!d.contains(Feature::InitialRoutingSync));
    assert!(!d.contains(Feature::GossipQueriesRequired));
    assert!(!d.contains(Feature::DataLossProtectOptional));
}

#[test]
fn feature_set_unknown_bit_is_invalid() {
    assert!(matches!(dec::<RawFeatureVector>(&[0x00, 0x01, 0b0000_0100]), Err(WireError::InvalidData)));
    assert!(matches!(dec::<RawFeatureVector>(&[0x00, 0x02, 0x01, 0x00]), Err(WireError::InvalidData)));
    assert!(matches!(dec::<RawFeatureVector>(&[0x00, 0x02, 0x01]), Err(WireError::UnexpectedEof)));
}

#[test]
fn feature_set_leading_zero_bytes_are_accepted() {
    let d: RawFeatureVector = dec(&[0x00, 0x02, 0x00, 0x01]).unwrap();
    assert!(d.contains(Feature::DataLossProtectRequired));
    assert!(!d.contains(Feature::DataLossProtectOptional));
}

#[test]
fn feature_add_reports_new() {
    let mut v = RawFeatureVector::new();
    assert!(v.add(Feature::InitialRoutingSync));
    assert!(!v.add(Feature::InitialRoutingSync));
    assert_eq!(Feature::InitialRoutingSync.idx(), 3);
    assert_eq!(Feature::GossipQueriesOptional.idx(), 7);
}
