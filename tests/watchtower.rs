use lightning_wire_msgs::items::feature::{Feature, RawFeatureVector};
use lightning_wire_msgs::items::fees::SatPerKWeight;
use lightning_wire_msgs::items::Buffer;
use lightning_wire_msgs::watchtower::items::blob::{Flag, KnownType, Type};
use lightning_wire_msgs::watchtower::items::error::{
    BaseError, CreateSessionError, DeleteSessionError, ErrorCode, StateUpdateError,
};
use lightning_wire_msgs::watchtower::messages::{
    AnyWatchtowerMessage, CreateSession, CreateSessionReply, DeleteSession, DeleteSessionReply,
    Error, Init, StateUpdate, StateUpdateReply,
};
use lightning_wire_msgs::{AnyWireMessage, PeekReader, WireError, WireItem, WireMessage};

fn enc<T: WireMessage>(m: &T) -> Vec<u8> {
    let mut out = Vec::new();
    let n = WireMessage::encode(m, &mut out);
    assert_eq!(n, out.len());
    out
}

fn dec<T: WireMessage>(bytes: &[u8]) -> Result<T, WireError> {
    <T as WireMessage>::decode(&mut PeekReader::new(bytes), true)
}

fn create_session() -> CreateSession {
    CreateSession {
        blob_type: Type::from(KnownType::TypeRewardCommit),
        max_updates: 1024,
        reward_base: 1000,
        reward_rate: 7,
        sweep_fee_rate: SatPerKWeight(2500),
    }
}

#[test]
fn init_round_trip() {
    let mut f = RawFeatureVector::new();
    f.add(Feature::GossipQueriesRequired);
    let mut hash = [0u8; 32];
    hash[31] = 9;
    let m = Init { conn_features: f, chain_hash: lightning_wire_msgs::items::hash::Hash(hash) };
    let bytes = enc(&m);
    assert_eq!(&bytes[..5], &[0x02, 0x58, 0x00, 0x01, 0b0100_0000]);
    assert_eq!(bytes.len(), 2 + 3 + 32);
    let d: Init = dec(&bytes).unwrap();
    assert!(d.conn_features.contains(Feature::GossipQueriesRequired));
    assert!(!d.conn_features.contains(Feature::GossipQueriesOptional));
    assert_eq!(d.chain_hash.0, hash);
}

#[test]
fn error_round_trip() {
    let data = [1u8, 2, 3];
    let m = Error { code: ErrorCode(50), data: Buffer::from(&data[..]) };
    let bytes = enc(&m);
    assert_eq!(bytes, vec![0x02, 0x59, 0x00, 50, 3, 1, 2, 3]);
    let d: Error = dec(&bytes).unwrap();
    assert_eq!(d.code, ErrorCode(50));
    assert_eq!(d.data.to_vec(), vec![1, 2, 3]);
}

#[test]
fn create_session_round_trip() {
    let m = create_session();
    let bytes = enc(&m);
    assert_eq!(
        bytes,
        vec![
            0x02, 0x5a, 0x00, 0x03, 0x04, 0x00, 0x00, 0x00, 0x03, 0xe8, 0x00, 0x00, 0x00, 0x07,
            0, 0, 0, 0, 0, 0, 0x09, 0xc4
        ]
    );
    let d: CreateSession = dec(&bytes).unwrap();
    assert_eq!(d.blob_type, m.blob_type);
    assert_eq!(d.max_updates, 1024);
    assert_eq!(d.reward_base, 1000);
    assert_eq!(d.reward_rate, 7);
    assert_eq!(d.sweep_fee_rate, SatPerKWeight(2500));
}

#[test]
fn create_session_reply_none_code_is_ok_code() {
    let m = CreateSessionReply { code: None, last_applied: 5, data: Buffer::Vector(vec![]) };
    let bytes = enc(&m);
    assert_eq!(bytes, vec![0x02, 0x5b, 0x00, 0x00, 0x00, 0x05, 0x00]);
    let d: CreateSessionReply = dec(&bytes).unwrap();
    assert!(d.code.is_none());
    assert_eq!(d.last_applied, 5);
}

#[test]
fn create_session_reply_codes() {
    let d: CreateSessionReply = dec(&[0x02, 0x5b, 0x00, 60, 0x00, 0x01, 0x00]).unwrap();
    assert!(matches!(d.code, Some(CreateSessionError::AlreadyExists)));
    let e = dec::<CreateSessionReply>(&[0x02, 0x5b, 0x00, 99, 0x00, 0x01, 0x00]);
    assert!(matches!(e, Err(WireError::InvalidData)));
    let e = dec::<CreateSessionReply>(&[0x02, 0x5b, 0x00, 70, 0x00, 0x01, 0x00]);
    assert!(matches!(e, Err(WireError::InvalidData)));
    let m = CreateSessionReply {
        code: Some(CreateSessionError::RejectBlobType),
        last_applied: 0,
        data: Buffer::Vector(vec![1]),
    };
    assert_eq!(enc(&m), vec![0x02, 0x5b, 0x00, 64, 0x00, 0x00, 0x01, 0x01]);
}

#[test]
fn optional_code_item() {
    let mut out = Vec::new();
    WireItem::encode(&None::<CreateSessionError>, &mut out);
    assert_eq!(out, vec![0, 0]);
    let r = <Option<CreateSessionError> as WireItem>::decode(&mut PeekReader::new(&[0, 0]));
    assert!(matches!(r, Ok(None)));
    let r = <Option<CreateSessionError> as WireItem>::decode(&mut PeekReader::new(&[0, 60]));
    assert!(matches!(r, Ok(Some(CreateSessionError::AlreadyExists))));
    let r = <Option<CreateSessionError> as WireItem>::decode(&mut PeekReader::new(&[0, 99]));
    assert!(matches!(r, Err(WireError::InvalidData)));
}

#[test]
fn state_update_round_trip() {
    let blob = [0xabu8; 40];
    let m = StateUpdate {
        seq_num: 3,
        last_applied: 2,
        is_complete: 1,
        hint: [0x11; 16],
        encrypted_blob: Buffer::from(&blob[..]),
    };
    let bytes = enc(&m);
    assert_eq!(&bytes[..7], &[0x02, 0x5c, 0, 3, 0, 2, 1]);
    assert_eq!(bytes.len(), 2 + 2 + 2 + 1 + 16 + 1 + 40);
    let d: StateUpdate = dec(&bytes).unwrap();
    assert_eq!((d.seq_num, d.last_applied, d.is_complete), (3, 2, 1));
    assert_eq!(d.hint, [0x11; 16]);
    assert_eq!(d.encrypted_blob.to_vec(), blob.to_vec());
}

#[test]
fn state_update_reply_round_trip() {
    let m = StateUpdateReply { code: Some(StateUpdateError::SeqNumOutOfOrder), last_applied: 9 };
    let bytes = enc(&m);
    assert_eq!(bytes, vec![0x02, 0x5d, 0, 72, 0, 9]);
    let d: StateUpdateReply = dec(&bytes).unwrap();
    assert!(matches!(d.code, Some(StateUpdateError::SeqNumOutOfOrder)));
    assert_eq!(d.last_applied, 9);
}

#[test]
fn delete_session_round_trip() {
    let bytes = enc(&DeleteSession { data: () });
    assert_eq!(bytes, vec![0x02, 0x5e]);
    assert!(dec::<DeleteSession>(&bytes).is_ok());
    let m = DeleteSessionReply { error: Some(DeleteSessionError::NotFound) };
    let bytes = enc(&m);
    assert_eq!(bytes, vec![0x02, 0x5f, 0, 80]);
    let d: DeleteSessionReply = dec(&bytes).unwrap();
    assert!(matches!(d.error, Some(DeleteSessionError::NotFound)));
    let d: DeleteSessionReply = dec(&[0x02, 0x5f, 0, 0]).unwrap();
    assert!(d.error.is_none());
}

#[test]
fn message_tag_is_checked() {
    let bytes = enc(&create_session());
    assert!(matches!(dec::<Init>(&bytes), Err(WireError::InvalidData)));
    let body = &bytes[2..];
    let d = <CreateSession as WireMessage>::decode(&mut PeekReader::new(body), false).unwrap();
    assert_eq!(d.max_updates, 1024);
    assert!(matches!(dec::<CreateSession>(&bytes[..10]), Err(WireError::UnexpectedEof)));
    assert!(matches!(dec::<CreateSession>(&bytes[..1]), Err(WireError::UnexpectedEof)));
}

#[test]
fn dispatcher_picks_by_tag() {
    let bytes = enc(&create_session());
    let m = <AnyWatchtowerMessage as AnyWireMessage>::decode(&mut PeekReader::new(&bytes)).unwrap();
    assert_eq!(AnyWireMessage::msg_type(&m), 602);
    match m {
        AnyWatchtowerMessage::CreateSession(c) => assert_eq!(c.reward_rate, 7),
        _ => panic!("dispatched to the wrong message"),
    }
}

#[test]
fn dispatcher_round_trip_and_unknown_tag() {
    let m = AnyWatchtowerMessage::StateUpdateReply(StateUpdateReply { code: None, last_applied: 1 });
    let mut out = Vec::new();
    let n = AnyWireMessage::encode(&m, &mut out);
    assert_eq!(n, 6);
    assert_eq!(out, vec![0x02, 0x5d, 0, 0, 0, 1]);
    let d = <AnyWatchtowerMessage as AnyWireMessage>::decode(&mut PeekReader::new(&out)).unwrap();
    assert!(matches!(d, AnyWatchtowerMessage::StateUpdateReply(StateUpdateReply { code: None, last_applied: 1 })));
    let r = <AnyWatchtowerMessage as AnyWireMessage>::decode(&mut PeekReader::new(&[0x02, 0x60]));
    assert!(matches!(r, Err(WireError::InvalidData)));
    let r = <AnyWatchtowerMessage as AnyWireMessage>::decode(&mut PeekReader::new(&[0x02]));
    assert!(matches!(r, Err(WireError::UnexpectedEof)));
}

#[test]
fn error_code_text() {
    assert_eq!(ErrorCode(0).to_string(), "CodeOK");
    assert_eq!(ErrorCode(40).to_string(), "CodeTemporaryFailure");
    assert_eq!(ErrorCode(45).to_string(), "Unknown");
    assert_eq!(ErrorCode(60).to_string(), "CreateSessionCodeAlreadyExists");
    assert_eq!(ErrorCode(72).to_string(), "StateUpdateCodeSeqNumOutOfOrder");
    assert_eq!(ErrorCode(80).to_string(), "DeleteSessionCodeNotFound");
    assert_eq!(ErrorCode(99).to_string(), "Unknown");
    assert!(ErrorCode(0).is_ok());
    assert!(!ErrorCode(40).is_ok());
    assert_eq!(ErrorCode::from(BaseError::PermanentFailure), ErrorCode(50));
    assert_eq!(ErrorCode::from(StateUpdateError::ClientBehind), ErrorCode(70));
    assert!(matches!(CreateSessionError::try_from(63), Some(CreateSessionError::RejectSweepFeeRate)));
    assert!(CreateSessionError::try_from(65).is_none());
}

#[test]
fn blob_type_flags() {
    let t = Type(3);
    assert!(t.has(Flag::Reward));
    assert!(t.has(Flag::CommitOutputs));
    assert!(t.is(KnownType::TypeRewardCommit));
    assert!(!t.is(KnownType::TypeAltruistCommit));
    assert!(!t.has_unknown_flags());
    assert!(Type(4).has_unknown_flags());
    assert!(Type(0x8000).has_unknown_flags());
    assert!(!Type(0).has_unknown_flags());
    assert_eq!(Flag::CommitOutputs.flag(), 2);
    assert!(Flag::Reward.in_bitvec(0b101));
    assert_eq!(Flag::all(), [Flag::Reward, Flag::CommitOutputs]);
    assert_eq!(u16::from(KnownType::TypeAltruistCommit), 2);
    assert_eq!(KnownType::try_from_type(Type(3)), Ok(KnownType::TypeRewardCommit));
    assert_eq!(KnownType::try_from_type(Type(1)), Err(Type(1)));
}

#[test]
fn blob_type_text() {
    assert_eq!(Type(2).to_string(), "[No-FlagReward|FlagCommitOutputs]");
    assert_eq!(Type(3).to_string(), "[FlagReward|FlagCommitOutputs]");
    assert_eq!(Type(5).to_string(), "0000000000000101[FlagReward|No-FlagCommitOutputs]");
    assert_eq!(Flag::Reward.to_string(), "FlagReward");
}

#[test]
fn known_type_item() {
    let mut out = Vec::new();
    WireItem::encode(&KnownType::TypeAltruistCommit, &mut out);
    assert_eq!(out, vec![0, 2]);
    let r = <KnownType as WireItem>::decode(&mut PeekReader::new(&[0, 3]));
    assert_eq!(r, Ok(KnownType::TypeRewardCommit));
    let r = <KnownType as WireItem>::decode(&mut PeekReader::new(&[0, 1]));
    assert_eq!(r, Err(WireError::InvalidData));
}

#[test]
fn catalog_tags() {
    assert_eq!(<Init as WireMessage>::MSG_TYPE, 600);
    assert_eq!(<Error as WireMessage>::MSG_TYPE, 601);
    assert_eq!(<CreateSession as WireMessage>::MSG_TYPE, 602);
    assert_eq!(<CreateSessionReply as WireMessage>::MSG_TYPE, 603);
    assert_eq!(<StateUpdate as WireMessage>::MSG_TYPE, 604);
    assert_eq!(<StateUpdateReply as WireMessage>::MSG_TYPE, 605);
    assert_eq!(<DeleteSession as WireMessage>::MSG_TYPE, 606);
    assert_eq!(<DeleteSessionReply as WireMessage>::MSG_TYPE, 607);
    assert_eq!(<DeleteSession as WireMessage>::msg_tag(), 606);
}
