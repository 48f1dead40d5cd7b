//! The watchtower message catalog, and the tagged union over it.

use vstd::prelude::*;

use crate::endian::{be_bytes, be_value, lemma_be_bytes_len, lemma_be_value_bound, lemma_pow256_16};
use crate::items::feature::{Feature, RawFeatureVector};
use crate::items::fees::SatPerKWeight;
use crate::items::Buffer;
use crate::reader::PeekReader;
use crate::watchtower::items::blob::Type as BlobType;
use crate::watchtower::items::error::{
    CreateSessionError, DeleteSessionError, ErrorCode, StateUpdateError,
};
use crate::wire::{
    lemma_message_round_trip, lemma_skip_skip, message_bytes, AnyWireMessage, WireError, WireItem,
    WireMessage,
};

verus! {

/// Announces the features of the connection and the chain it is for.
#[derive(Clone, Debug)]
pub struct Init {
    pub conn_features: RawFeatureVector,
    pub chain_hash: crate::items::hash::Hash,
}

/// What a [`Init`] holds.
pub struct InitView {
    pub conn_features: Set<Feature>,
    pub chain_hash: Seq<u8>,
}

impl View for Init {
    type V = InitView;

    open spec fn view(&self) -> InitView {
        InitView { conn_features: self.conn_features@, chain_hash: self.chain_hash@ }
    }
}

/// The type tag of [`Init`].
pub const INIT_TYPE: u16 = 600;

impl WireMessage for Init {
    const MSG_TYPE: u16 = INIT_TYPE;

    open spec fn tag() -> u16 {
        INIT_TYPE
    }

    fn msg_tag() -> (t: u16) {
        INIT_TYPE
    }

    open spec fn body_valid(v: InitView) -> bool {
        <RawFeatureVector as WireItem>::wire_valid(v.conn_features)
        && <crate::items::hash::Hash as WireItem>::wire_valid(v.chain_hash)
    }

    open spec fn body_bytes(v: InitView) -> Seq<u8> {
        <RawFeatureVector as WireItem>::wire_bytes(v.conn_features)
            + <crate::items::hash::Hash as WireItem>::wire_bytes(v.chain_hash)
    }

    open spec fn body_parse(input: Seq<u8>) -> Result<(InitView, nat), WireError> {
        match <RawFeatureVector as WireItem>::wire_parse(input) {
            Err(e) => Err(e),
            Ok((conn_features, n_conn_features)) => {
                match <crate::items::hash::Hash as WireItem>::wire_parse(input.skip(n_conn_features as int)) {
                    Err(e) => Err(e),
                    Ok((chain_hash, n_chain_hash)) => {
                        Ok((InitView { conn_features, chain_hash }, n_conn_features + n_chain_hash))
                    },
                }
            },
        }
    }

    proof fn lemma_body_round_trip(v: InitView, rest: Seq<u8>) {
        let b_conn_features = <RawFeatureVector as WireItem>::wire_bytes(v.conn_features);
        let b_chain_hash = <crate::items::hash::Hash as WireItem>::wire_bytes(v.chain_hash);
        let t_chain_hash = b_chain_hash + rest;
        let t_conn_features = b_conn_features + t_chain_hash;
        assert(Self::body_bytes(v) + rest =~= t_conn_features);
        <RawFeatureVector as WireItem>::lemma_round_trip(v.conn_features, t_chain_hash);
        <crate::items::hash::Hash as WireItem>::lemma_round_trip(v.chain_hash, rest);
        assert(t_conn_features.skip((b_conn_features.len()) as int) =~= t_chain_hash);
    }

    fn encode(&self, out: &mut Vec<u8>) -> (count: usize) {
        let start = out.len();
        proof {
            lemma_pow256_16();
        }
        crate::endian::write_be(out, Self::msg_tag() as u128, 2);
        WireItem::encode(&self.conn_features, out);
        WireItem::encode(&self.chain_hash, out);
        proof {
            crate::endian::lemma_be_bytes_len(Self::tag() as nat, 2);
            assert(out@ =~= old(out)@ + be_bytes(Self::tag() as nat, 2) + Self::body_bytes(self@));
        }
        out.len() - start
    }

    fn decode(r: &mut PeekReader, check_type: bool) -> (res: Result<Init, WireError>) {
        let ghost s = old(r).stream();
        if check_type {
            let t = u16::decode(r)?;
            proof {
                lemma_be_value_bound(s.take(2));
                lemma_pow256_16();
            }
            if t != Self::msg_tag() {
                return Err(WireError::InvalidData);
            }
        }
        let ghost s0 = r.stream();
        assert(check_type ==> s0 == s.skip(2));
        assert(!check_type ==> s0 == s);
        let conn_features = <RawFeatureVector as WireItem>::decode(r)?;
        let ghost n_conn_features = <RawFeatureVector as WireItem>::wire_parse(s0)->Ok_0.1;
        let chain_hash = <crate::items::hash::Hash as WireItem>::decode(r)?;
        let ghost n_chain_hash = <crate::items::hash::Hash as WireItem>::wire_parse(s0.skip(n_conn_features as int))->Ok_0.1;
        proof {
            lemma_skip_skip(s0, n_conn_features as int, n_chain_hash as int);
        }
        proof {
            if check_type {
                lemma_skip_skip(s, 2, (n_conn_features + n_chain_hash) as int);
            }
        }
        Ok(Init { conn_features, chain_hash })
    }
}

/// Reports an error, with data that explains it.
#[derive(Clone, Debug)]
pub struct Error<'a> {
    pub code: ErrorCode,
    pub data: Buffer<'a>,
}

/// What a [`Error`] holds.
pub struct ErrorView {
    pub code: ErrorCode,
    pub data: Seq<u8>,
}

impl<'a> View for Error<'a> {
    type V = ErrorView;

    open spec fn view(&self) -> ErrorView {
        ErrorView { code: self.code@, data: self.data@ }
    }
}

/// The type tag of [`Error`].
pub const ERROR_TYPE: u16 = 601;

impl<'a> WireMessage for Error<'a> {
    const MSG_TYPE: u16 = ERROR_TYPE;

    open spec fn tag() -> u16 {
        ERROR_TYPE
    }

    fn msg_tag() -> (t: u16) {
        ERROR_TYPE
    }

    open spec fn body_valid(v: ErrorView) -> bool {
        <ErrorCode as WireItem>::wire_valid(v.code)
        && <Buffer<'a> as WireItem>::wire_valid(v.data)
    }

    open spec fn body_bytes(v: ErrorView) -> Seq<u8> {
        <ErrorCode as WireItem>::wire_bytes(v.code)
            + <Buffer<'a> as WireItem>::wire_bytes(v.data)
    }

    open spec fn body_parse(input: Seq<u8>) -> Result<(ErrorView, nat), WireError> {
        match <ErrorCode as WireItem>::wire_parse(input) {
            Err(e) => Err(e),
            Ok((code, n_code)) => {
                match <Buffer<'a> as WireItem>::wire_parse(input.skip(n_code as int)) {
                    Err(e) => Err(e),
                    Ok((data, n_data)) => {
                        Ok((ErrorView { code, data }, n_code + n_data))
                    },
                }
            },
        }
    }

    proof fn lemma_body_round_trip(v: ErrorView, rest: Seq<u8>) {
        let b_code = <ErrorCode as WireItem>::wire_bytes(v.code);
        let b_data = <Buffer<'a> as WireItem>::wire_bytes(v.data);
        let t_data = b_data + rest;
        let t_code = b_code + t_data;
        assert(Self::body_bytes(v) + rest =~= t_code);
        <ErrorCode as WireItem>::lemma_round_trip(v.code, t_data);
        <Buffer<'a> as WireItem>::lemma_round_trip(v.data, rest);
        assert(t_code.skip((b_code.len()) as int) =~= t_data);
    }

    fn encode(&self, out: &mut Vec<u8>) -> (count: usize) {
        let start = out.len();
        proof {
            lemma_pow256_16();
        }
        crate::endian::write_be(out, Self::msg_tag() as u128, 2);
        WireItem::encode(&self.code, out);
        WireItem::encode(&self.data, out);
        proof {
            crate::endian::lemma_be_bytes_len(Self::tag() as nat, 2);
            assert(out@ =~= old(out)@ + be_bytes(Self::tag() as nat, 2) + Self::body_bytes(self@));
        }
        out.len() - start
    }

    fn decode(r: &mut PeekReader, check_type: bool) -> (res: Result<Error<'a>, WireError>) {
        let ghost s = old(r).stream();
        if check_type {
            let t = u16::decode(r)?;
            proof {
                lemma_be_value_bound(s.take(2));
                lemma_pow256_16();
            }
            if t != Self::msg_tag() {
                return Err(WireError::InvalidData);
            }
        }
        let ghost s0 = r.stream();
        assert(check_type ==> s0 == s.skip(2));
        assert(!check_type ==> s0 == s);
        let code = <ErrorCode as WireItem>::decode(r)?;
        let ghost n_code = <ErrorCode as WireItem>::wire_parse(s0)->Ok_0.1;
        let data = <Buffer<'a> as WireItem>::decode(r)?;
        let ghost n_data = <Buffer<'a> as WireItem>::wire_parse(s0.skip(n_code as int))->Ok_0.1;
        proof {
            lemma_skip_skip(s0, n_code as int, n_data as int);
        }
        proof {
            if check_type {
                lemma_skip_skip(s, 2, (n_code + n_data) as int);
            }
        }
        Ok(Error { code, data })
    }
}

/// Asks the tower for a new session.
#[derive(Clone, Copy, Debug)]
pub struct CreateSession {
    pub blob_type: BlobType,
    pub max_updates: u16,
    pub reward_base: u32,
    pub reward_rate: u32,
    pub sweep_fee_rate: SatPerKWeight,
}

impl View for CreateSession {
    type V = CreateSession;

    open spec fn view(&self) -> CreateSession {
        *self
    }
}

/// The type tag of [`CreateSession`].
pub const CREATE_SESSION_TYPE: u16 = 602;

impl WireMessage for CreateSession {
    const MSG_TYPE: u16 = CREATE_SESSION_TYPE;

    open spec fn tag() -> u16 {
        CREATE_SESSION_TYPE
    }

    fn msg_tag() -> (t: u16) {
        CREATE_SESSION_TYPE
    }

    open spec fn body_valid(v: CreateSession) -> bool {
        <BlobType as WireItem>::wire_valid(v.blob_type)
        && <u16 as WireItem>::wire_valid(v.max_updates)
        && <u32 as WireItem>::wire_valid(v.reward_base)
        && <u32 as WireItem>::wire_valid(v.reward_rate)
        && <SatPerKWeight as WireItem>::wire_valid(v.sweep_fee_rate)
    }

    open spec fn body_bytes(v: CreateSession) -> Seq<u8> {
        <BlobType as WireItem>::wire_bytes(v.blob_type)
            + <u16 as WireItem>::wire_bytes(v.max_updates)
            + <u32 as WireItem>::wire_bytes(v.reward_base)
            + <u32 as WireItem>::wire_bytes(v.reward_rate)
            + <SatPerKWeight as WireItem>::wire_bytes(v.sweep_fee_rate)
    }

    open spec fn body_parse(input: Seq<u8>) -> Result<(CreateSession, nat), WireError> {
        match <BlobType as WireItem>::wire_parse(input) {
            Err(e) => Err(e),
            Ok((blob_type, n_blob_type)) => {
                match <u16 as WireItem>::wire_parse(input.skip(n_blob_type as int)) {
                    Err(e) => Err(e),
                    Ok((max_updates, n_max_updates)) => {
                        match <u32 as WireItem>::wire_parse(input.skip((n_blob_type + n_max_updates) as int)) {
                            Err(e) => Err(e),
                            Ok((reward_base, n_reward_base)) => {
                                match <u32 as WireItem>::wire_parse(input.skip((n_blob_type + n_max_updates + n_reward_base) as int)) {
                                    Err(e) => Err(e),
                                    Ok((reward_rate, n_reward_rate)) => {
                                        match <SatPerKWeight as WireItem>::wire_parse(input.skip((n_blob_type + n_max_updates + n_reward_base + n_reward_rate) as int)) {
                                            Err(e) => Err(e),
                                            Ok((sweep_fee_rate, n_sweep_fee_rate)) => {
                                                Ok((CreateSession { blob_type, max_updates, reward_base, reward_rate, sweep_fee_rate }, n_blob_type + n_max_updates + n_reward_base + n_reward_rate + n_sweep_fee_rate))
                                            },
                                        }
                                    },
                                }
                            },
                        }
                    },
                }
            },
        }
    }

    proof fn lemma_body_round_trip(v: CreateSession, rest: Seq<u8>) {
        let b_blob_type = <BlobType as WireItem>::wire_bytes(v.blob_type);
        let b_max_updates = <u16 as WireItem>::wire_bytes(v.max_updates);
        let b_reward_base = <u32 as WireItem>::wire_bytes(v.reward_base);
        let b_reward_rate = <u32 as WireItem>::wire_bytes(v.reward_rate);
        let b_sweep_fee_rate = <SatPerKWeight as WireItem>::wire_bytes(v.sweep_fee_rate);
        let t_sweep_fee_rate = b_sweep_fee_rate + rest;
        let t_reward_rate = b_reward_rate + t_sweep_fee_rate;
        let t_reward_base = b_reward_base + t_reward_rate;
        let t_max_updates = b_max_updates + t_reward_base;
        let t_blob_type = b_blob_type + t_max_updates;
        assert(Self::body_bytes(v) + rest =~= t_blob_type);
        <BlobType as WireItem>::lemma_round_trip(v.blob_type, t_max_updates);
        <u16 as WireItem>::lemma_round_trip(v.max_updates, t_reward_base);
        assert(t_blob_type.skip((b_blob_type.len()) as int) =~= t_max_updates);
        <u32 as WireItem>::lemma_round_trip(v.reward_base, t_reward_rate);
        assert(t_blob_type.skip((b_blob_type.len() + b_max_updates.len()) as int) =~= t_reward_base);
        <u32 as WireItem>::lemma_round_trip(v.reward_rate, t_sweep_fee_rate);
        assert(t_blob_type.skip((b_blob_type.len() + b_max_updates.len() + b_reward_base.len()) as int) =~= t_reward_rate);
        <SatPerKWeight as WireItem>::lemma_round_trip(v.sweep_fee_rate, rest);
        assert(t_blob_type.skip((b_blob_type.len() + b_max_updates.len() + b_reward_base.len() + b_reward_rate.len()) as int) =~= t_sweep_fee_rate);
    }

    fn encode(&self, out: &mut Vec<u8>) -> (count: usize) {
        let start = out.len();
        proof {
            lemma_pow256_16();
        }
        crate::endian::write_be(out, Self::msg_tag() as u128, 2);
        WireItem::encode(&self.blob_type, out);
        WireItem::encode(&self.max_updates, out);
        WireItem::encode(&self.reward_base, out);
        WireItem::encode(&self.reward_rate, out);
        WireItem::encode(&self.sweep_fee_rate, out);
        proof {
            crate::endian::lemma_be_bytes_len(Self::tag() as nat, 2);
            assert(out@ =~= old(out)@ + be_bytes(Self::tag() as nat, 2) + Self::body_bytes(self@));
        }
        out.len() - start
    }

    fn decode(r: &mut PeekReader, check_type: bool) -> (res: Result<CreateSession, WireError>) {
        let ghost s = old(r).stream();
        if check_type {
            let t = u16::decode(r)?;
            proof {
                lemma_be_value_bound(s.take(2));
                lemma_pow256_16();
            }
            if t != Self::msg_tag() {
                return Err(WireError::InvalidData);
            }
        }
        let ghost s0 = r.stream();
        assert(check_type ==> s0 == s.skip(2));
        assert(!check_type ==> s0 == s);
        let blob_type = <BlobType as WireItem>::decode(r)?;
        let ghost n_blob_type = <BlobType as WireItem>::wire_parse(s0)->Ok_0.1;
        let max_updates = <u16 as WireItem>::decode(r)?;
        let ghost n_max_updates = <u16 as WireItem>::wire_parse(s0.skip(n_blob_type as int))->Ok_0.1;
        proof {
            lemma_skip_skip(s0, n_blob_type as int, n_max_updates as int);
        }
        let reward_base = <u32 as WireItem>::decode(r)?;
        let ghost n_reward_base = <u32 as WireItem>::wire_parse(s0.skip((n_blob_type + n_max_updates) as int))->Ok_0.1;
        proof {
            lemma_skip_skip(s0, (n_blob_type + n_max_updates) as int, n_reward_base as int);
        }
        let reward_rate = <u32 as WireItem>::decode(r)?;
        let ghost n_reward_rate = <u32 as WireItem>::wire_parse(s0.skip((n_blob_type + n_max_updates + n_reward_base) as int))->Ok_0.1;
        proof {
            lemma_skip_skip(s0, (n_blob_type + n_max_updates + n_reward_base) as int, n_reward_rate as int);
        }
        let sweep_fee_rate = <SatPerKWeight as WireItem>::decode(r)?;
        let ghost n_sweep_fee_rate = <SatPerKWeight as WireItem>::wire_parse(s0.skip((n_blob_type + n_max_updates + n_reward_base + n_reward_rate) as int))->Ok_0.1;
        proof {
            lemma_skip_skip(s0, (n_blob_type + n_max_updates + n_reward_base + n_reward_rate) as int, n_sweep_fee_rate as int);
        }
        proof {
            if check_type {
                lemma_skip_skip(s, 2, (n_blob_type + n_max_updates + n_reward_base + n_reward_rate + n_sweep_fee_rate) as int);
            }
        }
        Ok(CreateSession { blob_type, max_updates, reward_base, reward_rate, sweep_fee_rate })
    }
}

/// Answers a session creation.
#[derive(Clone, Debug)]
pub struct CreateSessionReply<'a> {
    pub code: Option<CreateSessionError>,
    pub last_applied: u16,
    pub data: Buffer<'a>,
}

/// What a [`CreateSessionReply`] holds.
pub struct CreateSessionReplyView {
    pub code: Option<CreateSessionError>,
    pub last_applied: u16,
    pub data: Seq<u8>,
}

impl<'a> View for CreateSessionReply<'a> {
    type V = CreateSessionReplyView;

    open spec fn view(&self) -> CreateSessionReplyView {
        CreateSessionReplyView { code: self.code@, last_applied: self.last_applied@, data: self.data@ }
    }
}

/// The type tag of [`CreateSessionReply`].
pub const CREATE_SESSION_REPLY_TYPE: u16 = 603;

impl<'a> WireMessage for CreateSessionReply<'a> {
    const MSG_TYPE: u16 = CREATE_SESSION_REPLY_TYPE;

    open spec fn tag() -> u16 {
        CREATE_SESSION_REPLY_TYPE
    }

    fn msg_tag() -> (t: u16) {
        CREATE_SESSION_REPLY_TYPE
    }

    open spec fn body_valid(v: CreateSessionReplyView) -> bool {
        <Option<CreateSessionError> as WireItem>::wire_valid(v.code)
        && <u16 as WireItem>::wire_valid(v.last_applied)
        && <Buffer<'a> as WireItem>::wire_valid(v.data)
    }

    open spec fn body_bytes(v: CreateSessionReplyView) -> Seq<u8> {
        <Option<CreateSessionError> as WireItem>::wire_bytes(v.code)
            + <u16 as WireItem>::wire_bytes(v.last_applied)
            + <Buffer<'a> as WireItem>::wire_bytes(v.data)
    }

    open spec fn body_parse(input: Seq<u8>) -> Result<(CreateSessionReplyView, nat), WireError> {
        match <Option<CreateSessionError> as WireItem>::wire_parse(input) {
            Err(e) => Err(e),
            Ok((code, n_code)) => {
                match <u16 as WireItem>::wire_parse(input.skip(n_code as int)) {
                    Err(e) => Err(e),
                    Ok((last_applied, n_last_applied)) => {
                        match <Buffer<'a> as WireItem>::wire_parse(input.skip((n_code + n_last_applied) as int)) {
                            Err(e) => Err(e),
                            Ok((data, n_data)) => {
                                Ok((CreateSessionReplyView { code, last_applied, data }, n_code + n_last_applied + n_data))
                            },
                        }
                    },
                }
            },
        }
    }

    proof fn lemma_body_round_trip(v: CreateSessionReplyView, rest: Seq<u8>) {
        let b_code = <Option<CreateSessionError> as WireItem>::wire_bytes(v.code);
        let b_last_applied = <u16 as WireItem>::wire_bytes(v.last_applied);
        let b_data = <Buffer<'a> as WireItem>::wire_bytes(v.data);
        let t_data = b_data + rest;
        let t_last_applied = b_last_applied + t_data;
        let t_code = b_code + t_last_applied;
        assert(Self::body_bytes(v) + rest =~= t_code);
        <Option<CreateSessionError> as WireItem>::lemma_round_trip(v.code, t_last_applied);
        <u16 as WireItem>::lemma_round_trip(v.last_applied, t_data);
        assert(t_code.skip((b_code.len()) as int) =~= t_last_applied);
        <Buffer<'a> as WireItem>::lemma_round_trip(v.data, rest);
        assert(t_code.skip((b_code.len() + b_last_applied.len()) as int) =~= t_data);
    }

    fn encode(&self, out: &mut Vec<u8>) -> (count: usize) {
        let start = out.len();
        proof {
            lemma_pow256_16();
        }
        crate::endian::write_be(out, Self::msg_tag() as u128, 2);
        WireItem::encode(&self.code, out);
        WireItem::encode(&self.last_applied, out);
        WireItem::encode(&self.data, out);
        proof {
            crate::endian::lemma_be_bytes_len(Self::tag() as nat, 2);
            assert(out@ =~= old(out)@ + be_bytes(Self::tag() as nat, 2) + Self::body_bytes(self@));
        }
        out.len() - start
    }

    fn decode(r: &mut PeekReader, check_type: bool) -> (res: Result<CreateSessionReply<'a>, WireError>) {
        let ghost s = old(r).stream();
        if check_type {
            let t = u16::decode(r)?;
            proof {
                lemma_be_value_bound(s.take(2));
                lemma_pow256_16();
            }
            if t != Self::msg_tag() {
                return Err(WireError::InvalidData);
            }
        }
        let ghost s0 = r.stream();
        assert(check_type ==> s0 == s.skip(2));
        assert(!check_type ==> s0 == s);
        let code = <Option<CreateSessionError> as WireItem>::decode(r)?;
        let ghost n_code = <Option<CreateSessionError> as WireItem>::wire_parse(s0)->Ok_0.1;
        let last_applied = <u16 as WireItem>::decode(r)?;
        let ghost n_last_applied = <u16 as WireItem>::wire_parse(s0.skip(n_code as int))->Ok_0.1;
        proof {
            lemma_skip_skip(s0, n_code as int, n_last_applied as int);
        }
        let data = <Buffer<'a> as WireItem>::decode(r)?;
        let ghost n_data = <Buffer<'a> as WireItem>::wire_parse(s0.skip((n_code + n_last_applied) as int))->Ok_0.1;
        proof {
            lemma_skip_skip(s0, (n_code + n_last_applied) as int, n_data as int);
        }
        proof {
            if check_type {
                lemma_skip_skip(s, 2, (n_code + n_last_applied + n_data) as int);
            }
        }
        Ok(CreateSessionReply { code, last_applied, data })
    }
}

/// Hands the tower an encrypted state update.
#[derive(Clone, Debug)]
pub struct StateUpdate<'a> {
    pub seq_num: u16,
    pub last_applied: u16,
    pub is_complete: u8,
    pub hint: [u8; 16],
    pub encrypted_blob: Buffer<'a>,
}

/// What a [`StateUpdate`] holds.
pub struct StateUpdateView {
    pub seq_num: u16,
    pub last_applied: u16,
    pub is_complete: u8,
    pub hint: Seq<u8>,
    pub encrypted_blob: Seq<u8>,
}

impl<'a> View for StateUpdate<'a> {
    type V = StateUpdateView;

    open spec fn view(&self) -> StateUpdateView {
        StateUpdateView { seq_num: self.seq_num@, last_applied: self.last_applied@, is_complete: self.is_complete@, hint: self.hint@, encrypted_blob: self.encrypted_blob@ }
    }
}

/// The type tag of [`StateUpdate`].
pub const STATE_UPDATE_TYPE: u16 = 604;

impl<'a> WireMessage for StateUpdate<'a> {
    const MSG_TYPE: u16 = STATE_UPDATE_TYPE;

    open spec fn tag() -> u16 {
        STATE_UPDATE_TYPE
    }

    fn msg_tag() -> (t: u16) {
        STATE_UPDATE_TYPE
    }

    open spec fn body_valid(v: StateUpdateView) -> bool {
        <u16 as WireItem>::wire_valid(v.seq_num)
        && <u16 as WireItem>::wire_valid(v.last_applied)
        && <u8 as WireItem>::wire_valid(v.is_complete)
        && <[u8; 16] as WireItem>::wire_valid(v.hint)
        && <Buffer<'a> as WireItem>::wire_valid(v.encrypted_blob)
    }

    open spec fn body_bytes(v: StateUpdateView) -> Seq<u8> {
        <u16 as WireItem>::wire_bytes(v.seq_num)
            + <u16 as WireItem>::wire_bytes(v.last_applied)
            + <u8 as WireItem>::wire_bytes(v.is_complete)
            + <[u8; 16] as WireItem>::wire_bytes(v.hint)
            + <Buffer<'a> as WireItem>::wire_bytes(v.encrypted_blob)
    }

    open spec fn body_parse(input: Seq<u8>) -> Result<(StateUpdateView, nat), WireError> {
        match <u16 as WireItem>::wire_parse(input) {
            Err(e) => Err(e),
            Ok((seq_num, n_seq_num)) => {
                match <u16 as WireItem>::wire_parse(input.skip(n_seq_num as int)) {
                    Err(e) => Err(e),
                    Ok((last_applied, n_last_applied)) => {
                        match <u8 as WireItem>::wire_parse(input.skip((n_seq_num + n_last_applied) as int)) {
                            Err(e) => Err(e),
                            Ok((is_complete, n_is_complete)) => {
                                match <[u8; 16] as WireItem>::wire_parse(input.skip((n_seq_num + n_last_applied + n_is_complete) as int)) {
                                    Err(e) => Err(e),
                                    Ok((hint, n_hint)) => {
                                        match <Buffer<'a> as WireItem>::wire_parse(input.skip((n_seq_num + n_last_applied + n_is_complete + n_hint) as int)) {
                                            Err(e) => Err(e),
                                            Ok((encrypted_blob, n_encrypted_blob)) => {
                                                Ok((StateUpdateView { seq_num, last_applied, is_complete, hint, encrypted_blob }, n_seq_num + n_last_applied + n_is_complete + n_hint + n_encrypted_blob))
                                            },
                                        }
                                    },
                                }
                            },
                        }
                    },
                }
            },
        }
    }

    proof fn lemma_body_round_trip(v: StateUpdateView, rest: Seq<u8>) {
        let b_seq_num = <u16 as WireItem>::wire_bytes(v.seq_num);
        let b_last_applied = <u16 as WireItem>::wire_bytes(v.last_applied);
        let b_is_complete = <u8 as WireItem>::wire_bytes(v.is_complete);
        let b_hint = <[u8; 16] as WireItem>::wire_bytes(v.hint);
        let b_encrypted_blob = <Buffer<'a> as WireItem>::wire_bytes(v.encrypted_blob);
        let t_encrypted_blob = b_encrypted_blob + rest;
        let t_hint = b_hint + t_encrypted_blob;
        let t_is_complete = b_is_complete + t_hint;
        let t_last_applied = b_last_applied + t_is_complete;
        let t_seq_num = b_seq_num + t_last_applied;
        assert(Self::body_bytes(v) + rest =~= t_seq_num);
        <u16 as WireItem>::lemma_round_trip(v.seq_num, t_last_applied);
        <u16 as WireItem>::lemma_round_trip(v.last_applied, t_is_complete);
        assert(t_seq_num.skip((b_seq_num.len()) as int) =~= t_last_applied);
        <u8 as WireItem>::lemma_round_trip(v.is_complete, t_hint);
        assert(t_seq_num.skip((b_seq_num.len() + b_last_applied.len()) as int) =~= t_is_complete);
        <[u8; 16] as WireItem>::lemma_round_trip(v.hint, t_encrypted_blob);
        assert(t_seq_num.skip((b_seq_num.len() + b_last_applied.len() + b_is_complete.len()) as int) =~= t_hint);
        <Buffer<'a> as WireItem>::lemma_round_trip(v.encrypted_blob, rest);
        assert(t_seq_num.skip((b_seq_num.len() + b_last_applied.len() + b_is_complete.len() + b_hint.len()) as int) =~= t_encrypted_blob);
    }

    fn encode(&self, out: &mut Vec<u8>) -> (count: usize) {
        let start = out.len();
        proof {
            lemma_pow256_16();
        }
        crate::endian::write_be(out, Self::msg_tag() as u128, 2);
        WireItem::encode(&self.seq_num, out);
        WireItem::encode(&self.last_applied, out);
        WireItem::encode(&self.is_complete, out);
        WireItem::encode(&self.hint, out);
        WireItem::encode(&self.encrypted_blob, out);
        proof {
            crate::endian::lemma_be_bytes_len(Self::tag() as nat, 2);
            assert(out@ =~= old(out)@ + be_bytes(Self::tag() as nat, 2) + Self::body_bytes(self@));
        }
        out.len() - start
    }

    fn decode(r: &mut PeekReader, check_type: bool) -> (res: Result<StateUpdate<'a>, WireError>) {
        let ghost s = old(r).stream();
        if check_type {
            let t = u16::decode(r)?;
            proof {
                lemma_be_value_bound(s.take(2));
                lemma_pow256_16();
            }
            if t != Self::msg_tag() {
                return Err(WireError::InvalidData);
            }
        }
        let ghost s0 = r.stream();
        assert(check_type ==> s0 == s.skip(2));
        assert(!check_type ==> s0 == s);
        let seq_num = <u16 as WireItem>::decode(r)?;
        let ghost n_seq_num = <u16 as WireItem>::wire_parse(s0)->Ok_0.1;
        let last_applied = <u16 as WireItem>::decode(r)?;
        let ghost n_last_applied = <u16 as WireItem>::wire_parse(s0.skip(n_seq_num as int))->Ok_0.1;
        proof {
            lemma_skip_skip(s0, n_seq_num as int, n_last_applied as int);
        }
        let is_complete = <u8 as WireItem>::decode(r)?;
        let ghost n_is_complete = <u8 as WireItem>::wire_parse(s0.skip((n_seq_num + n_last_applied) as int))->Ok_0.1;
        proof {
            lemma_skip_skip(s0, (n_seq_num + n_last_applied) as int, n_is_complete as int);
        }
        let hint = <[u8; 16] as WireItem>::decode(r)?;
        let ghost n_hint = <[u8; 16] as WireItem>::wire_parse(s0.skip((n_seq_num + n_last_applied + n_is_complete) as int))->Ok_0.1;
        proof {
            lemma_skip_skip(s0, (n_seq_num + n_last_applied + n_is_complete) as int, n_hint as int);
        }
        let encrypted_blob = <Buffer<'a> as WireItem>::decode(r)?;
        let ghost n_encrypted_blob = <Buffer<'a> as WireItem>::wire_parse(s0.skip((n_seq_num + n_last_applied + n_is_complete + n_hint) as int))->Ok_0.1;
        proof {
            lemma_skip_skip(s0, (n_seq_num + n_last_applied + n_is_complete + n_hint) as int, n_encrypted_blob as int);
        }
        proof {
            if check_type {
                lemma_skip_skip(s, 2, (n_seq_num + n_last_applied + n_is_complete + n_hint + n_encrypted_blob) as int);
            }
        }
        Ok(StateUpdate { seq_num, last_applied, is_complete, hint, encrypted_blob })
    }
}

/// Answers a state update.
#[derive(Clone, Copy, Debug)]
pub struct StateUpdateReply {
    pub code: Option<StateUpdateError>,
    pub last_applied: u16,
}

impl View for StateUpdateReply {
    type V = StateUpdateReply;

    open spec fn view(&self) -> StateUpdateReply {
        *self
    }
}

/// The type tag of [`StateUpdateReply`].
pub const STATE_UPDATE_REPLY_TYPE: u16 = 605;

impl WireMessage for StateUpdateReply {
    const MSG_TYPE: u16 = STATE_UPDATE_REPLY_TYPE;

    open spec fn tag() -> u16 {
        STATE_UPDATE_REPLY_TYPE
    }

    fn msg_tag() -> (t: u16) {
        STATE_UPDATE_REPLY_TYPE
    }

    open spec fn body_valid(v: StateUpdateReply) -> bool {
        <Option<StateUpdateError> as WireItem>::wire_valid(v.code)
        && <u16 as WireItem>::wire_valid(v.last_applied)
    }

    open spec fn body_bytes(v: StateUpdateReply) -> Seq<u8> {
        <Option<StateUpdateError> as WireItem>::wire_bytes(v.code)
            + <u16 as WireItem>::wire_bytes(v.last_applied)
    }

    open spec fn body_parse(input: Seq<u8>) -> Result<(StateUpdateReply, nat), WireError> {
        match <Option<StateUpdateError> as WireItem>::wire_parse(input) {
            Err(e) => Err(e),
            Ok((code, n_code)) => {
                match <u16 as WireItem>::wire_parse(input.skip(n_code as int)) {
                    Err(e) => Err(e),
                    Ok((last_applied, n_last_applied)) => {
                        Ok((StateUpdateReply { code, last_applied }, n_code + n_last_applied))
                    },
                }
            },
        }
    }

    proof fn lemma_body_round_trip(v: StateUpdateReply, rest: Seq<u8>) {
        let b_code = <Option<StateUpdateError> as WireItem>::wire_bytes(v.code);
        let b_last_applied = <u16 as WireItem>::wire_bytes(v.last_applied);
        let t_last_applied = b_last_applied + rest;
        let t_code = b_code + t_last_applied;
        assert(Self::body_bytes(v) + rest =~= t_code);
        <Option<StateUpdateError> as WireItem>::lemma_round_trip(v.code, t_last_applied);
        <u16 as WireItem>::lemma_round_trip(v.last_applied, rest);
        assert(t_code.skip((b_code.len()) as int) =~= t_last_applied);
    }

    fn encode(&self, out: &mut Vec<u8>) -> (count: usize) {
        let start = out.len();
        proof {
            lemma_pow256_16();
        }
        crate::endian::write_be(out, Self::msg_tag() as u128, 2);
        WireItem::encode(&self.code, out);
        WireItem::encode(&self.last_applied, out);
        proof {
            crate::endian::lemma_be_bytes_len(Self::tag() as nat, 2);
            assert(out@ =~= old(out)@ + be_bytes(Self::tag() as nat, 2) + Self::body_bytes(self@));
        }
        out.len() - start
    }

    fn decode(r: &mut PeekReader, check_type: bool) -> (res: Result<StateUpdateReply, WireError>) {
        let ghost s = old(r).stream();
        if check_type {
            let t = u16::decode(r)?;
            proof {
                lemma_be_value_bound(s.take(2));
                lemma_pow256_16();
            }
            if t != Self::msg_tag() {
                return Err(WireError::InvalidData);
            }
        }
        let ghost s0 = r.stream();
        assert(check_type ==> s0 == s.skip(2));
        assert(!check_type ==> s0 == s);
        let code = <Option<StateUpdateError> as WireItem>::decode(r)?;
        let ghost n_code = <Option<StateUpdateError> as WireItem>::wire_parse(s0)->Ok_0.1;
        let last_applied = <u16 as WireItem>::decode(r)?;
        let ghost n_last_applied = <u16 as WireItem>::wire_parse(s0.skip(n_code as int))->Ok_0.1;
        proof {
            lemma_skip_skip(s0, n_code as int, n_last_applied as int);
        }
        proof {
            if check_type {
                lemma_skip_skip(s, 2, (n_code + n_last_applied) as int);
            }
        }
        Ok(StateUpdateReply { code, last_applied })
    }
}

/// Asks the tower to delete the session.
#[derive(Clone, Copy, Debug)]
pub struct DeleteSession {
    pub data: (),
}

impl View for DeleteSession {
    type V = DeleteSession;

    open spec fn view(&self) -> DeleteSession {
        *self
    }
}

/// The type tag of [`DeleteSession`].
pub const DELETE_SESSION_TYPE: u16 = 606;

impl WireMessage for DeleteSession {
    const MSG_TYPE: u16 = DELETE_SESSION_TYPE;

    open spec fn tag() -> u16 {
        DELETE_SESSION_TYPE
    }

    fn msg_tag() -> (t: u16) {
        DELETE_SESSION_TYPE
    }

    open spec fn body_valid(v: DeleteSession) -> bool {
        <() as WireItem>::wire_valid(v.data)
    }

    open spec fn body_bytes(v: DeleteSession) -> Seq<u8> {
        <() as WireItem>::wire_bytes(v.data)
    }

    open spec fn body_parse(input: Seq<u8>) -> Result<(DeleteSession, nat), WireError> {
        match <() as WireItem>::wire_parse(input) {
            Err(e) => Err(e),
            Ok((data, n_data)) => {
                Ok((DeleteSession { data }, n_data))
            },
        }
    }

    proof fn lemma_body_round_trip(v: DeleteSession, rest: Seq<u8>) {
        let b_data = <() as WireItem>::wire_bytes(v.data);
        let t_data = b_data + rest;
        assert(Self::body_bytes(v) + rest =~= t_data);
        <() as WireItem>::lemma_round_trip(v.data, rest);
    }

    fn encode(&self, out: &mut Vec<u8>) -> (count: usize) {
        let start = out.len();
        proof {
            lemma_pow256_16();
        }
        crate::endian::write_be(out, Self::msg_tag() as u128, 2);
        WireItem::encode(&self.data, out);
        proof {
            crate::endian::lemma_be_bytes_len(Self::tag() as nat, 2);
            assert(out@ =~= old(out)@ + be_bytes(Self::tag() as nat, 2) + Self::body_bytes(self@));
        }
        out.len() - start
    }

    fn decode(r: &mut PeekReader, check_type: bool) -> (res: Result<DeleteSession, WireError>) {
        let ghost s = old(r).stream();
        if check_type {
            let t = u16::decode(r)?;
            proof {
                lemma_be_value_bound(s.take(2));
                lemma_pow256_16();
            }
            if t != Self::msg_tag() {
                return Err(WireError::InvalidData);
            }
        }
        let ghost s0 = r.stream();
        assert(check_type ==> s0 == s.skip(2));
        assert(!check_type ==> s0 == s);
        let data = <() as WireItem>::decode(r)?;
        let ghost n_data = <() as WireItem>::wire_parse(s0)->Ok_0.1;
        proof {
            if check_type {
                lemma_skip_skip(s, 2, n_data as int);
            }
        }
        Ok(DeleteSession { data })
    }
}

/// Answers a session deletion.
#[derive(Clone, Copy, Debug)]
pub struct DeleteSessionReply {
    pub error: Option<DeleteSessionError>,
}

impl View for DeleteSessionReply {
    type V = DeleteSessionReply;

    open spec fn view(&self) -> DeleteSessionReply {
        *self
    }
}

/// The type tag of [`DeleteSessionReply`].
pub const DELETE_SESSION_REPLY_TYPE: u16 = 607;

impl WireMessage for DeleteSessionReply {
    const MSG_TYPE: u16 = DELETE_SESSION_REPLY_TYPE;

    open spec fn tag() -> u16 {
        DELETE_SESSION_REPLY_TYPE
    }

    fn msg_tag() -> (t: u16) {
        DELETE_SESSION_REPLY_TYPE
    }

    open spec fn body_valid(v: DeleteSessionReply) -> bool {
        <Option<DeleteSessionError> as WireItem>::wire_valid(v.error)
    }

    open spec fn body_bytes(v: DeleteSessionReply) -> Seq<u8> {
        <Option<DeleteSessionError> as WireItem>::wire_bytes(v.error)
    }

    open spec fn body_parse(input: Seq<u8>) -> Result<(DeleteSessionReply, nat), WireError> {
        match <Option<DeleteSessionError> as WireItem>::wire_parse(input) {
            Err(e) => Err(e),
            Ok((error, n_error)) => {
                Ok((DeleteSessionReply { error }, n_error))
            },
        }
    }

    proof fn lemma_body_round_trip(v: DeleteSessionReply, rest: Seq<u8>) {
        let b_error = <Option<DeleteSessionError> as WireItem>::wire_bytes(v.error);
        let t_error = b_error + rest;
        assert(Self::body_bytes(v) + rest =~= t_error);
        <Option<DeleteSessionError> as WireItem>::lemma_round_trip(v.error, rest);
    }

    fn encode(&self, out: &mut Vec<u8>) -> (count: usize) {
        let start = out.len();
        proof {
            lemma_pow256_16();
        }
        crate::endian::write_be(out, Self::msg_tag() as u128, 2);
        WireItem::encode(&self.error, out);
        proof {
            crate::endian::lemma_be_bytes_len(Self::tag() as nat, 2);
            assert(out@ =~= old(out)@ + be_bytes(Self::tag() as nat, 2) + Self::body_bytes(self@));
        }
        out.len() - start
    }

    fn decode(r: &mut PeekReader, check_type: bool) -> (res: Result<DeleteSessionReply, WireError>) {
        let ghost s = old(r).stream();
        if check_type {
            let t = u16::decode(r)?;
            proof {
                lemma_be_value_bound(s.take(2));
                lemma_pow256_16();
            }
            if t != Self::msg_tag() {
                return Err(WireError::InvalidData);
            }
        }
        let ghost s0 = r.stream();
        assert(check_type ==> s0 == s.skip(2));
        assert(!check_type ==> s0 == s);
        let error = <Option<DeleteSessionError> as WireItem>::decode(r)?;
        let ghost n_error = <Option<DeleteSessionError> as WireItem>::wire_parse(s0)->Ok_0.1;
        proof {
            if check_type {
                lemma_skip_skip(s, 2, n_error as int);
            }
        }
        Ok(DeleteSessionReply { error })
    }
}

/// Any message of the watchtower protocol, told apart by its tag.
#[derive(Clone, Debug)]
pub enum AnyWatchtowerMessage<'a> {
    Init(Init),
    Error(Error<'a>),
    CreateSession(CreateSession),
    CreateSessionReply(CreateSessionReply<'a>),
    StateUpdate(StateUpdate<'a>),
    StateUpdateReply(StateUpdateReply),
    DeleteSession(DeleteSession),
    DeleteSessionReply(DeleteSessionReply),
}

/// What an [`AnyWatchtowerMessage`] holds.
pub enum AnyWatchtowerMessageView {
    Init(InitView),
    Error(ErrorView),
    CreateSession(CreateSession),
    CreateSessionReply(CreateSessionReplyView),
    StateUpdate(StateUpdateView),
    StateUpdateReply(StateUpdateReply),
    DeleteSession(DeleteSession),
    DeleteSessionReply(DeleteSessionReply),
}

impl<'a> View for AnyWatchtowerMessage<'a> {
    type V = AnyWatchtowerMessageView;

    open spec fn view(&self) -> AnyWatchtowerMessageView {
        match self {
            AnyWatchtowerMessage::Init(m) => AnyWatchtowerMessageView::Init(m@),
            AnyWatchtowerMessage::Error(m) => AnyWatchtowerMessageView::Error(m@),
            AnyWatchtowerMessage::CreateSession(m) => AnyWatchtowerMessageView::CreateSession(m@),
            AnyWatchtowerMessage::CreateSessionReply(m) => AnyWatchtowerMessageView::CreateSessionReply(m@),
            AnyWatchtowerMessage::StateUpdate(m) => AnyWatchtowerMessageView::StateUpdate(m@),
            AnyWatchtowerMessage::StateUpdateReply(m) => AnyWatchtowerMessageView::StateUpdateReply(m@),
            AnyWatchtowerMessage::DeleteSession(m) => AnyWatchtowerMessageView::DeleteSession(m@),
            AnyWatchtowerMessage::DeleteSessionReply(m) => AnyWatchtowerMessageView::DeleteSessionReply(m@),
        }
    }
}

impl<'a> AnyWireMessage for AnyWatchtowerMessage<'a> {
    open spec fn any_type(v: AnyWatchtowerMessageView) -> u16 {
        match v {
            AnyWatchtowerMessageView::Init(_) => <Init as WireMessage>::tag(),
            AnyWatchtowerMessageView::Error(_) => <Error<'a> as WireMessage>::tag(),
            AnyWatchtowerMessageView::CreateSession(_) => <CreateSession as WireMessage>::tag(),
            AnyWatchtowerMessageView::CreateSessionReply(_) => <CreateSessionReply<'a> as WireMessage>::tag(),
            AnyWatchtowerMessageView::StateUpdate(_) => <StateUpdate<'a> as WireMessage>::tag(),
            AnyWatchtowerMessageView::StateUpdateReply(_) => <StateUpdateReply as WireMessage>::tag(),
            AnyWatchtowerMessageView::DeleteSession(_) => <DeleteSession as WireMessage>::tag(),
            AnyWatchtowerMessageView::DeleteSessionReply(_) => <DeleteSessionReply as WireMessage>::tag(),
        }
    }

    open spec fn any_valid(v: AnyWatchtowerMessageView) -> bool {
        match v {
            AnyWatchtowerMessageView::Init(m) => <Init as WireMessage>::body_valid(m),
            AnyWatchtowerMessageView::Error(m) => <Error<'a> as WireMessage>::body_valid(m),
            AnyWatchtowerMessageView::CreateSession(m) => <CreateSession as WireMessage>::body_valid(m),
            AnyWatchtowerMessageView::CreateSessionReply(m) => <CreateSessionReply<'a> as WireMessage>::body_valid(m),
            AnyWatchtowerMessageView::StateUpdate(m) => <StateUpdate<'a> as WireMessage>::body_valid(m),
            AnyWatchtowerMessageView::StateUpdateReply(m) => <StateUpdateReply as WireMessage>::body_valid(m),
            AnyWatchtowerMessageView::DeleteSession(m) => <DeleteSession as WireMessage>::body_valid(m),
            AnyWatchtowerMessageView::DeleteSessionReply(m) => <DeleteSessionReply as WireMessage>::body_valid(m),
        }
    }

    open spec fn any_bytes(v: AnyWatchtowerMessageView) -> Seq<u8> {
        match v {
            AnyWatchtowerMessageView::Init(m) => message_bytes::<Init>(m),
            AnyWatchtowerMessageView::Error(m) => message_bytes::<Error<'a>>(m),
            AnyWatchtowerMessageView::CreateSession(m) => message_bytes::<CreateSession>(m),
            AnyWatchtowerMessageView::CreateSessionReply(m) => message_bytes::<CreateSessionReply<'a>>(m),
            AnyWatchtowerMessageView::StateUpdate(m) => message_bytes::<StateUpdate<'a>>(m),
            AnyWatchtowerMessageView::StateUpdateReply(m) => message_bytes::<StateUpdateReply>(m),
            AnyWatchtowerMessageView::DeleteSession(m) => message_bytes::<DeleteSession>(m),
            AnyWatchtowerMessageView::DeleteSessionReply(m) => message_bytes::<DeleteSessionReply>(m),
        }
    }

    open spec fn any_parse(input: Seq<u8>) -> Result<(AnyWatchtowerMessageView, nat), WireError> {
        if input.len() < 2 {
            Err(WireError::UnexpectedEof)
        } else {
            let t = be_value(input.take(2));
            let body = input.skip(2);
            if t == <Init as WireMessage>::tag() {
                match <Init as WireMessage>::body_parse(body) {
                    Ok((m, n)) => Ok((AnyWatchtowerMessageView::Init(m), n + 2)),
                    Err(e) => Err(e),
                }
            } else if t == <Error<'a> as WireMessage>::tag() {
                match <Error<'a> as WireMessage>::body_parse(body) {
                    Ok((m, n)) => Ok((AnyWatchtowerMessageView::Error(m), n + 2)),
                    Err(e) => Err(e),
                }
            } else if t == <CreateSession as WireMessage>::tag() {
                match <CreateSession as WireMessage>::body_parse(body) {
                    Ok((m, n)) => Ok((AnyWatchtowerMessageView::CreateSession(m), n + 2)),
                    Err(e) => Err(e),
                }
            } else if t == <CreateSessionReply<'a> as WireMessage>::tag() {
                match <CreateSessionReply<'a> as WireMessage>::body_parse(body) {
                    Ok((m, n)) => Ok((AnyWatchtowerMessageView::CreateSessionReply(m), n + 2)),
                    Err(e) => Err(e),
                }
            } else if t == <StateUpdate<'a> as WireMessage>::tag() {
                match <StateUpdate<'a> as WireMessage>::body_parse(body) {
                    Ok((m, n)) => Ok((AnyWatchtowerMessageView::StateUpdate(m), n + 2)),
                    Err(e) => Err(e),
                }
            } else if t == <StateUpdateReply as WireMessage>::tag() {
                match <StateUpdateReply as WireMessage>::body_parse(body) {
                    Ok((m, n)) => Ok((AnyWatchtowerMessageView::StateUpdateReply(m), n + 2)),
                    Err(e) => Err(e),
                }
            } else if t == <DeleteSession as WireMessage>::tag() {
                match <DeleteSession as WireMessage>::body_parse(body) {
                    Ok((m, n)) => Ok((AnyWatchtowerMessageView::DeleteSession(m), n + 2)),
                    Err(e) => Err(e),
                }
            } else if t == <DeleteSessionReply as WireMessage>::tag() {
                match <DeleteSessionReply as WireMessage>::body_parse(body) {
                    Ok((m, n)) => Ok((AnyWatchtowerMessageView::DeleteSessionReply(m), n + 2)),
                    Err(e) => Err(e),
                }
            } else {
                Err(WireError::InvalidData)
            }
        }
    }

    proof fn lemma_any_round_trip(v: AnyWatchtowerMessageView, rest: Seq<u8>) {
        lemma_be_bytes_len(Self::any_type(v) as nat, 2);
        match v {
            AnyWatchtowerMessageView::Init(m) => lemma_message_round_trip::<Init>(m, rest),
            AnyWatchtowerMessageView::Error(m) => lemma_message_round_trip::<Error<'a>>(m, rest),
            AnyWatchtowerMessageView::CreateSession(m) => lemma_message_round_trip::<CreateSession>(m, rest),
            AnyWatchtowerMessageView::CreateSessionReply(m) => lemma_message_round_trip::<CreateSessionReply<'a>>(m, rest),
            AnyWatchtowerMessageView::StateUpdate(m) => lemma_message_round_trip::<StateUpdate<'a>>(m, rest),
            AnyWatchtowerMessageView::StateUpdateReply(m) => lemma_message_round_trip::<StateUpdateReply>(m, rest),
            AnyWatchtowerMessageView::DeleteSession(m) => lemma_message_round_trip::<DeleteSession>(m, rest),
            AnyWatchtowerMessageView::DeleteSessionReply(m) => lemma_message_round_trip::<DeleteSessionReply>(m, rest),
        }
    }

    fn msg_type(&self) -> (t: u16) {
        match self {
            AnyWatchtowerMessage::Init(_) => <Init as WireMessage>::msg_tag(),
            AnyWatchtowerMessage::Error(_) => <Error<'a> as WireMessage>::msg_tag(),
            AnyWatchtowerMessage::CreateSession(_) => <CreateSession as WireMessage>::msg_tag(),
            AnyWatchtowerMessage::CreateSessionReply(_) => <CreateSessionReply<'a> as WireMessage>::msg_tag(),
            AnyWatchtowerMessage::StateUpdate(_) => <StateUpdate<'a> as WireMessage>::msg_tag(),
            AnyWatchtowerMessage::StateUpdateReply(_) => <StateUpdateReply as WireMessage>::msg_tag(),
            AnyWatchtowerMessage::DeleteSession(_) => <DeleteSession as WireMessage>::msg_tag(),
            AnyWatchtowerMessage::DeleteSessionReply(_) => <DeleteSessionReply as WireMessage>::msg_tag(),
        }
    }

    fn encode(&self, out: &mut Vec<u8>) -> (count: usize) {
        proof {
            lemma_be_bytes_len(Self::any_type(self@) as nat, 2);
        }
        match self {
            AnyWatchtowerMessage::Init(m) => WireMessage::encode(m, out),
            AnyWatchtowerMessage::Error(m) => WireMessage::encode(m, out),
            AnyWatchtowerMessage::CreateSession(m) => WireMessage::encode(m, out),
            AnyWatchtowerMessage::CreateSessionReply(m) => WireMessage::encode(m, out),
            AnyWatchtowerMessage::StateUpdate(m) => WireMessage::encode(m, out),
            AnyWatchtowerMessage::StateUpdateReply(m) => WireMessage::encode(m, out),
            AnyWatchtowerMessage::DeleteSession(m) => WireMessage::encode(m, out),
            AnyWatchtowerMessage::DeleteSessionReply(m) => WireMessage::encode(m, out),
        }
    }

    #[verifier::rlimit(60)]
    fn decode(r: &mut PeekReader) -> (res: Result<AnyWatchtowerMessage<'a>, WireError>) {
        let ghost s = old(r).stream();
        let t = u16::decode(r)?;
        proof {
            lemma_be_value_bound(s.take(2));
            lemma_pow256_16();
        }
        if t == <Init as WireMessage>::msg_tag() {
            let m = <Init as WireMessage>::decode(r, false)?;
            proof {
                lemma_skip_skip(s, 2, <Init as WireMessage>::body_parse(s.skip(2))->Ok_0.1 as int);
            }
            Ok(AnyWatchtowerMessage::Init(m))
        } else if t == <Error<'a> as WireMessage>::msg_tag() {
            let m = <Error<'a> as WireMessage>::decode(r, false)?;
            proof {
                lemma_skip_skip(s, 2, <Error<'a> as WireMessage>::body_parse(s.skip(2))->Ok_0.1 as int);
            }
            Ok(AnyWatchtowerMessage::Error(m))
        } else if t == <CreateSession as WireMessage>::msg_tag() {
            let m = <CreateSession as WireMessage>::decode(r, false)?;
            proof {
                lemma_skip_skip(s, 2, <CreateSession as WireMessage>::body_parse(s.skip(2))->Ok_0.1 as int);
            }
            Ok(AnyWatchtowerMessage::CreateSession(m))
        } else if t == <CreateSessionReply<'a> as WireMessage>::msg_tag() {
            let m = <CreateSessionReply<'a> as WireMessage>::decode(r, false)?;
            proof {
                lemma_skip_skip(s, 2, <CreateSessionReply<'a> as WireMessage>::body_parse(s.skip(2))->Ok_0.1 as int);
            }
            Ok(AnyWatchtowerMessage::CreateSessionReply(m))
        } else if t == <StateUpdate<'a> as WireMessage>::msg_tag() {
            let m = <StateUpdate<'a> as WireMessage>::decode(r, false)?;
            proof {
                lemma_skip_skip(s, 2, <StateUpdate<'a> as WireMessage>::body_parse(s.skip(2))->Ok_0.1 as int);
            }
            Ok(AnyWatchtowerMessage::StateUpdate(m))
        } else if t == <StateUpdateReply as WireMessage>::msg_tag() {
            let m = <StateUpdateReply as WireMessage>::decode(r, false)?;
            proof {
                lemma_skip_skip(s, 2, <StateUpdateReply as WireMessage>::body_parse(s.skip(2))->Ok_0.1 as int);
            }
            Ok(AnyWatchtowerMessage::StateUpdateReply(m))
        } else if t == <DeleteSession as WireMessage>::msg_tag() {
            let m = <DeleteSession as WireMessage>::decode(r, false)?;
            proof {
                lemma_skip_skip(s, 2, <DeleteSession as WireMessage>::body_parse(s.skip(2))->Ok_0.1 as int);
            }
            Ok(AnyWatchtowerMessage::DeleteSession(m))
        } else if t == <DeleteSessionReply as WireMessage>::msg_tag() {
            let m = <DeleteSessionReply as WireMessage>::decode(r, false)?;
            proof {
                lemma_skip_skip(s, 2, <DeleteSessionReply as WireMessage>::body_parse(s.skip(2))->Ok_0.1 as int);
            }
            Ok(AnyWatchtowerMessage::DeleteSessionReply(m))
        } else {
            Err(WireError::InvalidData)
        }
    }
}

/// Bytes that begin with the tag of `CreateSession` are decoded by the tagged
/// union as a `CreateSession`, from the fields that follow the tag, and as no
/// other message of the union.
pub proof fn lemma_dispatch_create_session(input: Seq<u8>)
    requires
        input.len() >= 2,
        be_value(input.take(2)) == CREATE_SESSION_TYPE,
    ensures
        AnyWatchtowerMessage::any_parse(input) == match CreateSession::body_parse(input.skip(2)) {
            Ok((m, n)) => Ok((AnyWatchtowerMessageView::CreateSession(m), n + 2)),
            Err(e) => Err(e),
        },
        AnyWatchtowerMessage::any_parse(input) is Ok ==> AnyWatchtowerMessage::any_parse(
            input,
        )->Ok_0.0 is CreateSession,
{
}

} // verus!
