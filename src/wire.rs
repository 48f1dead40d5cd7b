//! The item codec contract: how one value turns into bytes and back.

use vstd::prelude::*;

use crate::endian::{be_bytes, be_value, lemma_be_bytes_len, lemma_be_round_trip, lemma_pow256_16};
use crate::reader::{append_range, PeekReader};
use crate::varint::{
    lemma_varint_round_trip, parse_varint, peek_varint, read_varint, varint_bytes, write_varint,
};

verus! {

/// Why a decode failed.
#[derive(Clone, Copy, Debug, PartialEq, Eq, Structural)]
pub enum WireError {
    /// The stream ended before an expected quantity of bytes.
    UnexpectedEof,
    /// The bytes do not form a valid value.
    InvalidData,
}

/// What a decoder owes: where `parsed` is a value and a byte count, it returns
/// that value and consumes exactly that many bytes of the stream; where
/// `parsed` is an error, it returns that error.
pub open spec fn decoded<T: View>(
    res: Result<T, WireError>,
    parsed: Result<(T::V, nat), WireError>,
    before: Seq<u8>,
    after: Seq<u8>,
) -> bool {
    match parsed {
        Ok((v, n)) => {
            &&& res is Ok
            &&& res->Ok_0@ == v
            &&& n <= before.len()
            &&& after == before.skip(n as int)
        },
        Err(e) => res == Err::<T, WireError>(e),
    }
}

/// A value with a self-contained encoding, usable as a required message field.
pub trait WireItem: Sized + View {
    /// Whether `v` can be encoded.
    spec fn wire_valid(v: Self::V) -> bool;

    /// The encoding of `v`.
    spec fn wire_bytes(v: Self::V) -> Seq<u8>;

    /// The value at the start of `input`, with the number of bytes it takes.
    spec fn wire_parse(input: Seq<u8>) -> Result<(Self::V, nat), WireError>;

    /// Decoding the encoding of a valid value, whatever follows it, gives back
    /// the value and consumes exactly the encoding.
    proof fn lemma_round_trip(v: Self::V, rest: Seq<u8>)
        requires
            Self::wire_valid(v),
        ensures
            Self::wire_parse(Self::wire_bytes(v) + rest) == Ok::<(Self::V, nat), WireError>(
                (v, Self::wire_bytes(v).len()),
            ),
    ;

    /// Appends the encoding of `self`; returns the number of bytes written.
    fn encode(&self, out: &mut Vec<u8>) -> (count: usize)
        ensures
            Self::wire_valid(self@),
            final(out)@ == old(out)@ + Self::wire_bytes(self@),
            count == Self::wire_bytes(self@).len(),
    ;

    /// Reads a value off the stream.
    fn decode(r: &mut PeekReader) -> (res: Result<Self, WireError>)
        requires
            old(r).wf(),
        ensures
            final(r).wf(),
            decoded(res, Self::wire_parse(old(r).stream()), old(r).stream(), final(r).stream()),
    ;
}

/// The view of an optional value.
pub open spec fn opt_view<T: View>(o: Option<T>) -> Option<T::V> {
    match o {
        Some(x) => Some(x@),
        None => None,
    }
}

/// An extension record: the tag, the payload's length, the payload.
pub open spec fn tlv_record(tag: u64, payload: Seq<u8>) -> Seq<u8> {
    varint_bytes(tag) + varint_bytes(payload.len() as u64) + payload
}

/// `r` with `c` more bytes counted as consumed.
pub open spec fn shifted<V>(r: Result<(V, nat), WireError>, c: nat) -> Result<(V, nat), WireError> {
    match r {
        Ok((v, n)) => Ok((v, n + c)),
        Err(e) => Err(e),
    }
}

/// The ordered scan for the extension field tagged `tag`, over `input`:
/// records with a lower tag are skipped; a record with the tag is decoded;
/// a higher tag, or a tag that cannot be read in full, means that the field
/// is absent and nothing is consumed.
pub open spec fn tlv_scan<T: TLVWireItem>(input: Seq<u8>, tag: u64) -> Result<(Option<T::V>, nat), WireError>
    decreases input.len(),
{
    match parse_varint(input) {
        Err(_) => Ok((None, 0)),
        Ok((t, k)) => {
            if t > tag {
                Ok((None, 0))
            } else {
                match parse_varint(input.skip(k as int)) {
                    Err(e) => Err(e),
                    Ok((len, k2)) => {
                        let body = input.skip((k + k2) as int);
                        if t == tag {
                            match T::tlv_parse(body, len as nat) {
                                Ok((v, n)) => Ok((Some(v), k + k2 + n)),
                                Err(e) => Err(e),
                            }
                        } else if body.len() < len {
                            Err(WireError::UnexpectedEof)
                        } else {
                            shifted(tlv_scan::<T>(body.skip(len as int), tag), (k + k2 + len) as nat)
                        }
                    },
                }
            }
        },
    }
}

/// A value usable inside the extension stream, where the enclosing record
/// supplies the payload's length.
pub trait TLVWireItem: Sized + View {
    /// Whether `v` can be encoded.
    spec fn tlv_valid(v: Self::V) -> bool;

    /// The payload that encodes `v`.
    spec fn tlv_bytes(v: Self::V) -> Seq<u8>;

    /// The value at the start of `input`, in a payload announced as `len`
    /// bytes long, with the number of bytes it takes.
    spec fn tlv_parse(input: Seq<u8>, len: nat) -> Result<(Self::V, nat), WireError>;

    /// Decoding the payload of a valid value, announced with its own length,
    /// gives back the value and consumes exactly the payload.
    proof fn lemma_tlv_round_trip(v: Self::V, rest: Seq<u8>)
        requires
            Self::tlv_valid(v),
        ensures
            Self::tlv_parse(Self::tlv_bytes(v) + rest, Self::tlv_bytes(v).len()) == Ok::<
                (Self::V, nat),
                WireError,
            >((v, Self::tlv_bytes(v).len())),
    ;

    /// Appends the payload that encodes `self`; returns its length.
    fn encode(&self, out: &mut Vec<u8>) -> (count: usize)
        ensures
            Self::tlv_valid(self@),
            final(out)@ == old(out)@ + Self::tlv_bytes(self@),
            count == Self::tlv_bytes(self@).len(),
    ;

    /// Reads a value off the stream from a payload of `len` bytes.
    fn decode(r: &mut PeekReader, len: u64) -> (res: Result<Self, WireError>)
        requires
            old(r).wf(),
        ensures
            final(r).wf(),
            decoded(res, Self::tlv_parse(old(r).stream(), len as nat), old(r).stream(), final(r).stream()),
    ;
}

/// Writing a value as a whole extension record.
pub trait TLVWireItemWriter: TLVWireItem {
    /// Appends `self` as an extension record tagged `tlv_type`; returns the
    /// number of bytes written.
    fn encode_tlv(&self, out: &mut Vec<u8>, tlv_type: u64) -> (count: usize)
        ensures
            Self::tlv_valid(self@),
            final(out)@ == old(out)@ + tlv_record(tlv_type, Self::tlv_bytes(self@)),
            count == tlv_record(tlv_type, Self::tlv_bytes(self@)).len(),
    {
        let start = out.len();
        let mut data: Vec<u8> = Vec::new();
        TLVWireItem::encode(self, &mut data);
        assert(data@ =~= Self::tlv_bytes(self@));
        write_varint(tlv_type, out);
        write_varint(data.len() as u64, out);
        append_range(out, data.as_slice(), 0, data.len());
        assert(data@.subrange(0, data@.len() as int) =~= data@);
        assert(out@ =~= old(out)@ + tlv_record(tlv_type, Self::tlv_bytes(self@)));
        out.len() - start
    }
}

impl<T: TLVWireItem> TLVWireItemWriter for T {
}

/// Reading an extension field off the extension stream.
pub trait TLVWireItemReader: TLVWireItem {
    /// Scans the extension stream for the field tagged `tlv_type`: skips
    /// records with lower tags, decodes the record with this tag, and leaves
    /// a record with a higher tag, peeked but not consumed, for the next field.
    fn decode_tlv(r: &mut PeekReader, tlv_type: u64) -> (res: Result<Option<Self>, WireError>)
        requires
            old(r).wf(),
        ensures
            final(r).wf(),
            match tlv_scan::<Self>(old(r).stream(), tlv_type) {
                Ok((o, n)) => {
                    &&& res is Ok
                    &&& opt_view(res->Ok_0) == o
                    &&& final(r).stream() == old(r).stream().skip(n as int)
                },
                Err(e) => res == Err::<Option<Self>, WireError>(e),
            },
    {
        let ghost s = old(r).stream();
        let ghost mut c: nat = 0;
        loop
            invariant
                s == old(r).stream(),
                r.wf(),
                c <= s.len(),
                r.stream() == s.skip(c as int),
                tlv_scan::<Self>(s, tlv_type) == shifted(tlv_scan::<Self>(r.stream(), tlv_type), c),
            decreases r.stream().len(),
        {
            let ghost cur = r.stream();
            let (t, k) = match peek_varint(r) {
                Ok(tk) => tk,
                Err(_) => {
                    assert(r.stream() =~= s.skip(c as int).skip(0));
                    return Ok(None);
                },
            };
            if t > tlv_type {
                assert(r.stream() =~= s.skip(c as int).skip(0));
                return Ok(None);
            }
            // Commit the tag: its bytes are now consumed for good.
            let _ = r.read_exact(k);
            let len = read_varint(r)?;
            let ghost k2 = parse_varint(cur.skip(k as int))->Ok_0.1;
            let ghost body = cur.skip((k + k2) as int);
            proof {
                lemma_skip_skip(cur, k as int, k2 as int);
                lemma_skip_skip(s, c as int, (k + k2) as int);
                assert(r.stream() == body);
            }
            if t == tlv_type {
                let v = Self::decode(r, len)?;
                proof {
                    let n = Self::tlv_parse(body, len as nat)->Ok_0.1;
                    lemma_skip_skip(s, (c + k + k2) as int, n as int);
                }
                return Ok(Some(v));
            }
            if (r.remaining() as u64) < len {
                return Err(WireError::UnexpectedEof);
            }
            // An earlier record that no field asks for: skip its payload.
            let _ = r.read_exact(len as usize);
            proof {
                lemma_skip_skip(s, (c + k + k2) as int, len as int);
                c = (c + k + k2 + len) as nat;
            }
        }
    }
}

impl<T: TLVWireItem> TLVWireItemReader for T {
}

/// Scanning for the tag of an extension record that encodes a valid value,
/// whatever follows the record, gives back the value and consumes exactly
/// the record.
pub proof fn lemma_tlv_record_round_trip<T: TLVWireItem>(v: T::V, tag: u64, rest: Seq<u8>)
    requires
        T::tlv_valid(v),
        T::tlv_bytes(v).len() <= u64::MAX,
    ensures
        tlv_scan::<T>(tlv_record(tag, T::tlv_bytes(v)) + rest, tag) == Ok::<(Option<T::V>, nat), WireError>(
            (Some(v), tlv_record(tag, T::tlv_bytes(v)).len()),
        ),
{
    let payload = T::tlv_bytes(v);
    let len = payload.len() as u64;
    let input = tlv_record(tag, payload) + rest;
    let after_tag = varint_bytes(len) + payload + rest;
    assert(input =~= varint_bytes(tag) + after_tag);
    lemma_varint_round_trip(tag, after_tag);
    let k = varint_bytes(tag).len();
    assert(input.skip(k as int) =~= varint_bytes(len) + (payload + rest));
    lemma_varint_round_trip(len, payload + rest);
    let k2 = varint_bytes(len).len();
    assert(input.skip((k + k2) as int) =~= payload + rest);
    T::lemma_tlv_round_trip(v, rest);
}

/// Skipping `a` bytes and then `b` more is skipping `a + b`.
pub proof fn lemma_skip_skip(s: Seq<u8>, a: int, b: int)
    requires
        0 <= a,
        0 <= b,
        a + b <= s.len(),
    ensures
        s.skip(a).skip(b) == s.skip(a + b),
{
    assert(s.skip(a).skip(b) =~= s.skip(a + b));
}

impl<T: WireItem> TLVWireItem for T {
    open spec fn tlv_valid(v: T::V) -> bool {
        T::wire_valid(v)
    }

    open spec fn tlv_bytes(v: T::V) -> Seq<u8> {
        T::wire_bytes(v)
    }

    open spec fn tlv_parse(input: Seq<u8>, len: nat) -> Result<(T::V, nat), WireError> {
        T::wire_parse(input)
    }

    proof fn lemma_tlv_round_trip(v: T::V, rest: Seq<u8>) {
        T::lemma_round_trip(v, rest);
    }

    fn encode(&self, out: &mut Vec<u8>) -> (count: usize) {
        WireItem::encode(self, out)
    }

    fn decode(r: &mut PeekReader, len: u64) -> (res: Result<T, WireError>) {
        T::decode(r)
    }
}

/// What a message decoder owes on `input`: where `check_type` is set, a
/// 2-byte tag that must equal `msg_type`, then the body (`tagged`, parsed
/// after the tag); else the body alone (`untagged`, parsed from the start).
pub open spec fn framed_parse<V>(
    input: Seq<u8>,
    check_type: bool,
    msg_type: u16,
    untagged: Result<(V, nat), WireError>,
    tagged: Result<(V, nat), WireError>,
) -> Result<(V, nat), WireError> {
    if !check_type {
        untagged
    } else if input.len() < 2 {
        Err(WireError::UnexpectedEof)
    } else if be_value(input.take(2)) != msg_type {
        Err(WireError::InvalidData)
    } else {
        shifted(tagged, 2)
    }
}

/// A message: a constant 2-byte type tag, then its fields in order.
pub trait WireMessage: Sized + View {
    /// The type tag of the message.
    const MSG_TYPE: u16;

    /// The type tag of the message, as proofs see it.
    spec fn tag() -> u16;

    /// The type tag of the message.
    fn msg_tag() -> (t: u16)
        ensures
            t == Self::tag(),
    ;

    /// Whether `v` can be encoded.
    spec fn body_valid(v: Self::V) -> bool;

    /// The encoding of the fields of `v`.
    spec fn body_bytes(v: Self::V) -> Seq<u8>;

    /// The fields at the start of `input`, with the number of bytes they take.
    spec fn body_parse(input: Seq<u8>) -> Result<(Self::V, nat), WireError>;

    /// Decoding the fields of a valid message, whatever follows them, gives
    /// back the message and consumes exactly its fields.
    proof fn lemma_body_round_trip(v: Self::V, rest: Seq<u8>)
        requires
            Self::body_valid(v),
        ensures
            Self::body_parse(Self::body_bytes(v) + rest) == Ok::<(Self::V, nat), WireError>(
                (v, Self::body_bytes(v).len()),
            ),
    ;

    /// Appends the tag and the fields; returns the number of bytes written.
    fn encode(&self, out: &mut Vec<u8>) -> (count: usize)
        ensures
            Self::body_valid(self@),
            final(out)@ == old(out)@ + be_bytes(Self::tag() as nat, 2) + Self::body_bytes(self@),
            count == 2 + Self::body_bytes(self@).len(),
    ;

    /// Reads a message off the stream; reads and checks the tag first where
    /// `check_type` is set.
    fn decode(r: &mut PeekReader, check_type: bool) -> (res: Result<Self, WireError>)
        requires
            old(r).wf(),
        ensures
            final(r).wf(),
            decoded(
                res,
                framed_parse(
                    old(r).stream(),
                    check_type,
                    Self::tag(),
                    Self::body_parse(old(r).stream()),
                    Self::body_parse(old(r).stream().skip(2)),
                ),
                old(r).stream(),
                final(r).stream(),
            ),
    ;
}

/// The full encoding of a message: its tag, then its fields.
pub open spec fn message_bytes<T: WireMessage>(v: T::V) -> Seq<u8> {
    be_bytes(T::tag() as nat, 2) + T::body_bytes(v)
}

/// What decoding a message whose tag is still on the stream gives.
pub open spec fn message_parse<T: WireMessage>(input: Seq<u8>) -> Result<(T::V, nat), WireError> {
    framed_parse(input, true, T::tag(), T::body_parse(input), T::body_parse(input.skip(2)))
}

/// Decoding the encoding of a valid message, tag included, whatever follows
/// it, gives back the message and consumes exactly its encoding.
pub proof fn lemma_message_round_trip<T: WireMessage>(v: T::V, rest: Seq<u8>)
    requires
        T::body_valid(v),
    ensures
        message_parse::<T>(message_bytes::<T>(v) + rest) == Ok::<(T::V, nat), WireError>(
            (v, message_bytes::<T>(v).len()),
        ),
{
    let tag = be_bytes(T::tag() as nat, 2);
    let input = message_bytes::<T>(v) + rest;
    lemma_pow256_16();
    lemma_be_bytes_len(T::tag() as nat, 2);
    lemma_be_round_trip(T::tag() as nat, 2);
    assert(input.take(2) =~= tag);
    assert(input.skip(2) =~= T::body_bytes(v) + rest);
    T::lemma_body_round_trip(v, rest);
}

/// A message that carries its own tag: a single message type, or a tagged
/// union of several.
pub trait AnyWireMessage: Sized + View {
    /// The tag of the message `v`.
    spec fn any_type(v: Self::V) -> u16;

    /// Whether `v` can be encoded.
    spec fn any_valid(v: Self::V) -> bool;

    /// The encoding of `v`, tag included.
    spec fn any_bytes(v: Self::V) -> Seq<u8>;

    /// The message at the start of `input`, tag included, with the number of
    /// bytes it takes.
    spec fn any_parse(input: Seq<u8>) -> Result<(Self::V, nat), WireError>;

    /// Decoding the encoding of a valid message, whatever follows it, gives
    /// back the message and consumes exactly its encoding.
    proof fn lemma_any_round_trip(v: Self::V, rest: Seq<u8>)
        requires
            Self::any_valid(v),
        ensures
            Self::any_parse(Self::any_bytes(v) + rest) == Ok::<(Self::V, nat), WireError>(
                (v, Self::any_bytes(v).len()),
            ),
    ;

    /// The tag of the message.
    fn msg_type(&self) -> (t: u16)
        ensures
            t == Self::any_type(self@),
    ;

    /// Appends the message, tag included; returns the number of bytes written.
    fn encode(&self, out: &mut Vec<u8>) -> (count: usize)
        ensures
            Self::any_valid(self@),
            final(out)@ == old(out)@ + Self::any_bytes(self@),
            count == Self::any_bytes(self@).len(),
    ;

    /// Reads a message, tag included, off the stream.
    fn decode(r: &mut PeekReader) -> (res: Result<Self, WireError>)
        requires
            old(r).wf(),
        ensures
            final(r).wf(),
            decoded(res, Self::any_parse(old(r).stream()), old(r).stream(), final(r).stream()),
    ;
}

impl<T: WireMessage> AnyWireMessage for T {
    open spec fn any_type(v: T::V) -> u16 {
        T::tag()
    }

    open spec fn any_valid(v: T::V) -> bool {
        T::body_valid(v)
    }

    open spec fn any_bytes(v: T::V) -> Seq<u8> {
        message_bytes::<T>(v)
    }

    open spec fn any_parse(input: Seq<u8>) -> Result<(T::V, nat), WireError> {
        message_parse::<T>(input)
    }

    proof fn lemma_any_round_trip(v: T::V, rest: Seq<u8>) {
        lemma_message_round_trip::<T>(v, rest);
    }

    fn msg_type(&self) -> (t: u16) {
        T::msg_tag()
    }

    fn encode(&self, out: &mut Vec<u8>) -> (count: usize) {
        proof {
            lemma_be_bytes_len(T::tag() as nat, 2);
        }
        WireMessage::encode(self, out)
    }

    fn decode(r: &mut PeekReader) -> (res: Result<T, WireError>) {
        T::decode(r, true)
    }
}

} // verus!
