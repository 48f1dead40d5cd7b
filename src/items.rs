//! Items: primitives, byte arrays and byte buffers.

use vstd::prelude::*;

pub mod feature;
pub mod fees;
pub mod hash;

use crate::endian::{
    be_bytes, be_value, be_value_of, lemma_be_bytes_len, lemma_be_round_trip, lemma_be_value_bound,
    lemma_pow256_16, pow256, write_be,
};
use crate::reader::{append_range, PeekReader};
use crate::varint::{lemma_varint_round_trip, read_varint, varint_bytes, write_varint};
use crate::wire::{TLVWireItem, WireError, WireItem};

verus! {

/// The number at the start of `input` in `w` big-endian bytes.
pub open spec fn parse_fixed(input: Seq<u8>, w: nat) -> Result<(nat, nat), WireError> {
    if input.len() < w {
        Err(WireError::UnexpectedEof)
    } else {
        Ok((be_value(input.take(w as int)), w))
    }
}

/// `v` in two's complement over `w` bytes.
pub open spec fn twos(v: int, w: nat) -> nat {
    if v >= 0 {
        v as nat
    } else {
        (v + pow256(w)) as nat
    }
}

/// The signed number whose two's complement over `w` bytes is `n`.
pub open spec fn from_twos(n: nat, w: nat) -> int {
    if n < pow256(w) / 2 {
        n as int
    } else {
        n - pow256(w)
    }
}

proof fn lemma_fixed_round_trip(n: nat, w: nat, rest: Seq<u8>)
    requires
        n < pow256(w),
    ensures
        parse_fixed(be_bytes(n, w) + rest, w) == Ok::<(nat, nat), WireError>((n, w)),
{
    lemma_be_bytes_len(n, w);
    assert((be_bytes(n, w) + rest).take(w as int) =~= be_bytes(n, w));
    lemma_be_round_trip(n, w);
}

/// Reads a `w`-byte big-endian number.
fn read_fixed(r: &mut PeekReader, w: usize) -> (res: Result<u128, WireError>)
    requires
        old(r).wf(),
        w <= 16,
    ensures
        final(r).wf(),
        match parse_fixed(old(r).stream(), w as nat) {
            Ok((v, n)) => {
                &&& res == Ok::<u128, WireError>(v as u128)
                &&& v < pow256(w as nat)
                &&& final(r).stream() == old(r).stream().skip(n as int)
            },
            Err(e) => res == Err::<u128, WireError>(e),
        },
{
    let bytes = r.read_exact(w)?;
    proof {
        lemma_be_value_bound(bytes@);
    }
    Ok(be_value_of(bytes.as_slice()))
}

/// `pow256(w)` for the widths of the primitives below 128 bits.
fn modulus(w: usize) -> (m: u128)
    requires
        w == 1 || w == 2 || w == 4 || w == 8,
    ensures
        m == pow256(w as nat),
{
    proof {
        lemma_pow256_16();
    }
    if w == 1 {
        0x100
    } else if w == 2 {
        0x1_0000
    } else if w == 4 {
        0x1_0000_0000
    } else {
        0x1_0000_0000_0000_0000
    }
}

/// `v` in two's complement over `w` bytes.
fn to_twos(v: i128, w: usize) -> (u: u128)
    requires
        w == 1 || w == 2 || w == 4 || w == 8 || w == 16,
        -(pow256(w as nat) / 2) <= v < pow256(w as nat) / 2,
    ensures
        u == twos(v as int, w as nat),
        u < pow256(w as nat),
{
    proof {
        lemma_pow256_16();
    }
    if v >= 0 {
        v as u128
    } else if w == 16 {
        ((v + 1) + i128::MAX) as u128 + 0x8000_0000_0000_0000_0000_0000_0000_0000
    } else {
        let m = modulus(w);
        (v + m as i128) as u128
    }
}

/// The signed number whose two's complement over `w` bytes is `u`.
fn from_twos_exec(u: u128, w: usize) -> (v: i128)
    requires
        w == 1 || w == 2 || w == 4 || w == 8 || w == 16,
        u < pow256(w as nat),
    ensures
        v == from_twos(u as nat, w as nat),
{
    proof {
        lemma_pow256_16();
    }
    if w == 16 {
        if u < 0x8000_0000_0000_0000_0000_0000_0000_0000 {
            u as i128
        } else {
            (u - 0x8000_0000_0000_0000_0000_0000_0000_0000) as i128 - i128::MAX - 1
        }
    } else {
        let m = modulus(w);
        if u < m / 2 {
            u as i128
        } else {
            u as i128 - m as i128
        }
    }
}

proof fn lemma_twos_round_trip(v: int, w: nat)
    requires
        w == 1 || w == 2 || w == 4 || w == 8 || w == 16,
        -(pow256(w) / 2) <= v < pow256(w) / 2,
    ensures
        twos(v, w) < pow256(w),
        from_twos(twos(v, w), w) == v,
{
    lemma_pow256_16();
}

impl WireItem for u8 {
    open spec fn wire_valid(v: u8) -> bool {
        true
    }

    open spec fn wire_bytes(v: u8) -> Seq<u8> {
        be_bytes(v as nat, 1)
    }

    open spec fn wire_parse(input: Seq<u8>) -> Result<(u8, nat), WireError> {
        match parse_fixed(input, 1) {
            Ok((n, k)) => Ok((n as u8, k)),
            Err(e) => Err(e),
        }
    }

    proof fn lemma_round_trip(v: u8, rest: Seq<u8>) {
        lemma_pow256_16();
        lemma_be_bytes_len(v as nat, 1);
        lemma_fixed_round_trip(v as nat, 1, rest);
    }

    fn encode(&self, out: &mut Vec<u8>) -> (count: usize) {
        proof {
            lemma_pow256_16();
            lemma_be_bytes_len(*self as nat, 1);
        }
        write_be(out, *self as u128, 1);
        1
    }

    fn decode(r: &mut PeekReader) -> (res: Result<u8, WireError>) {
        proof {
            lemma_pow256_16();
        }
        let v = read_fixed(r, 1)?;
        Ok(v as u8)
    }
}

impl WireItem for i8 {
    open spec fn wire_valid(v: i8) -> bool {
        true
    }

    open spec fn wire_bytes(v: i8) -> Seq<u8> {
        be_bytes(twos(v as int, 1), 1)
    }

    open spec fn wire_parse(input: Seq<u8>) -> Result<(i8, nat), WireError> {
        match parse_fixed(input, 1) {
            Ok((n, k)) => Ok((from_twos(n, 1) as i8, k)),
            Err(e) => Err(e),
        }
    }

    proof fn lemma_round_trip(v: i8, rest: Seq<u8>) {
        lemma_pow256_16();
        lemma_twos_round_trip(v as int, 1);
        lemma_be_bytes_len(twos(v as int, 1), 1);
        lemma_fixed_round_trip(twos(v as int, 1), 1, rest);
    }

    fn encode(&self, out: &mut Vec<u8>) -> (count: usize) {
        proof {
            lemma_pow256_16();
            lemma_be_bytes_len(twos(*self as int, 1), 1);
        }
        write_be(out, to_twos(*self as i128, 1), 1);
        1
    }

    fn decode(r: &mut PeekReader) -> (res: Result<i8, WireError>) {
        proof {
            lemma_pow256_16();
        }
        let u = read_fixed(r, 1)?;
        Ok(from_twos_exec(u, 1) as i8)
    }
}

impl WireItem for u16 {
    open spec fn wire_valid(v: u16) -> bool {
        true
    }

    open spec fn wire_bytes(v: u16) -> Seq<u8> {
        be_bytes(v as nat, 2)
    }

    open spec fn wire_parse(input: Seq<u8>) -> Result<(u16, nat), WireError> {
        match parse_fixed(input, 2) {
            Ok((n, k)) => Ok((n as u16, k)),
            Err(e) => Err(e),
        }
    }

    proof fn lemma_round_trip(v: u16, rest: Seq<u8>) {
        lemma_pow256_16();
        lemma_be_bytes_len(v as nat, 2);
        lemma_fixed_round_trip(v as nat, 2, rest);
    }

    fn encode(&self, out: &mut Vec<u8>) -> (count: usize) {
        proof {
            lemma_pow256_16();
            lemma_be_bytes_len(*self as nat, 2);
        }
        write_be(out, *self as u128, 2);
        2
    }

    fn decode(r: &mut PeekReader) -> (res: Result<u16, WireError>) {
        proof {
            lemma_pow256_16();
        }
        let v = read_fixed(r, 2)?;
        Ok(v as u16)
    }
}

impl WireItem for i16 {
    open spec fn wire_valid(v: i16) -> bool {
        true
    }

    open spec fn wire_bytes(v: i16) -> Seq<u8> {
        be_bytes(twos(v as int, 2), 2)
    }

    open spec fn wire_parse(input: Seq<u8>) -> Result<(i16, nat), WireError> {
        match parse_fixed(input, 2) {
            Ok((n, k)) => Ok((from_twos(n, 2) as i16, k)),
            Err(e) => Err(e),
        }
    }

    proof fn lemma_round_trip(v: i16, rest: Seq<u8>) {
        lemma_pow256_16();
        lemma_twos_round_trip(v as int, 2);
        lemma_be_bytes_len(twos(v as int, 2), 2);
        lemma_fixed_round_trip(twos(v as int, 2), 2, rest);
    }

    fn encode(&self, out: &mut Vec<u8>) -> (count: usize) {
        proof {
            lemma_pow256_16();
            lemma_be_bytes_len(twos(*self as int, 2), 2);
        }
        write_be(out, to_twos(*self as i128, 2), 2);
        2
    }

    fn decode(r: &mut PeekReader) -> (res: Result<i16, WireError>) {
        proof {
            lemma_pow256_16();
        }
        let u = read_fixed(r, 2)?;
        Ok(from_twos_exec(u, 2) as i16)
    }
}

impl WireItem for u32 {
    open spec fn wire_valid(v: u32) -> bool {
        true
    }

    open spec fn wire_bytes(v: u32) -> Seq<u8> {
        be_bytes(v as nat, 4)
    }

    open spec fn wire_parse(input: Seq<u8>) -> Result<(u32, nat), WireError> {
        match parse_fixed(input, 4) {
            Ok((n, k)) => Ok((n as u32, k)),
            Err(e) => Err(e),
        }
    }

    proof fn lemma_round_trip(v: u32, rest: Seq<u8>) {
        lemma_pow256_16();
        lemma_be_bytes_len(v as nat, 4);
        lemma_fixed_round_trip(v as nat, 4, rest);
    }

    fn encode(&self, out: &mut Vec<u8>) -> (count: usize) {
        proof {
            lemma_pow256_16();
            lemma_be_bytes_len(*self as nat, 4);
        }
        write_be(out, *self as u128, 4);
        4
    }

    fn decode(r: &mut PeekReader) -> (res: Result<u32, WireError>) {
        proof {
            lemma_pow256_16();
        }
        let v = read_fixed(r, 4)?;
        Ok(v as u32)
    }
}

impl WireItem for i32 {
    open spec fn wire_valid(v: i32) -> bool {
        true
    }

    open spec fn wire_bytes(v: i32) -> Seq<u8> {
        be_bytes(twos(v as int, 4), 4)
    }

    open spec fn wire_parse(input: Seq<u8>) -> Result<(i32, nat), WireError> {
        match parse_fixed(input, 4) {
            Ok((n, k)) => Ok((from_twos(n, 4) as i32, k)),
            Err(e) => Err(e),
        }
    }

    proof fn lemma_round_trip(v: i32, rest: Seq<u8>) {
        lemma_pow256_16();
        lemma_twos_round_trip(v as int, 4);
        lemma_be_bytes_len(twos(v as int, 4), 4);
        lemma_fixed_round_trip(twos(v as int, 4), 4, rest);
    }

    fn encode(&self, out: &mut Vec<u8>) -> (count: usize) {
        proof {
            lemma_pow256_16();
            lemma_be_bytes_len(twos(*self as int, 4), 4);
        }
        write_be(out, to_twos(*self as i128, 4), 4);
        4
    }

    fn decode(r: &mut PeekReader) -> (res: Result<i32, WireError>) {
        proof {
            lemma_pow256_16();
        }
        let u = read_fixed(r, 4)?;
        Ok(from_twos_exec(u, 4) as i32)
    }
}

impl WireItem for u64 {
    open spec fn wire_valid(v: u64) -> bool {
        true
    }

    open spec fn wire_bytes(v: u64) -> Seq<u8> {
        be_bytes(v as nat, 8)
    }

    open spec fn wire_parse(input: Seq<u8>) -> Result<(u64, nat), WireError> {
        match parse_fixed(input, 8) {
            Ok((n, k)) => Ok((n as u64, k)),
            Err(e) => Err(e),
        }
    }

    proof fn lemma_round_trip(v: u64, rest: Seq<u8>) {
        lemma_pow256_16();
        lemma_be_bytes_len(v as nat, 8);
        lemma_fixed_round_trip(v as nat, 8, rest);
    }

    fn encode(&self, out: &mut Vec<u8>) -> (count: usize) {
        proof {
            lemma_pow256_16();
            lemma_be_bytes_len(*self as nat, 8);
        }
        write_be(out, *self as u128, 8);
        8
    }

    fn decode(r: &mut PeekReader) -> (res: Result<u64, WireError>) {
        proof {
            lemma_pow256_16();
        }
        let v = read_fixed(r, 8)?;
        Ok(v as u64)
    }
}

impl WireItem for i64 {
    open spec fn wire_valid(v: i64) -> bool {
        true
    }

    open spec fn wire_bytes(v: i64) -> Seq<u8> {
        be_bytes(twos(v as int, 8), 8)
    }

    open spec fn wire_parse(input: Seq<u8>) -> Result<(i64, nat), WireError> {
        match parse_fixed(input, 8) {
            Ok((n, k)) => Ok((from_twos(n, 8) as i64, k)),
            Err(e) => Err(e),
        }
    }

    proof fn lemma_round_trip(v: i64, rest: Seq<u8>) {
        lemma_pow256_16();
        lemma_twos_round_trip(v as int, 8);
        lemma_be_bytes_len(twos(v as int, 8), 8);
        lemma_fixed_round_trip(twos(v as int, 8), 8, rest);
    }

    fn encode(&self, out: &mut Vec<u8>) -> (count: usize) {
        proof {
            lemma_pow256_16();
            lemma_be_bytes_len(twos(*self as int, 8), 8);
        }
        write_be(out, to_twos(*self as i128, 8), 8);
        8
    }

    fn decode(r: &mut PeekReader) -> (res: Result<i64, WireError>) {
        proof {
            lemma_pow256_16();
        }
        let u = read_fixed(r, 8)?;
        Ok(from_twos_exec(u, 8) as i64)
    }
}

impl WireItem for u128 {
    open spec fn wire_valid(v: u128) -> bool {
        true
    }

    open spec fn wire_bytes(v: u128) -> Seq<u8> {
        be_bytes(v as nat, 16)
    }

    open spec fn wire_parse(input: Seq<u8>) -> Result<(u128, nat), WireError> {
        match parse_fixed(input, 16) {
            Ok((n, k)) => Ok((n as u128, k)),
            Err(e) => Err(e),
        }
    }

    proof fn lemma_round_trip(v: u128, rest: Seq<u8>) {
        lemma_pow256_16();
        lemma_be_bytes_len(v as nat, 16);
        lemma_fixed_round_trip(v as nat, 16, rest);
    }

    fn encode(&self, out: &mut Vec<u8>) -> (count: usize) {
        proof {
            lemma_pow256_16();
            lemma_be_bytes_len(*self as nat, 16);
        }
        write_be(out, *self as u128, 16);
        16
    }

    fn decode(r: &mut PeekReader) -> (res: Result<u128, WireError>) {
        proof {
            lemma_pow256_16();
        }
        let v = read_fixed(r, 16)?;
        Ok(v as u128)
    }
}

impl WireItem for i128 {
    open spec fn wire_valid(v: i128) -> bool {
        true
    }

    open spec fn wire_bytes(v: i128) -> Seq<u8> {
        be_bytes(twos(v as int, 16), 16)
    }

    open spec fn wire_parse(input: Seq<u8>) -> Result<(i128, nat), WireError> {
        match parse_fixed(input, 16) {
            Ok((n, k)) => Ok((from_twos(n, 16) as i128, k)),
            Err(e) => Err(e),
        }
    }

    proof fn lemma_round_trip(v: i128, rest: Seq<u8>) {
        lemma_pow256_16();
        lemma_twos_round_trip(v as int, 16);
        lemma_be_bytes_len(twos(v as int, 16), 16);
        lemma_fixed_round_trip(twos(v as int, 16), 16, rest);
    }

    fn encode(&self, out: &mut Vec<u8>) -> (count: usize) {
        proof {
            lemma_pow256_16();
            lemma_be_bytes_len(twos(*self as int, 16), 16);
        }
        write_be(out, to_twos(*self as i128, 16), 16);
        16
    }

    fn decode(r: &mut PeekReader) -> (res: Result<i128, WireError>) {
        proof {
            lemma_pow256_16();
        }
        let u = read_fixed(r, 16)?;
        Ok(from_twos_exec(u, 16) as i128)
    }
}

impl WireItem for () {
    open spec fn wire_valid(v: ()) -> bool {
        true
    }

    open spec fn wire_bytes(v: ()) -> Seq<u8> {
        Seq::empty()
    }

    open spec fn wire_parse(input: Seq<u8>) -> Result<((), nat), WireError> {
        Ok(((), 0))
    }

    proof fn lemma_round_trip(v: (), rest: Seq<u8>) {
    }

    fn encode(&self, out: &mut Vec<u8>) -> (count: usize) {
        assert(out@ =~= old(out)@ + Seq::<u8>::empty());
        0
    }

    fn decode(r: &mut PeekReader) -> (res: Result<(), WireError>) {
        assert(r.stream() =~= r.stream().skip(0));
        Ok(())
    }
}

impl<const N: usize> WireItem for [u8; N] {
    open spec fn wire_valid(v: Seq<u8>) -> bool {
        v.len() == N
    }

    open spec fn wire_bytes(v: Seq<u8>) -> Seq<u8> {
        v
    }

    open spec fn wire_parse(input: Seq<u8>) -> Result<(Seq<u8>, nat), WireError> {
        if input.len() < N {
            Err(WireError::UnexpectedEof)
        } else {
            Ok((input.take(N as int), N as nat))
        }
    }

    proof fn lemma_round_trip(v: Seq<u8>, rest: Seq<u8>) {
        assert((v + rest).take(N as int) =~= v);
    }

    fn encode(&self, out: &mut Vec<u8>) -> (count: usize) {
        proof {
            vstd::array::array_len_matches_n(self);
        }
        append_range(out, self.as_slice(), 0, N);
        assert(self@.subrange(0, N as int) =~= self@);
        N
    }

    fn decode(r: &mut PeekReader) -> (res: Result<[u8; N], WireError>) {
        let bytes = r.read_exact(N)?;
        let mut a: [u8; N] = vstd::array::array_fill_for_copy_types(0u8);
        let mut i: usize = 0;
        while i < N
            invariant
                bytes@.len() == N,
                0 <= i <= N,
                a@.len() == N,
                forall|j: int| 0 <= j < i ==> a@[j] == bytes@[j],
            decreases N - i,
        {
            a[i] = bytes[i];
            i = i + 1;
        }
        assert(a@ =~= bytes@);
        Ok(a)
    }
}

/// A byte buffer that either owns its bytes or borrows them.
#[derive(Clone, Debug)]
pub enum Buffer<'a> {
    Vector(Vec<u8>),
    Other(&'a [u8]),
}

impl<'a> View for Buffer<'a> {
    type V = Seq<u8>;

    open spec fn view(&self) -> Seq<u8> {
        match self {
            Buffer::Vector(v) => v@,
            Buffer::Other(s) => s@,
        }
    }
}

impl<'a> Buffer<'a> {
    /// A buffer that borrows `s`.
    pub fn from(s: &'a [u8]) -> (b: Self)
        ensures
            b@ == s@,
    {
        Buffer::Other(s)
    }

    /// The bytes, moved out where owned and copied where borrowed.
    pub fn to_vec(self) -> (v: Vec<u8>)
        ensures
            v@ == self@,
    {
        match self {
            Buffer::Vector(a) => a,
            Buffer::Other(a) => {
                let mut v: Vec<u8> = Vec::new();
                append_range(&mut v, a, 0, a.len());
                assert(v@ =~= a@);
                v
            },
        }
    }

    /// A view of the bytes.
    pub fn borrow(&self) -> (s: &[u8])
        ensures
            s@ == self@,
    {
        match self {
            Buffer::Vector(a) => a.as_slice(),
            Buffer::Other(a) => a,
        }
    }
}

/// The bytes at the start of `input` that a length of `len` bytes announces,
/// where `k` bytes of `input` are already taken.
pub open spec fn parse_sized(input: Seq<u8>, k: nat, len: nat) -> Result<(Seq<u8>, nat), WireError> {
    if input.len() < k + len {
        Err(WireError::UnexpectedEof)
    } else {
        Ok((input.subrange(k as int, (k + len) as int), k + len))
    }
}

/// Reads `len` bytes into an owned vector.
pub(crate) fn read_sized(r: &mut PeekReader, len: u64) -> (res: Result<Vec<u8>, WireError>)
    requires
        old(r).wf(),
    ensures
        final(r).wf(),
        match parse_sized(old(r).stream(), 0, len as nat) {
            Ok((v, n)) => {
                &&& res is Ok
                &&& res->Ok_0@ == v
                &&& final(r).stream() == old(r).stream().skip(n as int)
            },
            Err(e) => res == Err::<Vec<u8>, WireError>(e),
        },
{
    if (r.remaining() as u64) < len {
        return Err(WireError::UnexpectedEof);
    }
    let v = r.read_exact(len as usize)?;
    assert(v@ =~= old(r).stream().subrange(0, len as int));
    Ok(v)
}

impl<'a> WireItem for Buffer<'a> {
    open spec fn wire_valid(v: Seq<u8>) -> bool {
        v.len() <= u64::MAX
    }

    open spec fn wire_bytes(v: Seq<u8>) -> Seq<u8> {
        varint_bytes(v.len() as u64) + v
    }

    open spec fn wire_parse(input: Seq<u8>) -> Result<(Seq<u8>, nat), WireError> {
        match crate::varint::parse_varint(input) {
            Ok((len, k)) => parse_sized(input, k, len as nat),
            Err(e) => Err(e),
        }
    }

    proof fn lemma_round_trip(v: Seq<u8>, rest: Seq<u8>) {
        let n = v.len() as u64;
        lemma_varint_round_trip(n, v + rest);
        assert(varint_bytes(n) + v + rest =~= varint_bytes(n) + (v + rest));
        let b = varint_bytes(n) + v + rest;
        let k = varint_bytes(n).len();
        assert(b.subrange(k as int, (k + v.len()) as int) =~= v);
    }

    fn encode(&self, out: &mut Vec<u8>) -> (count: usize) {
        let start = out.len();
        let s = self.borrow();
        write_varint(s.len() as u64, out);
        append_range(out, s, 0, s.len());
        assert(s@.subrange(0, s@.len() as int) =~= s@);
        assert(out@ =~= old(out)@ + Self::wire_bytes(self@));
        out.len() - start
    }

    fn decode(r: &mut PeekReader) -> (res: Result<Buffer<'a>, WireError>) {
        let s = Ghost(old(r).stream());
        let len = read_varint(r)?;
        let k = Ghost((s@.len() - r.stream().len()) as nat);
        let v = read_sized(r, len)?;
        proof {
            assert(r.stream() =~= s@.skip(k@ + len));
            assert(v@ =~= s@.subrange(k@ as int, k@ + len));
        }
        Ok(Buffer::Vector(v))
    }
}

/// A byte buffer that fills the whole payload of an extension record: it
/// carries no length of its own.
#[derive(Clone, Debug)]
pub enum TLVBuffer<'a> {
    Vector(Vec<u8>),
    Other(&'a [u8]),
}

impl<'a> View for TLVBuffer<'a> {
    type V = Seq<u8>;

    open spec fn view(&self) -> Seq<u8> {
        match self {
            TLVBuffer::Vector(v) => v@,
            TLVBuffer::Other(s) => s@,
        }
    }
}

impl<'a> TLVBuffer<'a> {
    /// A buffer that borrows `s`.
    pub fn from(s: &'a [u8]) -> (b: Self)
        ensures
            b@ == s@,
    {
        TLVBuffer::Other(s)
    }

    /// A view of the bytes.
    pub fn borrow(&self) -> (s: &[u8])
        ensures
            s@ == self@,
    {
        match self {
            TLVBuffer::Vector(a) => a.as_slice(),
            TLVBuffer::Other(a) => a,
        }
    }
}

impl<'a> TLVWireItem for TLVBuffer<'a> {
    open spec fn tlv_valid(v: Seq<u8>) -> bool {
        true
    }

    open spec fn tlv_bytes(v: Seq<u8>) -> Seq<u8> {
        v
    }

    open spec fn tlv_parse(input: Seq<u8>, len: nat) -> Result<(Seq<u8>, nat), WireError> {
        parse_sized(input, 0, len)
    }

    proof fn lemma_tlv_round_trip(v: Seq<u8>, rest: Seq<u8>) {
        assert((v + rest).subrange(0, v.len() as int) =~= v);
    }

    fn encode(&self, out: &mut Vec<u8>) -> (count: usize) {
        let s = self.borrow();
        append_range(out, s, 0, s.len());
        assert(s@.subrange(0, s@.len() as int) =~= s@);
        s.len()
    }

    fn decode(r: &mut PeekReader, len: u64) -> (res: Result<TLVBuffer<'a>, WireError>) {
        let v = read_sized(r, len)?;
        Ok(TLVBuffer::Vector(v))
    }
}

/// A value that is either owned or borrowed; decoding always gives an owned one.
pub enum MaybeOwned<'a, T> {
    Owned(T),
    Borrowed(&'a T),
}

impl<'a, T: View> View for MaybeOwned<'a, T> {
    type V = T::V;

    open spec fn view(&self) -> T::V {
        match self {
            MaybeOwned::Owned(o) => o@,
            MaybeOwned::Borrowed(b) => b@,
        }
    }
}

impl<'a, T> MaybeOwned<'a, T> {
    /// A reference to the value.
    pub fn borrow(&self) -> (r: &T)
        ensures
            *r == match self {
                MaybeOwned::Owned(o) => o,
                MaybeOwned::Borrowed(b) => *b,
            },
    {
        match self {
            MaybeOwned::Owned(o) => o,
            MaybeOwned::Borrowed(b) => b,
        }
    }
}

impl<'a, T: WireItem> WireItem for MaybeOwned<'a, T> {
    open spec fn wire_valid(v: T::V) -> bool {
        T::wire_valid(v)
    }

    open spec fn wire_bytes(v: T::V) -> Seq<u8> {
        T::wire_bytes(v)
    }

    open spec fn wire_parse(input: Seq<u8>) -> Result<(T::V, nat), WireError> {
        T::wire_parse(input)
    }

    proof fn lemma_round_trip(v: T::V, rest: Seq<u8>) {
        T::lemma_round_trip(v, rest);
    }

    fn encode(&self, out: &mut Vec<u8>) -> (count: usize) {
        WireItem::encode(self.borrow(), out)
    }

    fn decode(r: &mut PeekReader) -> (res: Result<MaybeOwned<'a, T>, WireError>) {
        let v = T::decode(r)?;
        Ok(MaybeOwned::Owned(v))
    }
}

} // verus!
