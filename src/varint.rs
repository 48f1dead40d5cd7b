//! Variable-length encoding of unsigned 64-bit integers: one byte below
//! `0xfd`, else a marker byte and a big-endian `u16`, `u32` or `u64`.

use vstd::prelude::*;

use crate::endian::{
    be_bytes, be_value, be_value_of, lemma_be_bytes_len, lemma_be_round_trip, lemma_be_value_bound,
    lemma_pow256_16, write_be,
};
use crate::reader::PeekReader;
use crate::wire::WireError;

verus! {

/// The number of bytes that follow a VarInt's first byte.
pub open spec fn varint_tail_len(first: u8) -> nat {
    if first == 0xff {
        8
    } else if first == 0xfe {
        4
    } else if first == 0xfd {
        2
    } else {
        0
    }
}

/// The encoding of `n`.
pub open spec fn varint_bytes(n: u64) -> Seq<u8> {
    if n < 0xfd {
        seq![n as u8]
    } else if n < 0x1_0000 {
        seq![0xfdu8] + be_bytes(n as nat, 2)
    } else if n < 0x1_0000_0000 {
        seq![0xfeu8] + be_bytes(n as nat, 4)
    } else {
        seq![0xffu8] + be_bytes(n as nat, 8)
    }
}

/// The length of the encoding of `n`.
pub open spec fn varint_len(n: u64) -> nat {
    if n < 0xfd {
        1
    } else if n < 0x1_0000 {
        3
    } else if n < 0x1_0000_0000 {
        5
    } else {
        9
    }
}

/// The VarInt at the start of `b`, with the number of bytes it takes. The
/// multi-byte forms are accepted whatever the value they hold.
pub open spec fn parse_varint(b: Seq<u8>) -> Result<(u64, nat), WireError> {
    if b.len() == 0 || b.len() < 1 + varint_tail_len(b[0]) {
        Err(WireError::UnexpectedEof)
    } else if varint_tail_len(b[0]) == 0 {
        Ok((b[0] as u64, 1))
    } else {
        let w = varint_tail_len(b[0]);
        Ok((be_value(b.subrange(1, 1 + w as int)) as u64, 1 + w))
    }
}

/// The encoding of `n` takes 1, 3, 5 or 9 bytes, by the range `n` falls in.
pub proof fn lemma_varint_len(n: u64)
    ensures
        varint_bytes(n).len() == varint_len(n),
{
    lemma_be_bytes_len(n as nat, 2);
    lemma_be_bytes_len(n as nat, 4);
    lemma_be_bytes_len(n as nat, 8);
}

/// Decoding the encoding of `n`, whatever follows it, gives back `n` and
/// consumes exactly the encoding.
pub proof fn lemma_varint_round_trip(n: u64, rest: Seq<u8>)
    ensures
        parse_varint(varint_bytes(n) + rest) == Ok::<(u64, nat), WireError>(
            (n, varint_bytes(n).len()),
        ),
{
    lemma_varint_len(n);
    lemma_pow256_16();
    let b = varint_bytes(n) + rest;
    if n >= 0xfd {
        let w: nat = if n < 0x1_0000 {
            2
        } else if n < 0x1_0000_0000 {
            4
        } else {
            8
        };
        assert(b.subrange(1, 1 + w as int) =~= be_bytes(n as nat, w));
        lemma_be_round_trip(n as nat, w);
    }
}

/// Appends the encoding of `n`; returns the number of bytes written.
pub fn write_varint(n: u64, out: &mut Vec<u8>) -> (count: usize)
    ensures
        final(out)@ == old(out)@ + varint_bytes(n),
        count == varint_len(n),
{
    proof {
        lemma_pow256_16();
    }
    if n < 0xfd {
        out.push(n as u8);
        assert(final(out)@ =~= old(out)@ + varint_bytes(n));
        1
    } else if n < 0x1_0000 {
        out.push(0xfd);
        write_be(out, n as u128, 2);
        assert(final(out)@ =~= old(out)@ + varint_bytes(n));
        3
    } else if n < 0x1_0000_0000 {
        out.push(0xfe);
        write_be(out, n as u128, 4);
        assert(final(out)@ =~= old(out)@ + varint_bytes(n));
        5
    } else {
        out.push(0xff);
        write_be(out, n as u128, 8);
        assert(final(out)@ =~= old(out)@ + varint_bytes(n));
        9
    }
}

/// The tail length of a VarInt whose first byte is `first`.
fn tail_len(first: u8) -> (w: usize)
    ensures
        w == varint_tail_len(first),
{
    if first == 0xff {
        8
    } else if first == 0xfe {
        4
    } else if first == 0xfd {
        2
    } else {
        0
    }
}

/// Reads a VarInt off the stream.
pub fn read_varint(r: &mut PeekReader) -> (res: Result<u64, WireError>)
    requires
        old(r).wf(),
    ensures
        final(r).wf(),
        match parse_varint(old(r).stream()) {
            Ok((v, k)) => {
                &&& res == Ok::<u64, WireError>(v)
                &&& final(r).stream() == old(r).stream().skip(k as int)
            },
            Err(e) => res == Err::<u64, WireError>(e),
        },
{
    let s = Ghost(old(r).stream());
    let first = r.read_exact(1)?;
    let b = first[0];
    assert(b == s@[0]);
    let w = tail_len(b);
    if w == 0 {
        return Ok(b as u64);
    }
    let tail = r.read_exact(w)?;
    proof {
        assert(tail@ =~= s@.subrange(1, 1 + w as int));
        assert(r.stream() =~= s@.skip(1 + w as int));
        lemma_be_value_bound(tail@);
        lemma_pow256_16();
    }
    let v = be_value_of(tail.as_slice());
    Ok(v as u64)
}

/// Reads the VarInt at the start of the stream without consuming it: the
/// bytes stay in the replay buffer. Returns the value and the number of
/// bytes it takes.
pub fn peek_varint(r: &mut PeekReader) -> (res: Result<(u64, usize), WireError>)
    requires
        old(r).wf(),
    ensures
        final(r).wf(),
        final(r).stream() == old(r).stream(),
        match parse_varint(old(r).stream()) {
            Ok((v, k)) => {
                &&& res == Ok::<(u64, usize), WireError>((v, k as usize))
                &&& k <= final(r).peeked().len()
                &&& final(r).peeked() == old(r).stream().take(
                    if old(r).peeked().len() >= k {
                        old(r).peeked().len() as int
                    } else {
                        k as int
                    },
                )
            },
            Err(e) => res == Err::<(u64, usize), WireError>(e),
        },
{
    let s = Ghost(old(r).stream());
    r.fill_peeked(1)?;
    let b = r.peeked_byte(0);
    assert(b == s@[0]);
    let w = tail_len(b);
    if w == 0 {
        return Ok((b as u64, 1));
    }
    r.fill_peeked(1 + w)?;
    let tail = r.peeked_range(1, 1 + w);
    proof {
        assert(tail@ =~= s@.subrange(1, 1 + w as int));
        lemma_be_value_bound(tail@);
        lemma_pow256_16();
    }
    let v = be_value_of(tail.as_slice());
    Ok((v as u64, 1 + w))
}

} // verus!
