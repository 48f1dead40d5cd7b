//! A byte reader that can look ahead and later either replay or commit what
//! it looked at.

use vstd::prelude::*;

use crate::wire::WireError;

verus! {

/// Reads from a byte source, with a replay buffer for bytes that were peeked
/// at but not yet consumed.
pub struct PeekReader<'a> {
    peeked: Vec<u8>,
    input: &'a [u8],
    pos: usize,
}

/// Appends `src[from..to]` to `out`.
pub fn append_range(out: &mut Vec<u8>, src: &[u8], from: usize, to: usize)
    requires
        from <= to <= src@.len(),
    ensures
        final(out)@ == old(out)@ + src@.subrange(from as int, to as int),
{
    let mut i: usize = from;
    while i < to
        invariant
            from <= i <= to <= src@.len(),
            out@ == old(out)@ + src@.subrange(from as int, i as int),
        decreases to - i,
    {
        out.push(src[i]);
        i = i + 1;
        assert(out@ =~= old(out)@ + src@.subrange(from as int, i as int));
    }
}

impl<'a> PeekReader<'a> {
    pub closed spec fn wf(&self) -> bool {
        &&& self.pos <= self.input@.len()
        &&& self.peeked@.len() <= self.pos
    }

    /// Bytes peeked at and not yet committed: ordinary reads return them first.
    pub closed spec fn peeked(&self) -> Seq<u8> {
        self.peeked@
    }

    /// Bytes not yet taken from the underlying source.
    pub closed spec fn source(&self) -> Seq<u8> {
        self.input@.subrange(self.pos as int, self.input@.len() as int)
    }

    /// The bytes that ordinary reads return from here on.
    pub open spec fn stream(&self) -> Seq<u8> {
        self.peeked() + self.source()
    }

    /// A reader over `input`, with nothing peeked.
    pub fn new(input: &'a [u8]) -> (r: Self)
        ensures
            r.wf(),
            r.peeked() == Seq::<u8>::empty(),
            r.source() == input@,
    {
        let r = PeekReader { peeked: Vec::new(), input, pos: 0 };
        assert(r.source() =~= input@);
        r
    }

    /// The number of bytes that ordinary reads can still return.
    pub fn remaining(&self) -> (n: usize)
        requires
            self.wf(),
        ensures
            n == self.stream().len(),
    {
        self.peeked.len() + (self.input.len() - self.pos)
    }

    /// Takes the next `n` bytes from the underlying source and keeps them in
    /// the replay buffer: the stream that ordinary reads see is unchanged.
    /// Fails, changing nothing, where the source holds fewer than `n` bytes.
    pub fn peek_exact(&mut self, n: usize) -> (res: Result<Vec<u8>, WireError>)
        requires
            old(self).wf(),
        ensures
            final(self).wf(),
            final(self).stream() == old(self).stream(),
            n <= old(self).source().len() ==> {
                &&& res is Ok
                &&& res->Ok_0@ == old(self).source().take(n as int)
                &&& final(self).peeked() == old(self).peeked() + res->Ok_0@
                &&& final(self).source() == old(self).source().skip(n as int)
            },
            n > old(self).source().len() ==> {
                &&& res == Err::<Vec<u8>, WireError>(WireError::UnexpectedEof)
                &&& final(self).peeked() == old(self).peeked()
                &&& final(self).source() == old(self).source()
            },
    {
        if n > self.input.len() - self.pos {
            return Err(WireError::UnexpectedEof);
        }
        let mut buf: Vec<u8> = Vec::new();
        append_range(&mut buf, self.input, self.pos, self.pos + n);
        append_range(&mut self.peeked, self.input, self.pos, self.pos + n);
        self.pos = self.pos + n;
        proof {
            assert(buf@ =~= old(self).source().take(n as int));
            assert(self.source() =~= old(self).source().skip(n as int));
            assert(self.stream() =~= old(self).stream());
        }
        Ok(buf)
    }

    /// Commits everything peeked: those bytes are consumed for good.
    pub fn flush_peeked(&mut self)
        requires
            old(self).wf(),
        ensures
            final(self).wf(),
            final(self).peeked() == Seq::<u8>::empty(),
            final(self).source() == old(self).source(),
    {
        self.peeked = Vec::new();
        assert(self.peeked() =~= Seq::<u8>::empty());
    }

    /// Reads up to `max` bytes: first from the replay buffer, then from the
    /// underlying source. Returns fewer only where the stream ends.
    pub fn read(&mut self, max: usize) -> (r: Vec<u8>)
        requires
            old(self).wf(),
        ensures
            final(self).wf(),
            r@.len() == if max <= old(self).stream().len() { max as nat } else { old(self).stream().len() },
            r@ == old(self).stream().take(r@.len() as int),
            final(self).stream() == old(self).stream().skip(r@.len() as int),
            r@.len() <= old(self).peeked().len() ==> {
                &&& final(self).peeked() == old(self).peeked().skip(r@.len() as int)
                &&& final(self).source() == old(self).source()
            },
            r@.len() > old(self).peeked().len() ==> {
                &&& final(self).peeked() == Seq::<u8>::empty()
                &&& final(self).source() == old(self).source().skip(
                    r@.len() - old(self).peeked().len(),
                )
            },
    {
        let total = self.remaining();
        let k = if max <= total { max } else { total };
        let p = self.peeked.len();
        let mut out: Vec<u8> = Vec::new();
        if k <= p {
            append_range(&mut out, self.peeked.as_slice(), 0, k);
            let mut rest: Vec<u8> = Vec::new();
            append_range(&mut rest, self.peeked.as_slice(), k, p);
            self.peeked = rest;
            proof {
                assert(out@ =~= old(self).stream().take(k as int));
                assert(self.stream() =~= old(self).stream().skip(k as int));
                assert(self.peeked() =~= old(self).peeked().skip(k as int));
            }
        } else {
            let len = self.input.len();
            let end = self.pos + (k - p);
            append_range(&mut out, self.peeked.as_slice(), 0, p);
            append_range(&mut out, self.input, self.pos, end);
            self.peeked = Vec::new();
            self.pos = end;
            proof {
                assert(out@ =~= old(self).stream().take(k as int));
                assert(self.stream() =~= old(self).stream().skip(k as int));
                assert(self.peeked() =~= Seq::<u8>::empty());
                assert(self.source() =~= old(self).source().skip(k - p));
            }
        }
        out
    }

    /// Reads exactly `n` bytes, or fails with `UnexpectedEof`, changing
    /// nothing, where the stream holds fewer.
    pub fn read_exact(&mut self, n: usize) -> (res: Result<Vec<u8>, WireError>)
        requires
            old(self).wf(),
        ensures
            final(self).wf(),
            n <= old(self).stream().len() ==> {
                &&& res is Ok
                &&& res->Ok_0@ == old(self).stream().take(n as int)
                &&& final(self).stream() == old(self).stream().skip(n as int)
            },
            n > old(self).stream().len() ==> {
                &&& res == Err::<Vec<u8>, WireError>(WireError::UnexpectedEof)
                &&& final(self).stream() == old(self).stream()
            },
    {
        if n > self.remaining() {
            return Err(WireError::UnexpectedEof);
        }
        Ok(self.read(n))
    }

    /// Makes sure that the replay buffer holds at least the first `n` bytes of
    /// the stream, peeking more where needed. Fails with `UnexpectedEof`
    /// where the stream holds fewer than `n` bytes.
    pub fn fill_peeked(&mut self, n: usize) -> (res: Result<(), WireError>)
        requires
            old(self).wf(),
        ensures
            final(self).wf(),
            final(self).stream() == old(self).stream(),
            old(self).peeked().len() <= final(self).peeked().len(),
            final(self).peeked() == old(self).stream().take(final(self).peeked().len() as int),
            n <= old(self).stream().len() ==> {
                &&& res is Ok
                &&& final(self).peeked().len() == if old(self).peeked().len() >= n {
                    old(self).peeked().len()
                } else {
                    n as nat
                }
            },
            n > old(self).stream().len() ==> res == Err::<(), WireError>(WireError::UnexpectedEof),
    {
        let p = self.peeked.len();
        proof {
            assert(self.peeked() =~= self.stream().take(p as int));
        }
        if p >= n {
            return Ok(());
        }
        match self.peek_exact(n - p) {
            Ok(_) => {
                proof {
                    assert(self.peeked() =~= old(self).stream().take(self.peeked().len() as int));
                }
                Ok(())
            },
            Err(e) => Err(e),
        }
    }

    /// The byte at `i` of the replay buffer.
    pub fn peeked_byte(&self, i: usize) -> (b: u8)
        requires
            i < self.peeked().len(),
        ensures
            b == self.peeked()[i as int],
    {
        self.peeked[i]
    }

    /// The bytes `from..to` of the replay buffer.
    pub fn peeked_range(&self, from: usize, to: usize) -> (r: Vec<u8>)
        requires
            from <= to <= self.peeked().len(),
        ensures
            r@ == self.peeked().subrange(from as int, to as int),
    {
        let mut r: Vec<u8> = Vec::new();
        append_range(&mut r, self.peeked.as_slice(), from, to);
        assert(r@ =~= self.peeked().subrange(from as int, to as int));
        r
    }
}

} // verus!
