//! Body buffers and the chunked view of a buffered body.
//!
//! A body is a `bytes::Bytes` buffer. `ChunkedBytesStream` yields it in
//! fixed-size chunks; each chunk is a `Bytes::slice` of the source buffer,
//! so no chunk copies the data.

use vstd::prelude::*;
use bytes::Bytes;

verus! {

/// Default chunk size for breaking buffered bodies into chunks (64 KB).
pub const DEFAULT_CHUNK_SIZE: usize = 65536;

#[verifier::external_type_specification]
#[verifier::external_body]
pub struct ExBytes(Bytes);

/// The bytes a `Bytes` buffer holds.
pub uninterp spec fn bytes_content(b: Bytes) -> Seq<u8>;

/// A buffer holding the bytes of `v`.
///
/// Trusted: calls `Bytes::from::<Vec<u8>>`, which takes over the vector's
/// bytes unchanged.
#[verifier::external_body]
pub(crate) fn bytes_from_vec(v: Vec<u8>) -> (res: Bytes)
    ensures
        bytes_content(res) == v@,
{
    Bytes::from(v)
}

/// An empty buffer.
///
/// Trusted: calls `Bytes::new`, documented to create an empty buffer.
#[verifier::external_body]
pub(crate) fn bytes_empty() -> (res: Bytes)
    ensures
        bytes_content(res) == Seq::<u8>::empty(),
{
    Bytes::new()
}

/// Length of a buffer.
///
/// Trusted: calls `Bytes::len`, the number of bytes held.
#[verifier::external_body]
pub(crate) fn bytes_len(b: &Bytes) -> (res: usize)
    ensures
        res == bytes_content(*b).len(),
{
    b.len()
}

/// The sub-buffer `b[from..to]`, sharing `b`'s memory.
///
/// Trusted: calls `Bytes::slice`, which returns the bytes in the range and
/// panics unless `from <= to <= len`; `requires` rules that out.
#[verifier::external_body]
pub(crate) fn bytes_slice(b: &Bytes, from: usize, to: usize) -> (res: Bytes)
    requires
        from <= to <= bytes_content(*b).len(),
    ensures
        bytes_content(res) == bytes_content(*b).subrange(from as int, to as int),
{
    b.slice(from..to)
}

/// Another handle on the same buffer.
///
/// Trusted: calls `Bytes::clone`, which shares the bytes unchanged.
#[verifier::external_body]
pub(crate) fn bytes_clone(b: &Bytes) -> (res: Bytes)
    ensures
        bytes_content(res) == bytes_content(*b),
{
    b.clone()
}

/// The chunks that a body of bytes `s` is cut into with chunk size `k`:
/// consecutive pieces of `k` bytes, the last one possibly shorter.
pub open spec fn chunks_of(s: Seq<u8>, k: nat) -> Seq<Seq<u8>>
    decreases s.len(),
{
    if s.len() == 0 || k == 0 {
        Seq::empty()
    } else if s.len() <= k {
        seq![s]
    } else {
        seq![s.take(k as int)] + chunks_of(s.skip(k as int), k)
    }
}

/// Cutting a body into chunks loses and adds nothing: the chunks, joined,
/// are the body; each chunk is non-empty and at most `k` bytes long, every
/// chunk but the last exactly `k`; and there are `ceil(len / k)` of them.
pub proof fn law_chunks_reassemble(s: Seq<u8>, k: nat)
    requires
        k > 0,
    ensures
        chunks_of(s, k).flatten() == s,
        chunks_of(s, k).len() == (s.len() + k - 1) / (k as int),
        forall|i: int|
            0 <= i < chunks_of(s, k).len() ==> 0 < (#[trigger] chunks_of(s, k)[i]).len() <= k,
        forall|i: int|
            0 <= i < chunks_of(s, k).len() - 1 ==> (#[trigger] chunks_of(s, k)[i]).len() == k,
    decreases s.len(),
{
    let c = chunks_of(s, k);
    if s.len() == 0 {
        assert(c.flatten() =~= s);
        assert((s.len() + k - 1) / (k as int) == 0) by (nonlinear_arith)
            requires
                s.len() == 0,
                k > 0,
        ;
    } else if s.len() <= k {
        assert(c == seq![s]);
        assert(c.drop_first() =~= Seq::<Seq<u8>>::empty());
        assert(c.drop_first().flatten() == Seq::<u8>::empty());
        assert(c.flatten() =~= s);
        assert((s.len() + k - 1) / (k as int) == 1) by (nonlinear_arith)
            requires
                0 < s.len() <= k,
        ;
    } else {
        let rest = s.skip(k as int);
        law_chunks_reassemble(rest, k);
        let cr = chunks_of(rest, k);
        assert(c == seq![s.take(k as int)] + cr);
        assert(c.first() == s.take(k as int));
        assert(c.drop_first() =~= cr);
        assert(s.take(k as int) + rest =~= s);
        assert((s.len() + k - 1) / (k as int) == (rest.len() + k - 1) / (k as int) + 1) by (
        nonlinear_arith)
            requires
                rest.len() == s.len() - k,
                s.len() > k,
                k > 0,
        ;
        assert forall|i: int| 0 <= i < c.len() implies 0 < (#[trigger] c[i]).len() <= k by {
            if i > 0 {
                assert(c[i] == cr[i - 1]);
            }
        }
        assert forall|i: int| 0 <= i < c.len() - 1 implies (#[trigger] c[i]).len() == k by {
            if i > 0 {
                assert(c[i] == cr[i - 1]);
            }
        }
    }
}

/// Yields a buffer in fixed-size chunks without copying.
pub struct ChunkedBytesStream {
    buf: Bytes,
    chunk_size: usize,
    offset: usize,
}

impl ChunkedBytesStream {
    #[verifier::type_invariant]
    closed spec fn inv(self) -> bool {
        &&& self.chunk_size > 0
        &&& self.offset <= bytes_content(self.buf).len()
    }

    /// The bytes not yet yielded.
    pub closed spec fn remaining(&self) -> Seq<u8> {
        bytes_content(self.buf).subrange(self.offset as int, bytes_content(self.buf).len() as int)
    }

    /// The chunk size.
    pub closed spec fn chunk_len(&self) -> nat {
        self.chunk_size as nat
    }

    /// A stream over all of `buf` with the given chunk size.
    pub fn new(buf: Bytes, chunk_size: usize) -> (res: Self)
        requires
            chunk_size > 0,
        ensures
            res.remaining() == bytes_content(buf),
            res.chunk_len() == chunk_size,
    {
        let res = ChunkedBytesStream { buf, chunk_size, offset: 0 };
        proof {
            assert(res.remaining() =~= bytes_content(buf));
        }
        res
    }

    /// The next chunk: the first `min(chunk size, remaining)` bytes of what
    /// is left, or `None` when nothing is left.
    pub fn next_chunk(&mut self) -> (res: Option<Bytes>)
        ensures
            final(self).chunk_len() == old(self).chunk_len(),
            old(self).remaining().len() == 0 ==> res is None && final(self).remaining() == old(
                self,
            ).remaining(),
            old(self).remaining().len() > 0 ==> (res matches Some(c) && ({
                let n = if old(self).remaining().len() < old(self).chunk_len() {
                    old(self).remaining().len()
                } else {
                    old(self).chunk_len()
                };
                &&& bytes_content(c) == old(self).remaining().take(n as int)
                &&& final(self).remaining() == old(self).remaining().skip(n as int)
            })),
    {
        proof {
            use_type_invariant(&*self);
        }
        let len = bytes_len(&self.buf);
        if self.offset >= len {
            return None;
        }
        let end = if len - self.offset < self.chunk_size {
            len
        } else {
            self.offset + self.chunk_size
        };
        let chunk = bytes_slice(&self.buf, self.offset, end);
        let ghost before = self.remaining();
        self.offset = end;
        proof {
            let n = (end - old(self).offset) as int;
            assert(bytes_content(chunk) =~= before.take(n));
            assert(self.remaining() =~= before.skip(n));
        }
        Some(chunk)
    }

    /// All remaining chunks, in order; afterwards nothing is left.
    pub fn collect_chunks(&mut self) -> (res: Vec<Bytes>)
        ensures
            res@.map_values(|b: Bytes| bytes_content(b)) == chunks_of(
                old(self).remaining(),
                old(self).chunk_len(),
            ),
            final(self).remaining().len() == 0,
    {
        proof {
            use_type_invariant(&*self);
        }
        let mut out: Vec<Bytes> = Vec::new();
        let ghost k = self.chunk_len();
        loop
            invariant_except_break
                k == self.chunk_len(),
                k > 0,
                out@.map_values(|b: Bytes| bytes_content(b)) + chunks_of(self.remaining(), k)
                    == chunks_of(old(self).remaining(), k),
            ensures
                out@.map_values(|b: Bytes| bytes_content(b)) == chunks_of(old(self).remaining(), k),
                self.remaining().len() == 0,
            decreases self.remaining().len(),
        {
            proof {
                use_type_invariant(&*self);
            }
            let ghost r = self.remaining();
            match self.next_chunk() {
                None => {
                    proof {
                        assert(chunks_of(r, k) =~= Seq::<Seq<u8>>::empty());
                        assert(out@.map_values(|b: Bytes| bytes_content(b)) + chunks_of(r, k)
                            =~= out@.map_values(|b: Bytes| bytes_content(b)));
                    }
                    break;
                },
                Some(c) => {
                    let ghost prev = out@.map_values(|b: Bytes| bytes_content(b));
                    out.push(c);
                    proof {
                        let n = if r.len() < k { r.len() } else { k };
                        if r.len() <= k {
                            assert(r.take(n as int) =~= r);
                            assert(r.skip(n as int) =~= Seq::<u8>::empty());
                            assert(chunks_of(r, k) == seq![r]);
                        } else {
                            assert(chunks_of(r, k) == seq![r.take(k as int)] + chunks_of(r.skip(k as int), k));
                        }
                        assert(out@.map_values(|b: Bytes| bytes_content(b)) =~= prev.push(
                            bytes_content(c),
                        ));
                        assert(prev + chunks_of(r, k) =~= prev.push(bytes_content(c)) + chunks_of(
                            self.remaining(),
                            k,
                        ));
                    }
                },
            }
        }
        out
    }
}

} // verus!
