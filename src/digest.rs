use crate::error::YunPanError;
use vstd::prelude::*;
use vstd::slice::slice_subrange;

verus! {

/// Declares md5's streaming context so that it can be held in a field.
#[verifier::external_type_specification]
#[verifier::external_body]
pub struct ExMd5Context(md5::Context);

/// The bytes an md5 context has consumed since it was created.
pub uninterp spec fn md5_consumed(c: md5::Context) -> Seq<u8>;

/// Lower-case hex text of the md5 digest of `data`.
pub uninterp spec fn md5_hex_of(data: Seq<u8>) -> Seq<char>;

/// `c` is a lower-case hex digit.
pub open spec fn is_lower_hex(c: char) -> bool {
    ('0' <= c && c <= '9') || ('a' <= c && c <= 'f')
}

/// The shape of every md5 digest text: 32 lower-case hex digits.
pub open spec fn is_digest_text(t: Seq<char>) -> bool {
    t.len() == 32 && forall|i: int| 0 <= i < t.len() ==> is_lower_hex(#[trigger] t[i])
}

/// Relies on md5::Context::new: a fresh context has consumed nothing.
#[verifier::external_body]
fn context_new() -> (r: md5::Context)
    ensures
        md5_consumed(r) == Seq::<u8>::empty(),
{
    md5::Context::new()
}

/// Relies on md5::Context::consume: the bytes are appended to what the
/// context has consumed.
#[verifier::external_body]
fn context_consume(c: &mut md5::Context, data: &[u8])
    ensures
        md5_consumed(*final(c)) == md5_consumed(*old(c)) + data@,
{
    c.consume(data)
}

/// Relies on md5::Context::compute and the digest's `LowerHex` format: the
/// digest of everything consumed, as two lower-case hex digits (`{:02x}`)
/// for each of its 16 bytes.
#[verifier::external_body]
fn context_hex(c: md5::Context) -> (r: String)
    ensures
        r@ == md5_hex_of(md5_consumed(c)),
        is_digest_text(r@),
{
    format!("{:x}", c.compute())
}

/// Size of the read buffer of a range digest (1 MiB).
pub const DIGEST_BUFFER: u64 = 1048576;

/// Lower-case hex md5 digest of `data`.
pub fn md5_hex(data: &[u8]) -> (r: String)
    ensures
        r@ == md5_hex_of(data@),
        is_digest_text(r@),
{
    let mut c = context_new();
    context_consume(&mut c, data);
    proof {
        assert(Seq::<u8>::empty() + data@ =~= data@);
    }
    context_hex(c)
}

/// Digest of a `size`-byte range of a file, fed in chunks as they are read,
/// holding one context however large the range is.
pub struct RangeDigest {
    pub ctx: md5::Context,
    /// Slice whose range this is, named in errors.
    pub seq: u64,
    /// Bytes in the range.
    pub size: u64,
    /// Bytes still to be consumed.
    pub remaining: u64,
}

impl RangeDigest {
    /// What has been consumed so far.
    pub open spec fn consumed(&self) -> Seq<u8> {
        md5_consumed(self.ctx)
    }

    pub open spec fn wf(&self) -> bool {
        &&& self.remaining <= self.size
        &&& self.consumed().len() == self.size - self.remaining
    }

    /// A digest of `size` bytes, nothing consumed yet.
    pub fn new(seq: u64, size: u64) -> (r: RangeDigest)
        ensures
            r.wf(),
            r.seq == seq,
            r.size == size,
            r.remaining == size,
            r.consumed() == Seq::<u8>::empty(),
    {
        RangeDigest { ctx: context_new(), seq, size, remaining: size }
    }

    /// How many bytes the next read should ask for: what is left, at most
    /// one buffer.
    pub fn want(&self) -> (r: usize)
        ensures
            r as int == if self.remaining < DIGEST_BUFFER {
                self.remaining as int
            } else {
                DIGEST_BUFFER as int
            },
    {
        if self.remaining < DIGEST_BUFFER {
            self.remaining as usize
        } else {
            DIGEST_BUFFER as usize
        }
    }

    /// Feeds the bytes of one read. An empty read while bytes remain is end
    /// of file: the range cannot be completed. Bytes beyond the range are
    /// not consumed.
    pub fn feed(&mut self, chunk: &[u8]) -> (r: Result<(), YunPanError>)
        requires
            old(self).wf(),
        ensures
            final(self).wf(),
            final(self).seq == old(self).seq,
            final(self).size == old(self).size,
            chunk@.len() == 0 && old(self).remaining > 0 ==> r == Err::<(), YunPanError>(
                YunPanError::TruncatedRead {
                    seq: old(self).seq,
                    read: (old(self).size - old(self).remaining) as u64,
                    expected: old(self).size,
                },
            ) && final(self).consumed() == old(self).consumed() && final(self).remaining == old(
                self,
            ).remaining,
            !(chunk@.len() == 0 && old(self).remaining > 0) ==> {
                let n = if chunk@.len() < old(self).remaining {
                    chunk@.len() as int
                } else {
                    old(self).remaining as int
                };
                &&& r is Ok
                &&& final(self).consumed() == old(self).consumed() + chunk@.subrange(0, n)
                &&& final(self).remaining == old(self).remaining - n
            },
    {
        if chunk.len() == 0 && self.remaining > 0 {
            return Err(
                YunPanError::TruncatedRead {
                    seq: self.seq,
                    read: self.size - self.remaining,
                    expected: self.size,
                },
            );
        }
        let n: usize = if (chunk.len() as u64) < self.remaining {
            chunk.len()
        } else {
            self.remaining as usize
        };
        let part = slice_subrange(chunk, 0, n);
        context_consume(&mut self.ctx, part);
        self.remaining = self.remaining - n as u64;
        Ok(())
    }

    /// The digest, once the whole range has been consumed; a
    /// truncated-read error naming the slice otherwise.
    pub fn finish(self) -> (r: Result<String, YunPanError>)
        requires
            self.wf(),
        ensures
            self.remaining == 0 ==> r is Ok && r->Ok_0@ == md5_hex_of(self.consumed())
                && is_digest_text(r->Ok_0@),
            self.remaining > 0 ==> r == Err::<String, YunPanError>(
                YunPanError::TruncatedRead {
                    seq: self.seq,
                    read: (self.size - self.remaining) as u64,
                    expected: self.size,
                },
            ),
    {
        if self.remaining > 0 {
            return Err(
                YunPanError::TruncatedRead {
                    seq: self.seq,
                    read: self.size - self.remaining,
                    expected: self.size,
                },
            );
        }
        Ok(context_hex(self.ctx))
    }
}

} // verus!
