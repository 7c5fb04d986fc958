//! Primitive codec: a cursor over an in-memory byte buffer with fixed-width
//! big-endian integer reads, raw byte-block reads, and the fixed-charset
//! short-string decode used for name tags.

use vstd::prelude::*;

use crate::Error;

verus! {

/// The big-endian 16-bit value stored at offset `i` of `s`.
pub open spec fn be_u16(s: Seq<u8>, i: int) -> int {
    s[i] * 0x100 + s[i + 1]
}

/// The big-endian 32-bit value stored at offset `i` of `s`.
pub open spec fn be_u32(s: Seq<u8>, i: int) -> int {
    s[i] * 0x100_0000 + s[i + 1] * 0x1_0000 + s[i + 2] * 0x100 + s[i + 3]
}

/// The big-endian 64-bit value stored at offset `i` of `s`.
pub open spec fn be_u64(s: Seq<u8>, i: int) -> int {
    be_u32(s, i) * 0x1_0000_0000 + be_u32(s, i + 4)
}

/// The big-endian 32-bit two's-complement value stored at offset `i` of `s`.
pub open spec fn be_i32(s: Seq<u8>, i: int) -> int {
    if be_u32(s, i) >= 0x8000_0000 {
        be_u32(s, i) - 0x1_0000_0000
    } else {
        be_u32(s, i)
    }
}

/// The byte `b` reinterpreted as an 8-bit two's-complement value.
pub open spec fn as_i8(b: u8) -> int {
    if b >= 0x80 {
        b - 0x100
    } else {
        b as int
    }
}

/// A read cursor over a byte buffer. Reads never run past the end: a read
/// that does not fit leaves the position unchanged and fails with
/// `TruncatedInput`.
pub struct Reader<'a> {
    buf: &'a [u8],
    pos: usize,
}

impl<'a> Reader<'a> {
    /// The whole underlying buffer.
    pub closed spec fn data(&self) -> Seq<u8> {
        self.buf@
    }

    /// The current read position.
    pub closed spec fn pos(&self) -> int {
        self.pos as int
    }

    pub open spec fn wf(&self) -> bool {
        0 <= self.pos() <= self.data().len()
    }

    /// How many bytes are left to read.
    pub open spec fn remaining(&self) -> int {
        self.data().len() - self.pos()
    }

    pub fn new(buf: &'a [u8]) -> (r: Reader<'a>)
        ensures
            r.wf(),
            r.data() == buf@,
            r.pos() == 0,
    {
        Reader { buf, pos: 0 }
    }

    /// The current read position as a byte count.
    pub fn position(&self) -> (n: usize)
        ensures
            n == self.pos(),
    {
        self.pos
    }

    pub fn is_empty(&self) -> (b: bool)
        requires
            self.wf(),
        ensures
            b <==> self.remaining() == 0,
    {
        self.pos == self.buf.len()
    }

    pub fn read_u8(&mut self) -> (r: Result<u8, Error>)
        requires
            old(self).wf(),
        ensures
            final(self).wf(),
            final(self).data() == old(self).data(),
            (match r {
                Ok(b) => old(self).remaining() >= 1 && b == old(self).data()[old(self).pos()]
                    && final(self).pos() == old(self).pos() + 1,
                Err(e) => old(self).remaining() < 1 && e == Error::TruncatedInput
                    && final(self).pos() == old(self).pos(),
            }),
    {
        if self.pos < self.buf.len() {
            let b = self.buf[self.pos];
            self.pos = self.pos + 1;
            Ok(b)
        } else {
            Err(Error::TruncatedInput)
        }
    }

    pub fn read_u16(&mut self) -> (r: Result<u16, Error>)
        requires
            old(self).wf(),
        ensures
            final(self).wf(),
            final(self).data() == old(self).data(),
            (match r {
                Ok(v) => old(self).remaining() >= 2 && v == be_u16(old(self).data(), old(self).pos())
                    && final(self).pos() == old(self).pos() + 2,
                Err(e) => old(self).remaining() < 2 && e == Error::TruncatedInput
                    && final(self).pos() == old(self).pos(),
            }),
    {
        if self.buf.len() - self.pos >= 2 {
            let b0 = self.buf[self.pos];
            let b1 = self.buf[self.pos + 1];
            self.pos = self.pos + 2;
            Ok((b0 as u16) * 0x100 + (b1 as u16))
        } else {
            Err(Error::TruncatedInput)
        }
    }

    pub fn read_u32(&mut self) -> (r: Result<u32, Error>)
        requires
            old(self).wf(),
        ensures
            final(self).wf(),
            final(self).data() == old(self).data(),
            (match r {
                Ok(v) => old(self).remaining() >= 4 && v == be_u32(old(self).data(), old(self).pos())
                    && final(self).pos() == old(self).pos() + 4,
                Err(e) => old(self).remaining() < 4 && e == Error::TruncatedInput
                    && final(self).pos() == old(self).pos(),
            }),
    {
        if self.buf.len() - self.pos >= 4 {
            let b0 = self.buf[self.pos];
            let b1 = self.buf[self.pos + 1];
            let b2 = self.buf[self.pos + 2];
            let b3 = self.buf[self.pos + 3];
            self.pos = self.pos + 4;
            Ok((b0 as u32) * 0x100_0000 + (b1 as u32) * 0x1_0000 + (b2 as u32) * 0x100 + (b3 as u32))
        } else {
            Err(Error::TruncatedInput)
        }
    }

    pub fn read_u64(&mut self) -> (r: Result<u64, Error>)
        requires
            old(self).wf(),
        ensures
            final(self).wf(),
            final(self).data() == old(self).data(),
            (match r {
                Ok(v) => old(self).remaining() >= 8 && v == be_u64(old(self).data(), old(self).pos())
                    && final(self).pos() == old(self).pos() + 8,
                Err(e) => old(self).remaining() < 8 && e == Error::TruncatedInput
                    && final(self).pos() == old(self).pos(),
            }),
    {
        if self.buf.len() - self.pos >= 8 {
            let hi = match self.read_u32() {
                Ok(v) => v,
                Err(_) => 0,
            };
            let lo = match self.read_u32() {
                Ok(v) => v,
                Err(_) => 0,
            };
            Ok((hi as u64) * 0x1_0000_0000 + (lo as u64))
        } else {
            Err(Error::TruncatedInput)
        }
    }

    pub fn read_i8(&mut self) -> (r: Result<i8, Error>)
        requires
            old(self).wf(),
        ensures
            final(self).wf(),
            final(self).data() == old(self).data(),
            (match r {
                Ok(v) => old(self).remaining() >= 1
                    && v == as_i8(old(self).data()[old(self).pos()])
                    && final(self).pos() == old(self).pos() + 1,
                Err(e) => old(self).remaining() < 1 && e == Error::TruncatedInput
                    && final(self).pos() == old(self).pos(),
            }),
    {
        let b = self.read_u8()?;
        if b >= 0x80 {
            Ok(-((0xff - b) as i8) - 1)
        } else {
            Ok(b as i8)
        }
    }

    pub fn read_i32(&mut self) -> (r: Result<i32, Error>)
        requires
            old(self).wf(),
        ensures
            final(self).wf(),
            final(self).data() == old(self).data(),
            (match r {
                Ok(v) => old(self).remaining() >= 4 && v == be_i32(old(self).data(), old(self).pos())
                    && final(self).pos() == old(self).pos() + 4,
                Err(e) => old(self).remaining() < 4 && e == Error::TruncatedInput
                    && final(self).pos() == old(self).pos(),
            }),
    {
        let u = self.read_u32()?;
        if u >= 0x8000_0000 {
            Ok(-((u32::MAX - u) as i32) - 1)
        } else {
            Ok(u as i32)
        }
    }

    /// Reads exactly `n` bytes into a fresh buffer.
    pub fn read_bytes(&mut self, n: usize) -> (r: Result<Vec<u8>, Error>)
        requires
            old(self).wf(),
        ensures
            final(self).wf(),
            final(self).data() == old(self).data(),
            (match r {
                Ok(v) => old(self).remaining() >= n
                    && v@ == old(self).data().subrange(old(self).pos(), old(self).pos() + n)
                    && final(self).pos() == old(self).pos() + n,
                Err(e) => old(self).remaining() < n && e == Error::TruncatedInput
                    && final(self).pos() == old(self).pos(),
            }),
    {
        if self.buf.len() - self.pos < n {
            return Err(Error::TruncatedInput);
        }
        let mut v: Vec<u8> = Vec::new();
        let mut i: usize = 0;
        while i < n
            invariant
                self.wf(),
                self.data().len() <= usize::MAX,
                self.pos() + n <= self.data().len(),
                i <= n,
                v@ == self.data().subrange(self.pos(), self.pos() + i),
            decreases n - i,
        {
            v.push(self.buf[self.pos + i]);
            i = i + 1;
            proof {
                assert(v@ =~= self.data().subrange(self.pos(), self.pos() + i));
            }
        }
        self.pos = self.pos + n;
        Ok(v)
    }

    /// Advances past `n` bytes without inspecting them.
    pub fn skip(&mut self, n: usize) -> (r: Result<(), Error>)
        requires
            old(self).wf(),
        ensures
            final(self).wf(),
            final(self).data() == old(self).data(),
            (match r {
                Ok(()) => old(self).remaining() >= n && final(self).pos() == old(self).pos() + n,
                Err(e) => old(self).remaining() < n && e == Error::TruncatedInput
                    && final(self).pos() == old(self).pos(),
            }),
    {
        if self.buf.len() - self.pos < n {
            Err(Error::TruncatedInput)
        } else {
            self.pos = self.pos + n;
            Ok(())
        }
    }
}

/// Reads the big-endian 32-bit value at offset `i` of `v`.
pub fn be_u32_at(v: &[u8], i: usize) -> (r: u32)
    requires
        i + 4 <= v@.len(),
    ensures
        r == be_u32(v@, i as int),
{
    (v[i] as u32) * 0x100_0000 + (v[i + 1] as u32) * 0x1_0000 + (v[i + 2] as u32) * 0x100 + (v[i
        + 3] as u32)
}

/// Index of the first zero byte of `s`, or `s.len()` if none occurs.
pub open spec fn first_null(s: Seq<u8>) -> int
    decreases s.len(),
{
    if s.len() == 0 {
        0
    } else if s[0] == 0 {
        0
    } else {
        1 + first_null(s.skip(1))
    }
}

proof fn lemma_first_null_is(s: Seq<u8>, i: int)
    requires
        0 <= i <= s.len(),
        forall|j: int| 0 <= j < i ==> s[j] != 0,
        i == s.len() || s[i] == 0,
    ensures
        first_null(s) == i,
    decreases s.len(),
{
    if s.len() == 0 {
    } else if s[0] == 0 {
        assert(i == 0);
    } else {
        assert(i >= 1);
        let t = s.skip(1);
        assert(forall|j: int| 0 <= j < i - 1 ==> t[j] == s[j + 1] && s[j + 1] != 0);
        assert(i - 1 == t.len() || t[i - 1] == s[i]);
        lemma_first_null_is(t, i - 1);
    }
}

/// What the fixed-charset text decoder yields for a byte block: the decoded
/// text is a function of the bytes alone.
pub uninterp spec fn shift_jis_of(bytes: Seq<u8>) -> Seq<char>;

/// Relies on `encoding_rs::SHIFT_JIS.decode_without_bom_handling`: the decoded
/// text depends on the input bytes alone; ASCII-only input decodes to itself;
/// empty input decodes to empty text. The length bound keeps the decoder's
/// internal buffer-size computation away from its documented overflow panic.
#[verifier::external_body]
fn decode_shift_jis(bytes: &[u8]) -> (r: String)
    requires
        bytes@.len() <= 0x1000,
    ensures
        r@ == shift_jis_of(bytes@),
        (forall|i: int| 0 <= i < bytes@.len() ==> bytes@[i] < 0x80) ==> (r@.len() == bytes@.len()
            && forall|i: int| 0 <= i < r@.len() ==> r@[i] as u32 == bytes@[i]),
        bytes@.len() == 0 ==> r@.len() == 0,
{
    let (text, _) = encoding_rs::SHIFT_JIS.decode_without_bom_handling(bytes);
    text.into_owned()
}

/// Decodes a fixed-width name-tag block: the text stops at the first zero
/// byte, and the bytes before it are decoded as charset text.
pub fn decode_name_tag(bytes: &[u8]) -> (r: String)
    requires
        bytes@.len() <= 0x1000,
    ensures
        r@ == shift_jis_of(bytes@.take(first_null(bytes@))),
{
    let mut k: usize = 0;
    while k < bytes.len() && bytes[k] != 0
        invariant
            0 <= k <= bytes@.len(),
            forall|j: int| 0 <= j < k ==> bytes@[j] != 0,
        decreases bytes@.len() - k,
    {
        k = k + 1;
    }
    proof {
        lemma_first_null_is(bytes@, k as int);
    }
    decode_shift_jis(&bytes[0..k])
}

} // verus!
