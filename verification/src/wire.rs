//! Little- and big-endian integer encodings and a byte cursor used by the
//! binary codecs.

use vstd::prelude::*;

verus! {

/// The two bytes of `v`, least significant first.
pub open spec fn le_u16_bytes(v: u16) -> Seq<u8> {
    seq![(v & 0xff) as u8, ((v >> 8u16) & 0xff) as u8]
}

/// The four bytes of `v`, least significant first.
pub open spec fn le_u32_bytes(v: u32) -> Seq<u8> {
    seq![
        (v & 0xff) as u8,
        ((v >> 8u32) & 0xff) as u8,
        ((v >> 16u32) & 0xff) as u8,
        ((v >> 24u32) & 0xff) as u8,
    ]
}

/// The four bytes of `v`, most significant first.
pub open spec fn be_u32_bytes(v: u32) -> Seq<u8> {
    seq![
        ((v >> 24u32) & 0xff) as u8,
        ((v >> 16u32) & 0xff) as u8,
        ((v >> 8u32) & 0xff) as u8,
        (v & 0xff) as u8,
    ]
}

/// The value of two bytes read least significant first.
pub open spec fn u16_from_le(b0: u8, b1: u8) -> u16 {
    ((b0 as u16) | ((b1 as u16) << 8u16)) as u16
}

/// The value of four bytes read least significant first.
pub open spec fn u32_from_le(b0: u8, b1: u8, b2: u8, b3: u8) -> u32 {
    ((b0 as u32) | ((b1 as u32) << 8u32) | ((b2 as u32) << 16u32) | ((b3 as u32) << 24u32)) as u32
}

/// The value of four bytes read most significant first.
pub open spec fn u32_from_be(b0: u8, b1: u8, b2: u8, b3: u8) -> u32 {
    u32_from_le(b3, b2, b1, b0)
}

/// Reading back the two little-endian bytes of `v` gives `v`.
pub proof fn lemma_le_u16_roundtrip(v: u16)
    ensures
        u16_from_le(le_u16_bytes(v)[0], le_u16_bytes(v)[1]) == v,
{
    let b0 = (v & 0xff) as u8;
    let b1 = ((v >> 8u16) & 0xff) as u8;
    assert(((b0 as u16) | ((b1 as u16) << 8u16)) == v) by (bit_vector)
        requires
            b0 == (v & 0xff) as u8,
            b1 == ((v >> 8u16) & 0xff) as u8,
    ;
}

/// Reading back the four little-endian bytes of `v` gives `v`.
pub proof fn lemma_le_u32_roundtrip(v: u32)
    ensures
        u32_from_le(le_u32_bytes(v)[0], le_u32_bytes(v)[1], le_u32_bytes(v)[2], le_u32_bytes(v)[3])
            == v,
{
    let b0 = (v & 0xff) as u8;
    let b1 = ((v >> 8u32) & 0xff) as u8;
    let b2 = ((v >> 16u32) & 0xff) as u8;
    let b3 = ((v >> 24u32) & 0xff) as u8;
    assert(((b0 as u32) | ((b1 as u32) << 8u32) | ((b2 as u32) << 16u32) | ((b3 as u32) << 24u32))
        == v) by (bit_vector)
        requires
            b0 == (v & 0xff) as u8,
            b1 == ((v >> 8u32) & 0xff) as u8,
            b2 == ((v >> 16u32) & 0xff) as u8,
            b3 == ((v >> 24u32) & 0xff) as u8,
    ;
}

/// Reading back the four big-endian bytes of `v` gives `v`.
pub proof fn lemma_be_u32_roundtrip(v: u32)
    ensures
        u32_from_be(be_u32_bytes(v)[0], be_u32_bytes(v)[1], be_u32_bytes(v)[2], be_u32_bytes(v)[3])
            == v,
{
    lemma_le_u32_roundtrip(v);
}

/// Appends the little-endian bytes of `v`.
pub fn push_u16_le(buf: &mut Vec<u8>, v: u16)
    ensures
        final(buf)@ == old(buf)@ + le_u16_bytes(v),
{
    buf.push((v & 0xff) as u8);
    buf.push(((v >> 8u16) & 0xff) as u8);
    assert(final(buf)@ =~= old(buf)@ + le_u16_bytes(v));
}

/// Appends the little-endian bytes of `v`.
pub fn push_u32_le(buf: &mut Vec<u8>, v: u32)
    ensures
        final(buf)@ == old(buf)@ + le_u32_bytes(v),
{
    buf.push((v & 0xff) as u8);
    buf.push(((v >> 8u32) & 0xff) as u8);
    buf.push(((v >> 16u32) & 0xff) as u8);
    buf.push(((v >> 24u32) & 0xff) as u8);
    assert(final(buf)@ =~= old(buf)@ + le_u32_bytes(v));
}

/// Appends the big-endian bytes of `v`.
pub fn push_u32_be(buf: &mut Vec<u8>, v: u32)
    ensures
        final(buf)@ == old(buf)@ + be_u32_bytes(v),
{
    buf.push(((v >> 24u32) & 0xff) as u8);
    buf.push(((v >> 16u32) & 0xff) as u8);
    buf.push(((v >> 8u32) & 0xff) as u8);
    buf.push((v & 0xff) as u8);
    assert(final(buf)@ =~= old(buf)@ + be_u32_bytes(v));
}

/// Appends every byte of `data`.
/// A fresh vector holding the bytes of `data`.
pub fn bytes_to_vec(data: &[u8]) -> (v: Vec<u8>)
    ensures
        v@ == data@,
{
    let mut v: Vec<u8> = Vec::new();
    push_bytes(&mut v, data);
    assert(v@ =~= data@);
    v
}

pub fn push_bytes(buf: &mut Vec<u8>, data: &[u8])
    ensures
        final(buf)@ == old(buf)@ + data@,
{
    let mut i: usize = 0;
    while i < data.len()
        invariant
            i <= data@.len(),
            buf@ == old(buf)@ + data@.take(i as int),
        decreases data@.len() - i,
    {
        buf.push(data[i]);
        i = i + 1;
        assert(buf@ =~= old(buf)@ + data@.take(i as int));
    }
    assert(data@.take(i as int) =~= data@);
}

} // verus!

verus! {

/// The first byte of `d` and what follows it, if `d` is not empty.
pub open spec fn take_u8(d: Seq<u8>) -> Option<(u8, Seq<u8>)> {
    if d.len() >= 1 {
        Some((d[0], d.skip(1)))
    } else {
        None
    }
}

/// The little-endian `u16` at the front of `d` and what follows it.
pub open spec fn take_u16(d: Seq<u8>) -> Option<(u16, Seq<u8>)> {
    if d.len() >= 2 {
        Some((u16_from_le(d[0], d[1]), d.skip(2)))
    } else {
        None
    }
}

/// The little-endian `u32` at the front of `d` and what follows it.
pub open spec fn take_u32(d: Seq<u8>) -> Option<(u32, Seq<u8>)> {
    if d.len() >= 4 {
        Some((u32_from_le(d[0], d[1], d[2], d[3]), d.skip(4)))
    } else {
        None
    }
}

/// A read position over a byte slice.
pub struct ByteCursor<'a> {
    data: &'a [u8],
    pos: usize,
}

impl<'a> ByteCursor<'a> {
    /// The bytes not read yet.
    pub closed spec fn remaining(&self) -> Seq<u8> {
        self.data@.skip(self.pos as int)
    }

    pub closed spec fn wf(&self) -> bool {
        self.pos <= self.data@.len()
    }

    /// A cursor at the start of `data`.
    pub fn new(data: &'a [u8]) -> (c: Self)
        ensures
            c.wf(),
            c.remaining() == data@,
    {
        let c = ByteCursor { data, pos: 0 };
        assert(data@.skip(0) =~= data@);
        c
    }

    /// Number of bytes not read yet.
    pub fn remaining_len(&self) -> (n: usize)
        requires
            self.wf(),
        ensures
            n == self.remaining().len(),
    {
        self.data.len() - self.pos
    }

    /// Reads one byte; `None`, and no move, at the end of the data.
    pub fn next_u8(&mut self) -> (r: Option<u8>)
        requires
            old(self).wf(),
        ensures
            final(self).wf(),
            match take_u8(old(self).remaining()) {
                Some((v, rest)) => r == Some(v) && final(self).remaining() == rest,
                None => r is None && final(self).remaining() == old(self).remaining(),
            },
    {
        if self.pos < self.data.len() {
            let v = self.data[self.pos];
            proof {
                assert(self.data@.skip(self.pos as int)[0] == v);
            }
            let ghost before = self.remaining();
            self.pos = self.pos + 1;
            assert(self.remaining() =~= before.skip(1));
            Some(v)
        } else {
            None
        }
    }

    /// Reads a little-endian `u16`; `None`, and no move, if fewer than two bytes are left.
    pub fn next_u16_le(&mut self) -> (r: Option<u16>)
        requires
            old(self).wf(),
        ensures
            final(self).wf(),
            match take_u16(old(self).remaining()) {
                Some((v, rest)) => r == Some(v) && final(self).remaining() == rest,
                None => r is None && final(self).remaining() == old(self).remaining(),
            },
    {
        if self.data.len() - self.pos >= 2 {
            let p = self.pos;
            let b0 = self.data[p];
            let b1 = self.data[p + 1];
            let ghost before = self.remaining();
            assert(before[0] == b0 && before[1] == b1);
            self.pos = p + 2;
            assert(self.remaining() =~= before.skip(2));
            Some(((b0 as u16) | ((b1 as u16) << 8u16)) as u16)
        } else {
            None
        }
    }

    /// Reads a little-endian `u32`; `None`, and no move, if fewer than four bytes are left.
    pub fn next_u32_le(&mut self) -> (r: Option<u32>)
        requires
            old(self).wf(),
        ensures
            final(self).wf(),
            match take_u32(old(self).remaining()) {
                Some((v, rest)) => r == Some(v) && final(self).remaining() == rest,
                None => r is None && final(self).remaining() == old(self).remaining(),
            },
    {
        if self.data.len() - self.pos >= 4 {
            let p = self.pos;
            let b0 = self.data[p];
            let b1 = self.data[p + 1];
            let b2 = self.data[p + 2];
            let b3 = self.data[p + 3];
            let ghost before = self.remaining();
            assert(before[0] == b0 && before[1] == b1 && before[2] == b2 && before[3] == b3);
            self.pos = p + 4;
            assert(self.remaining() =~= before.skip(4));
            Some(((b0 as u32) | ((b1 as u32) << 8u32) | ((b2 as u32) << 16u32) | ((b3 as u32) << 24u32)) as u32)
        } else {
            None
        }
    }

    /// Copies out the next `n` bytes; `None`, and no move, if fewer are left.
    pub fn next_bytes(&mut self, n: usize) -> (r: Option<Vec<u8>>)
        requires
            old(self).wf(),
        ensures
            final(self).wf(),
            if old(self).remaining().len() >= n {
                r matches Some(v) && v@ == old(self).remaining().take(n as int)
                    && final(self).remaining() == old(self).remaining().skip(n as int)
            } else {
                r is None && final(self).remaining() == old(self).remaining()
            },
    {
        if self.data.len() - self.pos >= n {
            let ghost before = self.remaining();
            let data = self.data;
            let p = self.pos;
            let mut out: Vec<u8> = Vec::with_capacity(n);
            let mut i: usize = 0;
            while i < n
                invariant
                    before == data@.skip(p as int),
                    p + n <= data.len(),
                    i <= n,
                    out@ == before.take(i as int),
                decreases n - i,
            {
                out.push(data[p + i]);
                i = i + 1;
                assert(out@ =~= before.take(i as int));
            }
            self.pos = self.pos + n;
            assert(self.remaining() =~= before.skip(n as int));
            Some(out)
        } else {
            None
        }
    }
}

} // verus!
