//! Fixed-width wire encoding primitives.
//!
//! Every record that can appear in a display-list buffer has a fixed encoded
//! size.  The `Wire` trait couples an encoding function with a decoding
//! function and a proof that the two invert each other; the counted-sequence
//! helpers build the `byte_size / element_count / elements` auxiliary payload
//! layout on top of it.

use vstd::prelude::*;

verus! {

/// A malformed-stream failure: the buffer is truncated, a discriminant is
/// invalid, or a declared length is inconsistent with the data that follows.
#[derive(Clone, Copy, Debug, PartialEq, Eq, Structural)]
pub struct DecodeError;

// ---------------------------------------------------------------------------
// Little-endian primitives
// ---------------------------------------------------------------------------

#[verifier::opaque]
pub open spec fn le32(x: u32) -> Seq<u8> {
    seq![
        (x & 0xff) as u8,
        ((x >> 8) & 0xff) as u8,
        ((x >> 16) & 0xff) as u8,
        ((x >> 24) & 0xff) as u8,
    ]
}

/// Reads a `u32` from the first four bytes of `b`.
#[verifier::opaque]
pub open spec fn de32(b: Seq<u8>) -> u32
    recommends
        b.len() >= 4,
{
    (b[0] as u32) | (b[1] as u32) << 8 | (b[2] as u32) << 16 | (b[3] as u32) << 24
}

pub proof fn lemma_le32_roundtrip(x: u32, rest: Seq<u8>)
    ensures
        de32(le32(x) + rest) == x,
{
    reveal(de32);
    reveal(le32);
    let b = le32(x) + rest;
    assert(b[0] == (x & 0xff) as u8);
    assert(b[1] == ((x >> 8) & 0xff) as u8);
    assert(b[2] == ((x >> 16) & 0xff) as u8);
    assert(b[3] == ((x >> 24) & 0xff) as u8);
    assert(((x & 0xff) as u8 as u32) | (((x >> 8) & 0xff) as u8 as u32) << 8 | (((x >> 16)
        & 0xff) as u8 as u32) << 16 | (((x >> 24) & 0xff) as u8 as u32) << 24 == x)
        by (bit_vector);
}

#[verifier::opaque]
pub open spec fn le64(x: u64) -> Seq<u8> {
    seq![
        (x & 0xff) as u8,
        ((x >> 8) & 0xff) as u8,
        ((x >> 16) & 0xff) as u8,
        ((x >> 24) & 0xff) as u8,
        ((x >> 32) & 0xff) as u8,
        ((x >> 40) & 0xff) as u8,
        ((x >> 48) & 0xff) as u8,
        ((x >> 56) & 0xff) as u8,
    ]
}

/// Reads a `u64` from the first eight bytes of `b`.
#[verifier::opaque]
pub open spec fn de64(b: Seq<u8>) -> u64
    recommends
        b.len() >= 8,
{
    (b[0] as u64) | (b[1] as u64) << 8 | (b[2] as u64) << 16 | (b[3] as u64) << 24 | (
    b[4] as u64) << 32 | (b[5] as u64) << 40 | (b[6] as u64) << 48 | (b[7] as u64) << 56
}

pub proof fn lemma_le64_roundtrip(x: u64, rest: Seq<u8>)
    ensures
        de64(le64(x) + rest) == x,
{
    reveal(de64);
    reveal(le64);
    let b = le64(x) + rest;
    assert(b[0] == (x & 0xff) as u8);
    assert(b[1] == ((x >> 8) & 0xff) as u8);
    assert(b[2] == ((x >> 16) & 0xff) as u8);
    assert(b[3] == ((x >> 24) & 0xff) as u8);
    assert(b[4] == ((x >> 32) & 0xff) as u8);
    assert(b[5] == ((x >> 40) & 0xff) as u8);
    assert(b[6] == ((x >> 48) & 0xff) as u8);
    assert(b[7] == ((x >> 56) & 0xff) as u8);
    assert(((x & 0xff) as u8 as u64) | (((x >> 8) & 0xff) as u8 as u64) << 8 | (((x >> 16)
        & 0xff) as u8 as u64) << 16 | (((x >> 24) & 0xff) as u8 as u64) << 24 | (((x >> 32)
        & 0xff) as u8 as u64) << 32 | (((x >> 40) & 0xff) as u8 as u64) << 40 | (((x >> 48)
        & 0xff) as u8 as u64) << 48 | (((x >> 56) & 0xff) as u8 as u64) << 56 == x)
        by (bit_vector);
}

/// Appends the little-endian bytes of `x` to `out`.
pub fn put_u64(out: &mut Vec<u8>, x: u64)
    ensures
        final(out)@ == old(out)@ + le64(x),
{
    proof {
        assert(x & 0xff < 256 && (x >> 8) & 0xff < 256 && (x >> 16) & 0xff < 256 && (x >> 24)
            & 0xff < 256 && (x >> 32) & 0xff < 256 && (x >> 40) & 0xff < 256 && (x >> 48) & 0xff
            < 256 && (x >> 56) & 0xff < 256) by (bit_vector);
    }
    out.push((x & 0xff) as u8);
    out.push(((x >> 8) & 0xff) as u8);
    out.push(((x >> 16) & 0xff) as u8);
    out.push(((x >> 24) & 0xff) as u8);
    out.push(((x >> 32) & 0xff) as u8);
    out.push(((x >> 40) & 0xff) as u8);
    out.push(((x >> 48) & 0xff) as u8);
    out.push(((x >> 56) & 0xff) as u8);
    proof {
        reveal(le64);
        assert(out@ =~= old(out)@ + le64(x));
    }
}

/// Reads a little-endian `u64` at `pos`.
pub fn get_u64(buf: &Vec<u8>, pos: usize) -> (x: u64)
    requires
        pos + 8 <= buf@.len(),
    ensures
        x == de64(buf@.skip(pos as int)),
{
    let buf_len = buf.len();
    assert(pos + 8 <= buf_len);
    let b0 = buf[pos] as u64;
    let b1 = buf[pos + 1] as u64;
    let b2 = buf[pos + 2] as u64;
    let b3 = buf[pos + 3] as u64;
    let b4 = buf[pos + 4] as u64;
    let b5 = buf[pos + 5] as u64;
    let b6 = buf[pos + 6] as u64;
    let b7 = buf[pos + 7] as u64;
    proof {
        reveal(de64);
    }
    b0 | b1 << 8 | b2 << 16 | b3 << 24 | b4 << 32 | b5 << 40 | b6 << 48 | b7 << 56
}

/// Overwrites the eight bytes at `off` with the little-endian bytes of `x`,
/// leaving the rest of the buffer unchanged.  This is the back-patch step of
/// the counted-sequence writer.
pub fn set_u64(out: &mut Vec<u8>, off: usize, x: u64)
    requires
        off + 8 <= old(out)@.len(),
    ensures
        final(out)@ =~= old(out)@.take(off as int) + le64(x) + old(out)@.skip(off as int + 8),
{
    proof {
        assert(x & 0xff < 256 && (x >> 8) & 0xff < 256 && (x >> 16) & 0xff < 256 && (x >> 24)
            & 0xff < 256 && (x >> 32) & 0xff < 256 && (x >> 40) & 0xff < 256 && (x >> 48) & 0xff
            < 256 && (x >> 56) & 0xff < 256) by (bit_vector);
    }
    let buf_len = out.len();
    assert(off + 8 <= buf_len);
    out.set(off, (x & 0xff) as u8);
    out.set(off + 1, ((x >> 8) & 0xff) as u8);
    out.set(off + 2, ((x >> 16) & 0xff) as u8);
    out.set(off + 3, ((x >> 24) & 0xff) as u8);
    out.set(off + 4, ((x >> 32) & 0xff) as u8);
    out.set(off + 5, ((x >> 40) & 0xff) as u8);
    out.set(off + 6, ((x >> 48) & 0xff) as u8);
    out.set(off + 7, ((x >> 56) & 0xff) as u8);
    proof {
        reveal(le64);
    }
}

/// The little-endian encoding of a `u64` takes eight bytes.
pub proof fn lemma_le64_len(x: u64)
    ensures
        le64(x).len() == 8,
{
    reveal(le64);
}

// ---------------------------------------------------------------------------
// The Wire trait: fixed-size records with inverse encode/decode
// ---------------------------------------------------------------------------

/// A value with a fixed-width, self-validating wire encoding.
///
/// `dec` reads a value back from the front of a byte sequence; it returns
/// `None` whenever fewer than `wlen()` bytes remain or a discriminant is
/// invalid.  `codec` proves that decoding inverts encoding under any suffix,
/// and `dec_short` that decoding fails on a short buffer, which together
/// drive the stream-level round-trip and truncation proofs.
pub trait Wire: Sized {
    /// The encoded width in bytes; the same for every value of the type.
    spec fn wlen() -> nat;

    /// The encoding of this value.
    spec fn enc(self) -> Seq<u8>;

    /// Decodes a value from the first `wlen()` bytes of `b`.
    spec fn dec(b: Seq<u8>) -> Option<Self>;

    proof fn codec(self, rest: Seq<u8>)
        ensures
            self.enc().len() == Self::wlen(),
            Self::dec(self.enc() + rest) == Some(self),
    ;

    proof fn dec_short(b: Seq<u8>)
        ensures
            b.len() < Self::wlen() ==> Self::dec(b) is None,
            Self::wlen() >= 1,
    ;

    /// The encoded width, as a run-time value.  Every record occupies at
    /// least one byte.
    fn wsize() -> (n: usize)
        ensures
            n == Self::wlen(),
            n >= 1,
    ;

    /// Appends the encoding of `self` to `out`.
    fn put(&self, out: &mut Vec<u8>)
        ensures
            final(out)@ == old(out)@ + self.enc(),
    ;

    /// Decodes a value from `buf` at `pos`, mirroring `dec`.
    fn read_at(buf: &Vec<u8>, pos: usize) -> (r: Option<Self>)
        requires
            pos <= buf@.len(),
        ensures
            r == Self::dec(buf@.skip(pos as int)),
    ;
}

impl Wire for u8 {
    open spec fn wlen() -> nat {
        1
    }

    open spec fn enc(self) -> Seq<u8> {
        seq![self]
    }

    open spec fn dec(b: Seq<u8>) -> Option<Self> {
        if b.len() < 1 {
            None
        } else {
            Some(b[0])
        }
    }

    proof fn codec(self, rest: Seq<u8>) {
    }

    proof fn dec_short(b: Seq<u8>) {
    }

    fn wsize() -> (n: usize) {
        1
    }

    fn put(&self, out: &mut Vec<u8>) {
        out.push(*self);
        proof {
            assert(out@ =~= old(out)@ + self.enc());
        }
    }

    fn read_at(buf: &Vec<u8>, pos: usize) -> (r: Option<Self>) {
        if buf.len() - pos < 1 {
            None
        } else {
            Some(buf[pos])
        }
    }
}

impl Wire for u32 {
    open spec fn wlen() -> nat {
        4
    }

    open spec fn enc(self) -> Seq<u8> {
        le32(self)
    }

    open spec fn dec(b: Seq<u8>) -> Option<Self> {
        if b.len() < 4 {
            None
        } else {
            Some(de32(b))
        }
    }

    proof fn codec(self, rest: Seq<u8>) {
        reveal(le32);
        lemma_le32_roundtrip(self, rest);
    }

    proof fn dec_short(b: Seq<u8>) {
    }

    fn wsize() -> (n: usize) {
        4
    }

    fn put(&self, out: &mut Vec<u8>) {
        let x = *self;
        proof {
            assert(x & 0xff < 256 && (x >> 8) & 0xff < 256 && (x >> 16) & 0xff < 256 && (x >> 24)
                & 0xff < 256) by (bit_vector);
        }
        out.push((x & 0xff) as u8);
        out.push(((x >> 8) & 0xff) as u8);
        out.push(((x >> 16) & 0xff) as u8);
        out.push(((x >> 24) & 0xff) as u8);
        proof {
            reveal(le32);
            assert(out@ =~= old(out)@ + le32(x));
        }
    }

    fn read_at(buf: &Vec<u8>, pos: usize) -> (r: Option<Self>) {
        if buf.len() - pos < 4 {
            None
        } else {
            let b0 = buf[pos] as u32;
            let b1 = buf[pos + 1] as u32;
            let b2 = buf[pos + 2] as u32;
            let b3 = buf[pos + 3] as u32;
            proof {
                reveal(de32);
            }
            Some(b0 | b1 << 8 | b2 << 16 | b3 << 24)
        }
    }
}

impl Wire for u64 {
    open spec fn wlen() -> nat {
        8
    }

    open spec fn enc(self) -> Seq<u8> {
        le64(self)
    }

    open spec fn dec(b: Seq<u8>) -> Option<Self> {
        if b.len() < 8 {
            None
        } else {
            Some(de64(b))
        }
    }

    proof fn codec(self, rest: Seq<u8>) {
        reveal(le64);
        lemma_le64_roundtrip(self, rest);
    }

    proof fn dec_short(b: Seq<u8>) {
    }

    fn wsize() -> (n: usize) {
        8
    }

    fn put(&self, out: &mut Vec<u8>) {
        put_u64(out, *self);
    }

    fn read_at(buf: &Vec<u8>, pos: usize) -> (r: Option<Self>) {
        if buf.len() - pos < 8 {
            None
        } else {
            Some(get_u64(buf, pos))
        }
    }
}

impl Wire for bool {
    open spec fn wlen() -> nat {
        1
    }

    open spec fn enc(self) -> Seq<u8> {
        seq![if self {
                1u8
            } else {
                0u8
            }]
    }

    open spec fn dec(b: Seq<u8>) -> Option<Self> {
        if b.len() < 1 {
            None
        } else if b[0] == 0 {
            Some(false)
        } else if b[0] == 1 {
            Some(true)
        } else {
            None
        }
    }

    proof fn codec(self, rest: Seq<u8>) {
    }

    proof fn dec_short(b: Seq<u8>) {
    }

    fn wsize() -> (n: usize) {
        1
    }

    fn put(&self, out: &mut Vec<u8>) {
        out.push(if *self {
            1
        } else {
            0
        });
        proof {
            assert(out@ =~= old(out)@ + self.enc());
        }
    }

    fn read_at(buf: &Vec<u8>, pos: usize) -> (r: Option<Self>) {
        if buf.len() - pos < 1 {
            None
        } else if buf[pos] == 0 {
            Some(false)
        } else if buf[pos] == 1 {
            Some(true)
        } else {
            None
        }
    }
}

/// The magnitude of an `i64`, always representable as a `u64`.
pub open spec fn i64_mag(x: i64) -> u64 {
    if x >= 0 {
        x as u64
    } else {
        (-(x as int)) as u64
    }
}

impl Wire for i64 {
    open spec fn wlen() -> nat {
        9
    }

    /// Sign byte followed by the little-endian magnitude.
    open spec fn enc(self) -> Seq<u8> {
        seq![if self < 0 {
                1u8
            } else {
                0u8
            }] + le64(i64_mag(self))
    }

    open spec fn dec(b: Seq<u8>) -> Option<Self> {
        if b.len() < 9 {
            None
        } else {
            let m = de64(b.skip(1));
            if b[0] == 0 {
                if m <= 0x7fff_ffff_ffff_ffff {
                    Some(m as i64)
                } else {
                    None
                }
            } else if b[0] == 1 {
                if 1 <= m && m <= 0x8000_0000_0000_0000 {
                    Some((-(m as int)) as i64)
                } else {
                    None
                }
            } else {
                None
            }
        }
    }

    proof fn codec(self, rest: Seq<u8>) {
        lemma_le64_len(i64_mag(self));
        let b = self.enc() + rest;
        assert(b.skip(1) =~= le64(i64_mag(self)) + rest);
        lemma_le64_roundtrip(i64_mag(self), rest);
    }

    proof fn dec_short(b: Seq<u8>) {
    }

    fn wsize() -> (n: usize) {
        9
    }

    fn put(&self, out: &mut Vec<u8>) {
        let x = *self;
        if x >= 0 {
            out.push(0);
            put_u64(out, x as u64);
        } else {
            out.push(1);
            let m: u64 = if x == i64::MIN {
                0x8000_0000_0000_0000u64
            } else {
                (-x) as u64
            };
            put_u64(out, m);
        }
        proof {
            assert(out@ =~= old(out)@ + self.enc());
        }
    }

    fn read_at(buf: &Vec<u8>, pos: usize) -> (r: Option<Self>) {
        if buf.len() - pos < 9 {
            None
        } else {
            let flag = buf[pos];
            let m = get_u64(buf, pos + 1);
            proof {
                assert(buf@.skip(pos as int).skip(1) =~= buf@.skip(pos as int + 1));
            }
            if flag == 0 {
                if m <= 0x7fff_ffff_ffff_ffff {
                    Some(m as i64)
                } else {
                    None
                }
            } else if flag == 1 {
                if 1 <= m && m <= 0x8000_0000_0000_0000 {
                    if m == 0x8000_0000_0000_0000 {
                        Some(i64::MIN)
                    } else {
                        Some(-(m as i64))
                    }
                } else {
                    None
                }
            } else {
                None
            }
        }
    }
}

// ---------------------------------------------------------------------------
// Optional values, encoded at fixed width with zero padding
// ---------------------------------------------------------------------------

/// A run of `n` zero bytes; the padding for an absent optional value.
pub open spec fn zeros(n: nat) -> Seq<u8> {
    Seq::new(n, |i: int| 0u8)
}

/// Appends `n` zero bytes to `out`.
pub fn put_zeros(out: &mut Vec<u8>, n: usize)
    ensures
        final(out)@ == old(out)@ + zeros(n as nat),
{
    let mut i: usize = 0;
    while i < n
        invariant
            i <= n,
            out@ == old(out)@ + zeros(i as nat),
        decreases n - i,
    {
        out.push(0);
        i = i + 1;
        proof {
            assert(out@ =~= old(out)@ + zeros(i as nat));
        }
    }
}

} // verus!
