//! Counted sequences: the auxiliary-payload layout.
//!
//! A counted sequence is encoded as `byte_size: u64`, `element_count: u64`,
//! then `element_count` fixed-width elements back to back.  `byte_size` is the
//! length of the element block alone, so a reader can skip the payload without
//! decoding it, and `element_count` lets a reader pre-size storage.  The
//! writer emits a placeholder for `byte_size` and patches it once the element
//! block has been written.

use vstd::prelude::*;

use crate::wire::{de64, le64, lemma_le64_len, lemma_le64_roundtrip, put_u64, set_u64, DecodeError, Wire};

verus! {

// ---------------------------------------------------------------------------
// Element blocks
// ---------------------------------------------------------------------------

/// The elements of `s` encoded back to back.
pub open spec fn enc_elems<T: Wire>(s: Seq<T>) -> Seq<u8>
    decreases s.len(),
{
    if s.len() == 0 {
        Seq::empty()
    } else {
        s[0].enc() + enc_elems(s.skip(1))
    }
}

/// The value the first `wlen` bytes of `b` decode to, if they decode.
pub open spec fn dec_val<T: Wire>(b: Seq<u8>) -> T {
    match T::dec(b) {
        Some(v) => v,
        None => vstd::pervasive::arbitrary(),
    }
}

/// Reads exactly `n` fixed-width elements from the front of `b`.  Elements
/// whose bytes do not decode are left unconstrained here; the lazy reader
/// reports them when they are actually pulled.
pub open spec fn dec_elems<T: Wire>(b: Seq<u8>, n: nat) -> Seq<T>
    decreases n,
{
    if n == 0 {
        Seq::empty()
    } else {
        seq![dec_val::<T>(b)] + dec_elems::<T>(b.skip(T::wlen() as int), (n - 1) as nat)
    }
}

pub proof fn lemma_dec_elems_len<T: Wire>(b: Seq<u8>, n: nat)
    ensures
        dec_elems::<T>(b, n).len() == n,
    decreases n,
{
    if n > 0 {
        lemma_dec_elems_len::<T>(b.skip(T::wlen() as int), (n - 1) as nat);
    }
}

pub proof fn lemma_enc_elems_len<T: Wire>(s: Seq<T>)
    ensures
        enc_elems(s).len() == s.len() * T::wlen(),
    decreases s.len(),
{
    if s.len() == 0 {
    } else {
        s[0].codec(Seq::empty());
        lemma_enc_elems_len::<T>(s.skip(1));
        assert(s.len() * T::wlen() == T::wlen() + (s.len() - 1) * T::wlen()) by (nonlinear_arith);
    }
}

pub proof fn lemma_enc_elems_push<T: Wire>(s: Seq<T>, v: T)
    ensures
        enc_elems(s.push(v)) == enc_elems(s) + v.enc(),
    decreases s.len(),
{
    if s.len() == 0 {
        assert(s.push(v)[0] == v);
        assert(s.push(v).skip(1) =~= Seq::<T>::empty());
        assert(enc_elems(s.push(v)) == v.enc() + enc_elems(Seq::<T>::empty()));
        assert(enc_elems(Seq::<T>::empty()) =~= Seq::<u8>::empty());
        assert(enc_elems(s) =~= Seq::<u8>::empty());
        assert(enc_elems(s.push(v)) =~= enc_elems(s) + v.enc());
    } else {
        assert(s.push(v)[0] == s[0]);
        assert(s.push(v).skip(1) =~= s.skip(1).push(v));
        lemma_enc_elems_push::<T>(s.skip(1), v);
        assert(enc_elems(s.push(v)) == s[0].enc() + (enc_elems(s.skip(1)) + v.enc()));
        assert(enc_elems(s.push(v)) =~= enc_elems(s) + v.enc());
    }
}

/// Decoding an element block inverts encoding it, under any suffix.
pub proof fn lemma_elems_codec<T: Wire>(s: Seq<T>, rest: Seq<u8>)
    ensures
        enc_elems(s).len() == s.len() * T::wlen(),
        dec_elems::<T>(enc_elems(s) + rest, s.len()) == s,
    decreases s.len(),
{
    lemma_enc_elems_len::<T>(s);
    if s.len() == 0 {
        assert(enc_elems(s) + rest =~= rest);
        assert(dec_elems::<T>(enc_elems(s) + rest, s.len()) =~= s);
    } else {
        let tail_bytes = enc_elems::<T>(s.skip(1)) + rest;
        s[0].codec(tail_bytes);
        assert(enc_elems(s) + rest =~= s[0].enc() + tail_bytes);
        lemma_elems_codec::<T>(s.skip(1), rest);
        assert((s[0].enc() + tail_bytes).skip(T::wlen() as int) =~= tail_bytes);
        assert(dec_elems::<T>(enc_elems(s) + rest, s.len()) =~= s);
    }
}

// ---------------------------------------------------------------------------
// Counted blocks
// ---------------------------------------------------------------------------

/// The counted-sequence encoding of `s`: byte size, element count, elements.
pub open spec fn enc_counted<T: Wire>(s: Seq<T>) -> Seq<u8>
    recommends
        s.len() * T::wlen() <= u64::MAX,
{
    le64((s.len() * T::wlen()) as u64) + le64(s.len() as u64) + enc_elems(s)
}

/// Decodes a counted sequence from the front of `b`, returning the elements
/// and the number of bytes consumed.
pub open spec fn dec_counted<T: Wire>(b: Seq<u8>) -> Option<(Seq<T>, nat)> {
    if b.len() < 16 {
        None
    } else {
        let bs = de64(b);
        let n = de64(b.skip(8));
        if bs != n * T::wlen() {
            None
        } else if b.len() < 16 + bs {
            None
        } else {
            Some((dec_elems::<T>(b.subrange(16, 16 + bs as int), n as nat), (16 + bs) as nat))
        }
    }
}

/// `de64` only looks at the first eight bytes.
pub proof fn lemma_de64_prefix(a: Seq<u8>, b: Seq<u8>)
    requires
        a.len() >= 8,
        b.len() >= 8,
        forall|i: int| 0 <= i < 8 ==> a[i] == b[i],
    ensures
        de64(a) == de64(b),
{
    reveal(de64);
    assert(a[0] == b[0] && a[1] == b[1] && a[2] == b[2] && a[3] == b[3] && a[4] == b[4] && a[5]
        == b[5] && a[6] == b[6] && a[7] == b[7]);
}

/// Decoding a counted block inverts encoding it, under any suffix.
pub proof fn lemma_counted_codec<T: Wire>(s: Seq<T>, rest: Seq<u8>)
    requires
        s.len() * T::wlen() <= u64::MAX,
    ensures
        enc_counted(s).len() == 16 + s.len() * T::wlen(),
        dec_counted::<T>(enc_counted(s) + rest) == Some(
            (s, (16 + s.len() * T::wlen()) as nat),
        ),
{
    T::dec_short(Seq::empty());
    assert(s.len() * 1 <= s.len() * T::wlen()) by (nonlinear_arith)
        requires
            T::wlen() >= 1,
            s.len() >= 0,
    ;
    let bs: u64 = (s.len() * T::wlen()) as u64;
    let n: u64 = s.len() as u64;
    lemma_le64_len(bs);
    lemma_le64_len(n);
    let b = enc_counted(s) + rest;
    lemma_elems_codec::<T>(s, rest);
    assert(b =~= le64(bs) + (le64(n) + (enc_elems(s) + rest)));
    lemma_le64_roundtrip(bs, le64(n) + (enc_elems(s) + rest));
    assert(b.skip(8) =~= le64(n) + (enc_elems(s) + rest));
    lemma_le64_roundtrip(n, enc_elems(s) + rest);
    assert(de64(b) == bs);
    assert(de64(b.skip(8)) == n);
    assert(b.subrange(16, 16 + bs as int) =~= enc_elems(s));
    assert(enc_elems::<T>(s) + Seq::<u8>::empty() =~= enc_elems(s));
    lemma_elems_codec::<T>(s, Seq::empty());
    assert(n * T::wlen() == s.len() * T::wlen());
    assert(b.len() >= 16 + bs);
}

/// Cutting a counted block anywhere makes it undecodable.
pub proof fn lemma_counted_truncated<T: Wire>(s: Seq<T>, k: int)
    requires
        s.len() * T::wlen() <= u64::MAX,
        0 <= k < enc_counted(s).len(),
    ensures
        dec_counted::<T>(enc_counted(s).take(k)) is None,
{
    T::dec_short(Seq::empty());
    assert(s.len() * 1 <= s.len() * T::wlen()) by (nonlinear_arith)
        requires
            T::wlen() >= 1,
            s.len() >= 0,
    ;
    let bs: u64 = (s.len() * T::wlen()) as u64;
    let n: u64 = s.len() as u64;
    lemma_le64_len(bs);
    lemma_le64_len(n);
    let e = enc_counted(s);
    lemma_enc_elems_len::<T>(s);
    assert(e =~= le64(bs) + (le64(n) + enc_elems(s)));
    lemma_le64_roundtrip(bs, le64(n) + enc_elems(s));
    assert(e.skip(8) =~= le64(n) + enc_elems(s));
    lemma_le64_roundtrip(n, enc_elems(s));
    assert(de64(e) == bs);
    assert(de64(e.skip(8)) == n);
    let t = e.take(k);
    if k < 16 {
    } else {
        lemma_de64_prefix(t, e);
        assert(t.skip(8).len() >= 8);
        assert(forall|i: int| 0 <= i < 8 ==> t.skip(8)[i] == e.skip(8)[i]) by {
            assert forall|i: int| 0 <= i < 8 implies t.skip(8)[i] == e.skip(8)[i] by {
                assert(t.skip(8)[i] == t[i + 8]);
                assert(e.skip(8)[i] == e[i + 8]);
            }
        }
        lemma_de64_prefix(t.skip(8), e.skip(8));
        assert(de64(t) == bs);
        assert(n * T::wlen() == s.len() * T::wlen());
        assert(t.len() < 16 + de64(t));
    }
}

/// Writes the counted-sequence encoding of `elems`: a placeholder byte size,
/// the element count, the elements, then the patched-in true byte size.
pub fn put_counted<T: Wire>(out: &mut Vec<u8>, elems: &Vec<T>)
    ensures
        final(out)@ == old(out)@ + enc_counted(elems@),
        elems@.len() * T::wlen() <= u64::MAX,
{
    let bso = out.len();
    put_u64(out, 0);
    put_u64(out, elems.len() as u64);
    let payload_off = out.len();
    proof {
        lemma_le64_len(0);
        lemma_le64_len(elems@.len() as u64);
        assert(out@ =~= old(out)@ + le64(0) + le64(elems@.len() as u64) + enc_elems(
            elems@.take(0int),
        ));
    }
    let mut i: usize = 0;
    while i < elems.len()
        invariant
            i <= elems@.len(),
            payload_off == old(out)@.len() + 16,
            bso == old(out)@.len(),
            out@ == old(out)@ + le64(0) + le64(elems@.len() as u64) + enc_elems(
                elems@.take(i as int),
            ),
        decreases elems@.len() - i,
    {
        let e = &elems[i];
        e.put(out);
        proof {
            lemma_le64_len(0);
            lemma_le64_len(elems@.len() as u64);
            lemma_enc_elems_push::<T>(elems@.take(i as int), elems@[i as int]);
            assert(elems@.take(i as int).push(elems@[i as int]) =~= elems@.take(i as int + 1));
            assert(out@ =~= old(out)@ + le64(0) + le64(elems@.len() as u64) + enc_elems(
                elems@.take(i as int + 1),
            ));
        }
        i = i + 1;
    }
    let end = out.len();
    let byte_size = end - payload_off;
    proof {
        assert(elems@.take(elems@.len() as int) =~= elems@);
        lemma_enc_elems_len::<T>(elems@);
        assert(byte_size == elems@.len() * T::wlen());
    }
    set_u64(out, bso, byte_size as u64);
    proof {
        lemma_le64_len(0);
        lemma_le64_len(byte_size as u64);
        lemma_le64_len(elems@.len() as u64);
        assert(out@ =~= old(out)@ + enc_counted(elems@));
    }
}

// ---------------------------------------------------------------------------
// Lazy range handles
// ---------------------------------------------------------------------------

/// A (start, length) handle onto a not-yet-decoded counted sequence living
/// inside a display-list buffer.  The handle carries no data of its own;
/// bounds and consistency are checked when it is read, not when it is made.
#[derive(Clone, Copy, Debug, PartialEq, Eq, Structural, Hash)]
pub struct ItemRange {
    start: usize,
    length: usize,
}

impl Default for ItemRange {
    /// The empty range, denoting a zero-element sequence.
    fn default() -> (r: Self)
        ensures
            r == ItemRange::default_spec(),
            r.start_spec() == 0,
            r.len_spec() == 0,
    {
        ItemRange { start: 0, length: 0 }
    }
}

impl ItemRange {
    /// The empty range, as a specification value.
    pub closed spec fn default_spec() -> ItemRange {
        ItemRange { start: 0, length: 0 }
    }

    pub closed spec fn start_spec(self) -> nat {
        self.start as nat
    }

    pub closed spec fn len_spec(self) -> nat {
        self.length as nat
    }

    pub(crate) fn make(start: usize, length: usize) -> (r: Self)
        ensures
            r.start_spec() == start,
            r.len_spec() == length,
    {
        ItemRange { start, length }
    }

    /// True when the range can hold no elements: nothing beyond space for the
    /// element count itself.
    pub fn is_empty(&self) -> (r: bool)
        ensures
            r == (self.len_spec() <= 8),
    {
        self.length <= 8
    }

    pub(crate) fn start(&self) -> (r: usize)
        ensures
            r == self.start_spec(),
    {
        self.start
    }

    pub(crate) fn length(&self) -> (r: usize)
        ensures
            r == self.len_spec(),
    {
        self.length
    }
}

/// True when a counted-sequence body's length agrees with its element-count
/// header (or the body is empty, denoting a zero-element sequence).
pub open spec fn counted_header_ok<T: Wire>(b: Seq<u8>) -> bool {
    b.len() == 0 || (b.len() >= 8 && b.len() == 8 + de64(b) * T::wlen())
}

/// The body of a counted sequence as stored behind an `ItemRange`: the
/// element count followed by the elements, with the byte-size field already
/// stripped.  An empty window denotes a zero-element sequence.
pub open spec fn counted_body<T: Wire>(b: Seq<u8>) -> Option<Seq<T>> {
    if b.len() == 0 {
        Some(Seq::empty())
    } else if b.len() < 8 {
        None
    } else {
        let n = de64(b);
        if b.len() != 8 + n * T::wlen() {
            None
        } else {
            Some(dec_elems::<T>(b.skip(8), n as nat))
        }
    }
}

/// The elements a range handle denotes within `data`, if it is well formed.
pub open spec fn range_items<T: Wire>(data: Seq<u8>, r: ItemRange) -> Option<Seq<T>> {
    if r.len_spec() == 0 {
        Some(Seq::empty())
    } else if r.start_spec() + r.len_spec() > data.len() {
        None
    } else {
        counted_body::<T>(
            data.subrange(r.start_spec() as int, r.start_spec() as int + r.len_spec() as int),
        )
    }
}

/// The empty range denotes the empty sequence in any buffer.
pub proof fn lemma_default_range<T: Wire>(data: Seq<u8>)
    ensures
        range_items::<T>(data, ItemRange::default_spec()) == Some(Seq::<T>::empty()),
{
}

/// Copies `len` bytes starting at `start` out of `buf`.
pub(crate) fn copy_range(buf: &Vec<u8>, start: usize, len: usize) -> (out: Vec<u8>)
    requires
        start + len <= buf@.len(),
    ensures
        out@ == buf@.subrange(start as int, start as int + len as int),
{
    let buf_len = buf.len();
    assert(start + len <= buf_len);
    let mut out: Vec<u8> = Vec::new();
    let mut i: usize = 0;
    while i < len
        invariant
            i <= len,
            start + len <= buf@.len(),
            buf@.len() <= usize::MAX,
            out@ == buf@.subrange(start as int, start as int + i as int),
        decreases len - i,
    {
        out.push(buf[start + i]);
        i = i + 1;
        proof {
            assert(out@ =~= buf@.subrange(start as int, start as int + i as int));
        }
    }
    out
}

// ---------------------------------------------------------------------------
// The lazy range reader
// ---------------------------------------------------------------------------

/// A lazy reader over one counted sequence: the element count is read once at
/// construction, and each `next` call decodes exactly one element.
pub struct AuxIter<T: Wire> {
    data: Vec<u8>,
    pos: usize,
    remaining: u64,
    _marker: core::marker::PhantomData<T>,
}

impl<T: Wire> AuxIter<T> {
    pub closed spec fn wf(self) -> bool {
        self.pos <= self.data@.len()
    }

    /// The elements still to be yielded, as far as their bytes decode.
    pub closed spec fn items(self) -> Seq<T> {
        dec_elems::<T>(self.data@.skip(self.pos as int), self.remaining as nat)
    }

    pub closed spec fn remaining_spec(self) -> nat {
        self.remaining as nat
    }

    pub closed spec fn data_spec(self) -> Seq<u8> {
        self.data@
    }

    pub closed spec fn pos_spec(self) -> nat {
        self.pos as nat
    }

    /// Reads the element-count header of a counted-sequence body.  An empty
    /// window is a zero-element sequence; otherwise the window's length must
    /// agree exactly with the count.  Elements themselves are decoded lazily,
    /// one per later `next` call.
    pub fn new(data: Vec<u8>) -> (r: Result<Self, DecodeError>)
        ensures
            counted_header_ok::<T>(data@) ==> {
                &&& r matches Ok(it)
                &&& it.wf()
                &&& Some(it.items()) == counted_body::<T>(data@)
                &&& (counted_body::<T>(data@) matches Some(s) ==> it.remaining_spec() == s.len())
            },
            !counted_header_ok::<T>(data@) ==> r is Err,
    {
        if data.len() == 0 {
            Ok(
                AuxIter {
                    data,
                    pos: 0,
                    remaining: 0,
                    _marker: core::marker::PhantomData,
                },
            )
        } else if data.len() < 8 {
            Err(DecodeError)
        } else {
            let n = crate::wire::get_u64(&data, 0);
            proof {
                assert(data@.skip(0) =~= data@);
            }
            let w = T::wsize();
            let body = data.len() - 8;
            if (body / w) as u64 == n && body % w == 0 {
                proof {
                    vstd::arithmetic::div_mod::lemma_fundamental_div_mod(body as int, w as int);
                    assert((body as int) / (w as int) * (w as int) == (w as int) * ((body as int)
                        / (w as int))) by (nonlinear_arith);
                    assert(body == (body / w) * w + body % w);
                    assert(data@.len() == 8 + n * T::wlen());
                    lemma_dec_elems_len::<T>(data@.skip(8), n as nat);
                }
                Ok(
                    AuxIter {
                        data,
                        pos: 8,
                        remaining: n,
                        _marker: core::marker::PhantomData,
                    },
                )
            } else {
                proof {
                    if counted_header_ok::<T>(data@) {
                        assert(body == n * T::wlen());
                        lemma_div_exact(body as int, w as int, n as int);
                    }
                }
                Err(DecodeError)
            }
        }
    }

    /// Decodes the next element, or reports the end of the sequence or a
    /// malformed element.
    pub fn next(&mut self) -> (r: Result<Option<T>, DecodeError>)
        requires
            old(self).wf(),
        ensures
            final(self).wf(),
            final(self).data_spec() == old(self).data_spec(),
            old(self).remaining_spec() == 0 ==> r == Ok::<Option<T>, DecodeError>(None)
                && *final(self) == *old(self),
            old(self).remaining_spec() > 0 ==> match T::dec(
                old(self).data_spec().skip(old(self).pos_spec() as int),
            ) {
                None => r is Err,
                Some(v) => {
                    &&& r == Ok::<Option<T>, DecodeError>(Some(v))
                    &&& final(self).pos_spec() == old(self).pos_spec() + T::wlen()
                    &&& final(self).remaining_spec() == old(self).remaining_spec() - 1
                },
            },
    {
        if self.remaining == 0 {
            Ok(None)
        } else {
            match T::read_at(&self.data, self.pos) {
                None => Err(DecodeError),
                Some(v) => {
                    let dlen = self.data.len();
                    proof {
                        T::dec_short(self.data@.skip(self.pos as int));
                        assert(self.pos + T::wlen() <= dlen);
                    }
                    self.pos = self.pos + T::wsize();
                    self.remaining = self.remaining - 1;
                    Ok(Some(v))
                },
            }
        }
    }

    /// The exact number of elements left, as a size hint.
    pub fn size_hint(&self) -> (r: (usize, Option<usize>))
        requires
            self.remaining_spec() <= usize::MAX,
        ensures
            r.0 == self.remaining_spec(),
            r.1 == Some(r.0),
    {
        let n = self.remaining as usize;
        (n, Some(n))
    }
}

/// Euclidean division is injective on exact multiples.
pub proof fn lemma_div_exact(a: int, w: int, n: int)
    requires
        w > 0,
        a == n * w,
        n >= 0,
    ensures
        a / w == n,
        a % w == 0,
{
    vstd::arithmetic::div_mod::lemma_div_by_multiple(n, w);
    vstd::arithmetic::div_mod::lemma_mod_multiples_basic(n, w);
}

} // verus!
