//! The finalized display list and its lazy iterator.

use vstd::prelude::*;

use crate::clock::now_ns;
use crate::counted::{counted_body, dec_counted, range_items, AuxIter, ItemRange};
use crate::item::{read_item, DisplayItem, SpecificDisplayItem};
use crate::payload::{FilterOp, StackingContext};
use crate::records::{
    ClipAndScrollInfo, ClipId, ComplexClipRegion, GlyphInstance, GradientStop,
    LayoutPrimitiveInfo, LayoutRect, LayoutVector2D, PipelineId,
};
use crate::stream::{step, walk, StepR, VisEntry};
use crate::wire::{DecodeError, Wire};

verus! {

/// Describes a built display list: three instrumentation timestamps, stamped
/// when construction starts, when it finishes, and when the list is handed
/// off for transport.  They play no correctness role.
#[derive(Clone, Copy, Debug, PartialEq, Eq, Structural)]
pub struct BuiltDisplayListDescriptor {
    pub builder_start_time: u64,
    pub builder_finish_time: u64,
    pub send_start_time: u64,
}

impl Default for BuiltDisplayListDescriptor {
    /// A descriptor with all three timestamps unset.
    fn default() -> (r: Self)
        ensures
            r.builder_start_time == 0,
            r.builder_finish_time == 0,
            r.send_start_time == 0,
    {
        BuiltDisplayListDescriptor {
            builder_start_time: 0,
            builder_finish_time: 0,
            send_start_time: 0,
        }
    }
}

/// A finalized display list: the immutable encoded byte buffer plus its
/// descriptor.  Any number of iterators may read it concurrently.
#[derive(Clone)]
pub struct BuiltDisplayList {
    data: Vec<u8>,
    descriptor: BuiltDisplayListDescriptor,
}

impl Default for BuiltDisplayList {
    /// An empty display list.
    fn default() -> (r: Self)
        ensures
            r@ == Seq::<u8>::empty(),
            r.descriptor_spec().builder_start_time == 0,
            r.descriptor_spec().builder_finish_time == 0,
            r.descriptor_spec().send_start_time == 0,
    {
        BuiltDisplayList {
            data: Vec::new(),
            descriptor: BuiltDisplayListDescriptor {
                builder_start_time: 0,
                builder_finish_time: 0,
                send_start_time: 0,
            },
        }
    }
}

impl View for BuiltDisplayList {
    type V = Seq<u8>;

    closed spec fn view(&self) -> Seq<u8> {
        self.data@
    }
}

impl BuiltDisplayList {
    pub closed spec fn descriptor_spec(self) -> BuiltDisplayListDescriptor {
        self.descriptor
    }

    /// Wraps an already-encoded buffer and its descriptor.
    pub fn from_data(data: Vec<u8>, descriptor: BuiltDisplayListDescriptor) -> (r:
        BuiltDisplayList)
        ensures
            r@ == data@,
            r.descriptor_spec() == descriptor,
    {
        BuiltDisplayList { data, descriptor }
    }

    /// Hands the buffer off for transport, stamping the transfer timestamp
    /// exactly once.
    pub fn into_data(self) -> (r: (Vec<u8>, BuiltDisplayListDescriptor))
        ensures
            r.0@ == self@,
            r.1.builder_start_time == self.descriptor_spec().builder_start_time,
            r.1.builder_finish_time == self.descriptor_spec().builder_finish_time,
    {
        let mut descriptor = self.descriptor;
        descriptor.send_start_time = now_ns();
        (self.data, descriptor)
    }

    /// The raw encoded bytes.
    pub fn data(&self) -> (r: &Vec<u8>)
        ensures
            r@ == self@,
    {
        &self.data
    }

    /// The region of the buffer holding the item stream.  Currently the whole
    /// buffer.
    pub fn item_slice(&self) -> (r: &Vec<u8>)
        ensures
            r@ == self@,
    {
        &self.data
    }

    pub fn descriptor(&self) -> (r: &BuiltDisplayListDescriptor)
        ensures
            *r == self.descriptor_spec(),
    {
        &self.descriptor
    }

    /// The three timestamps: construction start, construction finish,
    /// transfer start.
    pub fn times(&self) -> (r: (u64, u64, u64))
        ensures
            r.0 == self.descriptor_spec().builder_start_time,
            r.1 == self.descriptor_spec().builder_finish_time,
            r.2 == self.descriptor_spec().send_start_time,
    {
        (
            self.descriptor.builder_start_time,
            self.descriptor.builder_finish_time,
            self.descriptor.send_start_time,
        )
    }

    /// Reads the counted sequence a range handle denotes, checking bounds and
    /// the count header at decode time.
    pub fn get<T: Wire>(&self, range: ItemRange) -> (r: Result<AuxIter<T>, DecodeError>)
        ensures
            match range_items::<T>(self@, range) {
                Some(s) => {
                    &&& r matches Ok(it)
                    &&& it.wf()
                    &&& it.items() == s
                    &&& it.remaining_spec() == s.len()
                },
                None => true,
            },
    {
        if range.length() == 0 {
            let it = AuxIter::<T>::new(Vec::new());
            proof {
                assert(counted_body::<T>(Seq::<u8>::empty()) == Some(Seq::<T>::empty()));
            }
            match it {
                Ok(it) => Ok(it),
                Err(e) => Err(e),
            }
        } else {
            let start = range.start();
            let len = range.length();
            let total = self.data.len();
            if start > total || len > total - start {
                Err(DecodeError)
            } else {
                let window = crate::counted::copy_range(&self.data, start, len);
                AuxIter::<T>::new(window)
            }
        }
    }

    /// An iterator positioned at the start of the list.
    pub fn iter(&self) -> (r: BuiltDisplayListIter)
        ensures
            r.wf(),
            r.wf_basic(),
            r.list_bytes() == self@,
            r.rest() == self@,
            !r.peeked(),
            r.view_spec() == (IterView { rest: self@, held: None }),
    {
        BuiltDisplayListIter::new(self)
    }
}

// ---------------------------------------------------------------------------
// The iterator
// ---------------------------------------------------------------------------

/// The one-item-lookahead state.
#[derive(PartialEq, Eq, Structural, Clone, Copy, Debug)]
pub(crate) enum Peek {
    StartPeeking,
    IsPeeking,
    NotPeeking,
}

/// A cursor over a built display list: decodes one item per `next` call,
/// stashing range handles for the item's auxiliary payloads, with one item of
/// lookahead via `peek`.
pub struct BuiltDisplayListIter {
    data: Vec<u8>,
    pos: usize,
    cur_item: DisplayItem,
    cur_stops: ItemRange,
    cur_glyphs: ItemRange,
    cur_filters: ItemRange,
    cur_complex_clip: (ItemRange, usize),
    peeking: Peek,
}

/// The owned snapshot of the item an iterator is currently standing on: the
/// decoded record plus the range handles of its auxiliary payloads.
#[derive(Clone, Copy)]
pub struct DisplayItemRef {
    item: DisplayItem,
    stops: ItemRange,
    glyphs: ItemRange,
    filters: ItemRange,
    complex_clip: (ItemRange, usize),
}

impl DisplayItemRef {
    pub closed spec fn item_spec(self) -> DisplayItem {
        self.item
    }

    pub closed spec fn stops_range(self) -> ItemRange {
        self.stops
    }

    pub closed spec fn glyphs_range(self) -> ItemRange {
        self.glyphs
    }

    pub closed spec fn filters_range(self) -> ItemRange {
        self.filters
    }

    pub closed spec fn complex_clip_spec(self) -> (ItemRange, usize) {
        self.complex_clip
    }

    /// The full decoded item record.
    pub fn display_item(&self) -> (r: &DisplayItem)
        ensures
            *r == self.item_spec(),
    {
        &self.item
    }

    /// The item's bounding rectangle.
    pub fn rect(&self) -> (r: LayoutRect)
        ensures
            r == self.item_spec().info.rect,
    {
        self.item.info.rect
    }

    /// The item's local clip rectangle.
    pub fn local_clip(&self) -> (r: LayoutRect)
        ensures
            r == self.item_spec().info.local_clip,
    {
        self.item.info.local_clip
    }

    /// The placement metadata translated by `offset`.
    pub fn get_layer_primitive_info(&self, offset: &LayoutVector2D) -> (r: LayoutPrimitiveInfo)
        requires
            i64::MIN <= self.item_spec().info.rect.origin.x + offset.x <= i64::MAX,
            i64::MIN <= self.item_spec().info.rect.origin.y + offset.y <= i64::MAX,
            i64::MIN <= self.item_spec().info.local_clip.origin.x + offset.x <= i64::MAX,
            i64::MIN <= self.item_spec().info.local_clip.origin.y + offset.y <= i64::MAX,
        ensures
            r.rect.origin.x == self.item_spec().info.rect.origin.x + offset.x,
            r.rect.origin.y == self.item_spec().info.rect.origin.y + offset.y,
            r.rect.size == self.item_spec().info.rect.size,
            r.local_clip.origin.x == self.item_spec().info.local_clip.origin.x + offset.x,
            r.local_clip.origin.y == self.item_spec().info.local_clip.origin.y + offset.y,
            r.local_clip.size == self.item_spec().info.local_clip.size,
            r.is_backface_visible == self.item_spec().info.is_backface_visible,
    {
        let info = &self.item.info;
        LayoutPrimitiveInfo {
            rect: info.rect.translate(offset),
            local_clip: info.local_clip.translate(offset),
            is_backface_visible: info.is_backface_visible,
        }
    }

    pub fn clip_and_scroll(&self) -> (r: ClipAndScrollInfo)
        ensures
            r == self.item_spec().clip_and_scroll,
    {
        self.item.clip_and_scroll
    }

    /// The item's drawing command.
    pub fn item(&self) -> (r: &SpecificDisplayItem)
        ensures
            *r == self.item_spec().item,
    {
        &self.item.item
    }

    /// The complex clip regions attached to a clip or scroll-frame item, and
    /// their count.
    pub fn complex_clip(&self) -> (r: (ItemRange, usize))
        ensures
            r == self.complex_clip_spec(),
    {
        self.complex_clip
    }

    /// The gradient stops carried by the preceding stop-setting pseudo-item.
    pub fn gradient_stops(&self) -> (r: ItemRange)
        ensures
            r == self.stops_range(),
    {
        self.stops
    }

    /// The glyphs attached to a text item.
    pub fn glyphs(&self) -> (r: ItemRange)
        ensures
            r == self.glyphs_range(),
    {
        self.glyphs
    }

    /// The filters attached to a stacking-context push.
    pub fn filters(&self) -> (r: ItemRange)
        ensures
            r == self.filters_range(),
    {
        self.filters
    }

    pub fn is_backface_visible(&self) -> (r: bool)
        ensures
            r == self.item_spec().info.is_backface_visible,
    {
        self.item.info.is_backface_visible
    }
}

impl BuiltDisplayListIter {
    pub closed spec fn list_bytes(self) -> Seq<u8> {
        self.data@
    }

    /// The undecoded suffix of the buffer.
    pub closed spec fn rest(self) -> Seq<u8> {
        self.data@.skip(self.pos as int)
    }

    /// Whether one item of lookahead is currently held.
    pub closed spec fn peeked(self) -> bool {
        self.peeking is IsPeeking
    }

    /// Whether a `peek` is in progress and about to decode.
    pub closed spec fn start_peeking(self) -> bool {
        self.peeking is StartPeeking
    }

    /// The snapshot the iterator would hand out for its current item.
    pub closed spec fn cur_ref(self) -> DisplayItemRef {
        DisplayItemRef {
            item: self.cur_item,
            stops: self.cur_stops,
            glyphs: self.cur_glyphs,
            filters: self.cur_filters,
            complex_clip: self.cur_complex_clip,
        }
    }

    /// The visible item the current snapshot denotes, its payload ranges
    /// resolved against the buffer.
    pub closed spec fn cur_vis(self) -> VisEntry {
        VisEntry {
            item: self.cur_item,
            stops: range_items::<GradientStop>(self.data@, self.cur_stops).unwrap(),
            glyphs: range_items::<GlyphInstance>(self.data@, self.cur_glyphs).unwrap(),
            filters: range_items::<FilterOp>(self.data@, self.cur_filters).unwrap(),
            clips: range_items::<ComplexClipRegion>(self.data@, self.cur_complex_clip.0).unwrap(),
        }
    }

    /// The current snapshot's ranges all resolve against the buffer.
    pub closed spec fn cur_ranges_ok(self) -> bool {
        &&& range_items::<GradientStop>(self.data@, self.cur_stops) is Some
        &&& range_items::<GlyphInstance>(self.data@, self.cur_glyphs) is Some
        &&& range_items::<FilterOp>(self.data@, self.cur_filters) is Some
        &&& range_items::<ComplexClipRegion>(self.data@, self.cur_complex_clip.0) is Some
        &&& self.cur_complex_clip.1 == range_items::<ComplexClipRegion>(
            self.data@,
            self.cur_complex_clip.0,
        ).unwrap().len()
    }

    /// Well-formedness without the lookahead-flag condition; what `next`
    /// itself needs.
    pub closed spec fn wf_basic(self) -> bool {
        &&& self.pos <= self.data@.len()
        &&& self.cur_ranges_ok()
    }

    pub closed spec fn wf(self) -> bool {
        &&& self.wf_basic()
        &&& !(self.peeking is StartPeeking)
    }

    /// A well-formed iterator meets `next`'s own precondition.
    pub proof fn lemma_wf_implies_wf_basic(self)
        requires
            self.wf(),
        ensures
            self.wf_basic(),
    {
    }

    /// The items not yet returned: when peeking, the held item followed by
    /// whatever the rest of the buffer decodes to.
    pub open spec fn remaining(self) -> Option<Seq<VisEntry>> {
        if self.peeked() {
            match walk(self.rest(), Seq::empty()) {
                None => None,
                Some(s) => Some(seq![self.cur_vis()] + s),
            }
        } else {
            walk(self.rest(), Seq::empty())
        }
    }

    /// An iterator positioned at the start of `list`.
    pub fn new(list: &BuiltDisplayList) -> (r: Self)
        ensures
            r.wf(),
            r.wf_basic(),
            r.list_bytes() == list@,
            r.rest() == list@,
            !r.peeked(),
            r.view_spec() == (IterView { rest: list@, held: None }),
    {
        Self::new_with_list_and_data(list, list.data().clone())
    }

    /// An iterator over an explicit byte buffer, positioned at its start.
    pub fn new_with_list_and_data(list: &BuiltDisplayList, data: Vec<u8>) -> (r: Self)
        ensures
            r.wf(),
            r.wf_basic(),
            r.list_bytes() == data@,
            r.rest() == data@,
            !r.peeked(),
            r.view_spec() == (IterView { rest: data@, held: None }),
    {
        let r = BuiltDisplayListIter {
            data,
            pos: 0,
            cur_item: DisplayItem {
                // placeholder, overwritten by the first successful `next`
                item: SpecificDisplayItem::PopStackingContext,
                clip_and_scroll: ClipAndScrollInfo::simple(
                    ClipId::new(0, PipelineId::dummy()),
                ),
                info: LayoutPrimitiveInfo::new(LayoutRect::zero()),
            },
            cur_stops: ItemRange::default(),
            cur_glyphs: ItemRange::default(),
            cur_filters: ItemRange::default(),
            cur_complex_clip: (ItemRange::default(), 0),
            peeking: Peek::NotPeeking,
        };
        proof {
            assert(r.rest() =~= r.data@);
            lemma_empty_range_items(r.data@);
        }
        r
    }

    /// The current snapshot, for re-reading the item `next` just returned.
    pub fn as_ref(&self) -> (r: DisplayItemRef)
        ensures
            r == self.cur_ref(),
    {
        DisplayItemRef {
            item: self.cur_item,
            stops: self.cur_stops,
            glyphs: self.cur_glyphs,
            filters: self.cur_filters,
            complex_clip: self.cur_complex_clip,
        }
    }
}

/// The default (empty) range denotes the empty sequence in any buffer.
pub proof fn lemma_empty_range_items(data: Seq<u8>)
    ensures
        range_items::<GradientStop>(data, ItemRange::default_spec()) == Some(
            Seq::<GradientStop>::empty(),
        ),
        range_items::<GlyphInstance>(data, ItemRange::default_spec()) == Some(
            Seq::<GlyphInstance>::empty(),
        ),
        range_items::<FilterOp>(data, ItemRange::default_spec()) == Some(Seq::<FilterOp>::empty()),
        range_items::<ComplexClipRegion>(data, ItemRange::default_spec()) == Some(
            Seq::<ComplexClipRegion>::empty(),
        ),
{
    crate::counted::lemma_default_range::<GradientStop>(data);
    crate::counted::lemma_default_range::<GlyphInstance>(data);
    crate::counted::lemma_default_range::<FilterOp>(data);
    crate::counted::lemma_default_range::<ComplexClipRegion>(data);
}


// ---------------------------------------------------------------------------
// The lookahead model
// ---------------------------------------------------------------------------

/// The iterator's logical state: the undecoded bytes, and the item held by
/// an outstanding `peek`, if any.
pub struct IterView {
    pub rest: Seq<u8>,
    pub held: Option<VisEntry>,
}

/// What `next` does to the logical state, and what it returns.
pub open spec fn next_spec(v: IterView) -> (IterView, Result<Option<VisEntry>, DecodeError>) {
    match v.held {
        Some(c) => (IterView { rest: v.rest, held: None }, Ok(Some(c))),
        None => match step(v.rest, Seq::empty()) {
            StepR::Fail => (v, Err(DecodeError)),
            StepR::End => (IterView { rest: Seq::empty(), held: None }, Ok(None)),
            StepR::Next(x, c) => (IterView { rest: v.rest.skip(c as int), held: None }, Ok(Some(x))),
        },
    }
}

/// What `peek` does to the logical state, and what it returns.
pub open spec fn peek_spec(v: IterView) -> (IterView, Result<Option<VisEntry>, DecodeError>) {
    match v.held {
        Some(c) => (v, Ok(Some(c))),
        None => match step(v.rest, Seq::empty()) {
            StepR::Fail => (v, Err(DecodeError)),
            StepR::End => (IterView { rest: Seq::empty(), held: None }, Ok(None)),
            StepR::Next(x, c) => (
                IterView { rest: v.rest.skip(c as int), held: Some(x) },
                Ok(Some(x)),
            ),
        },
    }
}

/// Peek idempotence: consecutive `peek` calls return the same item and leave
/// the state unchanged after the first, and a `next` that follows returns
/// that same item while advancing exactly once past it.
pub proof fn lemma_peek_idempotent(v: IterView)
    ensures
        peek_spec(peek_spec(v).0) == peek_spec(v),
        next_spec(peek_spec(v).0).1 == peek_spec(v).1,
        peek_spec(v).1 is Ok ==> next_spec(peek_spec(v).0).0 == next_spec(v).0,
{
}

/// Lifts one reader step over already-consumed leading bytes.
pub open spec fn shift_step(s: StepR, k: nat) -> StepR {
    match s {
        StepR::Next(v, c) => StepR::Next(v, (c + k) as nat),
        other => other,
    }
}


/// Skipping to an absolute position equals skipping the already-consumed
/// prefix of a suffix.
proof fn lemma_skip_shift(data: Seq<u8>, p0: int, p: int)
    requires
        0 <= p0 <= p <= data.len(),
    ensures
        data.skip(p0).skip(p - p0) =~= data.skip(p),
{
    vstd::seq_lib::lemma_seq_skip_of_skip(data, p0, p - p0);
}

impl BuiltDisplayListIter {
    /// The iterator's logical state.
    pub closed spec fn view_spec(self) -> IterView {
        IterView {
            rest: self.rest(),
            held: if self.peeked() {
                Some(self.cur_vis())
            } else {
                None
            },
        }
    }

    /// Reads the header of a counted auxiliary payload, returning a range
    /// handle over it (count field plus elements) and the element count, and
    /// advancing past it without decoding the elements.
    fn skip_slice<T: Wire>(&mut self) -> (r: Result<(ItemRange, usize), DecodeError>)
        requires
            old(self).pos <= old(self).data@.len(),
        ensures
            final(self).data == old(self).data,
            final(self).cur_item == old(self).cur_item,
            final(self).cur_stops == old(self).cur_stops,
            final(self).cur_glyphs == old(self).cur_glyphs,
            final(self).cur_filters == old(self).cur_filters,
            final(self).cur_complex_clip == old(self).cur_complex_clip,
            final(self).peeking == old(self).peeking,
            final(self).pos <= final(self).data@.len(),
            match dec_counted::<T>(old(self).rest()) {
                None => r is Err && final(self).pos == old(self).pos,
                Some((s, m)) => {
                    &&& r matches Ok(p)
                    &&& p.1 == s.len()
                    &&& final(self).pos == old(self).pos + m
                    &&& range_items::<T>(final(self).data@, p.0) == Some(s)
                },
            },
    {
        let buf_len = self.data.len();
        let ghost b = self.rest();
        let remaining = buf_len - self.pos;
        if remaining < 16 {
            return Err(DecodeError);
        }
        let bs = crate::wire::get_u64(&self.data, self.pos);
        let n = crate::wire::get_u64(&self.data, self.pos + 8);
        proof {
            assert(b.skip(8) =~= self.data@.skip(self.pos as int + 8));
            assert(crate::wire::de64(b) == bs);
            assert(crate::wire::de64(b.skip(8)) == n);
        }
        let w = T::wsize();
        proof {
            vstd::arithmetic::div_mod::lemma_fundamental_div_mod(u64::MAX as int, w as int);
        }
        let ghost q = (u64::MAX as int) / (w as int);
        let ghost rm = (u64::MAX as int) % (w as int);
        if n > u64::MAX / (w as u64) {
            proof {
                assert(n * T::wlen() > u64::MAX) by (nonlinear_arith)
                    requires
                        n >= q + 1,
                        u64::MAX == (w as int) * q + rm,
                        0 <= rm < w,
                        w == T::wlen(),
                        w >= 1,
                ;
            }
            return Err(DecodeError);
        }
        proof {
            assert(n * w <= u64::MAX) by (nonlinear_arith)
                requires
                    0 <= n <= q,
                    u64::MAX == (w as int) * q + rm,
                    0 <= rm < w,
                    w >= 1,
            ;
        }
        let prod = n * (w as u64);
        if bs != prod {
            return Err(DecodeError);
        }
        if ((remaining - 16) as u64) < bs {
            return Err(DecodeError);
        }
        proof {
            assert(n <= n * w) by (nonlinear_arith)
                requires
                    w >= 1,
                    n >= 0,
            ;
        }
        let bs_us = bs as usize;
        let range = ItemRange::make(self.pos + 8, 8 + bs_us);
        let count_us = n as usize;
        let ghost window = self.data@.subrange(
            self.pos as int + 8,
            self.pos as int + 16 + bs as int,
        );
        proof {
            assert(window.len() == 8 + bs);
            assert(forall|i: int| 0 <= i < 8 ==> window[i] == b.skip(8)[i]) by {
                assert forall|i: int| 0 <= i < 8 implies window[i] == b.skip(8)[i] by {
                    assert(window[i] == self.data@[self.pos as int + 8 + i]);
                    assert(b.skip(8)[i] == b[8 + i]);
                }
            }
            crate::counted::lemma_de64_prefix(window, b.skip(8));
            assert(crate::wire::de64(window) == n);
            assert(window.skip(8) =~= b.subrange(16, 16 + bs as int));
            crate::counted::lemma_dec_elems_len::<T>(b.subrange(16, 16 + bs as int), n as nat);
        }
        self.pos = self.pos + 16 + bs_us;
        Ok((range, count_us))
    }

    /// Decodes the next item, skipping stop-setting pseudo-items after
    /// stashing their payload, and stashing a range handle for any auxiliary
    /// payload of the returned item.  A malformed record is reported as a
    /// recoverable error, never a crash or an out-of-bounds read.
    #[verifier::rlimit(100)]
    #[verifier::spinoff_prover]
    pub fn next(&mut self) -> (r: Result<Option<DisplayItemRef>, DecodeError>)
        requires
            old(self).wf_basic(),
        ensures
            final(self).wf(),
            final(self).wf_basic(),
            final(self).list_bytes() == old(self).list_bytes(),
            match next_spec(old(self).view_spec()).1 {
                Err(_) => r is Err,
                Ok(None) => r == Ok::<Option<DisplayItemRef>, DecodeError>(None),
                Ok(Some(vx)) => {
                    &&& r == Ok::<Option<DisplayItemRef>, DecodeError>(Some(final(self).cur_ref()))
                    &&& final(self).cur_vis() == vx
                    &&& final(self).cur_ref().item_spec() == vx.item
                },
            },
            !old(self).start_peeking() && next_spec(old(self).view_spec()).1 is Ok
                ==> final(self).view_spec() == next_spec(old(self).view_spec()).0,
            old(self).start_peeking() && next_spec(old(self).view_spec()).1 is Ok
                ==> final(self).view_spec() == peek_spec(old(self).view_spec()).0,
    {
        let ghost v0 = self.view_spec();
        match self.peeking {
            Peek::IsPeeking => {
                self.peeking = Peek::NotPeeking;
                return Ok(Some(self.as_ref()));
            },
            Peek::StartPeeking => {
                self.peeking = Peek::IsPeeking;
            },
            Peek::NotPeeking => {},
        }
        self.cur_stops = ItemRange::default();
        self.cur_glyphs = ItemRange::default();
        self.cur_filters = ItemRange::default();
        self.cur_complex_clip = (ItemRange::default(), 0);
        proof {
            lemma_empty_range_items(self.data@);
        }
        let ghost pos0 = self.pos as int;
        loop
            invariant
                self.pos <= self.data@.len(),
                self.data == old(self).data,
                self.cur_ranges_ok(),
                0 <= pos0 <= self.pos,
                v0 == old(self).view_spec(),
                v0.held is None,
                v0.rest == self.data@.skip(pos0),
                self.peeking == (if old(self).peeking is StartPeeking {
                    Peek::IsPeeking
                } else {
                    Peek::NotPeeking
                }),
                step(v0.rest, Seq::empty()) == shift_step(
                    step(
                        self.rest(),
                        range_items::<GradientStop>(self.data@, self.cur_stops).unwrap(),
                    ),
                    (self.pos - pos0) as nat,
                ),
                range_items::<FilterOp>(self.data@, self.cur_filters) == Some(
                    Seq::<FilterOp>::empty(),
                ),
                range_items::<GlyphInstance>(self.data@, self.cur_glyphs) == Some(
                    Seq::<GlyphInstance>::empty(),
                ),
                range_items::<ComplexClipRegion>(self.data@, self.cur_complex_clip.0) == Some(
                    Seq::<ComplexClipRegion>::empty(),
                ),
                self.cur_complex_clip.1 == 0,
                range_items::<GradientStop>(self.data@, self.cur_stops) is Some,
            decreases self.data@.len() - self.pos,
        {
            let ghost pending = range_items::<GradientStop>(self.data@, self.cur_stops).unwrap();
            let ghost rest_here = self.rest();
            if self.pos == self.data.len() {
                proof {
                    assert(rest_here.len() == 0);
                    assert(step(rest_here, pending) is End);
                }
                self.peeking = Peek::NotPeeking;
                proof {
                    assert(self.rest() =~= Seq::<u8>::empty());
                }
                return Ok(None);
            }
            proof {
                assert(rest_here.len() > 0);
            }
            match read_item(&self.data, self.pos) {
                None => {
                    proof {
                        assert(step(rest_here, pending) is Fail);
                    }
                    self.peeking = Peek::NotPeeking;
                    return Err(DecodeError);
                },
                Some((d, newpos)) => {
                    proof {
                        crate::item::lemma_dec_item_bounds(rest_here);
                    }
                    let ghost n = (newpos - self.pos) as nat;
                    self.pos = newpos;
                    self.cur_item = d;
                    proof {
                        assert(self.rest() =~= rest_here.skip(n as int));
                    }
                    match d.item {
                        SpecificDisplayItem::SetGradientStops => {
                            let ghost before = self.rest();
                            match self.skip_slice::<GradientStop>() {
                                Err(e) => {
                                    proof {
                                        assert(step(rest_here, pending) is Fail);
                                    }
                                    self.peeking = Peek::NotPeeking;
                                    return Err(e);
                                },
                                Ok(p) => {
                                    self.cur_stops = p.0;
                                    proof {
                                        let (s, m) = dec_counted::<GradientStop>(
                                            before,
                                        ).unwrap();
                                        assert(self.rest() =~= rest_here.skip(
                                            n as int + m as int,
                                        ));
                                        assert(step(rest_here, pending) == shift_step(
                                            step(self.rest(), s),
                                            (n + m) as nat,
                                        ));
                                    }
                                    // a pseudo-item: keep reading
                                },
                            }
                        },
                        SpecificDisplayItem::Text(_) => {
                            let ghost before = self.rest();
                            match self.skip_slice::<GlyphInstance>() {
                                Err(e) => {
                                    proof {
                                        assert(step(rest_here, pending) is Fail);
                                    }
                                    self.peeking = Peek::NotPeeking;
                                    return Err(e);
                                },
                                Ok(p) => {
                                    self.cur_glyphs = p.0;
                                    proof {
                                        let (s, m) = dec_counted::<GlyphInstance>(
                                            before,
                                        ).unwrap();
                                        assert(step(rest_here, pending) == StepR::Next(
                                            self.cur_vis(),
                                            (n + m) as nat,
                                        ));
                                        assert(0 <= pos0);
                                        assert(pos0 <= self.pos);
                                        assert(self.pos <= self.data@.len());
                                        lemma_skip_shift(self.data@, pos0, self.pos as int);
                                        assert(v0.rest.skip(
                                            (self.pos - pos0) as int,
                                        ) == self.data@.skip(self.pos as int));
                                    }
                                    return Ok(Some(self.as_ref()));
                                },
                            }
                        },
                        SpecificDisplayItem::Clip(_) => {
                            let ghost before = self.rest();
                            match self.skip_slice::<ComplexClipRegion>() {
                                Err(e) => {
                                    proof {
                                        assert(step(rest_here, pending) is Fail);
                                    }
                                    self.peeking = Peek::NotPeeking;
                                    return Err(e);
                                },
                                Ok(p) => {
                                    self.cur_complex_clip = p;
                                    proof {
                                        let (s, m) = dec_counted::<ComplexClipRegion>(
                                            before,
                                        ).unwrap();
                                        assert(step(rest_here, pending) == StepR::Next(
                                            self.cur_vis(),
                                            (n + m) as nat,
                                        ));
                                        assert(0 <= pos0);
                                        assert(pos0 <= self.pos);
                                        assert(self.pos <= self.data@.len());
                                        lemma_skip_shift(self.data@, pos0, self.pos as int);
                                        assert(v0.rest.skip(
                                            (self.pos - pos0) as int,
                                        ) == self.data@.skip(self.pos as int));
                                    }
                                    return Ok(Some(self.as_ref()));
                                },
                            }
                        },
                        SpecificDisplayItem::ScrollFrame(_) => {
                            let ghost before = self.rest();
                            match self.skip_slice::<ComplexClipRegion>() {
                                Err(e) => {
                                    proof {
                                        assert(step(rest_here, pending) is Fail);
                                    }
                                    self.peeking = Peek::NotPeeking;
                                    return Err(e);
                                },
                                Ok(p) => {
                                    self.cur_complex_clip = p;
                                    proof {
                                        let (s, m) = dec_counted::<ComplexClipRegion>(
                                            before,
                                        ).unwrap();
                                        assert(step(rest_here, pending) == StepR::Next(
                                            self.cur_vis(),
                                            (n + m) as nat,
                                        ));
                                        assert(0 <= pos0);
                                        assert(pos0 <= self.pos);
                                        assert(self.pos <= self.data@.len());
                                        lemma_skip_shift(self.data@, pos0, self.pos as int);
                                        assert(v0.rest.skip(
                                            (self.pos - pos0) as int,
                                        ) == self.data@.skip(self.pos as int));
                                    }
                                    return Ok(Some(self.as_ref()));
                                },
                            }
                        },
                        SpecificDisplayItem::PushStackingContext(_) => {
                            let ghost before = self.rest();
                            match self.skip_slice::<FilterOp>() {
                                Err(e) => {
                                    proof {
                                        assert(step(rest_here, pending) is Fail);
                                    }
                                    self.peeking = Peek::NotPeeking;
                                    return Err(e);
                                },
                                Ok(p) => {
                                    self.cur_filters = p.0;
                                    proof {
                                        let (s, m) = dec_counted::<FilterOp>(before).unwrap();
                                        assert(step(rest_here, pending) == StepR::Next(
                                            self.cur_vis(),
                                            (n + m) as nat,
                                        ));
                                        assert(0 <= pos0);
                                        assert(pos0 <= self.pos);
                                        assert(self.pos <= self.data@.len());
                                        lemma_skip_shift(self.data@, pos0, self.pos as int);
                                        assert(v0.rest.skip(
                                            (self.pos - pos0) as int,
                                        ) == self.data@.skip(self.pos as int));
                                    }
                                    return Ok(Some(self.as_ref()));
                                },
                            }
                        },
                        _ => {
                            proof {
                                assert(step(rest_here, pending) == StepR::Next(
                                    self.cur_vis(),
                                    n,
                                ));
                                lemma_skip_shift(self.data@, pos0, self.pos as int);
                                assert(v0.rest.skip((self.pos - pos0) as int)
                                    == self.data@.skip(self.pos as int));
                            }
                            return Ok(Some(self.as_ref()));
                        },
                    }
                },
            }
        }
    }

    /// One item of lookahead: decodes the next item without consuming it, so
    /// repeated calls return the same item.
    pub fn peek(&mut self) -> (r: Result<Option<DisplayItemRef>, DecodeError>)
        requires
            old(self).wf(),
        ensures
            final(self).wf(),
            final(self).wf_basic(),
            final(self).list_bytes() == old(self).list_bytes(),
            match peek_spec(old(self).view_spec()).1 {
                Err(_) => r is Err,
                Ok(None) => r == Ok::<Option<DisplayItemRef>, DecodeError>(None),
                Ok(Some(vx)) => {
                    &&& r == Ok::<Option<DisplayItemRef>, DecodeError>(Some(final(self).cur_ref()))
                    &&& final(self).cur_vis() == vx
                    &&& final(self).cur_ref().item_spec() == vx.item
                },
            },
            peek_spec(old(self).view_spec()).1 is Ok ==> final(self).view_spec() == peek_spec(
                old(self).view_spec(),
            ).0,
    {
        if matches!(self.peeking, Peek::NotPeeking) {
            self.peeking = Peek::StartPeeking;
            self.next()
        } else {
            Ok(Some(self.as_ref()))
        }
    }
}


// ---------------------------------------------------------------------------
// Stacking-context traversal
// ---------------------------------------------------------------------------

/// Repeated `next` steps with a nesting counter: depth rises on a
/// stacking-context push and falls on a pop, and the walk stops just past the
/// pop that closes the context being skipped, or at a clean end of the
/// stream.  `None` means a malformed remainder.
pub open spec fn skip_spec(v: IterView, depth: nat) -> Option<IterView>
    decreases v.rest.len(), (if v.held is Some {
        1int
    } else {
        0int
    }),
    via skip_spec_dec
{
    match next_spec(v).1 {
        Err(_) => None,
        Ok(None) => Some(next_spec(v).0),
        Ok(Some(vx)) => {
            let v2 = next_spec(v).0;
            if vx.item.item is PopStackingContext {
                if depth == 0 {
                    Some(v2)
                } else {
                    skip_spec(v2, (depth - 1) as nat)
                }
            } else if vx.item.item is PushStackingContext {
                skip_spec(v2, depth + 1)
            } else {
                skip_spec(v2, depth)
            }
        },
    }
}

#[via_fn]
proof fn skip_spec_dec(v: IterView, depth: nat) {
    crate::stream::lemma_step_bounds(v.rest, Seq::empty());
}

impl BuiltDisplayListIter {
    /// Consumes items up to and including the pop that closes the current
    /// stacking context, counting nested pushes and pops; returns normally at
    /// a clean end of the stream, and reports a malformed remainder as an
    /// error.
    pub fn skip_current_stacking_context(&mut self) -> (r: Result<(), DecodeError>)
        requires
            old(self).wf(),
        ensures
            final(self).wf(),
            final(self).list_bytes() == old(self).list_bytes(),
            match skip_spec(old(self).view_spec(), 0) {
                None => r is Err,
                Some(v) => r is Ok && final(self).view_spec() == v,
            },
    {
        let total = self.data.len();
        proof {
            assert(old(self).rest().len() <= total);
        }
        let ghost v0 = self.view_spec();
        let mut depth: usize = 0;
        loop
            invariant
                self.wf(),
                self.list_bytes() == old(self).list_bytes(),
                self.rest().len() <= old(self).rest().len(),
                depth >= 1 ==> (depth - 1) * 107 <= old(self).rest().len() - self.rest().len(),
                self.peeked() ==> depth == 0,
                old(self).rest().len() <= usize::MAX,
                v0 == old(self).view_spec(),
                skip_spec(v0, 0) == skip_spec(self.view_spec(), depth as nat),
            decreases self.rest().len() + (if self.peeked() {
                1int
            } else {
                0int
            }),
        {
            let ghost vcur = self.view_spec();
            let ghost depth0 = depth as nat;
            match self.next() {
                Err(e) => {
                    proof {
                        assert(skip_spec(vcur, depth0) is None);
                    }
                    return Err(e);
                },
                Ok(None) => {
                    proof {
                        assert(skip_spec(vcur, depth0) == Some(next_spec(vcur).0));
                    }
                    return Ok(());
                },
                Ok(Some(item)) => {
                    proof {
                        crate::stream::lemma_step_bounds(vcur.rest, Seq::empty());
                    }
                    let is_pop = matches!(item.item(), SpecificDisplayItem::PopStackingContext);
                    let is_push = matches!(
                        item.item(),
                        SpecificDisplayItem::PushStackingContext(_),
                    );
                    if is_pop {
                        if depth == 0 {
                            proof {
                                assert(skip_spec(vcur, depth0) == Some(next_spec(vcur).0));
                            }
                            return Ok(());
                        }
                        depth = depth - 1;
                        proof {
                            assert(skip_spec(vcur, depth0) == skip_spec(
                                self.view_spec(),
                                depth as nat,
                            ));
                        }
                    } else if is_push {
                        proof {
                            assert(depth < usize::MAX) by (nonlinear_arith)
                                requires
                                    depth >= 1 ==> (depth - 1) * 107 <= usize::MAX,
                                    usize::MAX >= 0xffff_ffff,
                                    depth >= 0,
                            ;
                        }
                        depth = depth + 1;
                        proof {
                            assert(skip_spec(vcur, depth0) == skip_spec(
                                self.view_spec(),
                                depth as nat,
                            ));
                        }
                    } else {
                        proof {
                            assert(skip_spec(vcur, depth0) == skip_spec(
                                self.view_spec(),
                                depth as nat,
                            ));
                        }
                    }
                },
            }
        }
    }

    /// One `next` step: if it yields a stacking-context push, its context,
    /// bounding rectangle, and filter range; any other item (or the end of
    /// the stream) yields nothing, the item consumed either way.
    pub fn starting_stacking_context(&mut self) -> (r: Result<
        Option<(StackingContext, LayoutRect, ItemRange)>,
        DecodeError,
    >)
        requires
            old(self).wf(),
        ensures
            final(self).wf(),
            final(self).list_bytes() == old(self).list_bytes(),
            match next_spec(old(self).view_spec()).1 {
                Err(_) => r is Err,
                Ok(None) => r == Ok::<
                    Option<(StackingContext, LayoutRect, ItemRange)>,
                    DecodeError,
                >(None),
                Ok(Some(vx)) => match vx.item.item {
                    SpecificDisplayItem::PushStackingContext(p) => {
                        &&& r matches Ok(Some(t))
                        &&& t.0 == p.stacking_context
                        &&& t.1 == vx.item.info.rect
                        &&& range_items::<FilterOp>(final(self).list_bytes(), t.2) == Some(
                            vx.filters,
                        )
                    },
                    _ => r == Ok::<Option<(StackingContext, LayoutRect, ItemRange)>, DecodeError>(
                        None,
                    ),
                },
            },
            next_spec(old(self).view_spec()).1 is Ok ==> final(self).view_spec() == next_spec(
                old(self).view_spec(),
            ).0,
    {
        match self.next() {
            Err(e) => Err(e),
            Ok(None) => Ok(None),
            Ok(Some(item)) => match item.item() {
                SpecificDisplayItem::PushStackingContext(p) => Ok(
                    Some((p.stacking_context, item.rect(), item.filters())),
                ),
                _ => Ok(None),
            },
        }
    }

    /// Whether the current stacking context holds no further items: true
    /// exactly when one item of lookahead shows its closing pop, or the
    /// stream has ended.
    pub fn current_stacking_context_empty(&mut self) -> (r: Result<bool, DecodeError>)
        requires
            old(self).wf(),
        ensures
            final(self).wf(),
            final(self).list_bytes() == old(self).list_bytes(),
            match peek_spec(old(self).view_spec()).1 {
                Err(_) => r is Err,
                Ok(None) => r == Ok::<bool, DecodeError>(true),
                Ok(Some(vx)) => r == Ok::<bool, DecodeError>(
                    vx.item.item is PopStackingContext,
                ),
            },
            peek_spec(old(self).view_spec()).1 is Ok ==> final(self).view_spec() == peek_spec(
                old(self).view_spec(),
            ).0,
    {
        match self.peek() {
            Err(e) => Err(e),
            Ok(None) => Ok(true),
            Ok(Some(item)) => Ok(
                matches!(item.item(), SpecificDisplayItem::PopStackingContext),
            ),
        }
    }
}

} // verus!
