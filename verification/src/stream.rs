//! The stream model: what a display-list buffer means.
//!
//! A buffer is a concatenation of entries, each a display item optionally
//! followed by one counted auxiliary payload (glyphs for a text item, complex
//! clip regions for a clip or scroll-frame definition, filters for a
//! stacking-context push, stops for a stop-setting pseudo-item).  `walk` is
//! the reference reader: it decodes entry after entry, folds each
//! stop-setting pseudo-item into the item that follows it, and fails on any
//! malformed byte.  The two main lemmas say that walking an encoding yields
//! exactly the visible items that were appended, and that a buffer cut
//! anywhere strictly inside fails to walk.

use vstd::prelude::*;

use crate::counted::{dec_counted, enc_counted, lemma_counted_codec, lemma_counted_truncated};
use crate::item::{
    dec_item, enc_item, item_len, lemma_dec_item_bounds, lemma_item_codec, lemma_item_short,
    DisplayItem, SpecificDisplayItem,
};
use crate::payload::FilterOp;
use crate::records::{ComplexClipRegion, GlyphInstance, GradientStop};
use crate::wire::Wire;

verus! {

// ---------------------------------------------------------------------------
// Entries: the builder-side model of the buffer
// ---------------------------------------------------------------------------

/// The auxiliary payload attached to one entry.
pub enum Aux {
    NoAux,
    Glyphs(Seq<GlyphInstance>),
    Clips(Seq<ComplexClipRegion>),
    Filters(Seq<FilterOp>),
    Stops(Seq<GradientStop>),
}

/// One entry of the stream: an item and its attached payload.
pub struct Entry {
    pub item: DisplayItem,
    pub aux: Aux,
}

/// The payload variant an item kind carries.
pub open spec fn aux_kind_ok(e: Entry) -> bool {
    match e.item.item {
        SpecificDisplayItem::Clip(_) => e.aux is Clips,
        SpecificDisplayItem::ScrollFrame(_) => e.aux is Clips,
        SpecificDisplayItem::Text(_) => e.aux is Glyphs,
        SpecificDisplayItem::PushStackingContext(_) => e.aux is Filters,
        SpecificDisplayItem::SetGradientStops => e.aux is Stops,
        _ => e.aux is NoAux,
    }
}

/// The payload is small enough for its byte size to fit the size field.
pub open spec fn aux_size_ok(e: Entry) -> bool {
    match e.aux {
        Aux::NoAux => true,
        Aux::Glyphs(s) => s.len() * GlyphInstance::wlen() <= u64::MAX,
        Aux::Clips(s) => s.len() * ComplexClipRegion::wlen() <= u64::MAX,
        Aux::Filters(s) => s.len() * FilterOp::wlen() <= u64::MAX,
        Aux::Stops(s) => s.len() * GradientStop::wlen() <= u64::MAX,
    }
}

pub open spec fn entry_wf(e: Entry) -> bool {
    aux_kind_ok(e) && aux_size_ok(e)
}

pub open spec fn entries_wf(es: Seq<Entry>) -> bool {
    forall|i: int| 0 <= i < es.len() ==> #[trigger] entry_wf(es[i])
}

/// The encoding of an attached payload.
pub open spec fn enc_aux(a: Aux) -> Seq<u8> {
    match a {
        Aux::NoAux => Seq::empty(),
        Aux::Glyphs(s) => enc_counted(s),
        Aux::Clips(s) => enc_counted(s),
        Aux::Filters(s) => enc_counted(s),
        Aux::Stops(s) => enc_counted(s),
    }
}

/// The encoding of one entry.
pub open spec fn enc_entry(e: Entry) -> Seq<u8> {
    enc_item(e.item) + enc_aux(e.aux)
}

/// The encoding of a whole stream of entries.
pub open spec fn enc_entries(es: Seq<Entry>) -> Seq<u8>
    decreases es.len(),
{
    if es.len() == 0 {
        Seq::empty()
    } else {
        enc_entry(es[0]) + enc_entries(es.skip(1))
    }
}

/// Appending one entry appends its encoding.
pub proof fn lemma_enc_entries_push(es: Seq<Entry>, e: Entry)
    ensures
        enc_entries(es.push(e)) == enc_entries(es) + enc_entry(e),
    decreases es.len(),
{
    if es.len() == 0 {
        assert(es.push(e)[0] == e);
        assert(es.push(e).skip(1) =~= Seq::<Entry>::empty());
        assert(enc_entries(es.push(e)) == enc_entry(e) + enc_entries(Seq::<Entry>::empty()));
        assert(enc_entries(es.push(e)) =~= enc_entries(es) + enc_entry(e));
    } else {
        assert(es.push(e)[0] == es[0]);
        assert(es.push(e).skip(1) =~= es.skip(1).push(e));
        lemma_enc_entries_push(es.skip(1), e);
        assert(enc_entries(es.push(e)) == enc_entry(es[0]) + (enc_entries(es.skip(1)) + enc_entry(
            e,
        )));
        assert(enc_entries(es.push(e)) =~= enc_entries(es) + enc_entry(e));
    }
}

// ---------------------------------------------------------------------------
// Visible items: the reader-side model
// ---------------------------------------------------------------------------

/// One item as a reader sees it: the decoded record together with the
/// contents of every auxiliary payload attached to it, including the gradient
/// stops carried by the preceding stop-setting pseudo-item.
pub struct VisEntry {
    pub item: DisplayItem,
    pub stops: Seq<GradientStop>,
    pub glyphs: Seq<GlyphInstance>,
    pub filters: Seq<FilterOp>,
    pub clips: Seq<ComplexClipRegion>,
}

/// The reader's view of one entry, given the pending gradient stops.
pub open spec fn vis_of(e: Entry, pending: Seq<GradientStop>) -> VisEntry {
    VisEntry {
        item: e.item,
        stops: pending,
        glyphs: match e.aux {
            Aux::Glyphs(s) => s,
            _ => Seq::empty(),
        },
        filters: match e.aux {
            Aux::Filters(s) => s,
            _ => Seq::empty(),
        },
        clips: match e.aux {
            Aux::Clips(s) => s,
            _ => Seq::empty(),
        },
    }
}

/// The visible items of a stream of entries: every entry in order, with
/// stop-setting pseudo-items folded into the item that follows them.
pub open spec fn visible(es: Seq<Entry>, pending: Seq<GradientStop>) -> Seq<VisEntry>
    decreases es.len(),
{
    if es.len() == 0 {
        Seq::empty()
    } else {
        match es[0].aux {
            Aux::Stops(s) => visible(es.skip(1), s),
            _ => seq![vis_of(es[0], pending)] + visible(es.skip(1), Seq::empty()),
        }
    }
}

// ---------------------------------------------------------------------------
// The reference reader
// ---------------------------------------------------------------------------

/// The outcome of reading one visible item from the front of a buffer.
pub enum StepR {
    /// A malformed byte was reached.
    Fail,
    /// The buffer holds no further visible item.
    End,
    /// A visible item, and the bytes consumed up to and including it.
    Next(VisEntry, nat),
}

/// Reads one visible item from the front of `b`: decodes an item, decodes its
/// attached payload, and keeps reading through stop-setting pseudo-items.
pub open spec fn step(b: Seq<u8>, pending: Seq<GradientStop>) -> StepR
    decreases b.len(),
    via step_dec
{
    if b.len() == 0 {
        StepR::End
    } else {
        match dec_item(b) {
            None => StepR::Fail,
            Some((d, n)) => {
                let rest = b.skip(n as int);
                match d.item {
                    SpecificDisplayItem::SetGradientStops => {
                        match dec_counted::<GradientStop>(rest) {
                            None => StepR::Fail,
                            Some((stops, m)) => match step(b.skip(n as int + m as int), stops) {
                                StepR::Fail => StepR::Fail,
                                StepR::End => StepR::End,
                                StepR::Next(v, c) => StepR::Next(v, (n + m + c) as nat),
                            },
                        }
                    },
                    SpecificDisplayItem::Text(_) => {
                        match dec_counted::<GlyphInstance>(rest) {
                            None => StepR::Fail,
                            Some((g, m)) => StepR::Next(
                                VisEntry {
                                    item: d,
                                    stops: pending,
                                    glyphs: g,
                                    filters: Seq::empty(),
                                    clips: Seq::empty(),
                                },
                                (n + m) as nat,
                            ),
                        }
                    },
                    SpecificDisplayItem::Clip(_) => {
                        match dec_counted::<ComplexClipRegion>(rest) {
                            None => StepR::Fail,
                            Some((cl, m)) => StepR::Next(
                                VisEntry {
                                    item: d,
                                    stops: pending,
                                    glyphs: Seq::empty(),
                                    filters: Seq::empty(),
                                    clips: cl,
                                },
                                (n + m) as nat,
                            ),
                        }
                    },
                    SpecificDisplayItem::ScrollFrame(_) => {
                        match dec_counted::<ComplexClipRegion>(rest) {
                            None => StepR::Fail,
                            Some((cl, m)) => StepR::Next(
                                VisEntry {
                                    item: d,
                                    stops: pending,
                                    glyphs: Seq::empty(),
                                    filters: Seq::empty(),
                                    clips: cl,
                                },
                                (n + m) as nat,
                            ),
                        }
                    },
                    SpecificDisplayItem::PushStackingContext(_) => {
                        match dec_counted::<FilterOp>(rest) {
                            None => StepR::Fail,
                            Some((f, m)) => StepR::Next(
                                VisEntry {
                                    item: d,
                                    stops: pending,
                                    glyphs: Seq::empty(),
                                    filters: f,
                                    clips: Seq::empty(),
                                },
                                (n + m) as nat,
                            ),
                        }
                    },
                    _ => StepR::Next(
                        VisEntry {
                            item: d,
                            stops: pending,
                            glyphs: Seq::empty(),
                            filters: Seq::empty(),
                            clips: Seq::empty(),
                        },
                        n,
                    ),
                }
            },
        }
    }
}

#[via_fn]
proof fn step_dec(b: Seq<u8>, pending: Seq<GradientStop>) {
    lemma_dec_item_bounds(b);
}

/// One visible step consumes at least one item record and never more than
/// the buffer.
pub proof fn lemma_step_bounds(b: Seq<u8>, pending: Seq<GradientStop>)
    ensures
        step(b, pending) matches StepR::Next(v, c) ==> 107 <= c <= b.len(),
    decreases b.len(),
{
    if b.len() == 0 {
    } else {
        lemma_dec_item_bounds(b);
        match dec_item(b) {
            None => {},
            Some((d, n)) => {
                if d.item is SetGradientStops {
                    match dec_counted::<GradientStop>(b.skip(n as int)) {
                        None => {},
                        Some((stops, m)) => {
                            lemma_step_bounds(b.skip(n as int + m as int), stops);
                        },
                    }
                }
            },
        }
    }
}

/// Reads every visible item of `b`, or fails if any byte of `b` is
/// malformed.
pub open spec fn walk(b: Seq<u8>, pending: Seq<GradientStop>) -> Option<Seq<VisEntry>>
    decreases b.len(),
    via walk_dec
{
    match step(b, pending) {
        StepR::Fail => None,
        StepR::End => Some(Seq::empty()),
        StepR::Next(v, c) => match walk(b.skip(c as int), Seq::empty()) {
            None => None,
            Some(s) => Some(seq![v] + s),
        },
    }
}

#[via_fn]
proof fn walk_dec(b: Seq<u8>, pending: Seq<GradientStop>) {
    lemma_step_bounds(b, pending);
}

// ---------------------------------------------------------------------------
// Round trip and truncation
// ---------------------------------------------------------------------------

/// Walking the encoding of well-formed entries yields exactly their visible
/// items, in order.
#[verifier::rlimit(100)]
#[verifier::spinoff_prover]
pub proof fn lemma_walk_entries(es: Seq<Entry>, pending: Seq<GradientStop>)
    requires
        entries_wf(es),
    ensures
        walk(enc_entries(es), pending) == Some(visible(es, pending)),
    decreases es.len(),
{
    if es.len() == 0 {
        assert(enc_entries(es).len() == 0);
    } else {
        let e0 = es[0];
        let es1 = es.skip(1);
        assert(entry_wf(e0));
        assert(entries_wf(es1)) by {
            assert(forall|i: int|
                0 <= i < es1.len() ==> es1[i] == es[i + 1] && #[trigger] entry_wf(es1[i]));
        }
        let b = enc_entries(es);
        let tail = enc_entries(es1);
        let n = item_len(e0.item);
        lemma_item_codec(e0.item, enc_aux(e0.aux) + tail);
        assert(b =~= enc_item(e0.item) + (enc_aux(e0.aux) + tail));
        assert(b.skip(n as int) =~= enc_aux(e0.aux) + tail);
        assert(b.len() > 0);
        match e0.aux {
            Aux::Stops(s) => {
                lemma_counted_codec::<GradientStop>(s, tail);
                let m = 16 + s.len() * GradientStop::wlen();
                assert(b.skip(n as int + m as int) =~= tail);
                lemma_walk_entries(es1, s);
                lemma_step_bounds(tail, s);
                match step(tail, s) {
                    StepR::Fail => {},
                    StepR::End => {
                        assert(step(b, pending) is End);
                        assert(walk(b, pending) == Some(Seq::<VisEntry>::empty()));
                    },
                    StepR::Next(v, c) => {
                        assert(b.skip(n as int + m as int + c as int) =~= tail.skip(c as int));
                        assert(step(b, pending) == StepR::Next(v, (n + m + c) as nat));
                    },
                }
            },
            Aux::Glyphs(s) => {
                lemma_counted_codec::<GlyphInstance>(s, tail);
                let m = 16 + s.len() * GlyphInstance::wlen();
                assert(b.skip(n as int + m as int) =~= tail);
                lemma_walk_entries(es1, Seq::empty());
                assert(step(b, pending) == StepR::Next(vis_of(e0, pending), (n + m) as nat));
            },
            Aux::Clips(s) => {
                lemma_counted_codec::<ComplexClipRegion>(s, tail);
                let m = 16 + s.len() * ComplexClipRegion::wlen();
                assert(b.skip(n as int + m as int) =~= tail);
                lemma_walk_entries(es1, Seq::empty());
                assert(step(b, pending) == StepR::Next(vis_of(e0, pending), (n + m) as nat));
            },
            Aux::Filters(s) => {
                lemma_counted_codec::<FilterOp>(s, tail);
                let m = 16 + s.len() * FilterOp::wlen();
                assert(b.skip(n as int + m as int) =~= tail);
                lemma_walk_entries(es1, Seq::empty());
                assert(step(b, pending) == StepR::Next(vis_of(e0, pending), (n + m) as nat));
            },
            Aux::NoAux => {
                assert(enc_aux(e0.aux) =~= Seq::<u8>::empty());
                assert(b.skip(n as int) =~= tail);
                lemma_walk_entries(es1, Seq::empty());
                assert(step(b, pending) == StepR::Next(vis_of(e0, pending), n));
            },
        }
    }
}

/// Dropping the final byte of a well-formed, non-empty encoding makes it
/// fail to walk: the reader reports a malformed stream rather than
/// misreading.
pub proof fn lemma_walk_truncated(es: Seq<Entry>, pending: Seq<GradientStop>, k: int)
    requires
        entries_wf(es),
        es.len() > 0,
        k == enc_entries(es).len() - 1,
    ensures
        walk(enc_entries(es).take(k), pending) is None,
    decreases es.len(), 5int,
{
    let e0 = es[0];
    let es1 = es.skip(1);
    assert(entry_wf(e0));
    lemma_entries_wf_skip(es);
    let b = enc_entries(es);
    let tail = enc_entries(es1);
    let n = item_len(e0.item);
    lemma_item_codec(e0.item, enc_aux(e0.aux) + tail);
    assert(b =~= enc_item(e0.item) + (enc_aux(e0.aux) + tail));
    let t = b.take(k);
    if k < n {
        assert(t =~= enc_item(e0.item).take(k));
        lemma_item_short(e0.item, k);
        assert(t.len() == k && k >= 106);
        assert(step(t, pending) is Fail);
    } else {
        match e0.aux {
            Aux::Stops(s) => lemma_truncated_stops(es, pending, k),
            Aux::Glyphs(s) => lemma_truncated_glyphs(es, pending, k),
            Aux::Clips(s) => lemma_truncated_clips(es, pending, k),
            Aux::Filters(s) => lemma_truncated_filters(es, pending, k),
            Aux::NoAux => lemma_truncated_noaux(es, pending, k),
        }
    }
}

proof fn lemma_entries_wf_skip(es: Seq<Entry>)
    requires
        entries_wf(es),
        es.len() > 0,
    ensures
        entries_wf(es.skip(1)),
{
    let es1 = es.skip(1);
    assert(forall|i: int| 0 <= i < es1.len() ==> es1[i] == es[i + 1] && #[trigger] entry_wf(es1[i]));
}

#[verifier::rlimit(100)]
#[verifier::spinoff_prover]
proof fn lemma_truncated_noaux(es: Seq<Entry>, pending: Seq<GradientStop>, k: int)
    requires
        entries_wf(es),
        es.len() > 0,
        es[0].aux is NoAux,
        k == enc_entries(es).len() - 1,
        k >= item_len(es[0].item),
    ensures
        walk(enc_entries(es).take(k), pending) is None,
    decreases es.len(), 0int,
{
    let e0 = es[0];
    let es1 = es.skip(1);
    assert(entry_wf(e0));
    lemma_entries_wf_skip(es);
    let b = enc_entries(es);
    let tail = enc_entries(es1);
    let n = item_len(e0.item);
    lemma_item_codec(e0.item, enc_aux(e0.aux) + tail);
    assert(b =~= enc_item(e0.item) + (enc_aux(e0.aux) + tail));
    assert(enc_aux(e0.aux) =~= Seq::<u8>::empty());
    let t = b.take(k);
    let tail_t = tail.take(k - n);
    assert(t =~= enc_item(e0.item) + tail_t);
    lemma_item_codec(e0.item, tail_t);
    assert(t.skip(n as int) =~= tail_t);
    assert(es1.len() > 0);
    lemma_walk_truncated(es1, Seq::empty(), k - n);
    assert(step(t, pending) == StepR::Next(vis_of(e0, pending), n));
}

#[verifier::rlimit(100)]
#[verifier::spinoff_prover]
proof fn lemma_truncated_glyphs(es: Seq<Entry>, pending: Seq<GradientStop>, k: int)
    requires
        entries_wf(es),
        es.len() > 0,
        es[0].aux is Glyphs,
        k == enc_entries(es).len() - 1,
        k >= item_len(es[0].item),
    ensures
        walk(enc_entries(es).take(k), pending) is None,
    decreases es.len(), 0int,
{
    let e0 = es[0];
    let es1 = es.skip(1);
    assert(entry_wf(e0));
    lemma_entries_wf_skip(es);
    let b = enc_entries(es);
    let tail = enc_entries(es1);
    let n = item_len(e0.item);
    lemma_item_codec(e0.item, enc_aux(e0.aux) + tail);
    assert(b =~= enc_item(e0.item) + (enc_aux(e0.aux) + tail));
    let t = b.take(k);
    match e0.aux {
        Aux::Glyphs(s) => {
            lemma_counted_codec::<GlyphInstance>(s, tail);
            let m = 16 + s.len() * GlyphInstance::wlen();
            if k < n + m {
                let chopped = enc_counted::<GlyphInstance>(s).take(k - n);
                assert(t =~= enc_item(e0.item) + chopped);
                lemma_item_codec(e0.item, chopped);
                assert(t.skip(n as int) =~= chopped);
                lemma_counted_truncated::<GlyphInstance>(s, k - n);
                assert(step(t, pending) is Fail);
            } else {
                let tail_t = tail.take(k - n - m);
                assert(t =~= enc_item(e0.item) + (enc_counted(s) + tail_t));
                lemma_item_codec(e0.item, enc_counted(s) + tail_t);
                assert(t.skip(n as int) =~= enc_counted(s) + tail_t);
                lemma_counted_codec::<GlyphInstance>(s, tail_t);
                assert(t.skip(n as int + m as int) =~= tail_t);
                assert(es1.len() > 0);
                lemma_walk_truncated(es1, Seq::empty(), k - n - m);
                assert(step(t, pending) == StepR::Next(vis_of(e0, pending), (n + m) as nat));
            }
        },
        _ => {},
    }
}

#[verifier::rlimit(100)]
#[verifier::spinoff_prover]
proof fn lemma_truncated_clips(es: Seq<Entry>, pending: Seq<GradientStop>, k: int)
    requires
        entries_wf(es),
        es.len() > 0,
        es[0].aux is Clips,
        k == enc_entries(es).len() - 1,
        k >= item_len(es[0].item),
    ensures
        walk(enc_entries(es).take(k), pending) is None,
    decreases es.len(), 0int,
{
    let e0 = es[0];
    let es1 = es.skip(1);
    assert(entry_wf(e0));
    lemma_entries_wf_skip(es);
    let b = enc_entries(es);
    let tail = enc_entries(es1);
    let n = item_len(e0.item);
    lemma_item_codec(e0.item, enc_aux(e0.aux) + tail);
    assert(b =~= enc_item(e0.item) + (enc_aux(e0.aux) + tail));
    let t = b.take(k);
    match e0.aux {
        Aux::Clips(s) => {
            lemma_counted_codec::<ComplexClipRegion>(s, tail);
            let m = 16 + s.len() * ComplexClipRegion::wlen();
            if k < n + m {
                let chopped = enc_counted::<ComplexClipRegion>(s).take(k - n);
                assert(t =~= enc_item(e0.item) + chopped);
                lemma_item_codec(e0.item, chopped);
                assert(t.skip(n as int) =~= chopped);
                lemma_counted_truncated::<ComplexClipRegion>(s, k - n);
                assert(step(t, pending) is Fail);
            } else {
                let tail_t = tail.take(k - n - m);
                assert(t =~= enc_item(e0.item) + (enc_counted(s) + tail_t));
                lemma_item_codec(e0.item, enc_counted(s) + tail_t);
                assert(t.skip(n as int) =~= enc_counted(s) + tail_t);
                lemma_counted_codec::<ComplexClipRegion>(s, tail_t);
                assert(t.skip(n as int + m as int) =~= tail_t);
                assert(es1.len() > 0);
                lemma_walk_truncated(es1, Seq::empty(), k - n - m);
                assert(step(t, pending) == StepR::Next(vis_of(e0, pending), (n + m) as nat));
            }
        },
        _ => {},
    }
}

#[verifier::rlimit(100)]
#[verifier::spinoff_prover]
proof fn lemma_truncated_filters(es: Seq<Entry>, pending: Seq<GradientStop>, k: int)
    requires
        entries_wf(es),
        es.len() > 0,
        es[0].aux is Filters,
        k == enc_entries(es).len() - 1,
        k >= item_len(es[0].item),
    ensures
        walk(enc_entries(es).take(k), pending) is None,
    decreases es.len(), 0int,
{
    let e0 = es[0];
    let es1 = es.skip(1);
    assert(entry_wf(e0));
    lemma_entries_wf_skip(es);
    let b = enc_entries(es);
    let tail = enc_entries(es1);
    let n = item_len(e0.item);
    lemma_item_codec(e0.item, enc_aux(e0.aux) + tail);
    assert(b =~= enc_item(e0.item) + (enc_aux(e0.aux) + tail));
    let t = b.take(k);
    match e0.aux {
        Aux::Filters(s) => {
            lemma_counted_codec::<FilterOp>(s, tail);
            let m = 16 + s.len() * FilterOp::wlen();
            if k < n + m {
                let chopped = enc_counted::<FilterOp>(s).take(k - n);
                assert(t =~= enc_item(e0.item) + chopped);
                lemma_item_codec(e0.item, chopped);
                assert(t.skip(n as int) =~= chopped);
                lemma_counted_truncated::<FilterOp>(s, k - n);
                assert(step(t, pending) is Fail);
            } else {
                let tail_t = tail.take(k - n - m);
                assert(t =~= enc_item(e0.item) + (enc_counted(s) + tail_t));
                lemma_item_codec(e0.item, enc_counted(s) + tail_t);
                assert(t.skip(n as int) =~= enc_counted(s) + tail_t);
                lemma_counted_codec::<FilterOp>(s, tail_t);
                assert(t.skip(n as int + m as int) =~= tail_t);
                assert(es1.len() > 0);
                lemma_walk_truncated(es1, Seq::empty(), k - n - m);
                assert(step(t, pending) == StepR::Next(vis_of(e0, pending), (n + m) as nat));
            }
        },
        _ => {},
    }
}

#[verifier::rlimit(100)]
#[verifier::spinoff_prover]
proof fn lemma_truncated_stops(es: Seq<Entry>, pending: Seq<GradientStop>, k: int)
    requires
        entries_wf(es),
        es.len() > 0,
        es[0].aux is Stops,
        k == enc_entries(es).len() - 1,
        k >= item_len(es[0].item),
    ensures
        walk(enc_entries(es).take(k), pending) is None,
    decreases es.len(), 0int,
{
    let e0 = es[0];
    let es1 = es.skip(1);
    assert(entry_wf(e0));
    lemma_entries_wf_skip(es);
    let b = enc_entries(es);
    let tail = enc_entries(es1);
    let n = item_len(e0.item);
    lemma_item_codec(e0.item, enc_aux(e0.aux) + tail);
    assert(b =~= enc_item(e0.item) + (enc_aux(e0.aux) + tail));
    let t = b.take(k);
    match e0.aux {
        Aux::Stops(s) => {
            lemma_counted_codec::<GradientStop>(s, tail);
            let m = 16 + s.len() * GradientStop::wlen();
            if k < n + m {
                let chopped = enc_counted::<GradientStop>(s).take(k - n);
                assert(t =~= enc_item(e0.item) + chopped);
                lemma_item_codec(e0.item, chopped);
                assert(t.skip(n as int) =~= chopped);
                lemma_counted_truncated::<GradientStop>(s, k - n);
                assert(step(t, pending) is Fail);
            } else {
                let tail_t = tail.take(k - n - m);
                assert(t =~= enc_item(e0.item) + (enc_counted(s) + tail_t));
                lemma_item_codec(e0.item, enc_counted(s) + tail_t);
                assert(t.skip(n as int) =~= enc_counted(s) + tail_t);
                lemma_counted_codec::<GradientStop>(s, tail_t);
                assert(t.skip(n as int + m as int) =~= tail_t);
                assert(es1.len() > 0);
                lemma_walk_truncated(es1, s, k - n - m);
                lemma_step_bounds(tail_t, s);
                match step(tail_t, s) {
                    StepR::Fail => {
                        assert(step(t, pending) is Fail);
                    },
                    StepR::End => {
                        assert(walk(tail_t, s) == Some(Seq::<VisEntry>::empty()));
                    },
                    StepR::Next(v, c) => {
                        assert(t.skip(n as int + m as int + c as int) =~= tail_t.skip(c as int));
                        assert(step(t, pending) == StepR::Next(v, (n + m + c) as nat));
                        assert(walk(tail_t, s) == match walk(tail_t.skip(c as int), Seq::empty()) {
                            None => None::<Seq<VisEntry>>,
                            Some(s2) => Some(seq![v] + s2),
                        });
                    },
                }
            }
        },
        _ => {},
    }
}

} // verus!
