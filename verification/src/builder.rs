//! The display-list builder: the stateful construction API.
//!
//! A builder owns the growable byte buffer, a never-empty clip/scroll scope
//! stack whose bottom entry is the pipeline's root scroll scope, a monotonic
//! clip-id counter starting at 1 (0 names the root), and at most one pending
//! save checkpoint for single-level transactional rollback.

use vstd::prelude::*;

use crate::clock::now_ns;
use crate::color::ColorU;
use crate::counted::put_counted;
use crate::item::{enc_item, put_item, DisplayItem, SpecificDisplayItem};
use crate::list::{BuiltDisplayList, BuiltDisplayListDescriptor};
use crate::payload::{
    BorderDetails, BorderDisplayItem, BoxShadowDisplayItem, ClipDisplayItem, FilterOp, Gradient,
    GradientDisplayItem, IframeDisplayItem, ImageDisplayItem, LineDisplayItem,
    PushStackingContextDisplayItem, RadialGradient, RadialGradientDisplayItem,
    RectangleDisplayItem, ScrollFrameDisplayItem, Shadow, StackingContext,
    StickyFrameDisplayItem, TextDisplayItem, YuvData, YuvImageDisplayItem,
};
use crate::records::{
    BorderWidths, BoxShadowClipMode, ClipAndScrollInfo, ClipId, ComplexClipRegion, ExtendMode,
    FontInstanceKey, GlyphInstance, GlyphOptions, GradientStop, ImageKey, ImageMask,
    ImageRendering, LayoutPoint, LayoutPrimitiveInfo, LayoutRect, LayoutSize, LayoutVector2D,
    LineOrientation, LineStyle, MixBlendMode, PipelineId, ScrollPolicy, ScrollSensitivity,
    SideOffsets, StickyOffsetBounds, TransformStyle, YuvColorSpace, SCALE,
};
use crate::stream::{enc_entries, entries_wf, entry_wf, lemma_enc_entries_push, Aux, Entry};
use crate::wire::Wire;

verus! {

/// The longest glyph run one text item may carry; longer runs are split.
pub const MAX_TEXT_RUN_LENGTH: usize = 2038;

/// The gradient-stop span at or below which a gradient counts as degenerate,
/// in fixed-point units.
pub const GRADIENT_EPSILON: i64 = 1;

/// A saved checkpoint: the buffer length, scope-stack depth, and id counter
/// at the time of `save`, with ghost copies of the entries and scopes for the
/// rollback proof.
#[derive(Clone)]
pub struct SaveState {
    dl_len: usize,
    clip_stack_len: usize,
    next_clip_id: u64,
    saved_entries: Ghost<Seq<Entry>>,
    saved_stack: Ghost<Seq<ClipAndScrollInfo>>,
}

/// A snapshot of the builder state that save/restore preserves exactly.
pub struct BuilderSnap {
    pub data: Seq<u8>,
    pub entries: Seq<Entry>,
    pub scope_stack: Seq<ClipAndScrollInfo>,
    pub next_id: u64,
}

/// The display-list construction API.
pub struct DisplayListBuilder {
    pub data: Vec<u8>,
    pub pipeline_id: PipelineId,
    clip_stack: Vec<ClipAndScrollInfo>,
    next_clip_id: u64,
    builder_start_time: u64,
    content_size: LayoutSize,
    save_state: Option<SaveState>,
    entries: Ghost<Seq<Entry>>,
}

impl DisplayListBuilder {
    /// The entries appended so far; the buffer is exactly their encoding.
    pub closed spec fn entries(self) -> Seq<Entry> {
        self.entries@
    }

    /// The encoded bytes appended so far.
    pub closed spec fn buffer(self) -> Seq<u8> {
        self.data@
    }

    pub closed spec fn pipeline_spec(self) -> PipelineId {
        self.pipeline_id
    }

    /// The construction-start timestamp captured when the builder was made.
    pub closed spec fn start_time_spec(self) -> u64 {
        self.builder_start_time
    }

    pub closed spec fn scope_stack(self) -> Seq<ClipAndScrollInfo> {
        self.clip_stack@
    }

    /// The scope the next pushed item is tagged with.
    pub open spec fn cur_scope(self) -> ClipAndScrollInfo
        recommends
            self.scope_stack().len() >= 1,
    {
        self.scope_stack().last()
    }

    pub closed spec fn next_id(self) -> u64 {
        self.next_clip_id
    }

    pub closed spec fn content_size_spec(self) -> LayoutSize {
        self.content_size
    }

    pub closed spec fn has_save(self) -> bool {
        self.save_state is Some
    }

    pub closed spec fn saved_scope_depth(self) -> nat {
        self.save_state.unwrap().clip_stack_len as nat
    }

    /// The state a `restore` would roll back to.
    pub closed spec fn saved_snap(self) -> BuilderSnap
        recommends
            self.has_save(),
    {
        let s = self.save_state.unwrap();
        BuilderSnap {
            data: enc_entries(s.saved_entries@),
            entries: s.saved_entries@,
            scope_stack: s.saved_stack@,
            next_id: s.next_clip_id,
        }
    }

    /// The current state, as save/restore sees it.
    pub closed spec fn snap(self) -> BuilderSnap {
        BuilderSnap {
            data: self.data@,
            entries: self.entries@,
            scope_stack: self.clip_stack@,
            next_id: self.next_clip_id,
        }
    }

    pub closed spec fn wf(self) -> bool {
        &&& self.data@ == enc_entries(self.entries@)
        &&& entries_wf(self.entries@)
        &&& self.clip_stack@.len() >= 1
        &&& self.clip_stack@[0] == ClipAndScrollInfo::simple(
            ClipId::root_scroll_node(self.pipeline_id),
        )
        &&& self.next_clip_id >= 1
        &&& match self.save_state {
            None => true,
            Some(s) => {
                &&& s.dl_len <= self.data@.len()
                &&& 1 <= s.clip_stack_len <= self.clip_stack@.len()
                &&& s.next_clip_id >= 1
                &&& self.data@.take(s.dl_len as int) == enc_entries(s.saved_entries@)
                &&& entries_wf(s.saved_entries@)
                &&& self.clip_stack@.take(s.clip_stack_len as int) == s.saved_stack@
            },
        }
    }
}


impl DisplayListBuilder {
    pub fn new(pipeline_id: PipelineId, content_size: LayoutSize) -> (r: DisplayListBuilder)
        ensures
            r.wf(),
            r.entries() == Seq::<Entry>::empty(),
            r.buffer() == Seq::<u8>::empty(),
            r.scope_stack() == seq![
                ClipAndScrollInfo::simple(ClipId::root_scroll_node(pipeline_id)),
            ],
            r.next_id() == 1,
            r.pipeline_spec() == pipeline_id,
            r.content_size_spec() == content_size,
            !r.has_save(),
    {
        Self::with_capacity(pipeline_id, content_size, 0)
    }

    pub fn with_capacity(
        pipeline_id: PipelineId,
        content_size: LayoutSize,
        capacity: usize,
    ) -> (r: DisplayListBuilder)
        ensures
            r.wf(),
            r.entries() == Seq::<Entry>::empty(),
            r.buffer() == Seq::<u8>::empty(),
            r.scope_stack() == seq![
                ClipAndScrollInfo::simple(ClipId::root_scroll_node(pipeline_id)),
            ],
            r.next_id() == 1,
            r.pipeline_spec() == pipeline_id,
            r.content_size_spec() == content_size,
            !r.has_save(),
    {
        let start_time = now_ns();
        let mut clip_stack: Vec<ClipAndScrollInfo> = Vec::new();
        clip_stack.push(ClipAndScrollInfo::simple(ClipId::root_scroll_node(pipeline_id)));
        let r = DisplayListBuilder {
            data: Vec::with_capacity(capacity),
            pipeline_id,
            clip_stack,
            // id 0 is reserved for the root scroll scope
            next_clip_id: 1,
            builder_start_time: start_time,
            content_size,
            save_state: None,
            entries: Ghost(Seq::empty()),
        };
        proof {
            assert(r.scope_stack() =~= seq![
                ClipAndScrollInfo::simple(ClipId::root_scroll_node(pipeline_id)),
            ]);
        }
        r
    }

    /// The scope stack invariant: the stack is never empty and its bottom
    /// entry is always the pipeline's root scroll scope.
    pub proof fn lemma_scope_stack_nonempty(self)
        requires
            self.wf(),
        ensures
            self.scope_stack().len() >= 1,
            self.scope_stack()[0] == ClipAndScrollInfo::simple(
                ClipId::root_scroll_node(self.pipeline_spec()),
            ),
    {
    }

    /// Save/restore identity: `save` records the current snapshot, every
    /// later operation leaves the recorded snapshot unchanged, and `restore`
    /// ensures the state equals the recorded snapshot; so the state after
    /// `restore` is exactly the state at `save`, whatever ran in between.
    pub proof fn lemma_save_restore_identity(at_save: DisplayListBuilder, later: DisplayListBuilder)
        requires
            at_save.has_save(),
            later.has_save(),
            at_save.saved_snap() == at_save.snap(),
            later.saved_snap() == at_save.saved_snap(),
        ensures
            later.saved_snap() == at_save.snap(),
    {
    }

    fn scope_top(&self) -> (r: ClipAndScrollInfo)
        requires
            self.scope_stack().len() >= 1,
        ensures
            r == self.cur_scope(),
    {
        self.clip_stack[self.clip_stack.len() - 1]
    }

    /// Appends one entry with no auxiliary payload.
    fn push_entry_plain(&mut self, item: SpecificDisplayItem, info: &LayoutPrimitiveInfo, cas: ClipAndScrollInfo)
        requires
            old(self).wf(),
            ({
                let e = Entry {
                    item: DisplayItem { item, clip_and_scroll: cas, info: *info },
                    aux: Aux::NoAux,
                };
                entry_wf(e)
            }),
        ensures
            final(self).wf(),
            final(self).entries() == old(self).entries().push(
                Entry {
                    item: DisplayItem { item, clip_and_scroll: cas, info: *info },
                    aux: Aux::NoAux,
                },
            ),
            final(self).scope_stack() == old(self).scope_stack(),
            final(self).next_id() == old(self).next_id(),
            final(self).pipeline_spec() == old(self).pipeline_spec(),
            final(self).content_size_spec() == old(self).content_size_spec(),
            final(self).start_time_spec() == old(self).start_time_spec(),
            final(self).has_save() == old(self).has_save(),
            final(self).has_save() ==> final(self).saved_snap() == old(self).saved_snap(),
            final(self).saved_scope_depth() == old(self).saved_scope_depth(),
    {
        let d = DisplayItem { item, clip_and_scroll: cas, info: *info };
        put_item(&d, &mut self.data);
        let ghost e = Entry { item: d, aux: Aux::NoAux };
        proof {
            lemma_enc_entries_push(self.entries@, e);
            assert(crate::stream::enc_aux(e.aux) =~= Seq::<u8>::empty());
            assert(enc_entries(self.entries@.push(e)) =~= old(self).data@ + enc_item(d));
            lemma_entries_wf_push(self.entries@, e);
        }
        self.entries = Ghost(self.entries@.push(e));
        proof {
            assert(self.data@.take(old(self).data@.len() as int) =~= old(self).data@);
            lemma_save_prefix_grow(*old(self), *self);
        }
    }

    /// Appends one entry together with its counted auxiliary payload.
    fn push_entry_glyphs(&mut self, item: SpecificDisplayItem, info: &LayoutPrimitiveInfo, cas: ClipAndScrollInfo, elems: &Vec<GlyphInstance>)
        requires
            old(self).wf(),
            item is Text,
        ensures
            final(self).wf(),
            final(self).entries() == old(self).entries().push(
                Entry {
                    item: DisplayItem { item, clip_and_scroll: cas, info: *info },
                    aux: Aux::Glyphs(elems@),
                },
            ),
            final(self).scope_stack() == old(self).scope_stack(),
            final(self).next_id() == old(self).next_id(),
            final(self).pipeline_spec() == old(self).pipeline_spec(),
            final(self).content_size_spec() == old(self).content_size_spec(),
            final(self).start_time_spec() == old(self).start_time_spec(),
            final(self).has_save() == old(self).has_save(),
            final(self).has_save() ==> final(self).saved_snap() == old(self).saved_snap(),
            final(self).saved_scope_depth() == old(self).saved_scope_depth(),
    {
        let d = DisplayItem { item, clip_and_scroll: cas, info: *info };
        put_item(&d, &mut self.data);
        put_counted(&mut self.data, elems);
        let ghost e = Entry { item: d, aux: Aux::Glyphs(elems@) };
        proof {
            lemma_enc_entries_push(self.entries@, e);
            assert(enc_entries(self.entries@.push(e)) =~= old(self).data@ + (enc_item(d)
                + crate::counted::enc_counted(elems@)));
            assert(self.data@ =~= old(self).data@ + (enc_item(d) + crate::counted::enc_counted(
                elems@,
            )));
            lemma_entries_wf_push(self.entries@, e);
        }
        self.entries = Ghost(self.entries@.push(e));
        proof {
            assert(self.data@.take(old(self).data@.len() as int) =~= old(self).data@);
            lemma_save_prefix_grow(*old(self), *self);
        }
    }

    fn push_entry_clips(&mut self, item: SpecificDisplayItem, info: &LayoutPrimitiveInfo, cas: ClipAndScrollInfo, elems: &Vec<ComplexClipRegion>)
        requires
            old(self).wf(),
            item is Clip || item is ScrollFrame,
        ensures
            final(self).wf(),
            final(self).entries() == old(self).entries().push(
                Entry {
                    item: DisplayItem { item, clip_and_scroll: cas, info: *info },
                    aux: Aux::Clips(elems@),
                },
            ),
            final(self).scope_stack() == old(self).scope_stack(),
            final(self).next_id() == old(self).next_id(),
            final(self).pipeline_spec() == old(self).pipeline_spec(),
            final(self).content_size_spec() == old(self).content_size_spec(),
            final(self).start_time_spec() == old(self).start_time_spec(),
            final(self).has_save() == old(self).has_save(),
            final(self).has_save() ==> final(self).saved_snap() == old(self).saved_snap(),
            final(self).saved_scope_depth() == old(self).saved_scope_depth(),
    {
        let d = DisplayItem { item, clip_and_scroll: cas, info: *info };
        put_item(&d, &mut self.data);
        put_counted(&mut self.data, elems);
        let ghost e = Entry { item: d, aux: Aux::Clips(elems@) };
        proof {
            lemma_enc_entries_push(self.entries@, e);
            assert(enc_entries(self.entries@.push(e)) =~= old(self).data@ + (enc_item(d)
                + crate::counted::enc_counted(elems@)));
            assert(self.data@ =~= old(self).data@ + (enc_item(d) + crate::counted::enc_counted(
                elems@,
            )));
            lemma_entries_wf_push(self.entries@, e);
        }
        self.entries = Ghost(self.entries@.push(e));
        proof {
            assert(self.data@.take(old(self).data@.len() as int) =~= old(self).data@);
            lemma_save_prefix_grow(*old(self), *self);
        }
    }

    fn push_entry_filters(&mut self, item: SpecificDisplayItem, info: &LayoutPrimitiveInfo, cas: ClipAndScrollInfo, elems: &Vec<FilterOp>)
        requires
            old(self).wf(),
            item is PushStackingContext,
        ensures
            final(self).wf(),
            final(self).entries() == old(self).entries().push(
                Entry {
                    item: DisplayItem { item, clip_and_scroll: cas, info: *info },
                    aux: Aux::Filters(elems@),
                },
            ),
            final(self).scope_stack() == old(self).scope_stack(),
            final(self).next_id() == old(self).next_id(),
            final(self).pipeline_spec() == old(self).pipeline_spec(),
            final(self).content_size_spec() == old(self).content_size_spec(),
            final(self).start_time_spec() == old(self).start_time_spec(),
            final(self).has_save() == old(self).has_save(),
            final(self).has_save() ==> final(self).saved_snap() == old(self).saved_snap(),
            final(self).saved_scope_depth() == old(self).saved_scope_depth(),
    {
        let d = DisplayItem { item, clip_and_scroll: cas, info: *info };
        put_item(&d, &mut self.data);
        put_counted(&mut self.data, elems);
        let ghost e = Entry { item: d, aux: Aux::Filters(elems@) };
        proof {
            lemma_enc_entries_push(self.entries@, e);
            assert(enc_entries(self.entries@.push(e)) =~= old(self).data@ + (enc_item(d)
                + crate::counted::enc_counted(elems@)));
            assert(self.data@ =~= old(self).data@ + (enc_item(d) + crate::counted::enc_counted(
                elems@,
            )));
            lemma_entries_wf_push(self.entries@, e);
        }
        self.entries = Ghost(self.entries@.push(e));
        proof {
            assert(self.data@.take(old(self).data@.len() as int) =~= old(self).data@);
            lemma_save_prefix_grow(*old(self), *self);
        }
    }

    fn push_entry_stops(&mut self, elems: &Vec<GradientStop>)
        requires
            old(self).wf(),
        ensures
            final(self).wf(),
            final(self).entries() == old(self).entries().push(
                Entry {
                    item: DisplayItem {
                        item: SpecificDisplayItem::SetGradientStops,
                        clip_and_scroll: old(self).cur_scope(),
                        info: LayoutPrimitiveInfo {
                            rect: LayoutRect {
                                origin: LayoutPoint { x: 0, y: 0 },
                                size: LayoutSize { width: 0, height: 0 },
                            },
                            local_clip: LayoutRect {
                                origin: LayoutPoint { x: 0, y: 0 },
                                size: LayoutSize { width: 0, height: 0 },
                            },
                            is_backface_visible: true,
                        },
                    },
                    aux: Aux::Stops(elems@),
                },
            ),
            final(self).scope_stack() == old(self).scope_stack(),
            final(self).next_id() == old(self).next_id(),
            final(self).pipeline_spec() == old(self).pipeline_spec(),
            final(self).content_size_spec() == old(self).content_size_spec(),
            final(self).start_time_spec() == old(self).start_time_spec(),
            final(self).has_save() == old(self).has_save(),
            final(self).has_save() ==> final(self).saved_snap() == old(self).saved_snap(),
            final(self).saved_scope_depth() == old(self).saved_scope_depth(),
    {
        let info = LayoutPrimitiveInfo::new(LayoutRect::zero());
        let cas = self.scope_top();
        let d = DisplayItem {
            item: SpecificDisplayItem::SetGradientStops,
            clip_and_scroll: cas,
            info,
        };
        put_item(&d, &mut self.data);
        put_counted(&mut self.data, elems);
        let ghost e = Entry { item: d, aux: Aux::Stops(elems@) };
        proof {
            lemma_enc_entries_push(self.entries@, e);
            assert(enc_entries(self.entries@.push(e)) =~= old(self).data@ + (enc_item(d)
                + crate::counted::enc_counted(elems@)));
            assert(self.data@ =~= old(self).data@ + (enc_item(d) + crate::counted::enc_counted(
                elems@,
            )));
            lemma_entries_wf_push(self.entries@, e);
        }
        self.entries = Ghost(self.entries@.push(e));
        proof {
            assert(self.data@.take(old(self).data@.len() as int) =~= old(self).data@);
            lemma_save_prefix_grow(*old(self), *self);
        }
    }
}


impl DisplayListBuilder {
    /// Records the current state so `restore` can roll back to it.  Nested
    /// saves are a usage error.
    pub fn save(&mut self)
        requires
            old(self).wf(),
            !old(self).has_save(),
        ensures
            final(self).wf(),
            final(self).has_save(),
            final(self).snap() == old(self).snap(),
            final(self).saved_snap() == old(self).snap(),
            final(self).entries() == old(self).entries(),
            final(self).scope_stack() == old(self).scope_stack(),
            final(self).next_id() == old(self).next_id(),
            final(self).pipeline_spec() == old(self).pipeline_spec(),
            final(self).content_size_spec() == old(self).content_size_spec(),
            final(self).start_time_spec() == old(self).start_time_spec(),
    {
        self.save_state = Some(
            SaveState {
                dl_len: self.data.len(),
                clip_stack_len: self.clip_stack.len(),
                next_clip_id: self.next_clip_id,
                saved_entries: Ghost(self.entries@),
                saved_stack: Ghost(self.clip_stack@),
            },
        );
        proof {
            assert(self.data@.take(self.data@.len() as int) =~= self.data@);
            assert(self.clip_stack@.take(self.clip_stack@.len() as int) =~= self.clip_stack@);
        }
    }

    /// Rolls the buffer, scope stack, and id counter back to the state
    /// recorded by the last `save`, and clears the pending save.
    pub fn restore(&mut self)
        requires
            old(self).wf(),
            old(self).has_save(),
        ensures
            final(self).wf(),
            !final(self).has_save(),
            final(self).snap() == old(self).saved_snap(),
            final(self).pipeline_spec() == old(self).pipeline_spec(),
            final(self).content_size_spec() == old(self).content_size_spec(),
            final(self).start_time_spec() == old(self).start_time_spec(),
    {
        let state = match self.save_state.take() {
            Some(s) => s,
            None => {
                proof {
                    assert(false);
                }
                SaveState {
                    dl_len: 0,
                    clip_stack_len: 1,
                    next_clip_id: 1,
                    saved_entries: Ghost(Seq::empty()),
                    saved_stack: Ghost(Seq::empty()),
                }
            },
        };
        self.clip_stack.truncate(state.clip_stack_len);
        self.data.truncate(state.dl_len);
        self.next_clip_id = state.next_clip_id;
        self.entries = Ghost(state.saved_entries@);
        proof {
            assert(self.data@ =~= old(self).data@.take(state.dl_len as int));
            assert(self.clip_stack@ =~= old(self).clip_stack@.take(state.clip_stack_len as int));
            assert(self.clip_stack@[0] == old(self).clip_stack@[0]);
        }
    }

    /// Discards a pending save without rolling back, declaring the attempted
    /// operation successful.
    pub fn clear_save(&mut self)
        requires
            old(self).wf(),
            old(self).has_save(),
        ensures
            final(self).wf(),
            !final(self).has_save(),
            final(self).snap() == old(self).snap(),
            final(self).entries() == old(self).entries(),
            final(self).scope_stack() == old(self).scope_stack(),
            final(self).next_id() == old(self).next_id(),
            final(self).pipeline_spec() == old(self).pipeline_spec(),
            final(self).content_size_spec() == old(self).content_size_spec(),
            final(self).start_time_spec() == old(self).start_time_spec(),
    {
        self.save_state = None;
    }

    /// Pushes a scope so that subsequent items are tagged with `id`.
    pub fn push_clip_id(&mut self, id: ClipId)
        requires
            old(self).wf(),
        ensures
            final(self).wf(),
            final(self).scope_stack() == old(self).scope_stack().push(
                ClipAndScrollInfo::simple(id),
            ),
            final(self).entries() == old(self).entries(),
            final(self).next_id() == old(self).next_id(),
            final(self).pipeline_spec() == old(self).pipeline_spec(),
            final(self).content_size_spec() == old(self).content_size_spec(),
            final(self).start_time_spec() == old(self).start_time_spec(),
            final(self).has_save() == old(self).has_save(),
            final(self).has_save() ==> final(self).saved_snap() == old(self).saved_snap(),
            final(self).saved_scope_depth() == old(self).saved_scope_depth(),
    {
        self.clip_stack.push(ClipAndScrollInfo::simple(id));
        proof {
            match &self.save_state {
                None => {},
                Some(s) => {
                    assert(self.clip_stack@.take(s.clip_stack_len as int) =~= old(
                        self,
                    ).clip_stack@.take(s.clip_stack_len as int));
                },
            }
        }
    }

    /// Pushes an explicit clip-and-scroll scope.
    pub fn push_clip_and_scroll_info(&mut self, info: ClipAndScrollInfo)
        requires
            old(self).wf(),
        ensures
            final(self).wf(),
            final(self).scope_stack() == old(self).scope_stack().push(info),
            final(self).entries() == old(self).entries(),
            final(self).next_id() == old(self).next_id(),
            final(self).pipeline_spec() == old(self).pipeline_spec(),
            final(self).content_size_spec() == old(self).content_size_spec(),
            final(self).start_time_spec() == old(self).start_time_spec(),
            final(self).has_save() == old(self).has_save(),
            final(self).has_save() ==> final(self).saved_snap() == old(self).saved_snap(),
            final(self).saved_scope_depth() == old(self).saved_scope_depth(),
    {
        self.clip_stack.push(info);
        proof {
            match &self.save_state {
                None => {},
                Some(s) => {
                    assert(self.clip_stack@.take(s.clip_stack_len as int) =~= old(
                        self,
                    ).clip_stack@.take(s.clip_stack_len as int));
                },
            }
        }
    }

    /// Pops the current scope.  Popping the root scope, or a scope pushed
    /// before a pending save, is a usage error.
    pub fn pop_clip_id(&mut self)
        requires
            old(self).wf(),
            old(self).scope_stack().len() >= 2,
            old(self).has_save() ==> old(self).scope_stack().len() - 1
                >= old(self).saved_scope_depth(),
        ensures
            final(self).wf(),
            final(self).scope_stack() == old(self).scope_stack().drop_last(),
            final(self).entries() == old(self).entries(),
            final(self).next_id() == old(self).next_id(),
            final(self).pipeline_spec() == old(self).pipeline_spec(),
            final(self).content_size_spec() == old(self).content_size_spec(),
            final(self).start_time_spec() == old(self).start_time_spec(),
            final(self).has_save() == old(self).has_save(),
            final(self).has_save() ==> final(self).saved_snap() == old(self).saved_snap(),
            final(self).saved_scope_depth() == old(self).saved_scope_depth(),
    {
        let _ = self.clip_stack.pop();
        proof {
            assert(self.clip_stack@ =~= old(self).clip_stack@.drop_last());
            match &self.save_state {
                None => {},
                Some(s) => {
                    assert(self.clip_stack@.take(s.clip_stack_len as int) =~= old(
                        self,
                    ).clip_stack@.take(s.clip_stack_len as int));
                },
            }
        }
    }

    /// Returns the caller-supplied id, or allocates the next one from the
    /// monotonic counter.
    fn generate_clip_id(&mut self, id: Option<ClipId>) -> (r: ClipId)
        requires
            old(self).wf(),
            old(self).next_id() < u64::MAX,
        ensures
            final(self).wf(),
            match id {
                Some(v) => r == v && final(self).next_id() == old(self).next_id(),
                None => r == (ClipId { id: old(self).next_id(), pipeline_id: old(self).pipeline_spec() })
                    && final(self).next_id() == old(self).next_id() + 1,
            },
            final(self).entries() == old(self).entries(),
            final(self).scope_stack() == old(self).scope_stack(),
            final(self).buffer() == old(self).buffer(),
            final(self).pipeline_spec() == old(self).pipeline_spec(),
            final(self).content_size_spec() == old(self).content_size_spec(),
            final(self).start_time_spec() == old(self).start_time_spec(),
            final(self).has_save() == old(self).has_save(),
            final(self).has_save() ==> final(self).saved_snap() == old(self).saved_snap(),
            final(self).saved_scope_depth() == old(self).saved_scope_depth(),
    {
        match id {
            Some(v) => v,
            None => {
                self.next_clip_id = self.next_clip_id + 1;
                ClipId::new(self.next_clip_id - 1, self.pipeline_id)
            },
        }
    }

    /// Stamps the finish timestamp and yields the finalized list; a pending
    /// save is a usage error.
    pub fn finalize(self) -> (r: (PipelineId, LayoutSize, BuiltDisplayList))
        requires
            self.wf(),
            !self.has_save(),
        ensures
            r.0 == self.pipeline_spec(),
            r.1 == self.content_size_spec(),
            r.2@ == enc_entries(self.entries()),
            r.2@ == self.buffer(),
            entries_wf(self.entries()),
            r.2.descriptor_spec().builder_start_time == self.start_time_spec(),
            r.2.descriptor_spec().send_start_time == 0,
    {
        let end_time = now_ns();
        (
            self.pipeline_id,
            self.content_size,
            BuiltDisplayList::from_data(
                self.data,
                BuiltDisplayListDescriptor {
                    builder_start_time: self.builder_start_time,
                    builder_finish_time: end_time,
                    send_start_time: 0,
                },
            ),
        )
    }
}


/// Division that rounds toward zero, the rounding the fixed-point gradient
/// arithmetic uses.
pub open spec fn div_trunc(a: int, b: int) -> int
    recommends
        b > 0,
{
    if a >= 0 {
        a / b
    } else {
        -((-a) / b)
    }
}

/// A stop remapped into the normalized domain.
pub open spec fn norm_stop(st: GradientStop, origin: int, delta: int) -> GradientStop
    recommends
        delta > 0,
{
    GradientStop { offset: ((st.offset - origin) * (SCALE as int) / delta) as i64, color: st.color }
}

/// What gradient-stop normalization produces: the remapped stops and the
/// fractions at which the caller's gradient line must be re-anchored.  A span
/// at or below the epsilon is degenerate: under a clamped extend mode it
/// becomes a four-stop hard transition at one half, under a repeating mode a
/// two-stop run of the last color.
pub open spec fn norm_result(stops: Seq<GradientStop>, mode: ExtendMode) -> (
    Seq<GradientStop>,
    int,
    int,
)
    recommends
        stops.len() >= 2,
{
    let first = stops[0];
    let last = stops[stops.len() - 1];
    let delta = last.offset - first.offset;
    if delta > GRADIENT_EPSILON {
        (
            Seq::new(stops.len(), |i: int| norm_stop(stops[i], first.offset as int, delta)),
            first.offset as int,
            last.offset as int,
        )
    } else {
        match mode {
            ExtendMode::Clamp => (
                seq![
                    GradientStop { offset: 0, color: first.color },
                    GradientStop { offset: 500_000, color: first.color },
                    GradientStop { offset: 500_000, color: last.color },
                    GradientStop { offset: 1_000_000, color: last.color },
                ],
                last.offset - 500_000,
                last.offset + 500_000,
            ),
            ExtendMode::Repeat => (
                seq![
                    GradientStop { offset: 0, color: last.color },
                    GradientStop { offset: 1_000_000, color: last.color },
                ],
                0,
                1_000_000,
            ),
        }
    }
}

/// A point linearly interpolated by the fraction `s` of the way from `a`
/// toward `b`, in fixed-point units.
pub open spec fn interp(a: int, b: int, s: int) -> int {
    a + div_trunc((b - a) * s, SCALE as int)
}

/// The preconditions gradient-stop normalization places on its input: at
/// least two stops, every offset within the span of the first and last stop,
/// and room to shift the line by one half if the span is degenerate.
pub open spec fn stops_ok(stops: Seq<GradientStop>) -> bool {
    &&& stops.len() >= 2
    &&& stops[0].offset <= stops[stops.len() - 1].offset
    &&& forall|i: int|
        0 <= i < stops.len() ==> stops[0].offset <= #[trigger] stops[i].offset
            <= stops[stops.len() - 1].offset
    &&& (stops[stops.len() - 1].offset - stops[0].offset <= GRADIENT_EPSILON ==> {
        &&& i64::MIN + 500_000 <= stops[stops.len() - 1].offset
        &&& stops[stops.len() - 1].offset <= i64::MAX - 500_000
    })
}

/// Exactness of normalization where the division is exact: re-evaluating a
/// remapped stop along the re-anchored line lands exactly on the stop's
/// original position within the span.
pub proof fn lemma_gradient_normalization_exact(stops: Seq<GradientStop>, i: int)
    requires
        stops_ok(stops),
        0 <= i < stops.len(),
        stops[stops.len() - 1].offset - stops[0].offset > GRADIENT_EPSILON,
        ((stops[i].offset - stops[0].offset) * (SCALE as int)) % (stops[stops.len() - 1].offset
            - stops[0].offset) == 0,
    ensures
        ({
            let delta = stops[stops.len() - 1].offset - stops[0].offset;
            let q = (stops[i].offset - stops[0].offset) * (SCALE as int) / delta;
            q * delta / (SCALE as int) == stops[i].offset - stops[0].offset
        }),
{
    let delta = stops[stops.len() - 1].offset - stops[0].offset;
    let a = (stops[i].offset - stops[0].offset) * (SCALE as int);
    let q = a / delta;
    vstd::arithmetic::div_mod::lemma_fundamental_div_mod(a, delta);
    assert(a == delta * q + a % delta);
    assert(q * delta == a) by (nonlinear_arith)
        requires
            a == delta * q + a % delta,
            a % delta == 0,
    ;
    crate::counted::lemma_div_exact(a, SCALE as int, stops[i].offset - stops[0].offset);
}

impl DisplayListBuilder {
    /// Remaps stop offsets into the normalized domain in place and returns
    /// the fractions at which the gradient line must be re-anchored.
    fn normalize_stops(stops: &mut Vec<GradientStop>, extend_mode: ExtendMode) -> (r: (i64, i64))
        requires
            stops_ok(old(stops)@),
        ensures
            final(stops)@ == norm_result(old(stops)@, extend_mode).0,
            r.0 as int == norm_result(old(stops)@, extend_mode).1,
            r.1 as int == norm_result(old(stops)@, extend_mode).2,
    {
        let len = stops.len();
        let first = stops[0];
        let last = stops[len - 1];
        let delta128: i128 = last.offset as i128 - first.offset as i128;
        if delta128 > GRADIENT_EPSILON as i128 {
            let delta_u: u64 = delta128 as u64;
            let ghost delta = last.offset - first.offset;
            let mut i: usize = 0;
            while i < len
                invariant
                    stops@.len() == len,
                    len == old(stops)@.len(),
                    stops_ok(old(stops)@),
                    first == old(stops)@[0],
                    last == old(stops)@[len - 1],
                    delta == last.offset - first.offset,
                    delta > GRADIENT_EPSILON,
                    delta_u == delta,
                    i <= len,
                    forall|j: int|
                        0 <= j < i ==> stops@[j] == norm_stop(
                            old(stops)@[j],
                            first.offset as int,
                            delta,
                        ),
                    forall|j: int| i <= j < len ==> stops@[j] == old(stops)@[j],
                decreases len - i,
            {
                let st = stops[i];
                let diff_u: u64 = (st.offset as i128 - first.offset as i128) as u64;
                let num: u128 = diff_u as u128 * 1_000_000;
                let q: u128 = num / (delta_u as u128);
                proof {
                    assert(num <= delta * 1_000_000) by (nonlinear_arith)
                        requires
                            0 <= diff_u <= delta,
                            num == diff_u * 1_000_000,
                    ;
                    vstd::arithmetic::div_mod::lemma_div_is_ordered(
                        num as int,
                        delta * 1_000_000,
                        delta as int,
                    );
                    vstd::arithmetic::div_mod::lemma_div_by_multiple(1_000_000, delta as int);
                    assert(delta * 1_000_000 == 1_000_000 * delta) by (nonlinear_arith);
                }
                let new_off: i64 = q as i64;
                stops.set(i, GradientStop { offset: new_off, color: st.color });
                i = i + 1;
            }
            proof {
                assert(stops@ =~= Seq::new(
                    old(stops)@.len(),
                    |j: int| norm_stop(old(stops)@[j], first.offset as int, delta),
                ));
            }
            (first.offset, last.offset)
        } else {
            match extend_mode {
                ExtendMode::Clamp => {
                    // two colors split at the stops' position: encode the
                    // split at one half and shift the line around it
                    stops.clear();
                    stops.push(GradientStop { offset: 0, color: first.color });
                    stops.push(GradientStop { offset: 500_000, color: first.color });
                    stops.push(GradientStop { offset: 500_000, color: last.color });
                    stops.push(GradientStop { offset: 1_000_000, color: last.color });
                    proof {
                        assert(stops@ =~= norm_result(old(stops)@, extend_mode).0);
                    }
                    let offset = last.offset;
                    (offset - 500_000, offset + 500_000)
                },
                ExtendMode::Repeat => {
                    // stops in one position under a repeating mode display
                    // just the last color
                    stops.clear();
                    stops.push(GradientStop { offset: 0, color: last.color });
                    stops.push(GradientStop { offset: 1_000_000, color: last.color });
                    proof {
                        assert(stops@ =~= norm_result(old(stops)@, extend_mode).0);
                    }
                    (0, 1_000_000)
                },
            }
        }
    }

    /// `a + (b - a) * s / SCALE`, rounding toward zero.
    fn interp_exec(a: i64, b: i64, s: i64) -> (r: i64)
        requires
            i64::MIN <= interp(a as int, b as int, s as int) <= i64::MAX,
        ensures
            r as int == interp(a as int, b as int, s as int),
    {
        let d: i128 = b as i128 - a as i128;
        let neg = (d < 0) != (s < 0);
        let magd: u128 = if d < 0 {
            (-d) as u128
        } else {
            d as u128
        };
        let mags: u128 = if s < 0 {
            (-(s as i128)) as u128
        } else {
            s as u128
        };
        proof {
            assert(magd * mags < 0x8000_0000_0000_0000_0000_0000_0000_0000) by (nonlinear_arith)
                requires
                    magd < 0x1_0000_0000_0000_0000,
                    mags <= 0x8000_0000_0000_0000,
            ;
        }
        let q: u128 = (magd * mags) / 1_000_000;
        proof {
            vstd::arithmetic::div_mod::lemma_div_is_ordered(
                q as int,
                magd * mags,
                1,
            );
            assert(q <= magd * mags) by {
                vstd::arithmetic::div_mod::lemma_div_is_ordered_by_denominator(
                    (magd * mags) as int,
                    1,
                    1_000_000,
                );
            }
            let prod = (b - a) * s;
            assert(prod == if neg {
                -((magd * mags) as int)
            } else {
                (magd * mags) as int
            }) by (nonlinear_arith)
                requires
                    magd == (if b - a < 0 {
                        -(b - a)
                    } else {
                        b - a
                    }),
                    mags == (if s < 0 {
                        -(s as int)
                    } else {
                        s as int
                    }),
                    neg == ((b - a < 0) != (s < 0)),
                    prod == (b - a) * s,
            ;
        }
        let signed: i128 = if neg {
            -(q as i128)
        } else {
            q as i128
        };
        let res: i128 = a as i128 + signed;
        res as i64
    }
}


impl DisplayListBuilder {
    /// Appends a solid-color rectangle.
    pub fn push_rect(&mut self, info: &LayoutPrimitiveInfo, color: ColorU)
        requires
            old(self).wf(),
        ensures
            final(self).wf(),
            final(self).entries() == old(self).entries().push(
                Entry {
                    item: DisplayItem {
                        item: SpecificDisplayItem::Rectangle(RectangleDisplayItem { color }),
                        clip_and_scroll: old(self).cur_scope(),
                        info: *info,
                    },
                    aux: Aux::NoAux,
                },
            ),
            final(self).scope_stack() == old(self).scope_stack(),
            final(self).next_id() == old(self).next_id(),
            final(self).pipeline_spec() == old(self).pipeline_spec(),
            final(self).content_size_spec() == old(self).content_size_spec(),
            final(self).start_time_spec() == old(self).start_time_spec(),
            final(self).has_save() == old(self).has_save(),
            final(self).has_save() ==> final(self).saved_snap() == old(self).saved_snap(),
            final(self).saved_scope_depth() == old(self).saved_scope_depth(),
    {
        let cas = self.scope_top();
        let item = SpecificDisplayItem::Rectangle(RectangleDisplayItem { color });
        self.push_entry_plain(item, info, cas);
    }

    /// Appends a clearing rectangle.
    pub fn push_clear_rect(&mut self, info: &LayoutPrimitiveInfo)
        requires
            old(self).wf(),
        ensures
            final(self).wf(),
            final(self).entries() == old(self).entries().push(
                Entry {
                    item: DisplayItem {
                        item: SpecificDisplayItem::ClearRectangle,
                        clip_and_scroll: old(self).cur_scope(),
                        info: *info,
                    },
                    aux: Aux::NoAux,
                },
            ),
            final(self).scope_stack() == old(self).scope_stack(),
            final(self).next_id() == old(self).next_id(),
            final(self).pipeline_spec() == old(self).pipeline_spec(),
            final(self).content_size_spec() == old(self).content_size_spec(),
            final(self).start_time_spec() == old(self).start_time_spec(),
            final(self).has_save() == old(self).has_save(),
            final(self).has_save() ==> final(self).saved_snap() == old(self).saved_snap(),
            final(self).saved_scope_depth() == old(self).saved_scope_depth(),
    {
        let cas = self.scope_top();
        let item = SpecificDisplayItem::ClearRectangle;
        self.push_entry_plain(item, info, cas);
    }

    /// Appends a decoration line.
    pub fn push_line(&mut self, info: &LayoutPrimitiveInfo, wavy_line_thickness: i64, orientation: LineOrientation, color: &ColorU, style: LineStyle)
        requires
            old(self).wf(),
        ensures
            final(self).wf(),
            final(self).entries() == old(self).entries().push(
                Entry {
                    item: DisplayItem {
                        item: SpecificDisplayItem::Line(LineDisplayItem { wavy_line_thickness, orientation, color: *color, style }),
                        clip_and_scroll: old(self).cur_scope(),
                        info: *info,
                    },
                    aux: Aux::NoAux,
                },
            ),
            final(self).scope_stack() == old(self).scope_stack(),
            final(self).next_id() == old(self).next_id(),
            final(self).pipeline_spec() == old(self).pipeline_spec(),
            final(self).content_size_spec() == old(self).content_size_spec(),
            final(self).start_time_spec() == old(self).start_time_spec(),
            final(self).has_save() == old(self).has_save(),
            final(self).has_save() ==> final(self).saved_snap() == old(self).saved_snap(),
            final(self).saved_scope_depth() == old(self).saved_scope_depth(),
    {
        let cas = self.scope_top();
        let item = SpecificDisplayItem::Line(LineDisplayItem { wavy_line_thickness, orientation, color: *color, style });
        self.push_entry_plain(item, info, cas);
    }

    /// Appends an image.
    pub fn push_image(&mut self, info: &LayoutPrimitiveInfo, stretch_size: LayoutSize, tile_spacing: LayoutSize, image_rendering: ImageRendering, key: ImageKey)
        requires
            old(self).wf(),
        ensures
            final(self).wf(),
            final(self).entries() == old(self).entries().push(
                Entry {
                    item: DisplayItem {
                        item: SpecificDisplayItem::Image(ImageDisplayItem { image_key: key, stretch_size, tile_spacing, image_rendering }),
                        clip_and_scroll: old(self).cur_scope(),
                        info: *info,
                    },
                    aux: Aux::NoAux,
                },
            ),
            final(self).scope_stack() == old(self).scope_stack(),
            final(self).next_id() == old(self).next_id(),
            final(self).pipeline_spec() == old(self).pipeline_spec(),
            final(self).content_size_spec() == old(self).content_size_spec(),
            final(self).start_time_spec() == old(self).start_time_spec(),
            final(self).has_save() == old(self).has_save(),
            final(self).has_save() ==> final(self).saved_snap() == old(self).saved_snap(),
            final(self).saved_scope_depth() == old(self).saved_scope_depth(),
    {
        let cas = self.scope_top();
        let item = SpecificDisplayItem::Image(ImageDisplayItem { image_key: key, stretch_size, tile_spacing, image_rendering });
        self.push_entry_plain(item, info, cas);
    }

    /// Appends a YUV image; all planes must use the same buffer kind.
    pub fn push_yuv_image(&mut self, info: &LayoutPrimitiveInfo, yuv_data: YuvData, color_space: YuvColorSpace, image_rendering: ImageRendering)
        requires
            old(self).wf(),
        ensures
            final(self).wf(),
            final(self).entries() == old(self).entries().push(
                Entry {
                    item: DisplayItem {
                        item: SpecificDisplayItem::YuvImage(YuvImageDisplayItem { yuv_data, color_space, image_rendering }),
                        clip_and_scroll: old(self).cur_scope(),
                        info: *info,
                    },
                    aux: Aux::NoAux,
                },
            ),
            final(self).scope_stack() == old(self).scope_stack(),
            final(self).next_id() == old(self).next_id(),
            final(self).pipeline_spec() == old(self).pipeline_spec(),
            final(self).content_size_spec() == old(self).content_size_spec(),
            final(self).start_time_spec() == old(self).start_time_spec(),
            final(self).has_save() == old(self).has_save(),
            final(self).has_save() ==> final(self).saved_snap() == old(self).saved_snap(),
            final(self).saved_scope_depth() == old(self).saved_scope_depth(),
    {
        let cas = self.scope_top();
        let item = SpecificDisplayItem::YuvImage(YuvImageDisplayItem { yuv_data, color_space, image_rendering });
        self.push_entry_plain(item, info, cas);
    }

    /// Appends a border.
    pub fn push_border(&mut self, info: &LayoutPrimitiveInfo, widths: BorderWidths, details: BorderDetails)
        requires
            old(self).wf(),
        ensures
            final(self).wf(),
            final(self).entries() == old(self).entries().push(
                Entry {
                    item: DisplayItem {
                        item: SpecificDisplayItem::Border(BorderDisplayItem { details, widths }),
                        clip_and_scroll: old(self).cur_scope(),
                        info: *info,
                    },
                    aux: Aux::NoAux,
                },
            ),
            final(self).scope_stack() == old(self).scope_stack(),
            final(self).next_id() == old(self).next_id(),
            final(self).pipeline_spec() == old(self).pipeline_spec(),
            final(self).content_size_spec() == old(self).content_size_spec(),
            final(self).start_time_spec() == old(self).start_time_spec(),
            final(self).has_save() == old(self).has_save(),
            final(self).has_save() ==> final(self).saved_snap() == old(self).saved_snap(),
            final(self).saved_scope_depth() == old(self).saved_scope_depth(),
    {
        let cas = self.scope_top();
        let item = SpecificDisplayItem::Border(BorderDisplayItem { details, widths });
        self.push_entry_plain(item, info, cas);
    }

    /// Appends a box shadow.
    pub fn push_box_shadow(&mut self, info: &LayoutPrimitiveInfo, box_bounds: LayoutRect, offset: LayoutVector2D, color: ColorU, blur_radius: i64, spread_radius: i64, border_radius: i64, clip_mode: BoxShadowClipMode)
        requires
            old(self).wf(),
        ensures
            final(self).wf(),
            final(self).entries() == old(self).entries().push(
                Entry {
                    item: DisplayItem {
                        item: SpecificDisplayItem::BoxShadow(BoxShadowDisplayItem { box_bounds, offset, color, blur_radius, spread_radius, border_radius, clip_mode }),
                        clip_and_scroll: old(self).cur_scope(),
                        info: *info,
                    },
                    aux: Aux::NoAux,
                },
            ),
            final(self).scope_stack() == old(self).scope_stack(),
            final(self).next_id() == old(self).next_id(),
            final(self).pipeline_spec() == old(self).pipeline_spec(),
            final(self).content_size_spec() == old(self).content_size_spec(),
            final(self).start_time_spec() == old(self).start_time_spec(),
            final(self).has_save() == old(self).has_save(),
            final(self).has_save() ==> final(self).saved_snap() == old(self).saved_snap(),
            final(self).saved_scope_depth() == old(self).saved_scope_depth(),
    {
        let cas = self.scope_top();
        let item = SpecificDisplayItem::BoxShadow(BoxShadowDisplayItem { box_bounds, offset, color, blur_radius, spread_radius, border_radius, clip_mode });
        self.push_entry_plain(item, info, cas);
    }

    /// Appends a linear-gradient fill; its stops must already be pushed.
    pub fn push_gradient(&mut self, info: &LayoutPrimitiveInfo, gradient: Gradient, tile_size: LayoutSize, tile_spacing: LayoutSize)
        requires
            old(self).wf(),
        ensures
            final(self).wf(),
            final(self).entries() == old(self).entries().push(
                Entry {
                    item: DisplayItem {
                        item: SpecificDisplayItem::Gradient(GradientDisplayItem { gradient, tile_size, tile_spacing }),
                        clip_and_scroll: old(self).cur_scope(),
                        info: *info,
                    },
                    aux: Aux::NoAux,
                },
            ),
            final(self).scope_stack() == old(self).scope_stack(),
            final(self).next_id() == old(self).next_id(),
            final(self).pipeline_spec() == old(self).pipeline_spec(),
            final(self).content_size_spec() == old(self).content_size_spec(),
            final(self).start_time_spec() == old(self).start_time_spec(),
            final(self).has_save() == old(self).has_save(),
            final(self).has_save() ==> final(self).saved_snap() == old(self).saved_snap(),
            final(self).saved_scope_depth() == old(self).saved_scope_depth(),
    {
        let cas = self.scope_top();
        let item = SpecificDisplayItem::Gradient(GradientDisplayItem { gradient, tile_size, tile_spacing });
        self.push_entry_plain(item, info, cas);
    }

    /// Appends a radial-gradient fill; its stops must already be pushed.
    pub fn push_radial_gradient(&mut self, info: &LayoutPrimitiveInfo, gradient: RadialGradient, tile_size: LayoutSize, tile_spacing: LayoutSize)
        requires
            old(self).wf(),
        ensures
            final(self).wf(),
            final(self).entries() == old(self).entries().push(
                Entry {
                    item: DisplayItem {
                        item: SpecificDisplayItem::RadialGradient(RadialGradientDisplayItem { gradient, tile_size, tile_spacing }),
                        clip_and_scroll: old(self).cur_scope(),
                        info: *info,
                    },
                    aux: Aux::NoAux,
                },
            ),
            final(self).scope_stack() == old(self).scope_stack(),
            final(self).next_id() == old(self).next_id(),
            final(self).pipeline_spec() == old(self).pipeline_spec(),
            final(self).content_size_spec() == old(self).content_size_spec(),
            final(self).start_time_spec() == old(self).start_time_spec(),
            final(self).has_save() == old(self).has_save(),
            final(self).has_save() ==> final(self).saved_snap() == old(self).saved_snap(),
            final(self).saved_scope_depth() == old(self).saved_scope_depth(),
    {
        let cas = self.scope_top();
        let item = SpecificDisplayItem::RadialGradient(RadialGradientDisplayItem { gradient, tile_size, tile_spacing });
        self.push_entry_plain(item, info, cas);
    }

    /// Appends an embedded pipeline.
    pub fn push_iframe(&mut self, info: &LayoutPrimitiveInfo, pipeline_id: PipelineId)
        requires
            old(self).wf(),
        ensures
            final(self).wf(),
            final(self).entries() == old(self).entries().push(
                Entry {
                    item: DisplayItem {
                        item: SpecificDisplayItem::Iframe(IframeDisplayItem { pipeline_id }),
                        clip_and_scroll: old(self).cur_scope(),
                        info: *info,
                    },
                    aux: Aux::NoAux,
                },
            ),
            final(self).scope_stack() == old(self).scope_stack(),
            final(self).next_id() == old(self).next_id(),
            final(self).pipeline_spec() == old(self).pipeline_spec(),
            final(self).content_size_spec() == old(self).content_size_spec(),
            final(self).start_time_spec() == old(self).start_time_spec(),
            final(self).has_save() == old(self).has_save(),
            final(self).has_save() ==> final(self).saved_snap() == old(self).saved_snap(),
            final(self).saved_scope_depth() == old(self).saved_scope_depth(),
    {
        let cas = self.scope_top();
        let item = SpecificDisplayItem::Iframe(IframeDisplayItem { pipeline_id });
        self.push_entry_plain(item, info, cas);
    }

    /// Opens a drop shadow over subsequent items.
    pub fn push_shadow(&mut self, info: &LayoutPrimitiveInfo, shadow: Shadow)
        requires
            old(self).wf(),
        ensures
            final(self).wf(),
            final(self).entries() == old(self).entries().push(
                Entry {
                    item: DisplayItem {
                        item: SpecificDisplayItem::PushShadow(shadow),
                        clip_and_scroll: old(self).cur_scope(),
                        info: *info,
                    },
                    aux: Aux::NoAux,
                },
            ),
            final(self).scope_stack() == old(self).scope_stack(),
            final(self).next_id() == old(self).next_id(),
            final(self).pipeline_spec() == old(self).pipeline_spec(),
            final(self).content_size_spec() == old(self).content_size_spec(),
            final(self).start_time_spec() == old(self).start_time_spec(),
            final(self).has_save() == old(self).has_save(),
            final(self).has_save() ==> final(self).saved_snap() == old(self).saved_snap(),
            final(self).saved_scope_depth() == old(self).saved_scope_depth(),
    {
        let cas = self.scope_top();
        let item = SpecificDisplayItem::PushShadow(shadow);
        self.push_entry_plain(item, info, cas);
    }

    /// Closes the shadows opened since the matching pushes.
    pub fn pop_all_shadows(&mut self)
        requires
            old(self).wf(),
        ensures
            final(self).wf(),
            final(self).entries() == old(self).entries().push(
                Entry {
                    item: DisplayItem {
                        item: SpecificDisplayItem::PopAllShadows,
                        clip_and_scroll: old(self).cur_scope(),
                        info: LayoutPrimitiveInfo::new_spec(LayoutRect::zero_rect()),
                    },
                    aux: Aux::NoAux,
                },
            ),
            final(self).scope_stack() == old(self).scope_stack(),
            final(self).next_id() == old(self).next_id(),
            final(self).pipeline_spec() == old(self).pipeline_spec(),
            final(self).content_size_spec() == old(self).content_size_spec(),
            final(self).start_time_spec() == old(self).start_time_spec(),
            final(self).has_save() == old(self).has_save(),
            final(self).has_save() ==> final(self).saved_snap() == old(self).saved_snap(),
            final(self).saved_scope_depth() == old(self).saved_scope_depth(),
    {
        let cas = self.scope_top();
        let info = LayoutPrimitiveInfo::new(LayoutRect::zero());
        self.push_entry_plain(SpecificDisplayItem::PopAllShadows, &info, cas);
    }

    /// Closes the innermost open stacking context.
    pub fn pop_stacking_context(&mut self)
        requires
            old(self).wf(),
        ensures
            final(self).wf(),
            final(self).entries() == old(self).entries().push(
                Entry {
                    item: DisplayItem {
                        item: SpecificDisplayItem::PopStackingContext,
                        clip_and_scroll: old(self).cur_scope(),
                        info: LayoutPrimitiveInfo::new_spec(LayoutRect::zero_rect()),
                    },
                    aux: Aux::NoAux,
                },
            ),
            final(self).scope_stack() == old(self).scope_stack(),
            final(self).next_id() == old(self).next_id(),
            final(self).pipeline_spec() == old(self).pipeline_spec(),
            final(self).content_size_spec() == old(self).content_size_spec(),
            final(self).start_time_spec() == old(self).start_time_spec(),
            final(self).has_save() == old(self).has_save(),
            final(self).has_save() ==> final(self).saved_snap() == old(self).saved_snap(),
            final(self).saved_scope_depth() == old(self).saved_scope_depth(),
    {
        let cas = self.scope_top();
        let info = LayoutPrimitiveInfo::new(LayoutRect::zero());
        self.push_entry_plain(SpecificDisplayItem::PopStackingContext, &info, cas);
    }

    /// Opens a stacking context carrying its filter list as an auxiliary
    /// payload.
    pub fn push_stacking_context(&mut self, info: &LayoutPrimitiveInfo, scroll_policy: ScrollPolicy, transform_style: TransformStyle, mix_blend_mode: MixBlendMode, filters: Vec<FilterOp>)
        requires
            old(self).wf(),
        ensures
            final(self).wf(),
            final(self).entries() == old(self).entries().push(
                Entry {
                    item: DisplayItem {
                        item: SpecificDisplayItem::PushStackingContext(
                            PushStackingContextDisplayItem {
                                stacking_context: StackingContext {
                                    scroll_policy,
                                    transform_style,
                                    mix_blend_mode,
                                },
                            },
                        ),
                        clip_and_scroll: old(self).cur_scope(),
                        info: *info,
                    },
                    aux: Aux::Filters(filters@),
                },
            ),
            final(self).scope_stack() == old(self).scope_stack(),
            final(self).next_id() == old(self).next_id(),
            final(self).pipeline_spec() == old(self).pipeline_spec(),
            final(self).content_size_spec() == old(self).content_size_spec(),
            final(self).start_time_spec() == old(self).start_time_spec(),
            final(self).has_save() == old(self).has_save(),
            final(self).has_save() ==> final(self).saved_snap() == old(self).saved_snap(),
            final(self).saved_scope_depth() == old(self).saved_scope_depth(),
    {
        let cas = self.scope_top();
        let item = SpecificDisplayItem::PushStackingContext(
            PushStackingContextDisplayItem {
                stacking_context: StackingContext { scroll_policy, transform_style, mix_blend_mode },
            },
        );
        self.push_entry_filters(item, info, cas, &filters);
    }

    /// Appends a stop-setting pseudo-item carrying `stops`; an empty list is
    /// skipped entirely.  Gradients must be pushed in the order their stops
    /// were pushed.
    pub fn push_stops(&mut self, stops: &Vec<GradientStop>)
        requires
            old(self).wf(),
        ensures
            final(self).wf(),
            stops@.len() == 0 ==> final(self).entries() == old(self).entries(),
            stops@.len() > 0 ==> final(self).entries() == old(self).entries().push(
                Entry {
                    item: DisplayItem {
                        item: SpecificDisplayItem::SetGradientStops,
                        clip_and_scroll: old(self).cur_scope(),
                        info: LayoutPrimitiveInfo::new_spec(LayoutRect::zero_rect()),
                    },
                    aux: Aux::Stops(stops@),
                },
            ),
            final(self).scope_stack() == old(self).scope_stack(),
            final(self).next_id() == old(self).next_id(),
            final(self).pipeline_spec() == old(self).pipeline_spec(),
            final(self).content_size_spec() == old(self).content_size_spec(),
            final(self).start_time_spec() == old(self).start_time_spec(),
            final(self).has_save() == old(self).has_save(),
            final(self).has_save() ==> final(self).saved_snap() == old(self).saved_snap(),
            final(self).saved_scope_depth() == old(self).saved_scope_depth(),
    {
        if stops.len() == 0 {
            return ;
        }
        self.push_entry_stops(stops);
    }

    /// Appends a text run, splitting glyph runs longer than
    /// `MAX_TEXT_RUN_LENGTH` into several items with identical attributes.
    pub fn push_text(&mut self, info: &LayoutPrimitiveInfo, glyphs: &Vec<GlyphInstance>, font_key: FontInstanceKey, color: ColorU, glyph_options: Option<GlyphOptions>)
        requires
            old(self).wf(),
        ensures
            final(self).wf(),
            final(self).entries() == old(self).entries() + text_entries(
                TextDisplayItem { color, font_key, glyph_options },
                old(self).cur_scope(),
                *info,
                glyphs@,
            ),
            final(self).scope_stack() == old(self).scope_stack(),
            final(self).next_id() == old(self).next_id(),
            final(self).pipeline_spec() == old(self).pipeline_spec(),
            final(self).content_size_spec() == old(self).content_size_spec(),
            final(self).start_time_spec() == old(self).start_time_spec(),
            final(self).has_save() == old(self).has_save(),
            final(self).has_save() ==> final(self).saved_snap() == old(self).saved_snap(),
            final(self).saved_scope_depth() == old(self).saved_scope_depth(),
    {
        let cas = self.scope_top();
        let td = TextDisplayItem { color, font_key, glyph_options };
        let total = glyphs.len();
        let mut i: usize = 0;
        proof {
            assert(glyphs@.skip(0) =~= glyphs@);
        }
        while i < total
            invariant
                total == glyphs@.len(),
                i <= total,
                self.wf(),
                cas == old(self).cur_scope(),
                self.entries() + text_entries(td, cas, *info, glyphs@.skip(i as int)) == old(
                    self,
                ).entries() + text_entries(td, cas, *info, glyphs@),
                self.scope_stack() == old(self).scope_stack(),
                self.next_id() == old(self).next_id(),
                self.pipeline_spec() == old(self).pipeline_spec(),
                self.content_size_spec() == old(self).content_size_spec(),
                self.start_time_spec() == old(self).start_time_spec(),
                self.has_save() == old(self).has_save(),
                self.has_save() ==> self.saved_snap() == old(self).saved_snap(),
                self.saved_scope_depth() == old(self).saved_scope_depth(),
            decreases total - i,
        {
            let c = if total - i < MAX_TEXT_RUN_LENGTH {
                total - i
            } else {
                MAX_TEXT_RUN_LENGTH
            };
            let mut chunk: Vec<GlyphInstance> = Vec::new();
            let mut j: usize = 0;
            while j < c
                invariant
                    i + c <= total,
                    total == glyphs@.len(),
                    j <= c,
                    chunk@ == glyphs@.subrange(i as int, i as int + j as int),
                decreases c - j,
            {
                chunk.push(glyphs[i + j]);
                j = j + 1;
                proof {
                    assert(chunk@ =~= glyphs@.subrange(i as int, i as int + j as int));
                }
            }
            let item = SpecificDisplayItem::Text(td);
            self.push_entry_glyphs(item, info, cas, &chunk);
            proof {
                let rem = glyphs@.skip(i as int);
                assert(rem.len() > 0);
                let cc = if rem.len() < 2038 {
                    rem.len() as int
                } else {
                    2038
                };
                assert(cc == c);
                assert(rem.take(cc) =~= chunk@);
                assert(rem.skip(cc) =~= glyphs@.skip(i as int + c as int));
                assert(text_entries(td, cas, *info, rem) == seq![
                    Entry {
                        item: DisplayItem { item: SpecificDisplayItem::Text(td), clip_and_scroll: cas, info: *info },
                        aux: Aux::Glyphs(chunk@),
                    },
                ] + text_entries(td, cas, *info, glyphs@.skip(i as int + c as int)));
                assert(self.entries() + text_entries(td, cas, *info, glyphs@.skip(i as int + c as int))
                    =~= old(self).entries() + text_entries(td, cas, *info, glyphs@));
            }
            i = i + c;
        }
        proof {
            assert(glyphs@.skip(total as int) =~= Seq::<GlyphInstance>::empty());
            assert(self.entries() =~= old(self).entries() + text_entries(td, cas, *info, glyphs@));
        }
    }

    /// Normalizes the stops, pushes them, and returns the gradient with its
    /// line re-anchored so the normalized stops reproduce the caller's
    /// gradient.  Gradients must be pushed in the order they are created.
    pub fn create_gradient(&mut self, start_point: LayoutPoint, end_point: LayoutPoint, stops: Vec<GradientStop>, extend_mode: ExtendMode) -> (r: Gradient)
        requires
            old(self).wf(),
            stops_ok(stops@),
            ({
                let so = norm_result(stops@, extend_mode).1;
                let eo = norm_result(stops@, extend_mode).2;
                &&& i64::MIN <= interp(start_point.x as int, end_point.x as int, so) <= i64::MAX
                &&& i64::MIN <= interp(start_point.y as int, end_point.y as int, so) <= i64::MAX
                &&& i64::MIN <= interp(start_point.x as int, end_point.x as int, eo) <= i64::MAX
                &&& i64::MIN <= interp(start_point.y as int, end_point.y as int, eo) <= i64::MAX
                &&& i64::MIN <= so <= i64::MAX
                &&& i64::MIN <= eo <= i64::MAX
            }),
        ensures
            final(self).wf(),
            final(self).entries() == old(self).entries().push(
                Entry {
                    item: DisplayItem {
                        item: SpecificDisplayItem::SetGradientStops,
                        clip_and_scroll: old(self).cur_scope(),
                        info: LayoutPrimitiveInfo::new_spec(LayoutRect::zero_rect()),
                    },
                    aux: Aux::Stops(norm_result(stops@, extend_mode).0),
                },
            ),
            ({
                let so = norm_result(stops@, extend_mode).1;
                let eo = norm_result(stops@, extend_mode).2;
                r == (Gradient {
                    start_point: LayoutPoint {
                        x: interp(start_point.x as int, end_point.x as int, so) as i64,
                        y: interp(start_point.y as int, end_point.y as int, so) as i64,
                    },
                    end_point: LayoutPoint {
                        x: interp(start_point.x as int, end_point.x as int, eo) as i64,
                        y: interp(start_point.y as int, end_point.y as int, eo) as i64,
                    },
                    extend_mode,
                })
            }),
            final(self).scope_stack() == old(self).scope_stack(),
            final(self).next_id() == old(self).next_id(),
            final(self).pipeline_spec() == old(self).pipeline_spec(),
            final(self).content_size_spec() == old(self).content_size_spec(),
            final(self).start_time_spec() == old(self).start_time_spec(),
            final(self).has_save() == old(self).has_save(),
            final(self).has_save() ==> final(self).saved_snap() == old(self).saved_snap(),
            final(self).saved_scope_depth() == old(self).saved_scope_depth(),
    {
        let mut stops = stops;
        let (start_offset, end_offset) = Self::normalize_stops(&mut stops, extend_mode);
        self.push_stops(&stops);
        proof {
            assert(stops@.len() > 0);
        }
        Gradient {
            start_point: LayoutPoint {
                x: Self::interp_exec(start_point.x, end_point.x, start_offset),
                y: Self::interp_exec(start_point.y, end_point.y, start_offset),
            },
            end_point: LayoutPoint {
                x: Self::interp_exec(start_point.x, end_point.x, end_offset),
                y: Self::interp_exec(start_point.y, end_point.y, end_offset),
            },
            extend_mode,
        }
    }


    /// Normalizes the stops, pushes them, and returns the radial gradient
    /// with its radii re-anchored so the normalized stops reproduce the
    /// caller's gradient.  A non-positive radius cannot be rendered, so the
    /// stops collapse to a two-stop run of the last color over the unit
    /// gradient.  Gradients must be pushed in the order they are created.
    pub fn create_radial_gradient(&mut self, center: LayoutPoint, radius: LayoutSize, stops: Vec<GradientStop>, extend_mode: ExtendMode) -> (r: RadialGradient)
        requires
            old(self).wf(),
            stops@.len() >= 1,
            radius.width > 0 && radius.height > 0 ==> {
                &&& stops_ok(stops@)
                &&& i64::MIN <= div_trunc(
                    radius.width * norm_result(stops@, extend_mode).1,
                    SCALE as int,
                ) <= i64::MAX
                &&& i64::MIN <= div_trunc(
                    radius.width * norm_result(stops@, extend_mode).2,
                    SCALE as int,
                ) <= i64::MAX
                &&& (radius.width * (SCALE as int)) / (radius.height as int) <= i64::MAX
            },
        ensures
            final(self).wf(),
            !(radius.width > 0 && radius.height > 0) ==> {
                &&& final(self).entries() == old(self).entries().push(
                    Entry {
                        item: DisplayItem {
                            item: SpecificDisplayItem::SetGradientStops,
                            clip_and_scroll: old(self).cur_scope(),
                            info: LayoutPrimitiveInfo::new_spec(LayoutRect::zero_rect()),
                        },
                        aux: Aux::Stops(
                            seq![
                                GradientStop {
                                    offset: 0,
                                    color: stops@[stops@.len() - 1].color,
                                },
                                GradientStop {
                                    offset: 1_000_000,
                                    color: stops@[stops@.len() - 1].color,
                                },
                            ],
                        ),
                    },
                )
                &&& r == (RadialGradient {
                    start_center: center,
                    start_radius: 0,
                    end_center: center,
                    end_radius: 1_000_000,
                    ratio_xy: 1_000_000,
                    extend_mode,
                })
            },
            radius.width > 0 && radius.height > 0 ==> {
                &&& final(self).entries() == old(self).entries().push(
                    Entry {
                        item: DisplayItem {
                            item: SpecificDisplayItem::SetGradientStops,
                            clip_and_scroll: old(self).cur_scope(),
                            info: LayoutPrimitiveInfo::new_spec(LayoutRect::zero_rect()),
                        },
                        aux: Aux::Stops(norm_result(stops@, extend_mode).0),
                    },
                )
                &&& r == (RadialGradient {
                    start_center: center,
                    start_radius: div_trunc(
                        radius.width * norm_result(stops@, extend_mode).1,
                        SCALE as int,
                    ) as i64,
                    end_center: center,
                    end_radius: div_trunc(
                        radius.width * norm_result(stops@, extend_mode).2,
                        SCALE as int,
                    ) as i64,
                    ratio_xy: ((radius.width * (SCALE as int)) / (radius.height as int)) as i64,
                    extend_mode,
                })
            },
            final(self).scope_stack() == old(self).scope_stack(),
            final(self).next_id() == old(self).next_id(),
            final(self).pipeline_spec() == old(self).pipeline_spec(),
            final(self).content_size_spec() == old(self).content_size_spec(),
            final(self).start_time_spec() == old(self).start_time_spec(),
            final(self).has_save() == old(self).has_save(),
            final(self).has_save() ==> final(self).saved_snap() == old(self).saved_snap(),
            final(self).saved_scope_depth() == old(self).saved_scope_depth(),
    {
        if radius.width <= 0 || radius.height <= 0 {
            // the renderer cannot evaluate a non-positive radius: reuse the
            // stops as an equivalent last-color gradient over the unit line
            let last_color = stops[stops.len() - 1].color;
            let mut two: Vec<GradientStop> = Vec::new();
            two.push(GradientStop { offset: 0, color: last_color });
            two.push(GradientStop { offset: 1_000_000, color: last_color });
            self.push_stops(&two);
            proof {
                assert(two@ =~= seq![
                    GradientStop { offset: 0, color: stops@[stops@.len() - 1].color },
                    GradientStop { offset: 1_000_000, color: stops@[stops@.len() - 1].color },
                ]);
            }
            return RadialGradient {
                start_center: center,
                start_radius: 0,
                end_center: center,
                end_radius: 1_000_000,
                ratio_xy: 1_000_000,
                extend_mode,
            };
        }
        let mut stops = stops;
        let (start_offset, end_offset) = Self::normalize_stops(&mut stops, extend_mode);
        self.push_stops(&stops);
        proof {
            assert(stops@.len() > 0);
        }
        let start_radius = Self::interp_exec(0, radius.width, start_offset);
        let end_radius = Self::interp_exec(0, radius.width, end_offset);
        let num: u128 = (radius.width as u128) * 1_000_000;
        let ratio_xy = (num / (radius.height as u128)) as i64;
        RadialGradient {
            start_center: center,
            start_radius,
            end_center: center,
            end_radius,
            ratio_xy,
            extend_mode,
        }
    }

    /// Pushes the given stops unchanged and returns the radial gradient
    /// built from explicit parameters.  Gradients must be pushed in the
    /// order they are created.
    pub fn create_complex_radial_gradient(&mut self, start_center: LayoutPoint, start_radius: i64, end_center: LayoutPoint, end_radius: i64, ratio_xy: i64, stops: Vec<GradientStop>, extend_mode: ExtendMode) -> (r: RadialGradient)
        requires
            old(self).wf(),
        ensures
            final(self).wf(),
            stops@.len() == 0 ==> final(self).entries() == old(self).entries(),
            stops@.len() > 0 ==> final(self).entries() == old(self).entries().push(
                Entry {
                    item: DisplayItem {
                        item: SpecificDisplayItem::SetGradientStops,
                        clip_and_scroll: old(self).cur_scope(),
                        info: LayoutPrimitiveInfo::new_spec(LayoutRect::zero_rect()),
                    },
                    aux: Aux::Stops(stops@),
                },
            ),
            r == (RadialGradient {
                start_center,
                start_radius,
                end_center,
                end_radius,
                ratio_xy,
                extend_mode,
            }),
            final(self).scope_stack() == old(self).scope_stack(),
            final(self).next_id() == old(self).next_id(),
            final(self).pipeline_spec() == old(self).pipeline_spec(),
            final(self).content_size_spec() == old(self).content_size_spec(),
            final(self).start_time_spec() == old(self).start_time_spec(),
            final(self).has_save() == old(self).has_save(),
            final(self).has_save() ==> final(self).saved_snap() == old(self).saved_snap(),
            final(self).saved_scope_depth() == old(self).saved_scope_depth(),
    {
        self.push_stops(&stops);
        RadialGradient { start_center, start_radius, end_center, end_radius, ratio_xy, extend_mode }
    }

    /// Defines a clip node under an explicit parent scope, carrying its
    /// complex clip regions as an auxiliary payload.
    pub fn define_clip_with_parent(&mut self, id: Option<ClipId>, parent: ClipId, clip_rect: LayoutRect, complex_clips: &Vec<ComplexClipRegion>, image_mask: Option<ImageMask>) -> (r: ClipId)
        requires
            old(self).wf(),
            old(self).next_id() < u64::MAX,
        ensures
            final(self).wf(),
            match id {
                Some(v) => r == v && final(self).next_id() == old(self).next_id(),
                None => r == (ClipId { id: old(self).next_id(), pipeline_id: old(self).pipeline_spec() })
                    && final(self).next_id() == old(self).next_id() + 1,
            },
            final(self).entries() == old(self).entries().push(
                Entry {
                    item: DisplayItem {
                        item: SpecificDisplayItem::Clip(ClipDisplayItem { id: r, image_mask }),
                        clip_and_scroll: ClipAndScrollInfo::simple(parent),
                        info: LayoutPrimitiveInfo::new_spec(clip_rect),
                    },
                    aux: Aux::Clips(complex_clips@),
                },
            ),
            final(self).scope_stack() == old(self).scope_stack(),
            final(self).pipeline_spec() == old(self).pipeline_spec(),
            final(self).content_size_spec() == old(self).content_size_spec(),
            final(self).start_time_spec() == old(self).start_time_spec(),
            final(self).has_save() == old(self).has_save(),
            final(self).has_save() ==> final(self).saved_snap() == old(self).saved_snap(),
            final(self).saved_scope_depth() == old(self).saved_scope_depth(),
    {
        let id = self.generate_clip_id(id);
        let item = SpecificDisplayItem::Clip(ClipDisplayItem { id, image_mask });
        let info = LayoutPrimitiveInfo::new(clip_rect);
        let scrollinfo = ClipAndScrollInfo::simple(parent);
        self.push_entry_clips(item, &info, scrollinfo, complex_clips);
        id
    }

    /// Defines a clip node under the current scroll scope.
    pub fn define_clip(&mut self, id: Option<ClipId>, clip_rect: LayoutRect, complex_clips: &Vec<ComplexClipRegion>, image_mask: Option<ImageMask>) -> (r: ClipId)
        requires
            old(self).wf(),
            old(self).next_id() < u64::MAX,
        ensures
            final(self).wf(),
            match id {
                Some(v) => r == v && final(self).next_id() == old(self).next_id(),
                None => r == (ClipId { id: old(self).next_id(), pipeline_id: old(self).pipeline_spec() })
                    && final(self).next_id() == old(self).next_id() + 1,
            },
            final(self).entries() == old(self).entries().push(
                Entry {
                    item: DisplayItem {
                        item: SpecificDisplayItem::Clip(ClipDisplayItem { id: r, image_mask }),
                        clip_and_scroll: ClipAndScrollInfo::simple(
                            old(self).cur_scope().scroll_node_id,
                        ),
                        info: LayoutPrimitiveInfo::new_spec(clip_rect),
                    },
                    aux: Aux::Clips(complex_clips@),
                },
            ),
            final(self).scope_stack() == old(self).scope_stack(),
            final(self).pipeline_spec() == old(self).pipeline_spec(),
            final(self).content_size_spec() == old(self).content_size_spec(),
            final(self).start_time_spec() == old(self).start_time_spec(),
            final(self).has_save() == old(self).has_save(),
            final(self).has_save() ==> final(self).saved_snap() == old(self).saved_snap(),
            final(self).saved_scope_depth() == old(self).saved_scope_depth(),
    {
        let parent = self.scope_top().scroll_node_id;
        self.define_clip_with_parent(id, parent, clip_rect, complex_clips, image_mask)
    }

    /// Defines a scroll frame under an explicit parent scope.
    pub fn define_scroll_frame_with_parent(&mut self, id: Option<ClipId>, parent: ClipId, content_rect: LayoutRect, clip_rect: LayoutRect, complex_clips: &Vec<ComplexClipRegion>, image_mask: Option<ImageMask>, scroll_sensitivity: ScrollSensitivity) -> (r: ClipId)
        requires
            old(self).wf(),
            old(self).next_id() < u64::MAX,
        ensures
            final(self).wf(),
            match id {
                Some(v) => r == v && final(self).next_id() == old(self).next_id(),
                None => r == (ClipId { id: old(self).next_id(), pipeline_id: old(self).pipeline_spec() })
                    && final(self).next_id() == old(self).next_id() + 1,
            },
            final(self).entries() == old(self).entries().push(
                Entry {
                    item: DisplayItem {
                        item: SpecificDisplayItem::ScrollFrame(
                            ScrollFrameDisplayItem { id: r, image_mask, scroll_sensitivity },
                        ),
                        clip_and_scroll: ClipAndScrollInfo::simple(parent),
                        info: LayoutPrimitiveInfo::with_clip_rect_spec(content_rect, clip_rect),
                    },
                    aux: Aux::Clips(complex_clips@),
                },
            ),
            final(self).scope_stack() == old(self).scope_stack(),
            final(self).pipeline_spec() == old(self).pipeline_spec(),
            final(self).content_size_spec() == old(self).content_size_spec(),
            final(self).start_time_spec() == old(self).start_time_spec(),
            final(self).has_save() == old(self).has_save(),
            final(self).has_save() ==> final(self).saved_snap() == old(self).saved_snap(),
            final(self).saved_scope_depth() == old(self).saved_scope_depth(),
    {
        let id = self.generate_clip_id(id);
        let item = SpecificDisplayItem::ScrollFrame(
            ScrollFrameDisplayItem { id, image_mask, scroll_sensitivity },
        );
        let info = LayoutPrimitiveInfo::with_clip_rect(content_rect, clip_rect);
        let scrollinfo = ClipAndScrollInfo::simple(parent);
        self.push_entry_clips(item, &info, scrollinfo, complex_clips);
        id
    }

    /// Defines a scroll frame under the current scroll scope.
    pub fn define_scroll_frame(&mut self, id: Option<ClipId>, content_rect: LayoutRect, clip_rect: LayoutRect, complex_clips: &Vec<ComplexClipRegion>, image_mask: Option<ImageMask>, scroll_sensitivity: ScrollSensitivity) -> (r: ClipId)
        requires
            old(self).wf(),
            old(self).next_id() < u64::MAX,
        ensures
            final(self).wf(),
            match id {
                Some(v) => r == v && final(self).next_id() == old(self).next_id(),
                None => r == (ClipId { id: old(self).next_id(), pipeline_id: old(self).pipeline_spec() })
                    && final(self).next_id() == old(self).next_id() + 1,
            },
            final(self).entries() == old(self).entries().push(
                Entry {
                    item: DisplayItem {
                        item: SpecificDisplayItem::ScrollFrame(
                            ScrollFrameDisplayItem { id: r, image_mask, scroll_sensitivity },
                        ),
                        clip_and_scroll: ClipAndScrollInfo::simple(
                            old(self).cur_scope().scroll_node_id,
                        ),
                        info: LayoutPrimitiveInfo::with_clip_rect_spec(content_rect, clip_rect),
                    },
                    aux: Aux::Clips(complex_clips@),
                },
            ),
            final(self).scope_stack() == old(self).scope_stack(),
            final(self).pipeline_spec() == old(self).pipeline_spec(),
            final(self).content_size_spec() == old(self).content_size_spec(),
            final(self).start_time_spec() == old(self).start_time_spec(),
            final(self).has_save() == old(self).has_save(),
            final(self).has_save() ==> final(self).saved_snap() == old(self).saved_snap(),
            final(self).saved_scope_depth() == old(self).saved_scope_depth(),
    {
        let parent = self.scope_top().scroll_node_id;
        self.define_scroll_frame_with_parent(
            id,
            parent,
            content_rect,
            clip_rect,
            complex_clips,
            image_mask,
            scroll_sensitivity,
        )
    }

    /// Defines a sticky frame pinned within the given offset bounds.
    pub fn define_sticky_frame(&mut self, id: Option<ClipId>, frame_rect: LayoutRect, margins: SideOffsets, vertical_offset_bounds: StickyOffsetBounds, horizontal_offset_bounds: StickyOffsetBounds, previously_applied_offset: LayoutVector2D) -> (r: ClipId)
        requires
            old(self).wf(),
            old(self).next_id() < u64::MAX,
        ensures
            final(self).wf(),
            match id {
                Some(v) => r == v && final(self).next_id() == old(self).next_id(),
                None => r == (ClipId { id: old(self).next_id(), pipeline_id: old(self).pipeline_spec() })
                    && final(self).next_id() == old(self).next_id() + 1,
            },
            final(self).entries() == old(self).entries().push(
                Entry {
                    item: DisplayItem {
                        item: SpecificDisplayItem::StickyFrame(
                            StickyFrameDisplayItem {
                                id: r,
                                margins,
                                vertical_offset_bounds,
                                horizontal_offset_bounds,
                                previously_applied_offset,
                            },
                        ),
                        clip_and_scroll: old(self).cur_scope(),
                        info: LayoutPrimitiveInfo::new_spec(frame_rect),
                    },
                    aux: Aux::NoAux,
                },
            ),
            final(self).scope_stack() == old(self).scope_stack(),
            final(self).pipeline_spec() == old(self).pipeline_spec(),
            final(self).content_size_spec() == old(self).content_size_spec(),
            final(self).start_time_spec() == old(self).start_time_spec(),
            final(self).has_save() == old(self).has_save(),
            final(self).has_save() ==> final(self).saved_snap() == old(self).saved_snap(),
            final(self).saved_scope_depth() == old(self).saved_scope_depth(),
    {
        let id = self.generate_clip_id(id);
        let item = SpecificDisplayItem::StickyFrame(
            StickyFrameDisplayItem {
                id,
                margins,
                vertical_offset_bounds,
                horizontal_offset_bounds,
                previously_applied_offset,
            },
        );
        let info = LayoutPrimitiveInfo::new(frame_rect);
        let cas = self.scope_top();
        self.push_entry_plain(item, &info, cas);
        id
    }
}

/// The entries a glyph run becomes: one text item per chunk of at most
/// `MAX_TEXT_RUN_LENGTH` glyphs, all carrying the same attributes.
pub open spec fn text_entries(td: TextDisplayItem, cas: ClipAndScrollInfo, info: LayoutPrimitiveInfo, glyphs: Seq<GlyphInstance>) -> Seq<Entry>
    decreases glyphs.len(),
{
    if glyphs.len() == 0 {
        Seq::empty()
    } else {
        let c = if glyphs.len() < 2038 {
            glyphs.len() as int
        } else {
            2038
        };
        seq![
            Entry {
                item: DisplayItem { item: SpecificDisplayItem::Text(td), clip_and_scroll: cas, info },
                aux: Aux::Glyphs(glyphs.take(c)),
            },
        ] + text_entries(td, cas, info, glyphs.skip(c))
    }
}

/// Appending a well-formed entry keeps the stream well formed.
proof fn lemma_entries_wf_push(es: Seq<Entry>, e: Entry)
    requires
        entries_wf(es),
        entry_wf(e),
    ensures
        entries_wf(es.push(e)),
{
    assert(forall|i: int|
        0 <= i < es.push(e).len() ==> #[trigger] entry_wf(es.push(e)[i]) && (i < es.len()
            ==> es.push(e)[i] == es[i]) && (i == es.len() ==> es.push(e)[i] == e));
}

/// Growing the buffer and entries while leaving everything else alone keeps
/// the save checkpoint's prefix view intact.
proof fn lemma_save_prefix_grow(b0: DisplayListBuilder, b1: DisplayListBuilder)
    requires
        b0.wf(),
        b1.save_state == b0.save_state,
        b0.data@.len() <= b1.data@.len(),
        b1.data@.take(b0.data@.len() as int) == b0.data@,
    ensures
        match b1.save_state {
            None => true,
            Some(s) => b1.data@.take(s.dl_len as int) == b0.data@.take(s.dl_len as int),
        },
{
    match &b0.save_state {
        None => {},
        Some(s) => {
            assert(b1.data@.take(s.dl_len as int) =~= b0.data@.take(s.dl_len as int));
        },
    }
}

} // verus!
