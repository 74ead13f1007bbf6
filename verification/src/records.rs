//! The item record model: the value records that display items carry.
//!
//! The drawing payloads are plain-old-data records with a fixed encoded size;
//! geometry and gradient offsets are fixed-point values held in `i64` fields,
//! scaled so that `SCALE` units make one unit of the original quantity.  Each
//! record implements `Wire`, giving it an exact encoding, a validating
//! decoder, and the round-trip proof the stream layer builds on.

use vstd::prelude::*;

use crate::color::ColorU;
use crate::wire::Wire;

verus! {

/// Fixed-point scale: this many units make 1.0 of the original quantity.
pub const SCALE: i64 = 1_000_000;

// ---------------------------------------------------------------------------
// Geometry
// ---------------------------------------------------------------------------

/// A point in layout space, in fixed-point units.
#[derive(Clone, Copy, Debug, PartialEq, Eq, Structural, Hash)]
pub struct LayoutPoint {
    pub x: i64,
    pub y: i64,
}

impl LayoutPoint {
    pub fn new(x: i64, y: i64) -> (r: Self)
        ensures
            r == (LayoutPoint { x, y }),
    {
        LayoutPoint { x, y }
    }

    pub fn zero() -> (r: Self)
        ensures
            r == (LayoutPoint { x: 0, y: 0 }),
    {
        LayoutPoint { x: 0, y: 0 }
    }
}

impl Wire for LayoutPoint {
    open spec fn wlen() -> nat {
        18
    }

    open spec fn enc(self) -> Seq<u8> {
        self.x.enc() + self.y.enc()
    }

    open spec fn dec(b: Seq<u8>) -> Option<Self> {
        match (i64::dec(b), i64::dec(b.skip(9))) {
            (Some(x), Some(y)) => Some(LayoutPoint { x, y }),
            _ => None,
        }
    }

    proof fn codec(self, rest: Seq<u8>) {
        let t1 = self.y.enc() + rest;
        self.x.codec(t1);
        self.y.codec(rest);
        let b = self.enc() + rest;
        assert(b =~= self.x.enc() + t1);
        assert(b.skip(9) =~= t1);
    }

    proof fn dec_short(b: Seq<u8>) {
        i64::dec_short(b);
        if b.len() >= 9 {
            i64::dec_short(b.skip(9));
        }
    }

    fn wsize() -> (n: usize) {
        18
    }

    fn put(&self, out: &mut Vec<u8>) {
        self.x.put(out);
        self.y.put(out);
        proof {
            assert(out@ =~= old(out)@ + self.enc());
        }
    }

    fn read_at(buf: &Vec<u8>, pos: usize) -> (r: Option<Self>) {
        let buf_len = buf.len();
        let ghost b = buf@.skip(pos as int);
        match i64::read_at(buf, pos) {
            None => None,
            Some(x) => {
                proof {
                    i64::dec_short(b);
                    assert(b.skip(9) =~= buf@.skip(pos as int + 9));
                }
                match i64::read_at(buf, pos + 9) {
                    None => None,
                    Some(y) => Some(LayoutPoint { x, y }),
                }
            },
        }
    }
}

/// A size in layout space, in fixed-point units.
#[derive(Clone, Copy, Debug, PartialEq, Eq, Structural, Hash)]
pub struct LayoutSize {
    pub width: i64,
    pub height: i64,
}

impl LayoutSize {
    pub fn new(width: i64, height: i64) -> (r: Self)
        ensures
            r == (LayoutSize { width, height }),
    {
        LayoutSize { width, height }
    }

    pub fn zero() -> (r: Self)
        ensures
            r == (LayoutSize { width: 0, height: 0 }),
    {
        LayoutSize { width: 0, height: 0 }
    }
}

impl Wire for LayoutSize {
    open spec fn wlen() -> nat {
        18
    }

    open spec fn enc(self) -> Seq<u8> {
        self.width.enc() + self.height.enc()
    }

    open spec fn dec(b: Seq<u8>) -> Option<Self> {
        match (i64::dec(b), i64::dec(b.skip(9))) {
            (Some(width), Some(height)) => Some(LayoutSize { width, height }),
            _ => None,
        }
    }

    proof fn codec(self, rest: Seq<u8>) {
        let t1 = self.height.enc() + rest;
        self.width.codec(t1);
        self.height.codec(rest);
        let b = self.enc() + rest;
        assert(b =~= self.width.enc() + t1);
        assert(b.skip(9) =~= t1);
    }

    proof fn dec_short(b: Seq<u8>) {
        i64::dec_short(b);
        if b.len() >= 9 {
            i64::dec_short(b.skip(9));
        }
    }

    fn wsize() -> (n: usize) {
        18
    }

    fn put(&self, out: &mut Vec<u8>) {
        self.width.put(out);
        self.height.put(out);
        proof {
            assert(out@ =~= old(out)@ + self.enc());
        }
    }

    fn read_at(buf: &Vec<u8>, pos: usize) -> (r: Option<Self>) {
        let buf_len = buf.len();
        let ghost b = buf@.skip(pos as int);
        match i64::read_at(buf, pos) {
            None => None,
            Some(width) => {
                proof {
                    i64::dec_short(b);
                    assert(b.skip(9) =~= buf@.skip(pos as int + 9));
                }
                match i64::read_at(buf, pos + 9) {
                    None => None,
                    Some(height) => Some(LayoutSize { width, height }),
                }
            },
        }
    }
}

/// A translation in layout space, in fixed-point units.
#[derive(Clone, Copy, Debug, PartialEq, Eq, Structural, Hash)]
pub struct LayoutVector2D {
    pub x: i64,
    pub y: i64,
}

impl LayoutVector2D {
    pub fn new(x: i64, y: i64) -> (r: Self)
        ensures
            r == (LayoutVector2D { x, y }),
    {
        LayoutVector2D { x, y }
    }

    pub fn zero() -> (r: Self)
        ensures
            r == (LayoutVector2D { x: 0, y: 0 }),
    {
        LayoutVector2D { x: 0, y: 0 }
    }
}

impl Wire for LayoutVector2D {
    open spec fn wlen() -> nat {
        18
    }

    open spec fn enc(self) -> Seq<u8> {
        self.x.enc() + self.y.enc()
    }

    open spec fn dec(b: Seq<u8>) -> Option<Self> {
        match (i64::dec(b), i64::dec(b.skip(9))) {
            (Some(x), Some(y)) => Some(LayoutVector2D { x, y }),
            _ => None,
        }
    }

    proof fn codec(self, rest: Seq<u8>) {
        let t1 = self.y.enc() + rest;
        self.x.codec(t1);
        self.y.codec(rest);
        let b = self.enc() + rest;
        assert(b =~= self.x.enc() + t1);
        assert(b.skip(9) =~= t1);
    }

    proof fn dec_short(b: Seq<u8>) {
        i64::dec_short(b);
        if b.len() >= 9 {
            i64::dec_short(b.skip(9));
        }
    }

    fn wsize() -> (n: usize) {
        18
    }

    fn put(&self, out: &mut Vec<u8>) {
        self.x.put(out);
        self.y.put(out);
        proof {
            assert(out@ =~= old(out)@ + self.enc());
        }
    }

    fn read_at(buf: &Vec<u8>, pos: usize) -> (r: Option<Self>) {
        let buf_len = buf.len();
        let ghost b = buf@.skip(pos as int);
        match i64::read_at(buf, pos) {
            None => None,
            Some(x) => {
                proof {
                    i64::dec_short(b);
                    assert(b.skip(9) =~= buf@.skip(pos as int + 9));
                }
                match i64::read_at(buf, pos + 9) {
                    None => None,
                    Some(y) => Some(LayoutVector2D { x, y }),
                }
            },
        }
    }
}

/// An axis-aligned rectangle in layout space.
#[derive(Clone, Copy, Debug, PartialEq, Eq, Structural, Hash)]
pub struct LayoutRect {
    pub origin: LayoutPoint,
    pub size: LayoutSize,
}

impl LayoutRect {
    /// The all-zero rectangle.
    pub open spec fn zero_rect() -> Self {
        LayoutRect {
            origin: LayoutPoint { x: 0, y: 0 },
            size: LayoutSize { width: 0, height: 0 },
        }
    }

    pub fn new(origin: LayoutPoint, size: LayoutSize) -> (r: Self)
        ensures
            r == (LayoutRect { origin, size }),
    {
        LayoutRect { origin, size }
    }

    pub fn zero() -> (r: Self)
        ensures
            r == (LayoutRect {
                origin: LayoutPoint { x: 0, y: 0 },
                size: LayoutSize { width: 0, height: 0 },
            }),
    {
        LayoutRect { origin: LayoutPoint { x: 0, y: 0 }, size: LayoutSize { width: 0, height: 0 } }
    }

    /// The rectangle moved by `offset`.
    pub fn translate(&self, offset: &LayoutVector2D) -> (r: Self)
        requires
            i64::MIN <= self.origin.x + offset.x <= i64::MAX,
            i64::MIN <= self.origin.y + offset.y <= i64::MAX,
        ensures
            r == (LayoutRect {
                origin: LayoutPoint {
                    x: (self.origin.x + offset.x) as i64,
                    y: (self.origin.y + offset.y) as i64,
                },
                size: self.size,
            }),
    {
        LayoutRect {
            origin: LayoutPoint { x: self.origin.x + offset.x, y: self.origin.y + offset.y },
            size: self.size,
        }
    }
}

impl Wire for LayoutRect {
    open spec fn wlen() -> nat {
        36
    }

    open spec fn enc(self) -> Seq<u8> {
        self.origin.enc() + self.size.enc()
    }

    open spec fn dec(b: Seq<u8>) -> Option<Self> {
        match (LayoutPoint::dec(b), LayoutSize::dec(b.skip(18))) {
            (Some(origin), Some(size)) => Some(LayoutRect { origin, size }),
            _ => None,
        }
    }

    proof fn codec(self, rest: Seq<u8>) {
        let t1 = self.size.enc() + rest;
        self.origin.codec(t1);
        self.size.codec(rest);
        let b = self.enc() + rest;
        assert(b =~= self.origin.enc() + t1);
        assert(b.skip(18) =~= t1);
    }

    proof fn dec_short(b: Seq<u8>) {
        LayoutPoint::dec_short(b);
        if b.len() >= 18 {
            LayoutSize::dec_short(b.skip(18));
        }
    }

    fn wsize() -> (n: usize) {
        36
    }

    fn put(&self, out: &mut Vec<u8>) {
        self.origin.put(out);
        self.size.put(out);
        proof {
            assert(out@ =~= old(out)@ + self.enc());
        }
    }

    fn read_at(buf: &Vec<u8>, pos: usize) -> (r: Option<Self>) {
        let buf_len = buf.len();
        let ghost b = buf@.skip(pos as int);
        match LayoutPoint::read_at(buf, pos) {
            None => None,
            Some(origin) => {
                proof {
                    LayoutPoint::dec_short(b);
                    assert(b.skip(18) =~= buf@.skip(pos as int + 18));
                }
                match LayoutSize::read_at(buf, pos + 18) {
                    None => None,
                    Some(size) => Some(LayoutRect { origin, size }),
                }
            },
        }
    }
}

// ---------------------------------------------------------------------------
// Identities
// ---------------------------------------------------------------------------

/// The identity of the content stream a display list belongs to.
#[derive(Clone, Copy, Debug, PartialEq, Eq, Structural, Hash)]
pub struct PipelineId(pub u32, pub u32);

impl PipelineId {
    pub fn dummy() -> (r: Self)
        ensures
            r == PipelineId(0, 0),
    {
        PipelineId(0, 0)
    }
}

impl Wire for PipelineId {
    open spec fn wlen() -> nat {
        8
    }

    open spec fn enc(self) -> Seq<u8> {
        self.0.enc() + self.1.enc()
    }

    open spec fn dec(b: Seq<u8>) -> Option<Self> {
        match (u32::dec(b), u32::dec(b.skip(4))) {
            (Some(a), Some(c)) => Some(PipelineId(a, c)),
            _ => None,
        }
    }

    proof fn codec(self, rest: Seq<u8>) {
        let t1 = self.1.enc() + rest;
        self.0.codec(t1);
        self.1.codec(rest);
        let b = self.enc() + rest;
        assert(b =~= self.0.enc() + t1);
        assert(b.skip(4) =~= t1);
    }

    proof fn dec_short(b: Seq<u8>) {
        u32::dec_short(b);
        if b.len() >= 4 {
            u32::dec_short(b.skip(4));
        }
    }

    fn wsize() -> (n: usize) {
        8
    }

    fn put(&self, out: &mut Vec<u8>) {
        self.0.put(out);
        self.1.put(out);
        proof {
            assert(out@ =~= old(out)@ + self.enc());
        }
    }

    fn read_at(buf: &Vec<u8>, pos: usize) -> (r: Option<Self>) {
        let buf_len = buf.len();
        let ghost b = buf@.skip(pos as int);
        match u32::read_at(buf, pos) {
            None => None,
            Some(a) => {
                proof {
                    u32::dec_short(b);
                    assert(b.skip(4) =~= buf@.skip(pos as int + 4));
                }
                match u32::read_at(buf, pos + 4) {
                    None => None,
                    Some(c) => Some(PipelineId(a, c)),
                }
            },
        }
    }
}

/// A clip or scroll node reference.  Id 0 names the pipeline's root scroll
/// node; the builder allocates ids starting at 1.
#[derive(Clone, Copy, Debug, PartialEq, Eq, Structural, Hash)]
pub struct ClipId {
    pub id: u64,
    pub pipeline_id: PipelineId,
}

impl ClipId {
    pub fn new(id: u64, pipeline_id: PipelineId) -> (r: Self)
        ensures
            r == (ClipId { id, pipeline_id }),
    {
        ClipId { id, pipeline_id }
    }

    /// The root scroll node of a pipeline, with the reserved id 0.
    pub open spec fn root_scroll_node_spec(pipeline_id: PipelineId) -> Self {
        ClipId { id: 0, pipeline_id }
    }

    /// The root scroll node of a pipeline, with the reserved id 0.
    #[verifier::when_used_as_spec(root_scroll_node_spec)]
    pub fn root_scroll_node(pipeline_id: PipelineId) -> (r: Self)
        ensures
            r == (ClipId { id: 0, pipeline_id }),
    {
        ClipId { id: 0, pipeline_id }
    }

    pub fn is_root_scroll_node(&self) -> (r: bool)
        ensures
            r == (self.id == 0),
    {
        self.id == 0
    }
}

impl Wire for ClipId {
    open spec fn wlen() -> nat {
        16
    }

    open spec fn enc(self) -> Seq<u8> {
        self.id.enc() + self.pipeline_id.enc()
    }

    open spec fn dec(b: Seq<u8>) -> Option<Self> {
        match (u64::dec(b), PipelineId::dec(b.skip(8))) {
            (Some(id), Some(pipeline_id)) => Some(ClipId { id, pipeline_id }),
            _ => None,
        }
    }

    proof fn codec(self, rest: Seq<u8>) {
        let t1 = self.pipeline_id.enc() + rest;
        self.id.codec(t1);
        self.pipeline_id.codec(rest);
        let b = self.enc() + rest;
        assert(b =~= self.id.enc() + t1);
        assert(b.skip(8) =~= t1);
    }

    proof fn dec_short(b: Seq<u8>) {
        u64::dec_short(b);
        if b.len() >= 8 {
            PipelineId::dec_short(b.skip(8));
        }
    }

    fn wsize() -> (n: usize) {
        16
    }

    fn put(&self, out: &mut Vec<u8>) {
        self.id.put(out);
        self.pipeline_id.put(out);
        proof {
            assert(out@ =~= old(out)@ + self.enc());
        }
    }

    fn read_at(buf: &Vec<u8>, pos: usize) -> (r: Option<Self>) {
        let buf_len = buf.len();
        let ghost b = buf@.skip(pos as int);
        match u64::read_at(buf, pos) {
            None => None,
            Some(id) => {
                proof {
                    u64::dec_short(b);
                    assert(b.skip(8) =~= buf@.skip(pos as int + 8));
                }
                match PipelineId::read_at(buf, pos + 8) {
                    None => None,
                    Some(pipeline_id) => Some(ClipId { id, pipeline_id }),
                }
            },
        }
    }
}

impl Wire for Option<ClipId> {
    open spec fn wlen() -> nat {
        17
    }

    open spec fn enc(self) -> Seq<u8> {
        match self {
            None => seq![0u8] + crate::wire::zeros(16),
            Some(v) => seq![1u8] + v.enc(),
        }
    }

    open spec fn dec(b: Seq<u8>) -> Option<Self> {
        if b.len() < 17 {
            None
        } else if b[0] == 0 {
            Some(None)
        } else if b[0] == 1 {
            match ClipId::dec(b.skip(1)) {
                None => None,
                Some(v) => Some(Some(v)),
            }
        } else {
            None
        }
    }

    proof fn codec(self, rest: Seq<u8>) {
        match self {
            None => {},
            Some(v) => {
                v.codec(rest);
                assert((self.enc() + rest).skip(1) =~= v.enc() + rest);
            },
        }
    }

    proof fn dec_short(b: Seq<u8>) {
    }

    fn wsize() -> (n: usize) {
        17
    }

    fn put(&self, out: &mut Vec<u8>) {
        match self {
            None => {
                out.push(0);
                crate::wire::put_zeros(out, 16);
                proof {
                    assert(out@ =~= old(out)@ + self.enc());
                }
            },
            Some(v) => {
                out.push(1);
                v.put(out);
                proof {
                    assert(out@ =~= old(out)@ + self.enc());
                }
            },
        }
    }

    fn read_at(buf: &Vec<u8>, pos: usize) -> (r: Option<Self>) {
        let buf_len = buf.len();
        let ghost b = buf@.skip(pos as int);
        if buf.len() - pos < 17 {
            None
        } else if buf[pos] == 0 {
            Some(None)
        } else if buf[pos] == 1 {
            proof {
                assert(b.skip(1) =~= buf@.skip(pos as int + 1));
            }
            match ClipId::read_at(buf, pos + 1) {
                None => None,
                Some(v) => Some(Some(v)),
            }
        } else {
            None
        }
    }
}

/// The active coordinate and clipping scope under which an item is
/// interpreted: a scroll node, and optionally a separate clip node.
#[derive(Clone, Copy, Debug, PartialEq, Eq, Structural, Hash)]
pub struct ClipAndScrollInfo {
    pub scroll_node_id: ClipId,
    pub clip_node_id: Option<ClipId>,
}

impl ClipAndScrollInfo {
    /// A scope whose clip node is the scroll node itself.
    pub open spec fn simple_spec(node_id: ClipId) -> Self {
        ClipAndScrollInfo { scroll_node_id: node_id, clip_node_id: None }
    }

    /// A scope whose clip node is the scroll node itself.
    #[verifier::when_used_as_spec(simple_spec)]
    pub fn simple(node_id: ClipId) -> (r: Self)
        ensures
            r == (ClipAndScrollInfo { scroll_node_id: node_id, clip_node_id: None }),
    {
        ClipAndScrollInfo { scroll_node_id: node_id, clip_node_id: None }
    }

    pub fn new(scroll_node_id: ClipId, clip_node_id: ClipId) -> (r: Self)
        ensures
            r == (ClipAndScrollInfo { scroll_node_id, clip_node_id: Some(clip_node_id) }),
    {
        ClipAndScrollInfo { scroll_node_id, clip_node_id: Some(clip_node_id) }
    }

    /// The clip node in effect: the explicit one if any, else the scroll node.
    pub fn clip_node_id(&self) -> (r: ClipId)
        ensures
            r == match self.clip_node_id {
                Some(id) => id,
                None => self.scroll_node_id,
            },
    {
        match self.clip_node_id {
            Some(id) => id,
            None => self.scroll_node_id,
        }
    }
}

impl Wire for ClipAndScrollInfo {
    open spec fn wlen() -> nat {
        33
    }

    open spec fn enc(self) -> Seq<u8> {
        self.scroll_node_id.enc() + self.clip_node_id.enc()
    }

    open spec fn dec(b: Seq<u8>) -> Option<Self> {
        match (ClipId::dec(b), <Option<ClipId> as Wire>::dec(b.skip(16))) {
            (Some(scroll_node_id), Some(clip_node_id)) => Some(
                ClipAndScrollInfo { scroll_node_id, clip_node_id },
            ),
            _ => None,
        }
    }

    proof fn codec(self, rest: Seq<u8>) {
        let t1 = self.clip_node_id.enc() + rest;
        self.scroll_node_id.codec(t1);
        self.clip_node_id.codec(rest);
        let b = self.enc() + rest;
        assert(b =~= self.scroll_node_id.enc() + t1);
        assert(b.skip(16) =~= t1);
    }

    proof fn dec_short(b: Seq<u8>) {
        ClipId::dec_short(b);
        if b.len() >= 16 {
            <Option<ClipId> as Wire>::dec_short(b.skip(16));
        }
    }

    fn wsize() -> (n: usize) {
        33
    }

    fn put(&self, out: &mut Vec<u8>) {
        self.scroll_node_id.put(out);
        self.clip_node_id.put(out);
        proof {
            assert(out@ =~= old(out)@ + self.enc());
        }
    }

    fn read_at(buf: &Vec<u8>, pos: usize) -> (r: Option<Self>) {
        let buf_len = buf.len();
        let ghost b = buf@.skip(pos as int);
        match ClipId::read_at(buf, pos) {
            None => None,
            Some(scroll_node_id) => {
                proof {
                    ClipId::dec_short(b);
                    assert(b.skip(16) =~= buf@.skip(pos as int + 16));
                }
                match <Option<ClipId> as Wire>::read_at(buf, pos + 16) {
                    None => None,
                    Some(clip_node_id) => Some(ClipAndScrollInfo { scroll_node_id, clip_node_id }),
                }
            },
        }
    }
}

// ---------------------------------------------------------------------------
// Placement metadata
// ---------------------------------------------------------------------------

/// Per-item placement metadata: bounding rect, local clip rect, and backface
/// visibility.
#[derive(Clone, Copy, Debug, PartialEq, Eq, Structural)]
pub struct LayoutPrimitiveInfo {
    pub rect: LayoutRect,
    pub local_clip: LayoutRect,
    pub is_backface_visible: bool,
}

impl LayoutPrimitiveInfo {
    /// Metadata whose local clip is the bounding rect itself.
    pub open spec fn new_spec(rect: LayoutRect) -> Self {
        LayoutPrimitiveInfo { rect, local_clip: rect, is_backface_visible: true }
    }

    /// Metadata whose local clip is the bounding rect itself.
    #[verifier::when_used_as_spec(new_spec)]
    pub fn new(rect: LayoutRect) -> (r: Self)
        ensures
            r == (LayoutPrimitiveInfo { rect, local_clip: rect, is_backface_visible: true }),
    {
        LayoutPrimitiveInfo { rect, local_clip: rect, is_backface_visible: true }
    }

    pub open spec fn with_clip_rect_spec(rect: LayoutRect, clip_rect: LayoutRect) -> Self {
        LayoutPrimitiveInfo { rect, local_clip: clip_rect, is_backface_visible: true }
    }

    #[verifier::when_used_as_spec(with_clip_rect_spec)]
    pub fn with_clip_rect(rect: LayoutRect, clip_rect: LayoutRect) -> (r: Self)
        ensures
            r == (LayoutPrimitiveInfo { rect, local_clip: clip_rect, is_backface_visible: true }),
    {
        LayoutPrimitiveInfo { rect, local_clip: clip_rect, is_backface_visible: true }
    }
}

impl Wire for LayoutPrimitiveInfo {
    open spec fn wlen() -> nat {
        73
    }

    open spec fn enc(self) -> Seq<u8> {
        self.rect.enc() + self.local_clip.enc() + self.is_backface_visible.enc()
    }

    open spec fn dec(b: Seq<u8>) -> Option<Self> {
        match (LayoutRect::dec(b), LayoutRect::dec(b.skip(36)), bool::dec(b.skip(72))) {
            (Some(rect), Some(local_clip), Some(is_backface_visible)) => Some(
                LayoutPrimitiveInfo { rect, local_clip, is_backface_visible },
            ),
            _ => None,
        }
    }

    proof fn codec(self, rest: Seq<u8>) {
        let t2 = self.is_backface_visible.enc() + rest;
        let t1 = self.local_clip.enc() + t2;
        self.rect.codec(t1);
        self.local_clip.codec(t2);
        self.is_backface_visible.codec(rest);
        let b = self.enc() + rest;
        assert(b =~= self.rect.enc() + t1);
        assert(b.skip(36) =~= t1);
        assert(b.skip(72) =~= t2);
    }

    proof fn dec_short(b: Seq<u8>) {
        LayoutRect::dec_short(b);
        if b.len() >= 36 {
            LayoutRect::dec_short(b.skip(36));
        }
        if b.len() >= 72 {
            bool::dec_short(b.skip(72));
        }
    }

    fn wsize() -> (n: usize) {
        73
    }

    fn put(&self, out: &mut Vec<u8>) {
        self.rect.put(out);
        self.local_clip.put(out);
        self.is_backface_visible.put(out);
        proof {
            assert(out@ =~= old(out)@ + self.enc());
        }
    }

    fn read_at(buf: &Vec<u8>, pos: usize) -> (r: Option<Self>) {
        let buf_len = buf.len();
        let ghost b = buf@.skip(pos as int);
        match LayoutRect::read_at(buf, pos) {
            None => None,
            Some(rect) => {
                proof {
                    LayoutRect::dec_short(b);
                    assert(b.skip(36) =~= buf@.skip(pos as int + 36));
                }
                match LayoutRect::read_at(buf, pos + 36) {
                    None => None,
                    Some(local_clip) => {
                        proof {
                            LayoutRect::dec_short(b.skip(36));
                            assert(b.skip(72) =~= buf@.skip(pos as int + 72));
                        }
                        match bool::read_at(buf, pos + 72) {
                            None => None,
                            Some(is_backface_visible) => Some(
                                LayoutPrimitiveInfo { rect, local_clip, is_backface_visible },
                            ),
                        }
                    },
                }
            },
        }
    }
}

// ---------------------------------------------------------------------------
// Keys and small records
// ---------------------------------------------------------------------------

/// A handle to an image resource, opaque to this crate.
#[derive(Clone, Copy, Debug, PartialEq, Eq, Structural, Hash)]
pub struct ImageKey {
    pub namespace_id: u32,
    pub key: u32,
}

impl Wire for ImageKey {
    open spec fn wlen() -> nat {
        8
    }

    open spec fn enc(self) -> Seq<u8> {
        self.namespace_id.enc() + self.key.enc()
    }

    open spec fn dec(b: Seq<u8>) -> Option<Self> {
        match (u32::dec(b), u32::dec(b.skip(4))) {
            (Some(v0), Some(v1)) => Some(ImageKey { namespace_id: v0, key: v1 }),
            _ => None,
        }
    }

    proof fn codec(self, rest: Seq<u8>) {
        let t2 = rest;
        let t1 = self.key.enc() + t2;
        self.namespace_id.codec(t1);
        self.key.codec(t2);
        let b = self.enc() + rest;
        assert(b =~= self.namespace_id.enc() + t1);
        assert(b.skip(4) =~= t1);
    }

    proof fn dec_short(b: Seq<u8>) {
        u32::dec_short(b);
        if b.len() >= 4 {
            u32::dec_short(b.skip(4));
        }
    }

    fn wsize() -> (n: usize) {
        8
    }

    fn put(&self, out: &mut Vec<u8>) {
        self.namespace_id.put(out);
        self.key.put(out);
        proof {
            assert(out@ =~= old(out)@ + self.enc());
        }
    }

    fn read_at(buf: &Vec<u8>, pos: usize) -> (r: Option<Self>) {
        let buf_len = buf.len();
        let ghost b = buf@.skip(pos as int);
        match u32::read_at(buf, pos) {
            None => None,
            Some(v0) => {
                proof {
                    u32::dec_short(b);
                    assert(b.skip(4) =~= buf@.skip(pos as int + 4));
                }
                match u32::read_at(buf, pos + 4) {
                    None => None,
                    Some(v1) => {
                        Some(ImageKey { namespace_id: v0, key: v1 })
                    },
                }
            },
        }
    }
}

/// A handle to a font instance, opaque to this crate.
#[derive(Clone, Copy, Debug, PartialEq, Eq, Structural, Hash)]
pub struct FontInstanceKey {
    pub namespace_id: u32,
    pub key: u32,
}

impl Wire for FontInstanceKey {
    open spec fn wlen() -> nat {
        8
    }

    open spec fn enc(self) -> Seq<u8> {
        self.namespace_id.enc() + self.key.enc()
    }

    open spec fn dec(b: Seq<u8>) -> Option<Self> {
        match (u32::dec(b), u32::dec(b.skip(4))) {
            (Some(v0), Some(v1)) => Some(FontInstanceKey { namespace_id: v0, key: v1 }),
            _ => None,
        }
    }

    proof fn codec(self, rest: Seq<u8>) {
        let t2 = rest;
        let t1 = self.key.enc() + t2;
        self.namespace_id.codec(t1);
        self.key.codec(t2);
        let b = self.enc() + rest;
        assert(b =~= self.namespace_id.enc() + t1);
        assert(b.skip(4) =~= t1);
    }

    proof fn dec_short(b: Seq<u8>) {
        u32::dec_short(b);
        if b.len() >= 4 {
            u32::dec_short(b.skip(4));
        }
    }

    fn wsize() -> (n: usize) {
        8
    }

    fn put(&self, out: &mut Vec<u8>) {
        self.namespace_id.put(out);
        self.key.put(out);
        proof {
            assert(out@ =~= old(out)@ + self.enc());
        }
    }

    fn read_at(buf: &Vec<u8>, pos: usize) -> (r: Option<Self>) {
        let buf_len = buf.len();
        let ghost b = buf@.skip(pos as int);
        match u32::read_at(buf, pos) {
            None => None,
            Some(v0) => {
                proof {
                    u32::dec_short(b);
                    assert(b.skip(4) =~= buf@.skip(pos as int + 4));
                }
                match u32::read_at(buf, pos + 4) {
                    None => None,
                    Some(v1) => {
                        Some(FontInstanceKey { namespace_id: v0, key: v1 })
                    },
                }
            },
        }
    }
}

/// Per-text-run glyph rendering options, carried as a flag word.
#[derive(Clone, Copy, Debug, PartialEq, Eq, Structural)]
pub struct GlyphOptions {
    pub flags: u32,
}

impl Wire for GlyphOptions {
    open spec fn wlen() -> nat {
        4
    }

    open spec fn enc(self) -> Seq<u8> {
        self.flags.enc()
    }

    open spec fn dec(b: Seq<u8>) -> Option<Self> {
        match (u32::dec(b)) {
            (Some(v0)) => Some(GlyphOptions { flags: v0 }),
            _ => None,
        }
    }

    proof fn codec(self, rest: Seq<u8>) {
        let t1 = rest;
        self.flags.codec(t1);
        let b = self.enc() + rest;
        assert(b =~= self.flags.enc() + t1);
    }

    proof fn dec_short(b: Seq<u8>) {
        u32::dec_short(b);
    }

    fn wsize() -> (n: usize) {
        4
    }

    fn put(&self, out: &mut Vec<u8>) {
        self.flags.put(out);
        proof {
            assert(out@ =~= old(out)@ + self.enc());
        }
    }

    fn read_at(buf: &Vec<u8>, pos: usize) -> (r: Option<Self>) {
        let buf_len = buf.len();
        let ghost b = buf@.skip(pos as int);
        match u32::read_at(buf, pos) {
            None => None,
            Some(v0) => {
                Some(GlyphOptions { flags: v0 })
            },
        }
    }
}

/// An image used as a clip mask over a rectangle.
#[derive(Clone, Copy, Debug, PartialEq, Eq, Structural)]
pub struct ImageMask {
    pub image: ImageKey,
    pub rect: LayoutRect,
    pub repeat: bool,
}

impl Wire for ImageMask {
    open spec fn wlen() -> nat {
        45
    }

    open spec fn enc(self) -> Seq<u8> {
        self.image.enc() + self.rect.enc() + self.repeat.enc()
    }

    open spec fn dec(b: Seq<u8>) -> Option<Self> {
        match (ImageKey::dec(b), LayoutRect::dec(b.skip(8)), bool::dec(b.skip(44))) {
            (Some(v0), Some(v1), Some(v2)) => Some(ImageMask { image: v0, rect: v1, repeat: v2 }),
            _ => None,
        }
    }

    proof fn codec(self, rest: Seq<u8>) {
        let t3 = rest;
        let t2 = self.repeat.enc() + t3;
        let t1 = self.rect.enc() + t2;
        self.image.codec(t1);
        self.rect.codec(t2);
        self.repeat.codec(t3);
        let b = self.enc() + rest;
        assert(b =~= self.image.enc() + t1);
        assert(b.skip(8) =~= t1);
        assert(b.skip(44) =~= t2);
    }

    proof fn dec_short(b: Seq<u8>) {
        ImageKey::dec_short(b);
        if b.len() >= 8 {
            LayoutRect::dec_short(b.skip(8));
        }
        if b.len() >= 44 {
            bool::dec_short(b.skip(44));
        }
    }

    fn wsize() -> (n: usize) {
        45
    }

    fn put(&self, out: &mut Vec<u8>) {
        self.image.put(out);
        self.rect.put(out);
        self.repeat.put(out);
        proof {
            assert(out@ =~= old(out)@ + self.enc());
        }
    }

    fn read_at(buf: &Vec<u8>, pos: usize) -> (r: Option<Self>) {
        let buf_len = buf.len();
        let ghost b = buf@.skip(pos as int);
        match ImageKey::read_at(buf, pos) {
            None => None,
            Some(v0) => {
                proof {
                    ImageKey::dec_short(b);
                    assert(b.skip(8) =~= buf@.skip(pos as int + 8));
                }
                match LayoutRect::read_at(buf, pos + 8) {
                    None => None,
                    Some(v1) => {
                        proof {
                            LayoutRect::dec_short(b.skip(8));
                            assert(b.skip(44) =~= buf@.skip(pos as int + 44));
                        }
                        match bool::read_at(buf, pos + 44) {
                            None => None,
                            Some(v2) => {
                                Some(ImageMask { image: v0, rect: v1, repeat: v2 })
                            },
                        }
                    },
                }
            },
        }
    }
}

/// One gradient color stop: a fixed-point offset and a color.
#[derive(Clone, Copy, Debug, PartialEq, Eq, Structural)]
pub struct GradientStop {
    pub offset: i64,
    pub color: ColorU,
}

impl Wire for GradientStop {
    open spec fn wlen() -> nat {
        13
    }

    open spec fn enc(self) -> Seq<u8> {
        self.offset.enc() + self.color.enc()
    }

    open spec fn dec(b: Seq<u8>) -> Option<Self> {
        match (i64::dec(b), ColorU::dec(b.skip(9))) {
            (Some(v0), Some(v1)) => Some(GradientStop { offset: v0, color: v1 }),
            _ => None,
        }
    }

    proof fn codec(self, rest: Seq<u8>) {
        let t2 = rest;
        let t1 = self.color.enc() + t2;
        self.offset.codec(t1);
        self.color.codec(t2);
        let b = self.enc() + rest;
        assert(b =~= self.offset.enc() + t1);
        assert(b.skip(9) =~= t1);
    }

    proof fn dec_short(b: Seq<u8>) {
        i64::dec_short(b);
        if b.len() >= 9 {
            ColorU::dec_short(b.skip(9));
        }
    }

    fn wsize() -> (n: usize) {
        13
    }

    fn put(&self, out: &mut Vec<u8>) {
        self.offset.put(out);
        self.color.put(out);
        proof {
            assert(out@ =~= old(out)@ + self.enc());
        }
    }

    fn read_at(buf: &Vec<u8>, pos: usize) -> (r: Option<Self>) {
        let buf_len = buf.len();
        let ghost b = buf@.skip(pos as int);
        match i64::read_at(buf, pos) {
            None => None,
            Some(v0) => {
                proof {
                    i64::dec_short(b);
                    assert(b.skip(9) =~= buf@.skip(pos as int + 9));
                }
                match ColorU::read_at(buf, pos + 9) {
                    None => None,
                    Some(v1) => {
                        Some(GradientStop { offset: v0, color: v1 })
                    },
                }
            },
        }
    }
}

/// One positioned glyph of a text run.
#[derive(Clone, Copy, Debug, PartialEq, Eq, Structural)]
pub struct GlyphInstance {
    pub index: u32,
    pub point: LayoutPoint,
}

impl Wire for GlyphInstance {
    open spec fn wlen() -> nat {
        22
    }

    open spec fn enc(self) -> Seq<u8> {
        self.index.enc() + self.point.enc()
    }

    open spec fn dec(b: Seq<u8>) -> Option<Self> {
        match (u32::dec(b), LayoutPoint::dec(b.skip(4))) {
            (Some(v0), Some(v1)) => Some(GlyphInstance { index: v0, point: v1 }),
            _ => None,
        }
    }

    proof fn codec(self, rest: Seq<u8>) {
        let t2 = rest;
        let t1 = self.point.enc() + t2;
        self.index.codec(t1);
        self.point.codec(t2);
        let b = self.enc() + rest;
        assert(b =~= self.index.enc() + t1);
        assert(b.skip(4) =~= t1);
    }

    proof fn dec_short(b: Seq<u8>) {
        u32::dec_short(b);
        if b.len() >= 4 {
            LayoutPoint::dec_short(b.skip(4));
        }
    }

    fn wsize() -> (n: usize) {
        22
    }

    fn put(&self, out: &mut Vec<u8>) {
        self.index.put(out);
        self.point.put(out);
        proof {
            assert(out@ =~= old(out)@ + self.enc());
        }
    }

    fn read_at(buf: &Vec<u8>, pos: usize) -> (r: Option<Self>) {
        let buf_len = buf.len();
        let ghost b = buf@.skip(pos as int);
        match u32::read_at(buf, pos) {
            None => None,
            Some(v0) => {
                proof {
                    u32::dec_short(b);
                    assert(b.skip(4) =~= buf@.skip(pos as int + 4));
                }
                match LayoutPoint::read_at(buf, pos + 4) {
                    None => None,
                    Some(v1) => {
                        Some(GlyphInstance { index: v0, point: v1 })
                    },
                }
            },
        }
    }
}

/// A rounded-rectangle clip region.
#[derive(Clone, Copy, Debug, PartialEq, Eq, Structural)]
pub struct ComplexClipRegion {
    pub rect: LayoutRect,
    pub radii: LayoutSize,
}

impl Wire for ComplexClipRegion {
    open spec fn wlen() -> nat {
        54
    }

    open spec fn enc(self) -> Seq<u8> {
        self.rect.enc() + self.radii.enc()
    }

    open spec fn dec(b: Seq<u8>) -> Option<Self> {
        match (LayoutRect::dec(b), LayoutSize::dec(b.skip(36))) {
            (Some(v0), Some(v1)) => Some(ComplexClipRegion { rect: v0, radii: v1 }),
            _ => None,
        }
    }

    proof fn codec(self, rest: Seq<u8>) {
        let t2 = rest;
        let t1 = self.radii.enc() + t2;
        self.rect.codec(t1);
        self.radii.codec(t2);
        let b = self.enc() + rest;
        assert(b =~= self.rect.enc() + t1);
        assert(b.skip(36) =~= t1);
    }

    proof fn dec_short(b: Seq<u8>) {
        LayoutRect::dec_short(b);
        if b.len() >= 36 {
            LayoutSize::dec_short(b.skip(36));
        }
    }

    fn wsize() -> (n: usize) {
        54
    }

    fn put(&self, out: &mut Vec<u8>) {
        self.rect.put(out);
        self.radii.put(out);
        proof {
            assert(out@ =~= old(out)@ + self.enc());
        }
    }

    fn read_at(buf: &Vec<u8>, pos: usize) -> (r: Option<Self>) {
        let buf_len = buf.len();
        let ghost b = buf@.skip(pos as int);
        match LayoutRect::read_at(buf, pos) {
            None => None,
            Some(v0) => {
                proof {
                    LayoutRect::dec_short(b);
                    assert(b.skip(36) =~= buf@.skip(pos as int + 36));
                }
                match LayoutSize::read_at(buf, pos + 36) {
                    None => None,
                    Some(v1) => {
                        Some(ComplexClipRegion { rect: v0, radii: v1 })
                    },
                }
            },
        }
    }
}

/// Optional per-side offsets, used by sticky-frame margins.
#[derive(Clone, Copy, Debug, PartialEq, Eq, Structural)]
pub struct SideOffsets {
    pub top: Option<i64>,
    pub right: Option<i64>,
    pub bottom: Option<i64>,
    pub left: Option<i64>,
}

impl Wire for SideOffsets {
    open spec fn wlen() -> nat {
        40
    }

    open spec fn enc(self) -> Seq<u8> {
        self.top.enc() + self.right.enc() + self.bottom.enc() + self.left.enc()
    }

    open spec fn dec(b: Seq<u8>) -> Option<Self> {
        match (<Option<i64> as Wire>::dec(b), <Option<i64> as Wire>::dec(b.skip(10)), <Option<i64> as Wire>::dec(b.skip(20)), <Option<i64> as Wire>::dec(b.skip(30))) {
            (Some(v0), Some(v1), Some(v2), Some(v3)) => Some(SideOffsets { top: v0, right: v1, bottom: v2, left: v3 }),
            _ => None,
        }
    }

    proof fn codec(self, rest: Seq<u8>) {
        let t4 = rest;
        let t3 = self.left.enc() + t4;
        let t2 = self.bottom.enc() + t3;
        let t1 = self.right.enc() + t2;
        self.top.codec(t1);
        self.right.codec(t2);
        self.bottom.codec(t3);
        self.left.codec(t4);
        let b = self.enc() + rest;
        assert(b =~= self.top.enc() + t1);
        assert(b.skip(10) =~= t1);
        assert(b.skip(20) =~= t2);
        assert(b.skip(30) =~= t3);
    }

    proof fn dec_short(b: Seq<u8>) {
        <Option<i64> as Wire>::dec_short(b);
        if b.len() >= 10 {
            <Option<i64> as Wire>::dec_short(b.skip(10));
        }
        if b.len() >= 20 {
            <Option<i64> as Wire>::dec_short(b.skip(20));
        }
        if b.len() >= 30 {
            <Option<i64> as Wire>::dec_short(b.skip(30));
        }
    }

    fn wsize() -> (n: usize) {
        40
    }

    fn put(&self, out: &mut Vec<u8>) {
        self.top.put(out);
        self.right.put(out);
        self.bottom.put(out);
        self.left.put(out);
        proof {
            assert(out@ =~= old(out)@ + self.enc());
        }
    }

    fn read_at(buf: &Vec<u8>, pos: usize) -> (r: Option<Self>) {
        let buf_len = buf.len();
        let ghost b = buf@.skip(pos as int);
        match <Option<i64> as Wire>::read_at(buf, pos) {
            None => None,
            Some(v0) => {
                proof {
                    <Option<i64> as Wire>::dec_short(b);
                    assert(b.skip(10) =~= buf@.skip(pos as int + 10));
                }
                match <Option<i64> as Wire>::read_at(buf, pos + 10) {
                    None => None,
                    Some(v1) => {
                        proof {
                            <Option<i64> as Wire>::dec_short(b.skip(10));
                            assert(b.skip(20) =~= buf@.skip(pos as int + 20));
                        }
                        match <Option<i64> as Wire>::read_at(buf, pos + 20) {
                            None => None,
                            Some(v2) => {
                                proof {
                                    <Option<i64> as Wire>::dec_short(b.skip(20));
                                    assert(b.skip(30) =~= buf@.skip(pos as int + 30));
                                }
                                match <Option<i64> as Wire>::read_at(buf, pos + 30) {
                                    None => None,
                                    Some(v3) => {
                                        Some(SideOffsets { top: v0, right: v1, bottom: v2, left: v3 })
                                    },
                                }
                            },
                        }
                    },
                }
            },
        }
    }
}

/// The bounds within which a sticky frame may be shifted.
#[derive(Clone, Copy, Debug, PartialEq, Eq, Structural)]
pub struct StickyOffsetBounds {
    pub min: i64,
    pub max: i64,
}

impl Wire for StickyOffsetBounds {
    open spec fn wlen() -> nat {
        18
    }

    open spec fn enc(self) -> Seq<u8> {
        self.min.enc() + self.max.enc()
    }

    open spec fn dec(b: Seq<u8>) -> Option<Self> {
        match (i64::dec(b), i64::dec(b.skip(9))) {
            (Some(v0), Some(v1)) => Some(StickyOffsetBounds { min: v0, max: v1 }),
            _ => None,
        }
    }

    proof fn codec(self, rest: Seq<u8>) {
        let t2 = rest;
        let t1 = self.max.enc() + t2;
        self.min.codec(t1);
        self.max.codec(t2);
        let b = self.enc() + rest;
        assert(b =~= self.min.enc() + t1);
        assert(b.skip(9) =~= t1);
    }

    proof fn dec_short(b: Seq<u8>) {
        i64::dec_short(b);
        if b.len() >= 9 {
            i64::dec_short(b.skip(9));
        }
    }

    fn wsize() -> (n: usize) {
        18
    }

    fn put(&self, out: &mut Vec<u8>) {
        self.min.put(out);
        self.max.put(out);
        proof {
            assert(out@ =~= old(out)@ + self.enc());
        }
    }

    fn read_at(buf: &Vec<u8>, pos: usize) -> (r: Option<Self>) {
        let buf_len = buf.len();
        let ghost b = buf@.skip(pos as int);
        match i64::read_at(buf, pos) {
            None => None,
            Some(v0) => {
                proof {
                    i64::dec_short(b);
                    assert(b.skip(9) =~= buf@.skip(pos as int + 9));
                }
                match i64::read_at(buf, pos + 9) {
                    None => None,
                    Some(v1) => {
                        Some(StickyOffsetBounds { min: v0, max: v1 })
                    },
                }
            },
        }
    }
}

/// Per-side border widths, in fixed-point units.
#[derive(Clone, Copy, Debug, PartialEq, Eq, Structural)]
pub struct BorderWidths {
    pub left: i64,
    pub top: i64,
    pub right: i64,
    pub bottom: i64,
}

impl Wire for BorderWidths {
    open spec fn wlen() -> nat {
        36
    }

    open spec fn enc(self) -> Seq<u8> {
        self.left.enc() + self.top.enc() + self.right.enc() + self.bottom.enc()
    }

    open spec fn dec(b: Seq<u8>) -> Option<Self> {
        match (i64::dec(b), i64::dec(b.skip(9)), i64::dec(b.skip(18)), i64::dec(b.skip(27))) {
            (Some(v0), Some(v1), Some(v2), Some(v3)) => Some(BorderWidths { left: v0, top: v1, right: v2, bottom: v3 }),
            _ => None,
        }
    }

    proof fn codec(self, rest: Seq<u8>) {
        let t4 = rest;
        let t3 = self.bottom.enc() + t4;
        let t2 = self.right.enc() + t3;
        let t1 = self.top.enc() + t2;
        self.left.codec(t1);
        self.top.codec(t2);
        self.right.codec(t3);
        self.bottom.codec(t4);
        let b = self.enc() + rest;
        assert(b =~= self.left.enc() + t1);
        assert(b.skip(9) =~= t1);
        assert(b.skip(18) =~= t2);
        assert(b.skip(27) =~= t3);
    }

    proof fn dec_short(b: Seq<u8>) {
        i64::dec_short(b);
        if b.len() >= 9 {
            i64::dec_short(b.skip(9));
        }
        if b.len() >= 18 {
            i64::dec_short(b.skip(18));
        }
        if b.len() >= 27 {
            i64::dec_short(b.skip(27));
        }
    }

    fn wsize() -> (n: usize) {
        36
    }

    fn put(&self, out: &mut Vec<u8>) {
        self.left.put(out);
        self.top.put(out);
        self.right.put(out);
        self.bottom.put(out);
        proof {
            assert(out@ =~= old(out)@ + self.enc());
        }
    }

    fn read_at(buf: &Vec<u8>, pos: usize) -> (r: Option<Self>) {
        let buf_len = buf.len();
        let ghost b = buf@.skip(pos as int);
        match i64::read_at(buf, pos) {
            None => None,
            Some(v0) => {
                proof {
                    i64::dec_short(b);
                    assert(b.skip(9) =~= buf@.skip(pos as int + 9));
                }
                match i64::read_at(buf, pos + 9) {
                    None => None,
                    Some(v1) => {
                        proof {
                            i64::dec_short(b.skip(9));
                            assert(b.skip(18) =~= buf@.skip(pos as int + 18));
                        }
                        match i64::read_at(buf, pos + 18) {
                            None => None,
                            Some(v2) => {
                                proof {
                                    i64::dec_short(b.skip(18));
                                    assert(b.skip(27) =~= buf@.skip(pos as int + 27));
                                }
                                match i64::read_at(buf, pos + 27) {
                                    None => None,
                                    Some(v3) => {
                                        Some(BorderWidths { left: v0, top: v1, right: v2, bottom: v3 })
                                    },
                                }
                            },
                        }
                    },
                }
            },
        }
    }
}

// ---------------------------------------------------------------------------
// Optional records
// ---------------------------------------------------------------------------

impl Wire for Option<i64> {
    open spec fn wlen() -> nat {
        10
    }

    open spec fn enc(self) -> Seq<u8> {
        match self {
            None => seq![0u8] + crate::wire::zeros(9),
            Some(v) => seq![1u8] + v.enc(),
        }
    }

    open spec fn dec(b: Seq<u8>) -> Option<Self> {
        if b.len() < 10 {
            None
        } else if b[0] == 0 {
            Some(None)
        } else if b[0] == 1 {
            match i64::dec(b.skip(1)) {
                None => None,
                Some(v) => Some(Some(v)),
            }
        } else {
            None
        }
    }

    proof fn codec(self, rest: Seq<u8>) {
        match self {
            None => {},
            Some(v) => {
                v.codec(rest);
                assert((self.enc() + rest).skip(1) =~= v.enc() + rest);
            },
        }
    }

    proof fn dec_short(b: Seq<u8>) {
    }

    fn wsize() -> (n: usize) {
        10
    }

    fn put(&self, out: &mut Vec<u8>) {
        match self {
            None => {
                out.push(0);
                crate::wire::put_zeros(out, 9);
                proof {
                    assert(out@ =~= old(out)@ + self.enc());
                }
            },
            Some(v) => {
                out.push(1);
                v.put(out);
                proof {
                    assert(out@ =~= old(out)@ + self.enc());
                }
            },
        }
    }

    fn read_at(buf: &Vec<u8>, pos: usize) -> (r: Option<Self>) {
        let buf_len = buf.len();
        let ghost b = buf@.skip(pos as int);
        if buf.len() - pos < 10 {
            None
        } else if buf[pos] == 0 {
            Some(None)
        } else if buf[pos] == 1 {
            proof {
                assert(b.skip(1) =~= buf@.skip(pos as int + 1));
            }
            match i64::read_at(buf, pos + 1) {
                None => None,
                Some(v) => Some(Some(v)),
            }
        } else {
            None
        }
    }
}

impl Wire for Option<GlyphOptions> {
    open spec fn wlen() -> nat {
        5
    }

    open spec fn enc(self) -> Seq<u8> {
        match self {
            None => seq![0u8] + crate::wire::zeros(4),
            Some(v) => seq![1u8] + v.enc(),
        }
    }

    open spec fn dec(b: Seq<u8>) -> Option<Self> {
        if b.len() < 5 {
            None
        } else if b[0] == 0 {
            Some(None)
        } else if b[0] == 1 {
            match GlyphOptions::dec(b.skip(1)) {
                None => None,
                Some(v) => Some(Some(v)),
            }
        } else {
            None
        }
    }

    proof fn codec(self, rest: Seq<u8>) {
        match self {
            None => {},
            Some(v) => {
                v.codec(rest);
                assert((self.enc() + rest).skip(1) =~= v.enc() + rest);
            },
        }
    }

    proof fn dec_short(b: Seq<u8>) {
    }

    fn wsize() -> (n: usize) {
        5
    }

    fn put(&self, out: &mut Vec<u8>) {
        match self {
            None => {
                out.push(0);
                crate::wire::put_zeros(out, 4);
                proof {
                    assert(out@ =~= old(out)@ + self.enc());
                }
            },
            Some(v) => {
                out.push(1);
                v.put(out);
                proof {
                    assert(out@ =~= old(out)@ + self.enc());
                }
            },
        }
    }

    fn read_at(buf: &Vec<u8>, pos: usize) -> (r: Option<Self>) {
        let buf_len = buf.len();
        let ghost b = buf@.skip(pos as int);
        if buf.len() - pos < 5 {
            None
        } else if buf[pos] == 0 {
            Some(None)
        } else if buf[pos] == 1 {
            proof {
                assert(b.skip(1) =~= buf@.skip(pos as int + 1));
            }
            match GlyphOptions::read_at(buf, pos + 1) {
                None => None,
                Some(v) => Some(Some(v)),
            }
        } else {
            None
        }
    }
}

impl Wire for Option<ImageMask> {
    open spec fn wlen() -> nat {
        46
    }

    open spec fn enc(self) -> Seq<u8> {
        match self {
            None => seq![0u8] + crate::wire::zeros(45),
            Some(v) => seq![1u8] + v.enc(),
        }
    }

    open spec fn dec(b: Seq<u8>) -> Option<Self> {
        if b.len() < 46 {
            None
        } else if b[0] == 0 {
            Some(None)
        } else if b[0] == 1 {
            match ImageMask::dec(b.skip(1)) {
                None => None,
                Some(v) => Some(Some(v)),
            }
        } else {
            None
        }
    }

    proof fn codec(self, rest: Seq<u8>) {
        match self {
            None => {},
            Some(v) => {
                v.codec(rest);
                assert((self.enc() + rest).skip(1) =~= v.enc() + rest);
            },
        }
    }

    proof fn dec_short(b: Seq<u8>) {
    }

    fn wsize() -> (n: usize) {
        46
    }

    fn put(&self, out: &mut Vec<u8>) {
        match self {
            None => {
                out.push(0);
                crate::wire::put_zeros(out, 45);
                proof {
                    assert(out@ =~= old(out)@ + self.enc());
                }
            },
            Some(v) => {
                out.push(1);
                v.put(out);
                proof {
                    assert(out@ =~= old(out)@ + self.enc());
                }
            },
        }
    }

    fn read_at(buf: &Vec<u8>, pos: usize) -> (r: Option<Self>) {
        let buf_len = buf.len();
        let ghost b = buf@.skip(pos as int);
        if buf.len() - pos < 46 {
            None
        } else if buf[pos] == 0 {
            Some(None)
        } else if buf[pos] == 1 {
            proof {
                assert(b.skip(1) =~= buf@.skip(pos as int + 1));
            }
            match ImageMask::read_at(buf, pos + 1) {
                None => None,
                Some(v) => Some(Some(v)),
            }
        } else {
            None
        }
    }
}

// ---------------------------------------------------------------------------
// Discrete attributes
// ---------------------------------------------------------------------------

/// How a gradient extends beyond its line.
#[derive(Clone, Copy, Debug, PartialEq, Eq, Structural, Hash)]
pub enum ExtendMode {
    Clamp,
    Repeat,
}

impl Wire for ExtendMode {
    open spec fn wlen() -> nat {
        1
    }

    open spec fn enc(self) -> Seq<u8> {
        match self {
            ExtendMode::Clamp => seq![0u8],
            ExtendMode::Repeat => seq![1u8],
        }
    }

    open spec fn dec(b: Seq<u8>) -> Option<Self> {
        if b.len() < 1 {
            None
        } else if b[0] == 0 {
            Some(ExtendMode::Clamp)
        } else if b[0] == 1 {
            Some(ExtendMode::Repeat)
        } else {
            None
        }
    }

    proof fn codec(self, rest: Seq<u8>) {
    }

    proof fn dec_short(b: Seq<u8>) {
    }

    fn wsize() -> (n: usize) {
        1
    }

    fn put(&self, out: &mut Vec<u8>) {
        match self {
            ExtendMode::Clamp => out.push(0),
            ExtendMode::Repeat => out.push(1),
        }
        proof {
            assert(out@ =~= old(out)@ + self.enc());
        }
    }

    fn read_at(buf: &Vec<u8>, pos: usize) -> (r: Option<Self>) {
        if buf.len() - pos < 1 {
            None
        } else {
            let t = buf[pos];
            if t == 0 {
                Some(ExtendMode::Clamp)
            } else if t == 1 {
                Some(ExtendMode::Repeat)
            } else {
                None
            }
        }
    }
}

/// The direction a line item runs in.
#[derive(Clone, Copy, Debug, PartialEq, Eq, Structural, Hash)]
pub enum LineOrientation {
    Vertical,
    Horizontal,
}

impl Wire for LineOrientation {
    open spec fn wlen() -> nat {
        1
    }

    open spec fn enc(self) -> Seq<u8> {
        match self {
            LineOrientation::Vertical => seq![0u8],
            LineOrientation::Horizontal => seq![1u8],
        }
    }

    open spec fn dec(b: Seq<u8>) -> Option<Self> {
        if b.len() < 1 {
            None
        } else if b[0] == 0 {
            Some(LineOrientation::Vertical)
        } else if b[0] == 1 {
            Some(LineOrientation::Horizontal)
        } else {
            None
        }
    }

    proof fn codec(self, rest: Seq<u8>) {
    }

    proof fn dec_short(b: Seq<u8>) {
    }

    fn wsize() -> (n: usize) {
        1
    }

    fn put(&self, out: &mut Vec<u8>) {
        match self {
            LineOrientation::Vertical => out.push(0),
            LineOrientation::Horizontal => out.push(1),
        }
        proof {
            assert(out@ =~= old(out)@ + self.enc());
        }
    }

    fn read_at(buf: &Vec<u8>, pos: usize) -> (r: Option<Self>) {
        if buf.len() - pos < 1 {
            None
        } else {
            let t = buf[pos];
            if t == 0 {
                Some(LineOrientation::Vertical)
            } else if t == 1 {
                Some(LineOrientation::Horizontal)
            } else {
                None
            }
        }
    }
}

/// The stroke style of a line item.
#[derive(Clone, Copy, Debug, PartialEq, Eq, Structural, Hash)]
pub enum LineStyle {
    Solid,
    Dotted,
    Dashed,
    Wavy,
}

impl Wire for LineStyle {
    open spec fn wlen() -> nat {
        1
    }

    open spec fn enc(self) -> Seq<u8> {
        match self {
            LineStyle::Solid => seq![0u8],
            LineStyle::Dotted => seq![1u8],
            LineStyle::Dashed => seq![2u8],
            LineStyle::Wavy => seq![3u8],
        }
    }

    open spec fn dec(b: Seq<u8>) -> Option<Self> {
        if b.len() < 1 {
            None
        } else if b[0] == 0 {
            Some(LineStyle::Solid)
        } else if b[0] == 1 {
            Some(LineStyle::Dotted)
        } else if b[0] == 2 {
            Some(LineStyle::Dashed)
        } else if b[0] == 3 {
            Some(LineStyle::Wavy)
        } else {
            None
        }
    }

    proof fn codec(self, rest: Seq<u8>) {
    }

    proof fn dec_short(b: Seq<u8>) {
    }

    fn wsize() -> (n: usize) {
        1
    }

    fn put(&self, out: &mut Vec<u8>) {
        match self {
            LineStyle::Solid => out.push(0),
            LineStyle::Dotted => out.push(1),
            LineStyle::Dashed => out.push(2),
            LineStyle::Wavy => out.push(3),
        }
        proof {
            assert(out@ =~= old(out)@ + self.enc());
        }
    }

    fn read_at(buf: &Vec<u8>, pos: usize) -> (r: Option<Self>) {
        if buf.len() - pos < 1 {
            None
        } else {
            let t = buf[pos];
            if t == 0 {
                Some(LineStyle::Solid)
            } else if t == 1 {
                Some(LineStyle::Dotted)
            } else if t == 2 {
                Some(LineStyle::Dashed)
            } else if t == 3 {
                Some(LineStyle::Wavy)
            } else {
                None
            }
        }
    }
}

/// The resampling mode for a scaled image.
#[derive(Clone, Copy, Debug, PartialEq, Eq, Structural, Hash)]
pub enum ImageRendering {
    Auto,
    CrispEdges,
    Pixelated,
}

impl Wire for ImageRendering {
    open spec fn wlen() -> nat {
        1
    }

    open spec fn enc(self) -> Seq<u8> {
        match self {
            ImageRendering::Auto => seq![0u8],
            ImageRendering::CrispEdges => seq![1u8],
            ImageRendering::Pixelated => seq![2u8],
        }
    }

    open spec fn dec(b: Seq<u8>) -> Option<Self> {
        if b.len() < 1 {
            None
        } else if b[0] == 0 {
            Some(ImageRendering::Auto)
        } else if b[0] == 1 {
            Some(ImageRendering::CrispEdges)
        } else if b[0] == 2 {
            Some(ImageRendering::Pixelated)
        } else {
            None
        }
    }

    proof fn codec(self, rest: Seq<u8>) {
    }

    proof fn dec_short(b: Seq<u8>) {
    }

    fn wsize() -> (n: usize) {
        1
    }

    fn put(&self, out: &mut Vec<u8>) {
        match self {
            ImageRendering::Auto => out.push(0),
            ImageRendering::CrispEdges => out.push(1),
            ImageRendering::Pixelated => out.push(2),
        }
        proof {
            assert(out@ =~= old(out)@ + self.enc());
        }
    }

    fn read_at(buf: &Vec<u8>, pos: usize) -> (r: Option<Self>) {
        if buf.len() - pos < 1 {
            None
        } else {
            let t = buf[pos];
            if t == 0 {
                Some(ImageRendering::Auto)
            } else if t == 1 {
                Some(ImageRendering::CrispEdges)
            } else if t == 2 {
                Some(ImageRendering::Pixelated)
            } else {
                None
            }
        }
    }
}

/// The color space of planar image data.
#[derive(Clone, Copy, Debug, PartialEq, Eq, Structural, Hash)]
pub enum YuvColorSpace {
    Rec601,
    Rec709,
}

impl Wire for YuvColorSpace {
    open spec fn wlen() -> nat {
        1
    }

    open spec fn enc(self) -> Seq<u8> {
        match self {
            YuvColorSpace::Rec601 => seq![0u8],
            YuvColorSpace::Rec709 => seq![1u8],
        }
    }

    open spec fn dec(b: Seq<u8>) -> Option<Self> {
        if b.len() < 1 {
            None
        } else if b[0] == 0 {
            Some(YuvColorSpace::Rec601)
        } else if b[0] == 1 {
            Some(YuvColorSpace::Rec709)
        } else {
            None
        }
    }

    proof fn codec(self, rest: Seq<u8>) {
    }

    proof fn dec_short(b: Seq<u8>) {
    }

    fn wsize() -> (n: usize) {
        1
    }

    fn put(&self, out: &mut Vec<u8>) {
        match self {
            YuvColorSpace::Rec601 => out.push(0),
            YuvColorSpace::Rec709 => out.push(1),
        }
        proof {
            assert(out@ =~= old(out)@ + self.enc());
        }
    }

    fn read_at(buf: &Vec<u8>, pos: usize) -> (r: Option<Self>) {
        if buf.len() - pos < 1 {
            None
        } else {
            let t = buf[pos];
            if t == 0 {
                Some(YuvColorSpace::Rec601)
            } else if t == 1 {
                Some(YuvColorSpace::Rec709)
            } else {
                None
            }
        }
    }
}

/// Whether a box shadow is drawn outside or inside its bounds.
#[derive(Clone, Copy, Debug, PartialEq, Eq, Structural, Hash)]
pub enum BoxShadowClipMode {
    Outset,
    Inset,
}

impl Wire for BoxShadowClipMode {
    open spec fn wlen() -> nat {
        1
    }

    open spec fn enc(self) -> Seq<u8> {
        match self {
            BoxShadowClipMode::Outset => seq![0u8],
            BoxShadowClipMode::Inset => seq![1u8],
        }
    }

    open spec fn dec(b: Seq<u8>) -> Option<Self> {
        if b.len() < 1 {
            None
        } else if b[0] == 0 {
            Some(BoxShadowClipMode::Outset)
        } else if b[0] == 1 {
            Some(BoxShadowClipMode::Inset)
        } else {
            None
        }
    }

    proof fn codec(self, rest: Seq<u8>) {
    }

    proof fn dec_short(b: Seq<u8>) {
    }

    fn wsize() -> (n: usize) {
        1
    }

    fn put(&self, out: &mut Vec<u8>) {
        match self {
            BoxShadowClipMode::Outset => out.push(0),
            BoxShadowClipMode::Inset => out.push(1),
        }
        proof {
            assert(out@ =~= old(out)@ + self.enc());
        }
    }

    fn read_at(buf: &Vec<u8>, pos: usize) -> (r: Option<Self>) {
        if buf.len() - pos < 1 {
            None
        } else {
            let t = buf[pos];
            if t == 0 {
                Some(BoxShadowClipMode::Outset)
            } else if t == 1 {
                Some(BoxShadowClipMode::Inset)
            } else {
                None
            }
        }
    }
}

/// Whether a stacking context scrolls with its parent or stays fixed.
#[derive(Clone, Copy, Debug, PartialEq, Eq, Structural, Hash)]
pub enum ScrollPolicy {
    Scrollable,
    Fixed,
}

impl Wire for ScrollPolicy {
    open spec fn wlen() -> nat {
        1
    }

    open spec fn enc(self) -> Seq<u8> {
        match self {
            ScrollPolicy::Scrollable => seq![0u8],
            ScrollPolicy::Fixed => seq![1u8],
        }
    }

    open spec fn dec(b: Seq<u8>) -> Option<Self> {
        if b.len() < 1 {
            None
        } else if b[0] == 0 {
            Some(ScrollPolicy::Scrollable)
        } else if b[0] == 1 {
            Some(ScrollPolicy::Fixed)
        } else {
            None
        }
    }

    proof fn codec(self, rest: Seq<u8>) {
    }

    proof fn dec_short(b: Seq<u8>) {
    }

    fn wsize() -> (n: usize) {
        1
    }

    fn put(&self, out: &mut Vec<u8>) {
        match self {
            ScrollPolicy::Scrollable => out.push(0),
            ScrollPolicy::Fixed => out.push(1),
        }
        proof {
            assert(out@ =~= old(out)@ + self.enc());
        }
    }

    fn read_at(buf: &Vec<u8>, pos: usize) -> (r: Option<Self>) {
        if buf.len() - pos < 1 {
            None
        } else {
            let t = buf[pos];
            if t == 0 {
                Some(ScrollPolicy::Scrollable)
            } else if t == 1 {
                Some(ScrollPolicy::Fixed)
            } else {
                None
            }
        }
    }
}

/// How a stacking context composes nested transforms.
#[derive(Clone, Copy, Debug, PartialEq, Eq, Structural, Hash)]
pub enum TransformStyle {
    Flat,
    Preserve3D,
}

impl Wire for TransformStyle {
    open spec fn wlen() -> nat {
        1
    }

    open spec fn enc(self) -> Seq<u8> {
        match self {
            TransformStyle::Flat => seq![0u8],
            TransformStyle::Preserve3D => seq![1u8],
        }
    }

    open spec fn dec(b: Seq<u8>) -> Option<Self> {
        if b.len() < 1 {
            None
        } else if b[0] == 0 {
            Some(TransformStyle::Flat)
        } else if b[0] == 1 {
            Some(TransformStyle::Preserve3D)
        } else {
            None
        }
    }

    proof fn codec(self, rest: Seq<u8>) {
    }

    proof fn dec_short(b: Seq<u8>) {
    }

    fn wsize() -> (n: usize) {
        1
    }

    fn put(&self, out: &mut Vec<u8>) {
        match self {
            TransformStyle::Flat => out.push(0),
            TransformStyle::Preserve3D => out.push(1),
        }
        proof {
            assert(out@ =~= old(out)@ + self.enc());
        }
    }

    fn read_at(buf: &Vec<u8>, pos: usize) -> (r: Option<Self>) {
        if buf.len() - pos < 1 {
            None
        } else {
            let t = buf[pos];
            if t == 0 {
                Some(TransformStyle::Flat)
            } else if t == 1 {
                Some(TransformStyle::Preserve3D)
            } else {
                None
            }
        }
    }
}

/// Which kinds of input may scroll a scroll frame.
#[derive(Clone, Copy, Debug, PartialEq, Eq, Structural, Hash)]
pub enum ScrollSensitivity {
    ScriptAndInputEvents,
    Script,
}

impl Wire for ScrollSensitivity {
    open spec fn wlen() -> nat {
        1
    }

    open spec fn enc(self) -> Seq<u8> {
        match self {
            ScrollSensitivity::ScriptAndInputEvents => seq![0u8],
            ScrollSensitivity::Script => seq![1u8],
        }
    }

    open spec fn dec(b: Seq<u8>) -> Option<Self> {
        if b.len() < 1 {
            None
        } else if b[0] == 0 {
            Some(ScrollSensitivity::ScriptAndInputEvents)
        } else if b[0] == 1 {
            Some(ScrollSensitivity::Script)
        } else {
            None
        }
    }

    proof fn codec(self, rest: Seq<u8>) {
    }

    proof fn dec_short(b: Seq<u8>) {
    }

    fn wsize() -> (n: usize) {
        1
    }

    fn put(&self, out: &mut Vec<u8>) {
        match self {
            ScrollSensitivity::ScriptAndInputEvents => out.push(0),
            ScrollSensitivity::Script => out.push(1),
        }
        proof {
            assert(out@ =~= old(out)@ + self.enc());
        }
    }

    fn read_at(buf: &Vec<u8>, pos: usize) -> (r: Option<Self>) {
        if buf.len() - pos < 1 {
            None
        } else {
            let t = buf[pos];
            if t == 0 {
                Some(ScrollSensitivity::ScriptAndInputEvents)
            } else if t == 1 {
                Some(ScrollSensitivity::Script)
            } else {
                None
            }
        }
    }
}

/// The stroke style of a border side.
#[derive(Clone, Copy, Debug, PartialEq, Eq, Structural, Hash)]
pub enum BorderStyle {
    Solid,
    Double,
    Dotted,
    Dashed,
}

impl Wire for BorderStyle {
    open spec fn wlen() -> nat {
        1
    }

    open spec fn enc(self) -> Seq<u8> {
        match self {
            BorderStyle::Solid => seq![0u8],
            BorderStyle::Double => seq![1u8],
            BorderStyle::Dotted => seq![2u8],
            BorderStyle::Dashed => seq![3u8],
        }
    }

    open spec fn dec(b: Seq<u8>) -> Option<Self> {
        if b.len() < 1 {
            None
        } else if b[0] == 0 {
            Some(BorderStyle::Solid)
        } else if b[0] == 1 {
            Some(BorderStyle::Double)
        } else if b[0] == 2 {
            Some(BorderStyle::Dotted)
        } else if b[0] == 3 {
            Some(BorderStyle::Dashed)
        } else {
            None
        }
    }

    proof fn codec(self, rest: Seq<u8>) {
    }

    proof fn dec_short(b: Seq<u8>) {
    }

    fn wsize() -> (n: usize) {
        1
    }

    fn put(&self, out: &mut Vec<u8>) {
        match self {
            BorderStyle::Solid => out.push(0),
            BorderStyle::Double => out.push(1),
            BorderStyle::Dotted => out.push(2),
            BorderStyle::Dashed => out.push(3),
        }
        proof {
            assert(out@ =~= old(out)@ + self.enc());
        }
    }

    fn read_at(buf: &Vec<u8>, pos: usize) -> (r: Option<Self>) {
        if buf.len() - pos < 1 {
            None
        } else {
            let t = buf[pos];
            if t == 0 {
                Some(BorderStyle::Solid)
            } else if t == 1 {
                Some(BorderStyle::Double)
            } else if t == 2 {
                Some(BorderStyle::Dotted)
            } else if t == 3 {
                Some(BorderStyle::Dashed)
            } else {
                None
            }
        }
    }
}

/// How a stacking context blends with its backdrop.
#[derive(Clone, Copy, Debug, PartialEq, Eq, Structural, Hash)]
pub enum MixBlendMode {
    Normal,
    Multiply,
    Screen,
    Overlay,
    Darken,
    Lighten,
    ColorDodge,
    ColorBurn,
    HardLight,
    SoftLight,
    Difference,
    Exclusion,
    Hue,
    Saturation,
    Color,
    Luminosity,
}

impl Wire for MixBlendMode {
    open spec fn wlen() -> nat {
        1
    }

    open spec fn enc(self) -> Seq<u8> {
        match self {
            MixBlendMode::Normal => seq![0u8],
            MixBlendMode::Multiply => seq![1u8],
            MixBlendMode::Screen => seq![2u8],
            MixBlendMode::Overlay => seq![3u8],
            MixBlendMode::Darken => seq![4u8],
            MixBlendMode::Lighten => seq![5u8],
            MixBlendMode::ColorDodge => seq![6u8],
            MixBlendMode::ColorBurn => seq![7u8],
            MixBlendMode::HardLight => seq![8u8],
            MixBlendMode::SoftLight => seq![9u8],
            MixBlendMode::Difference => seq![10u8],
            MixBlendMode::Exclusion => seq![11u8],
            MixBlendMode::Hue => seq![12u8],
            MixBlendMode::Saturation => seq![13u8],
            MixBlendMode::Color => seq![14u8],
            MixBlendMode::Luminosity => seq![15u8],
        }
    }

    open spec fn dec(b: Seq<u8>) -> Option<Self> {
        if b.len() < 1 {
            None
        } else if b[0] == 0 {
            Some(MixBlendMode::Normal)
        } else if b[0] == 1 {
            Some(MixBlendMode::Multiply)
        } else if b[0] == 2 {
            Some(MixBlendMode::Screen)
        } else if b[0] == 3 {
            Some(MixBlendMode::Overlay)
        } else if b[0] == 4 {
            Some(MixBlendMode::Darken)
        } else if b[0] == 5 {
            Some(MixBlendMode::Lighten)
        } else if b[0] == 6 {
            Some(MixBlendMode::ColorDodge)
        } else if b[0] == 7 {
            Some(MixBlendMode::ColorBurn)
        } else if b[0] == 8 {
            Some(MixBlendMode::HardLight)
        } else if b[0] == 9 {
            Some(MixBlendMode::SoftLight)
        } else if b[0] == 10 {
            Some(MixBlendMode::Difference)
        } else if b[0] == 11 {
            Some(MixBlendMode::Exclusion)
        } else if b[0] == 12 {
            Some(MixBlendMode::Hue)
        } else if b[0] == 13 {
            Some(MixBlendMode::Saturation)
        } else if b[0] == 14 {
            Some(MixBlendMode::Color)
        } else if b[0] == 15 {
            Some(MixBlendMode::Luminosity)
        } else {
            None
        }
    }

    proof fn codec(self, rest: Seq<u8>) {
    }

    proof fn dec_short(b: Seq<u8>) {
    }

    fn wsize() -> (n: usize) {
        1
    }

    fn put(&self, out: &mut Vec<u8>) {
        match self {
            MixBlendMode::Normal => out.push(0),
            MixBlendMode::Multiply => out.push(1),
            MixBlendMode::Screen => out.push(2),
            MixBlendMode::Overlay => out.push(3),
            MixBlendMode::Darken => out.push(4),
            MixBlendMode::Lighten => out.push(5),
            MixBlendMode::ColorDodge => out.push(6),
            MixBlendMode::ColorBurn => out.push(7),
            MixBlendMode::HardLight => out.push(8),
            MixBlendMode::SoftLight => out.push(9),
            MixBlendMode::Difference => out.push(10),
            MixBlendMode::Exclusion => out.push(11),
            MixBlendMode::Hue => out.push(12),
            MixBlendMode::Saturation => out.push(13),
            MixBlendMode::Color => out.push(14),
            MixBlendMode::Luminosity => out.push(15),
        }
        proof {
            assert(out@ =~= old(out)@ + self.enc());
        }
    }

    fn read_at(buf: &Vec<u8>, pos: usize) -> (r: Option<Self>) {
        if buf.len() - pos < 1 {
            None
        } else {
            let t = buf[pos];
            if t == 0 {
                Some(MixBlendMode::Normal)
            } else if t == 1 {
                Some(MixBlendMode::Multiply)
            } else if t == 2 {
                Some(MixBlendMode::Screen)
            } else if t == 3 {
                Some(MixBlendMode::Overlay)
            } else if t == 4 {
                Some(MixBlendMode::Darken)
            } else if t == 5 {
                Some(MixBlendMode::Lighten)
            } else if t == 6 {
                Some(MixBlendMode::ColorDodge)
            } else if t == 7 {
                Some(MixBlendMode::ColorBurn)
            } else if t == 8 {
                Some(MixBlendMode::HardLight)
            } else if t == 9 {
                Some(MixBlendMode::SoftLight)
            } else if t == 10 {
                Some(MixBlendMode::Difference)
            } else if t == 11 {
                Some(MixBlendMode::Exclusion)
            } else if t == 12 {
                Some(MixBlendMode::Hue)
            } else if t == 13 {
                Some(MixBlendMode::Saturation)
            } else if t == 14 {
                Some(MixBlendMode::Color)
            } else if t == 15 {
                Some(MixBlendMode::Luminosity)
            } else {
                None
            }
        }
    }
}

// ---------------------------------------------------------------------------
// Color encoding
// ---------------------------------------------------------------------------

impl Wire for ColorU {
    open spec fn wlen() -> nat {
        4
    }

    open spec fn enc(self) -> Seq<u8> {
        seq![self.r, self.g, self.b, self.a]
    }

    open spec fn dec(b: Seq<u8>) -> Option<Self> {
        if b.len() < 4 {
            None
        } else {
            Some(ColorU { r: b[0], g: b[1], b: b[2], a: b[3] })
        }
    }

    proof fn codec(self, rest: Seq<u8>) {
    }

    proof fn dec_short(b: Seq<u8>) {
    }

    fn wsize() -> (n: usize) {
        4
    }

    fn put(&self, out: &mut Vec<u8>) {
        out.push(self.r);
        out.push(self.g);
        out.push(self.b);
        out.push(self.a);
        proof {
            assert(out@ =~= old(out)@ + self.enc());
        }
    }

    fn read_at(buf: &Vec<u8>, pos: usize) -> (r: Option<Self>) {
        if buf.len() - pos < 4 {
            None
        } else {
            Some(ColorU { r: buf[pos], g: buf[pos + 1], b: buf[pos + 2], a: buf[pos + 3] })
        }
    }
}

} // verus!
