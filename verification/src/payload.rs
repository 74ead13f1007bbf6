//! The drawing payloads: one record per display-item kind.
//!
//! These are plain value records of fixed encoded size; the container format
//! moves them around without interpreting them further.

use vstd::prelude::*;

use crate::color::ColorU;
use crate::records::{
    BorderStyle, BorderWidths, BoxShadowClipMode, ClipId, ExtendMode, FontInstanceKey,
    GlyphOptions, ImageKey, ImageMask, ImageRendering, LayoutPoint, LayoutRect, LayoutSize,
    LayoutVector2D, LineOrientation, LineStyle, MixBlendMode, PipelineId, ScrollPolicy,
    ScrollSensitivity, SideOffsets, StickyOffsetBounds, TransformStyle, YuvColorSpace,
};
use crate::wire::Wire;

verus! {


/// A linear gradient with a normalized stop domain.
#[derive(Clone, Copy, Debug, PartialEq, Eq, Structural)]
pub struct Gradient {
    pub start_point: LayoutPoint,
    pub end_point: LayoutPoint,
    pub extend_mode: ExtendMode,
}

impl Wire for Gradient {
    open spec fn wlen() -> nat {
        37
    }

    open spec fn enc(self) -> Seq<u8> {
        self.start_point.enc() + self.end_point.enc() + self.extend_mode.enc()
    }

    open spec fn dec(b: Seq<u8>) -> Option<Self> {
        match (LayoutPoint::dec(b), LayoutPoint::dec(b.skip(18)), ExtendMode::dec(b.skip(36))) {
            (Some(v0), Some(v1), Some(v2)) => Some(Gradient { start_point: v0, end_point: v1, extend_mode: v2 }),
            _ => None,
        }
    }

    #[verifier::rlimit(100)]
    #[verifier::spinoff_prover]
    proof fn codec(self, rest: Seq<u8>) {
        let t3 = rest;
        let t2 = self.extend_mode.enc() + t3;
        let t1 = self.end_point.enc() + t2;
        self.start_point.codec(t1);
        self.end_point.codec(t2);
        self.extend_mode.codec(t3);
        let b = self.enc() + rest;
        assert(b =~= self.start_point.enc() + t1);
        assert(b.skip(18) =~= t1);
        assert(b.skip(36) =~= t2);
    }

    proof fn dec_short(b: Seq<u8>) {
        LayoutPoint::dec_short(b);
        if b.len() >= 18 {
            LayoutPoint::dec_short(b.skip(18));
        }
        if b.len() >= 36 {
            ExtendMode::dec_short(b.skip(36));
        }
    }

    fn wsize() -> (n: usize) {
        37
    }

    fn put(&self, out: &mut Vec<u8>) {
        self.start_point.put(out);
        self.end_point.put(out);
        self.extend_mode.put(out);
        proof {
            assert(out@ =~= old(out)@ + self.enc());
        }
    }

    fn read_at(buf: &Vec<u8>, pos: usize) -> (r: Option<Self>) {
        let buf_len = buf.len();
        let ghost b = buf@.skip(pos as int);
        match LayoutPoint::read_at(buf, pos) {
            None => None,
            Some(v0) => {
                proof {
                    LayoutPoint::dec_short(b);
                    assert(b.skip(18) =~= buf@.skip(pos as int + 18));
                }
                match LayoutPoint::read_at(buf, pos + 18) {
                    None => None,
                    Some(v1) => {
                        proof {
                            LayoutPoint::dec_short(b.skip(18));
                            assert(b.skip(36) =~= buf@.skip(pos as int + 36));
                        }
                        match ExtendMode::read_at(buf, pos + 36) {
                            None => None,
                            Some(v2) => {
                                Some(Gradient { start_point: v0, end_point: v1, extend_mode: v2 })
                            },
                        }
                    },
                }
            },
        }
    }
}

/// A radial gradient with a normalized stop domain.
#[derive(Clone, Copy, Debug, PartialEq, Eq, Structural)]
pub struct RadialGradient {
    pub start_center: LayoutPoint,
    pub start_radius: i64,
    pub end_center: LayoutPoint,
    pub end_radius: i64,
    pub ratio_xy: i64,
    pub extend_mode: ExtendMode,
}

impl Wire for RadialGradient {
    open spec fn wlen() -> nat {
        64
    }

    open spec fn enc(self) -> Seq<u8> {
        self.start_center.enc() + self.start_radius.enc() + self.end_center.enc() + self.end_radius.enc() + self.ratio_xy.enc() + self.extend_mode.enc()
    }

    open spec fn dec(b: Seq<u8>) -> Option<Self> {
        match (LayoutPoint::dec(b), i64::dec(b.skip(18)), LayoutPoint::dec(b.skip(27)), i64::dec(b.skip(45)), i64::dec(b.skip(54)), ExtendMode::dec(b.skip(63))) {
            (Some(v0), Some(v1), Some(v2), Some(v3), Some(v4), Some(v5)) => Some(RadialGradient { start_center: v0, start_radius: v1, end_center: v2, end_radius: v3, ratio_xy: v4, extend_mode: v5 }),
            _ => None,
        }
    }

    #[verifier::rlimit(100)]
    #[verifier::spinoff_prover]
    proof fn codec(self, rest: Seq<u8>) {
        let t6 = rest;
        let t5 = self.extend_mode.enc() + t6;
        let t4 = self.ratio_xy.enc() + t5;
        let t3 = self.end_radius.enc() + t4;
        let t2 = self.end_center.enc() + t3;
        let t1 = self.start_radius.enc() + t2;
        self.start_center.codec(t1);
        self.start_radius.codec(t2);
        self.end_center.codec(t3);
        self.end_radius.codec(t4);
        self.ratio_xy.codec(t5);
        self.extend_mode.codec(t6);
        let b = self.enc() + rest;
        assert(b =~= self.start_center.enc() + t1);
        assert(b.skip(18) =~= t1);
        assert(b.skip(27) =~= t2);
        assert(b.skip(45) =~= t3);
        assert(b.skip(54) =~= t4);
        assert(b.skip(63) =~= t5);
    }

    proof fn dec_short(b: Seq<u8>) {
        LayoutPoint::dec_short(b);
        if b.len() >= 18 {
            i64::dec_short(b.skip(18));
        }
        if b.len() >= 27 {
            LayoutPoint::dec_short(b.skip(27));
        }
        if b.len() >= 45 {
            i64::dec_short(b.skip(45));
        }
        if b.len() >= 54 {
            i64::dec_short(b.skip(54));
        }
        if b.len() >= 63 {
            ExtendMode::dec_short(b.skip(63));
        }
    }

    fn wsize() -> (n: usize) {
        64
    }

    fn put(&self, out: &mut Vec<u8>) {
        self.start_center.put(out);
        self.start_radius.put(out);
        self.end_center.put(out);
        self.end_radius.put(out);
        self.ratio_xy.put(out);
        self.extend_mode.put(out);
        proof {
            assert(out@ =~= old(out)@ + self.enc());
        }
    }

    fn read_at(buf: &Vec<u8>, pos: usize) -> (r: Option<Self>) {
        let buf_len = buf.len();
        let ghost b = buf@.skip(pos as int);
        match LayoutPoint::read_at(buf, pos) {
            None => None,
            Some(v0) => {
                proof {
                    LayoutPoint::dec_short(b);
                    assert(b.skip(18) =~= buf@.skip(pos as int + 18));
                }
                match i64::read_at(buf, pos + 18) {
                    None => None,
                    Some(v1) => {
                        proof {
                            i64::dec_short(b.skip(18));
                            assert(b.skip(27) =~= buf@.skip(pos as int + 27));
                        }
                        match LayoutPoint::read_at(buf, pos + 27) {
                            None => None,
                            Some(v2) => {
                                proof {
                                    LayoutPoint::dec_short(b.skip(27));
                                    assert(b.skip(45) =~= buf@.skip(pos as int + 45));
                                }
                                match i64::read_at(buf, pos + 45) {
                                    None => None,
                                    Some(v3) => {
                                        proof {
                                            i64::dec_short(b.skip(45));
                                            assert(b.skip(54) =~= buf@.skip(pos as int + 54));
                                        }
                                        match i64::read_at(buf, pos + 54) {
                                            None => None,
                                            Some(v4) => {
                                                proof {
                                                    i64::dec_short(b.skip(54));
                                                    assert(b.skip(63) =~= buf@.skip(pos as int + 63));
                                                }
                                                match ExtendMode::read_at(buf, pos + 63) {
                                                    None => None,
                                                    Some(v5) => {
                                                        Some(RadialGradient { start_center: v0, start_radius: v1, end_center: v2, end_radius: v3, ratio_xy: v4, extend_mode: v5 })
                                                    },
                                                }
                                            },
                                        }
                                    },
                                }
                            },
                        }
                    },
                }
            },
        }
    }
}

/// A drop shadow applied to subsequent items.
#[derive(Clone, Copy, Debug, PartialEq, Eq, Structural)]
pub struct Shadow {
    pub offset: LayoutVector2D,
    pub color: ColorU,
    pub blur_radius: i64,
}

impl Wire for Shadow {
    open spec fn wlen() -> nat {
        31
    }

    open spec fn enc(self) -> Seq<u8> {
        self.offset.enc() + self.color.enc() + self.blur_radius.enc()
    }

    open spec fn dec(b: Seq<u8>) -> Option<Self> {
        match (LayoutVector2D::dec(b), ColorU::dec(b.skip(18)), i64::dec(b.skip(22))) {
            (Some(v0), Some(v1), Some(v2)) => Some(Shadow { offset: v0, color: v1, blur_radius: v2 }),
            _ => None,
        }
    }

    #[verifier::rlimit(100)]
    #[verifier::spinoff_prover]
    proof fn codec(self, rest: Seq<u8>) {
        let t3 = rest;
        let t2 = self.blur_radius.enc() + t3;
        let t1 = self.color.enc() + t2;
        self.offset.codec(t1);
        self.color.codec(t2);
        self.blur_radius.codec(t3);
        let b = self.enc() + rest;
        assert(b =~= self.offset.enc() + t1);
        assert(b.skip(18) =~= t1);
        assert(b.skip(22) =~= t2);
    }

    proof fn dec_short(b: Seq<u8>) {
        LayoutVector2D::dec_short(b);
        if b.len() >= 18 {
            ColorU::dec_short(b.skip(18));
        }
        if b.len() >= 22 {
            i64::dec_short(b.skip(22));
        }
    }

    fn wsize() -> (n: usize) {
        31
    }

    fn put(&self, out: &mut Vec<u8>) {
        self.offset.put(out);
        self.color.put(out);
        self.blur_radius.put(out);
        proof {
            assert(out@ =~= old(out)@ + self.enc());
        }
    }

    fn read_at(buf: &Vec<u8>, pos: usize) -> (r: Option<Self>) {
        let buf_len = buf.len();
        let ghost b = buf@.skip(pos as int);
        match LayoutVector2D::read_at(buf, pos) {
            None => None,
            Some(v0) => {
                proof {
                    LayoutVector2D::dec_short(b);
                    assert(b.skip(18) =~= buf@.skip(pos as int + 18));
                }
                match ColorU::read_at(buf, pos + 18) {
                    None => None,
                    Some(v1) => {
                        proof {
                            ColorU::dec_short(b.skip(18));
                            assert(b.skip(22) =~= buf@.skip(pos as int + 22));
                        }
                        match i64::read_at(buf, pos + 22) {
                            None => None,
                            Some(v2) => {
                                Some(Shadow { offset: v0, color: v1, blur_radius: v2 })
                            },
                        }
                    },
                }
            },
        }
    }
}

/// The compositing parameters of a stacking context.
#[derive(Clone, Copy, Debug, PartialEq, Eq, Structural)]
pub struct StackingContext {
    pub scroll_policy: ScrollPolicy,
    pub transform_style: TransformStyle,
    pub mix_blend_mode: MixBlendMode,
}

impl Wire for StackingContext {
    open spec fn wlen() -> nat {
        3
    }

    open spec fn enc(self) -> Seq<u8> {
        self.scroll_policy.enc() + self.transform_style.enc() + self.mix_blend_mode.enc()
    }

    open spec fn dec(b: Seq<u8>) -> Option<Self> {
        match (ScrollPolicy::dec(b), TransformStyle::dec(b.skip(1)), MixBlendMode::dec(b.skip(2))) {
            (Some(v0), Some(v1), Some(v2)) => Some(StackingContext { scroll_policy: v0, transform_style: v1, mix_blend_mode: v2 }),
            _ => None,
        }
    }

    #[verifier::rlimit(100)]
    #[verifier::spinoff_prover]
    proof fn codec(self, rest: Seq<u8>) {
        let t3 = rest;
        let t2 = self.mix_blend_mode.enc() + t3;
        let t1 = self.transform_style.enc() + t2;
        self.scroll_policy.codec(t1);
        self.transform_style.codec(t2);
        self.mix_blend_mode.codec(t3);
        let b = self.enc() + rest;
        assert(b =~= self.scroll_policy.enc() + t1);
        assert(b.skip(1) =~= t1);
        assert(b.skip(2) =~= t2);
    }

    proof fn dec_short(b: Seq<u8>) {
        ScrollPolicy::dec_short(b);
        if b.len() >= 1 {
            TransformStyle::dec_short(b.skip(1));
        }
        if b.len() >= 2 {
            MixBlendMode::dec_short(b.skip(2));
        }
    }

    fn wsize() -> (n: usize) {
        3
    }

    fn put(&self, out: &mut Vec<u8>) {
        self.scroll_policy.put(out);
        self.transform_style.put(out);
        self.mix_blend_mode.put(out);
        proof {
            assert(out@ =~= old(out)@ + self.enc());
        }
    }

    fn read_at(buf: &Vec<u8>, pos: usize) -> (r: Option<Self>) {
        let buf_len = buf.len();
        let ghost b = buf@.skip(pos as int);
        match ScrollPolicy::read_at(buf, pos) {
            None => None,
            Some(v0) => {
                proof {
                    ScrollPolicy::dec_short(b);
                    assert(b.skip(1) =~= buf@.skip(pos as int + 1));
                }
                match TransformStyle::read_at(buf, pos + 1) {
                    None => None,
                    Some(v1) => {
                        proof {
                            TransformStyle::dec_short(b.skip(1));
                            assert(b.skip(2) =~= buf@.skip(pos as int + 2));
                        }
                        match MixBlendMode::read_at(buf, pos + 2) {
                            None => None,
                            Some(v2) => {
                                Some(StackingContext { scroll_policy: v0, transform_style: v1, mix_blend_mode: v2 })
                            },
                        }
                    },
                }
            },
        }
    }
}

/// The visual style of a border: color, stroke, corner radius.
#[derive(Clone, Copy, Debug, PartialEq, Eq, Structural)]
pub struct BorderDetails {
    pub color: ColorU,
    pub style: BorderStyle,
    pub radius: LayoutSize,
}

impl Wire for BorderDetails {
    open spec fn wlen() -> nat {
        23
    }

    open spec fn enc(self) -> Seq<u8> {
        self.color.enc() + self.style.enc() + self.radius.enc()
    }

    open spec fn dec(b: Seq<u8>) -> Option<Self> {
        match (ColorU::dec(b), BorderStyle::dec(b.skip(4)), LayoutSize::dec(b.skip(5))) {
            (Some(v0), Some(v1), Some(v2)) => Some(BorderDetails { color: v0, style: v1, radius: v2 }),
            _ => None,
        }
    }

    #[verifier::rlimit(100)]
    #[verifier::spinoff_prover]
    proof fn codec(self, rest: Seq<u8>) {
        let t3 = rest;
        let t2 = self.radius.enc() + t3;
        let t1 = self.style.enc() + t2;
        self.color.codec(t1);
        self.style.codec(t2);
        self.radius.codec(t3);
        let b = self.enc() + rest;
        assert(b =~= self.color.enc() + t1);
        assert(b.skip(4) =~= t1);
        assert(b.skip(5) =~= t2);
    }

    proof fn dec_short(b: Seq<u8>) {
        ColorU::dec_short(b);
        if b.len() >= 4 {
            BorderStyle::dec_short(b.skip(4));
        }
        if b.len() >= 5 {
            LayoutSize::dec_short(b.skip(5));
        }
    }

    fn wsize() -> (n: usize) {
        23
    }

    fn put(&self, out: &mut Vec<u8>) {
        self.color.put(out);
        self.style.put(out);
        self.radius.put(out);
        proof {
            assert(out@ =~= old(out)@ + self.enc());
        }
    }

    fn read_at(buf: &Vec<u8>, pos: usize) -> (r: Option<Self>) {
        let buf_len = buf.len();
        let ghost b = buf@.skip(pos as int);
        match ColorU::read_at(buf, pos) {
            None => None,
            Some(v0) => {
                proof {
                    ColorU::dec_short(b);
                    assert(b.skip(4) =~= buf@.skip(pos as int + 4));
                }
                match BorderStyle::read_at(buf, pos + 4) {
                    None => None,
                    Some(v1) => {
                        proof {
                            BorderStyle::dec_short(b.skip(4));
                            assert(b.skip(5) =~= buf@.skip(pos as int + 5));
                        }
                        match LayoutSize::read_at(buf, pos + 5) {
                            None => None,
                            Some(v2) => {
                                Some(BorderDetails { color: v0, style: v1, radius: v2 })
                            },
                        }
                    },
                }
            },
        }
    }
}

/// A solid-color rectangle.
#[derive(Clone, Copy, Debug, PartialEq, Eq, Structural)]
pub struct RectangleDisplayItem {
    pub color: ColorU,
}

impl Wire for RectangleDisplayItem {
    open spec fn wlen() -> nat {
        4
    }

    open spec fn enc(self) -> Seq<u8> {
        self.color.enc()
    }

    open spec fn dec(b: Seq<u8>) -> Option<Self> {
        match (ColorU::dec(b)) {
            (Some(v0)) => Some(RectangleDisplayItem { color: v0 }),
            _ => None,
        }
    }

    #[verifier::rlimit(100)]
    #[verifier::spinoff_prover]
    proof fn codec(self, rest: Seq<u8>) {
        let t1 = rest;
        self.color.codec(t1);
        let b = self.enc() + rest;
        assert(b =~= self.color.enc() + t1);
    }

    proof fn dec_short(b: Seq<u8>) {
        ColorU::dec_short(b);
    }

    fn wsize() -> (n: usize) {
        4
    }

    fn put(&self, out: &mut Vec<u8>) {
        self.color.put(out);
        proof {
            assert(out@ =~= old(out)@ + self.enc());
        }
    }

    fn read_at(buf: &Vec<u8>, pos: usize) -> (r: Option<Self>) {
        let buf_len = buf.len();
        let ghost b = buf@.skip(pos as int);
        match ColorU::read_at(buf, pos) {
            None => None,
            Some(v0) => {
                Some(RectangleDisplayItem { color: v0 })
            },
        }
    }
}

/// A horizontal or vertical decoration line.
#[derive(Clone, Copy, Debug, PartialEq, Eq, Structural)]
pub struct LineDisplayItem {
    pub wavy_line_thickness: i64,
    pub orientation: LineOrientation,
    pub color: ColorU,
    pub style: LineStyle,
}

impl Wire for LineDisplayItem {
    open spec fn wlen() -> nat {
        15
    }

    open spec fn enc(self) -> Seq<u8> {
        self.wavy_line_thickness.enc() + self.orientation.enc() + self.color.enc() + self.style.enc()
    }

    open spec fn dec(b: Seq<u8>) -> Option<Self> {
        match (i64::dec(b), LineOrientation::dec(b.skip(9)), ColorU::dec(b.skip(10)), LineStyle::dec(b.skip(14))) {
            (Some(v0), Some(v1), Some(v2), Some(v3)) => Some(LineDisplayItem { wavy_line_thickness: v0, orientation: v1, color: v2, style: v3 }),
            _ => None,
        }
    }

    #[verifier::rlimit(100)]
    #[verifier::spinoff_prover]
    proof fn codec(self, rest: Seq<u8>) {
        let t4 = rest;
        let t3 = self.style.enc() + t4;
        let t2 = self.color.enc() + t3;
        let t1 = self.orientation.enc() + t2;
        self.wavy_line_thickness.codec(t1);
        self.orientation.codec(t2);
        self.color.codec(t3);
        self.style.codec(t4);
        let b = self.enc() + rest;
        assert(b =~= self.wavy_line_thickness.enc() + t1);
        assert(b.skip(9) =~= t1);
        assert(b.skip(10) =~= t2);
        assert(b.skip(14) =~= t3);
    }

    proof fn dec_short(b: Seq<u8>) {
        i64::dec_short(b);
        if b.len() >= 9 {
            LineOrientation::dec_short(b.skip(9));
        }
        if b.len() >= 10 {
            ColorU::dec_short(b.skip(10));
        }
        if b.len() >= 14 {
            LineStyle::dec_short(b.skip(14));
        }
    }

    fn wsize() -> (n: usize) {
        15
    }

    fn put(&self, out: &mut Vec<u8>) {
        self.wavy_line_thickness.put(out);
        self.orientation.put(out);
        self.color.put(out);
        self.style.put(out);
        proof {
            assert(out@ =~= old(out)@ + self.enc());
        }
    }

    fn read_at(buf: &Vec<u8>, pos: usize) -> (r: Option<Self>) {
        let buf_len = buf.len();
        let ghost b = buf@.skip(pos as int);
        match i64::read_at(buf, pos) {
            None => None,
            Some(v0) => {
                proof {
                    i64::dec_short(b);
                    assert(b.skip(9) =~= buf@.skip(pos as int + 9));
                }
                match LineOrientation::read_at(buf, pos + 9) {
                    None => None,
                    Some(v1) => {
                        proof {
                            LineOrientation::dec_short(b.skip(9));
                            assert(b.skip(10) =~= buf@.skip(pos as int + 10));
                        }
                        match ColorU::read_at(buf, pos + 10) {
                            None => None,
                            Some(v2) => {
                                proof {
                                    ColorU::dec_short(b.skip(10));
                                    assert(b.skip(14) =~= buf@.skip(pos as int + 14));
                                }
                                match LineStyle::read_at(buf, pos + 14) {
                                    None => None,
                                    Some(v3) => {
                                        Some(LineDisplayItem { wavy_line_thickness: v0, orientation: v1, color: v2, style: v3 })
                                    },
                                }
                            },
                        }
                    },
                }
            },
        }
    }
}

/// A text run; its glyphs travel as an auxiliary payload.
#[derive(Clone, Copy, Debug, PartialEq, Eq, Structural)]
pub struct TextDisplayItem {
    pub color: ColorU,
    pub font_key: FontInstanceKey,
    pub glyph_options: Option<GlyphOptions>,
}

impl Wire for TextDisplayItem {
    open spec fn wlen() -> nat {
        17
    }

    open spec fn enc(self) -> Seq<u8> {
        self.color.enc() + self.font_key.enc() + self.glyph_options.enc()
    }

    open spec fn dec(b: Seq<u8>) -> Option<Self> {
        match (ColorU::dec(b), FontInstanceKey::dec(b.skip(4)), <Option<GlyphOptions> as Wire>::dec(b.skip(12))) {
            (Some(v0), Some(v1), Some(v2)) => Some(TextDisplayItem { color: v0, font_key: v1, glyph_options: v2 }),
            _ => None,
        }
    }

    #[verifier::rlimit(100)]
    #[verifier::spinoff_prover]
    proof fn codec(self, rest: Seq<u8>) {
        let t3 = rest;
        let t2 = self.glyph_options.enc() + t3;
        let t1 = self.font_key.enc() + t2;
        self.color.codec(t1);
        self.font_key.codec(t2);
        self.glyph_options.codec(t3);
        let b = self.enc() + rest;
        assert(b =~= self.color.enc() + t1);
        assert(b.skip(4) =~= t1);
        assert(b.skip(12) =~= t2);
    }

    proof fn dec_short(b: Seq<u8>) {
        ColorU::dec_short(b);
        if b.len() >= 4 {
            FontInstanceKey::dec_short(b.skip(4));
        }
        if b.len() >= 12 {
            <Option<GlyphOptions> as Wire>::dec_short(b.skip(12));
        }
    }

    fn wsize() -> (n: usize) {
        17
    }

    fn put(&self, out: &mut Vec<u8>) {
        self.color.put(out);
        self.font_key.put(out);
        self.glyph_options.put(out);
        proof {
            assert(out@ =~= old(out)@ + self.enc());
        }
    }

    fn read_at(buf: &Vec<u8>, pos: usize) -> (r: Option<Self>) {
        let buf_len = buf.len();
        let ghost b = buf@.skip(pos as int);
        match ColorU::read_at(buf, pos) {
            None => None,
            Some(v0) => {
                proof {
                    ColorU::dec_short(b);
                    assert(b.skip(4) =~= buf@.skip(pos as int + 4));
                }
                match FontInstanceKey::read_at(buf, pos + 4) {
                    None => None,
                    Some(v1) => {
                        proof {
                            FontInstanceKey::dec_short(b.skip(4));
                            assert(b.skip(12) =~= buf@.skip(pos as int + 12));
                        }
                        match <Option<GlyphOptions> as Wire>::read_at(buf, pos + 12) {
                            None => None,
                            Some(v2) => {
                                Some(TextDisplayItem { color: v0, font_key: v1, glyph_options: v2 })
                            },
                        }
                    },
                }
            },
        }
    }
}

/// A stretched, possibly tiled image.
#[derive(Clone, Copy, Debug, PartialEq, Eq, Structural)]
pub struct ImageDisplayItem {
    pub image_key: ImageKey,
    pub stretch_size: LayoutSize,
    pub tile_spacing: LayoutSize,
    pub image_rendering: ImageRendering,
}

impl Wire for ImageDisplayItem {
    open spec fn wlen() -> nat {
        45
    }

    open spec fn enc(self) -> Seq<u8> {
        self.image_key.enc() + self.stretch_size.enc() + self.tile_spacing.enc() + self.image_rendering.enc()
    }

    open spec fn dec(b: Seq<u8>) -> Option<Self> {
        match (ImageKey::dec(b), LayoutSize::dec(b.skip(8)), LayoutSize::dec(b.skip(26)), ImageRendering::dec(b.skip(44))) {
            (Some(v0), Some(v1), Some(v2), Some(v3)) => Some(ImageDisplayItem { image_key: v0, stretch_size: v1, tile_spacing: v2, image_rendering: v3 }),
            _ => None,
        }
    }

    #[verifier::rlimit(100)]
    #[verifier::spinoff_prover]
    proof fn codec(self, rest: Seq<u8>) {
        let t4 = rest;
        let t3 = self.image_rendering.enc() + t4;
        let t2 = self.tile_spacing.enc() + t3;
        let t1 = self.stretch_size.enc() + t2;
        self.image_key.codec(t1);
        self.stretch_size.codec(t2);
        self.tile_spacing.codec(t3);
        self.image_rendering.codec(t4);
        let b = self.enc() + rest;
        assert(b =~= self.image_key.enc() + t1);
        assert(b.skip(8) =~= t1);
        assert(b.skip(26) =~= t2);
        assert(b.skip(44) =~= t3);
    }

    proof fn dec_short(b: Seq<u8>) {
        ImageKey::dec_short(b);
        if b.len() >= 8 {
            LayoutSize::dec_short(b.skip(8));
        }
        if b.len() >= 26 {
            LayoutSize::dec_short(b.skip(26));
        }
        if b.len() >= 44 {
            ImageRendering::dec_short(b.skip(44));
        }
    }

    fn wsize() -> (n: usize) {
        45
    }

    fn put(&self, out: &mut Vec<u8>) {
        self.image_key.put(out);
        self.stretch_size.put(out);
        self.tile_spacing.put(out);
        self.image_rendering.put(out);
        proof {
            assert(out@ =~= old(out)@ + self.enc());
        }
    }

    fn read_at(buf: &Vec<u8>, pos: usize) -> (r: Option<Self>) {
        let buf_len = buf.len();
        let ghost b = buf@.skip(pos as int);
        match ImageKey::read_at(buf, pos) {
            None => None,
            Some(v0) => {
                proof {
                    ImageKey::dec_short(b);
                    assert(b.skip(8) =~= buf@.skip(pos as int + 8));
                }
                match LayoutSize::read_at(buf, pos + 8) {
                    None => None,
                    Some(v1) => {
                        proof {
                            LayoutSize::dec_short(b.skip(8));
                            assert(b.skip(26) =~= buf@.skip(pos as int + 26));
                        }
                        match LayoutSize::read_at(buf, pos + 26) {
                            None => None,
                            Some(v2) => {
                                proof {
                                    LayoutSize::dec_short(b.skip(26));
                                    assert(b.skip(44) =~= buf@.skip(pos as int + 44));
                                }
                                match ImageRendering::read_at(buf, pos + 44) {
                                    None => None,
                                    Some(v3) => {
                                        Some(ImageDisplayItem { image_key: v0, stretch_size: v1, tile_spacing: v2, image_rendering: v3 })
                                    },
                                }
                            },
                        }
                    },
                }
            },
        }
    }
}

/// A border drawn along the edges of the item rect.
#[derive(Clone, Copy, Debug, PartialEq, Eq, Structural)]
pub struct BorderDisplayItem {
    pub widths: BorderWidths,
    pub details: BorderDetails,
}

impl Wire for BorderDisplayItem {
    open spec fn wlen() -> nat {
        59
    }

    open spec fn enc(self) -> Seq<u8> {
        self.widths.enc() + self.details.enc()
    }

    open spec fn dec(b: Seq<u8>) -> Option<Self> {
        match (BorderWidths::dec(b), BorderDetails::dec(b.skip(36))) {
            (Some(v0), Some(v1)) => Some(BorderDisplayItem { widths: v0, details: v1 }),
            _ => None,
        }
    }

    #[verifier::rlimit(100)]
    #[verifier::spinoff_prover]
    proof fn codec(self, rest: Seq<u8>) {
        let t2 = rest;
        let t1 = self.details.enc() + t2;
        self.widths.codec(t1);
        self.details.codec(t2);
        let b = self.enc() + rest;
        assert(b =~= self.widths.enc() + t1);
        assert(b.skip(36) =~= t1);
    }

    proof fn dec_short(b: Seq<u8>) {
        BorderWidths::dec_short(b);
        if b.len() >= 36 {
            BorderDetails::dec_short(b.skip(36));
        }
    }

    fn wsize() -> (n: usize) {
        59
    }

    fn put(&self, out: &mut Vec<u8>) {
        self.widths.put(out);
        self.details.put(out);
        proof {
            assert(out@ =~= old(out)@ + self.enc());
        }
    }

    fn read_at(buf: &Vec<u8>, pos: usize) -> (r: Option<Self>) {
        let buf_len = buf.len();
        let ghost b = buf@.skip(pos as int);
        match BorderWidths::read_at(buf, pos) {
            None => None,
            Some(v0) => {
                proof {
                    BorderWidths::dec_short(b);
                    assert(b.skip(36) =~= buf@.skip(pos as int + 36));
                }
                match BorderDetails::read_at(buf, pos + 36) {
                    None => None,
                    Some(v1) => {
                        Some(BorderDisplayItem { widths: v0, details: v1 })
                    },
                }
            },
        }
    }
}

/// A blurred shadow cast by a box.
#[derive(Clone, Copy, Debug, PartialEq, Eq, Structural)]
pub struct BoxShadowDisplayItem {
    pub box_bounds: LayoutRect,
    pub offset: LayoutVector2D,
    pub color: ColorU,
    pub blur_radius: i64,
    pub spread_radius: i64,
    pub border_radius: i64,
    pub clip_mode: BoxShadowClipMode,
}

impl Wire for BoxShadowDisplayItem {
    open spec fn wlen() -> nat {
        86
    }

    open spec fn enc(self) -> Seq<u8> {
        self.box_bounds.enc() + self.offset.enc() + self.color.enc() + self.blur_radius.enc() + self.spread_radius.enc() + self.border_radius.enc() + self.clip_mode.enc()
    }

    open spec fn dec(b: Seq<u8>) -> Option<Self> {
        match (LayoutRect::dec(b), LayoutVector2D::dec(b.skip(36)), ColorU::dec(b.skip(54)), i64::dec(b.skip(58)), i64::dec(b.skip(67)), i64::dec(b.skip(76)), BoxShadowClipMode::dec(b.skip(85))) {
            (Some(v0), Some(v1), Some(v2), Some(v3), Some(v4), Some(v5), Some(v6)) => Some(BoxShadowDisplayItem { box_bounds: v0, offset: v1, color: v2, blur_radius: v3, spread_radius: v4, border_radius: v5, clip_mode: v6 }),
            _ => None,
        }
    }

    #[verifier::rlimit(100)]
    #[verifier::spinoff_prover]
    proof fn codec(self, rest: Seq<u8>) {
        let t7 = rest;
        let t6 = self.clip_mode.enc() + t7;
        let t5 = self.border_radius.enc() + t6;
        let t4 = self.spread_radius.enc() + t5;
        let t3 = self.blur_radius.enc() + t4;
        let t2 = self.color.enc() + t3;
        let t1 = self.offset.enc() + t2;
        self.box_bounds.codec(t1);
        self.offset.codec(t2);
        self.color.codec(t3);
        self.blur_radius.codec(t4);
        self.spread_radius.codec(t5);
        self.border_radius.codec(t6);
        self.clip_mode.codec(t7);
        let b = self.enc() + rest;
        assert(b =~= self.box_bounds.enc() + t1);
        assert(b.skip(36) =~= t1);
        assert(b.skip(54) =~= t2);
        assert(b.skip(58) =~= t3);
        assert(b.skip(67) =~= t4);
        assert(b.skip(76) =~= t5);
        assert(b.skip(85) =~= t6);
    }

    proof fn dec_short(b: Seq<u8>) {
        LayoutRect::dec_short(b);
        if b.len() >= 36 {
            LayoutVector2D::dec_short(b.skip(36));
        }
        if b.len() >= 54 {
            ColorU::dec_short(b.skip(54));
        }
        if b.len() >= 58 {
            i64::dec_short(b.skip(58));
        }
        if b.len() >= 67 {
            i64::dec_short(b.skip(67));
        }
        if b.len() >= 76 {
            i64::dec_short(b.skip(76));
        }
        if b.len() >= 85 {
            BoxShadowClipMode::dec_short(b.skip(85));
        }
    }

    fn wsize() -> (n: usize) {
        86
    }

    fn put(&self, out: &mut Vec<u8>) {
        self.box_bounds.put(out);
        self.offset.put(out);
        self.color.put(out);
        self.blur_radius.put(out);
        self.spread_radius.put(out);
        self.border_radius.put(out);
        self.clip_mode.put(out);
        proof {
            assert(out@ =~= old(out)@ + self.enc());
        }
    }

    fn read_at(buf: &Vec<u8>, pos: usize) -> (r: Option<Self>) {
        let buf_len = buf.len();
        let ghost b = buf@.skip(pos as int);
        match LayoutRect::read_at(buf, pos) {
            None => None,
            Some(v0) => {
                proof {
                    LayoutRect::dec_short(b);
                    assert(b.skip(36) =~= buf@.skip(pos as int + 36));
                }
                match LayoutVector2D::read_at(buf, pos + 36) {
                    None => None,
                    Some(v1) => {
                        proof {
                            LayoutVector2D::dec_short(b.skip(36));
                            assert(b.skip(54) =~= buf@.skip(pos as int + 54));
                        }
                        match ColorU::read_at(buf, pos + 54) {
                            None => None,
                            Some(v2) => {
                                proof {
                                    ColorU::dec_short(b.skip(54));
                                    assert(b.skip(58) =~= buf@.skip(pos as int + 58));
                                }
                                match i64::read_at(buf, pos + 58) {
                                    None => None,
                                    Some(v3) => {
                                        proof {
                                            i64::dec_short(b.skip(58));
                                            assert(b.skip(67) =~= buf@.skip(pos as int + 67));
                                        }
                                        match i64::read_at(buf, pos + 67) {
                                            None => None,
                                            Some(v4) => {
                                                proof {
                                                    i64::dec_short(b.skip(67));
                                                    assert(b.skip(76) =~= buf@.skip(pos as int + 76));
                                                }
                                                match i64::read_at(buf, pos + 76) {
                                                    None => None,
                                                    Some(v5) => {
                                                        proof {
                                                            i64::dec_short(b.skip(76));
                                                            assert(b.skip(85) =~= buf@.skip(pos as int + 85));
                                                        }
                                                        match BoxShadowClipMode::read_at(buf, pos + 85) {
                                                            None => None,
                                                            Some(v6) => {
                                                                Some(BoxShadowDisplayItem { box_bounds: v0, offset: v1, color: v2, blur_radius: v3, spread_radius: v4, border_radius: v5, clip_mode: v6 })
                                                            },
                                                        }
                                                    },
                                                }
                                            },
                                        }
                                    },
                                }
                            },
                        }
                    },
                }
            },
        }
    }
}

/// A linear-gradient fill; its stops travel separately.
#[derive(Clone, Copy, Debug, PartialEq, Eq, Structural)]
pub struct GradientDisplayItem {
    pub gradient: Gradient,
    pub tile_size: LayoutSize,
    pub tile_spacing: LayoutSize,
}

impl Wire for GradientDisplayItem {
    open spec fn wlen() -> nat {
        73
    }

    open spec fn enc(self) -> Seq<u8> {
        self.gradient.enc() + self.tile_size.enc() + self.tile_spacing.enc()
    }

    open spec fn dec(b: Seq<u8>) -> Option<Self> {
        match (Gradient::dec(b), LayoutSize::dec(b.skip(37)), LayoutSize::dec(b.skip(55))) {
            (Some(v0), Some(v1), Some(v2)) => Some(GradientDisplayItem { gradient: v0, tile_size: v1, tile_spacing: v2 }),
            _ => None,
        }
    }

    #[verifier::rlimit(100)]
    #[verifier::spinoff_prover]
    proof fn codec(self, rest: Seq<u8>) {
        let t3 = rest;
        let t2 = self.tile_spacing.enc() + t3;
        let t1 = self.tile_size.enc() + t2;
        self.gradient.codec(t1);
        self.tile_size.codec(t2);
        self.tile_spacing.codec(t3);
        let b = self.enc() + rest;
        assert(b =~= self.gradient.enc() + t1);
        assert(b.skip(37) =~= t1);
        assert(b.skip(55) =~= t2);
    }

    proof fn dec_short(b: Seq<u8>) {
        Gradient::dec_short(b);
        if b.len() >= 37 {
            LayoutSize::dec_short(b.skip(37));
        }
        if b.len() >= 55 {
            LayoutSize::dec_short(b.skip(55));
        }
    }

    fn wsize() -> (n: usize) {
        73
    }

    fn put(&self, out: &mut Vec<u8>) {
        self.gradient.put(out);
        self.tile_size.put(out);
        self.tile_spacing.put(out);
        proof {
            assert(out@ =~= old(out)@ + self.enc());
        }
    }

    fn read_at(buf: &Vec<u8>, pos: usize) -> (r: Option<Self>) {
        let buf_len = buf.len();
        let ghost b = buf@.skip(pos as int);
        match Gradient::read_at(buf, pos) {
            None => None,
            Some(v0) => {
                proof {
                    Gradient::dec_short(b);
                    assert(b.skip(37) =~= buf@.skip(pos as int + 37));
                }
                match LayoutSize::read_at(buf, pos + 37) {
                    None => None,
                    Some(v1) => {
                        proof {
                            LayoutSize::dec_short(b.skip(37));
                            assert(b.skip(55) =~= buf@.skip(pos as int + 55));
                        }
                        match LayoutSize::read_at(buf, pos + 55) {
                            None => None,
                            Some(v2) => {
                                Some(GradientDisplayItem { gradient: v0, tile_size: v1, tile_spacing: v2 })
                            },
                        }
                    },
                }
            },
        }
    }
}

/// A radial-gradient fill; its stops travel separately.
#[derive(Clone, Copy, Debug, PartialEq, Eq, Structural)]
pub struct RadialGradientDisplayItem {
    pub gradient: RadialGradient,
    pub tile_size: LayoutSize,
    pub tile_spacing: LayoutSize,
}

impl Wire for RadialGradientDisplayItem {
    open spec fn wlen() -> nat {
        100
    }

    open spec fn enc(self) -> Seq<u8> {
        self.gradient.enc() + self.tile_size.enc() + self.tile_spacing.enc()
    }

    open spec fn dec(b: Seq<u8>) -> Option<Self> {
        match (RadialGradient::dec(b), LayoutSize::dec(b.skip(64)), LayoutSize::dec(b.skip(82))) {
            (Some(v0), Some(v1), Some(v2)) => Some(RadialGradientDisplayItem { gradient: v0, tile_size: v1, tile_spacing: v2 }),
            _ => None,
        }
    }

    #[verifier::rlimit(100)]
    #[verifier::spinoff_prover]
    proof fn codec(self, rest: Seq<u8>) {
        let t3 = rest;
        let t2 = self.tile_spacing.enc() + t3;
        let t1 = self.tile_size.enc() + t2;
        self.gradient.codec(t1);
        self.tile_size.codec(t2);
        self.tile_spacing.codec(t3);
        let b = self.enc() + rest;
        assert(b =~= self.gradient.enc() + t1);
        assert(b.skip(64) =~= t1);
        assert(b.skip(82) =~= t2);
    }

    proof fn dec_short(b: Seq<u8>) {
        RadialGradient::dec_short(b);
        if b.len() >= 64 {
            LayoutSize::dec_short(b.skip(64));
        }
        if b.len() >= 82 {
            LayoutSize::dec_short(b.skip(82));
        }
    }

    fn wsize() -> (n: usize) {
        100
    }

    fn put(&self, out: &mut Vec<u8>) {
        self.gradient.put(out);
        self.tile_size.put(out);
        self.tile_spacing.put(out);
        proof {
            assert(out@ =~= old(out)@ + self.enc());
        }
    }

    fn read_at(buf: &Vec<u8>, pos: usize) -> (r: Option<Self>) {
        let buf_len = buf.len();
        let ghost b = buf@.skip(pos as int);
        match RadialGradient::read_at(buf, pos) {
            None => None,
            Some(v0) => {
                proof {
                    RadialGradient::dec_short(b);
                    assert(b.skip(64) =~= buf@.skip(pos as int + 64));
                }
                match LayoutSize::read_at(buf, pos + 64) {
                    None => None,
                    Some(v1) => {
                        proof {
                            LayoutSize::dec_short(b.skip(64));
                            assert(b.skip(82) =~= buf@.skip(pos as int + 82));
                        }
                        match LayoutSize::read_at(buf, pos + 82) {
                            None => None,
                            Some(v2) => {
                                Some(RadialGradientDisplayItem { gradient: v0, tile_size: v1, tile_spacing: v2 })
                            },
                        }
                    },
                }
            },
        }
    }
}

/// An embedded pipeline rendered inside this list.
#[derive(Clone, Copy, Debug, PartialEq, Eq, Structural)]
pub struct IframeDisplayItem {
    pub pipeline_id: PipelineId,
}

impl Wire for IframeDisplayItem {
    open spec fn wlen() -> nat {
        8
    }

    open spec fn enc(self) -> Seq<u8> {
        self.pipeline_id.enc()
    }

    open spec fn dec(b: Seq<u8>) -> Option<Self> {
        match (PipelineId::dec(b)) {
            (Some(v0)) => Some(IframeDisplayItem { pipeline_id: v0 }),
            _ => None,
        }
    }

    #[verifier::rlimit(100)]
    #[verifier::spinoff_prover]
    proof fn codec(self, rest: Seq<u8>) {
        let t1 = rest;
        self.pipeline_id.codec(t1);
        let b = self.enc() + rest;
        assert(b =~= self.pipeline_id.enc() + t1);
    }

    proof fn dec_short(b: Seq<u8>) {
        PipelineId::dec_short(b);
    }

    fn wsize() -> (n: usize) {
        8
    }

    fn put(&self, out: &mut Vec<u8>) {
        self.pipeline_id.put(out);
        proof {
            assert(out@ =~= old(out)@ + self.enc());
        }
    }

    fn read_at(buf: &Vec<u8>, pos: usize) -> (r: Option<Self>) {
        let buf_len = buf.len();
        let ghost b = buf@.skip(pos as int);
        match PipelineId::read_at(buf, pos) {
            None => None,
            Some(v0) => {
                Some(IframeDisplayItem { pipeline_id: v0 })
            },
        }
    }
}

/// Opens a stacking context; closed by a matching pop item.
#[derive(Clone, Copy, Debug, PartialEq, Eq, Structural)]
pub struct PushStackingContextDisplayItem {
    pub stacking_context: StackingContext,
}

impl Wire for PushStackingContextDisplayItem {
    open spec fn wlen() -> nat {
        3
    }

    open spec fn enc(self) -> Seq<u8> {
        self.stacking_context.enc()
    }

    open spec fn dec(b: Seq<u8>) -> Option<Self> {
        match (StackingContext::dec(b)) {
            (Some(v0)) => Some(PushStackingContextDisplayItem { stacking_context: v0 }),
            _ => None,
        }
    }

    #[verifier::rlimit(100)]
    #[verifier::spinoff_prover]
    proof fn codec(self, rest: Seq<u8>) {
        let t1 = rest;
        self.stacking_context.codec(t1);
        let b = self.enc() + rest;
        assert(b =~= self.stacking_context.enc() + t1);
    }

    proof fn dec_short(b: Seq<u8>) {
        StackingContext::dec_short(b);
    }

    fn wsize() -> (n: usize) {
        3
    }

    fn put(&self, out: &mut Vec<u8>) {
        self.stacking_context.put(out);
        proof {
            assert(out@ =~= old(out)@ + self.enc());
        }
    }

    fn read_at(buf: &Vec<u8>, pos: usize) -> (r: Option<Self>) {
        let buf_len = buf.len();
        let ghost b = buf@.skip(pos as int);
        match StackingContext::read_at(buf, pos) {
            None => None,
            Some(v0) => {
                Some(PushStackingContextDisplayItem { stacking_context: v0 })
            },
        }
    }
}

/// Defines a clip node; its complex regions travel separately.
#[derive(Clone, Copy, Debug, PartialEq, Eq, Structural)]
pub struct ClipDisplayItem {
    pub id: ClipId,
    pub image_mask: Option<ImageMask>,
}

impl Wire for ClipDisplayItem {
    open spec fn wlen() -> nat {
        62
    }

    open spec fn enc(self) -> Seq<u8> {
        self.id.enc() + self.image_mask.enc()
    }

    open spec fn dec(b: Seq<u8>) -> Option<Self> {
        match (ClipId::dec(b), <Option<ImageMask> as Wire>::dec(b.skip(16))) {
            (Some(v0), Some(v1)) => Some(ClipDisplayItem { id: v0, image_mask: v1 }),
            _ => None,
        }
    }

    #[verifier::rlimit(100)]
    #[verifier::spinoff_prover]
    proof fn codec(self, rest: Seq<u8>) {
        let t2 = rest;
        let t1 = self.image_mask.enc() + t2;
        self.id.codec(t1);
        self.image_mask.codec(t2);
        let b = self.enc() + rest;
        assert(b =~= self.id.enc() + t1);
        assert(b.skip(16) =~= t1);
    }

    proof fn dec_short(b: Seq<u8>) {
        ClipId::dec_short(b);
        if b.len() >= 16 {
            <Option<ImageMask> as Wire>::dec_short(b.skip(16));
        }
    }

    fn wsize() -> (n: usize) {
        62
    }

    fn put(&self, out: &mut Vec<u8>) {
        self.id.put(out);
        self.image_mask.put(out);
        proof {
            assert(out@ =~= old(out)@ + self.enc());
        }
    }

    fn read_at(buf: &Vec<u8>, pos: usize) -> (r: Option<Self>) {
        let buf_len = buf.len();
        let ghost b = buf@.skip(pos as int);
        match ClipId::read_at(buf, pos) {
            None => None,
            Some(v0) => {
                proof {
                    ClipId::dec_short(b);
                    assert(b.skip(16) =~= buf@.skip(pos as int + 16));
                }
                match <Option<ImageMask> as Wire>::read_at(buf, pos + 16) {
                    None => None,
                    Some(v1) => {
                        Some(ClipDisplayItem { id: v0, image_mask: v1 })
                    },
                }
            },
        }
    }
}

/// Defines a scroll frame; its complex regions travel separately.
#[derive(Clone, Copy, Debug, PartialEq, Eq, Structural)]
pub struct ScrollFrameDisplayItem {
    pub id: ClipId,
    pub image_mask: Option<ImageMask>,
    pub scroll_sensitivity: ScrollSensitivity,
}

impl Wire for ScrollFrameDisplayItem {
    open spec fn wlen() -> nat {
        63
    }

    open spec fn enc(self) -> Seq<u8> {
        self.id.enc() + self.image_mask.enc() + self.scroll_sensitivity.enc()
    }

    open spec fn dec(b: Seq<u8>) -> Option<Self> {
        match (ClipId::dec(b), <Option<ImageMask> as Wire>::dec(b.skip(16)), ScrollSensitivity::dec(b.skip(62))) {
            (Some(v0), Some(v1), Some(v2)) => Some(ScrollFrameDisplayItem { id: v0, image_mask: v1, scroll_sensitivity: v2 }),
            _ => None,
        }
    }

    #[verifier::rlimit(100)]
    #[verifier::spinoff_prover]
    proof fn codec(self, rest: Seq<u8>) {
        let t3 = rest;
        let t2 = self.scroll_sensitivity.enc() + t3;
        let t1 = self.image_mask.enc() + t2;
        self.id.codec(t1);
        self.image_mask.codec(t2);
        self.scroll_sensitivity.codec(t3);
        let b = self.enc() + rest;
        assert(b =~= self.id.enc() + t1);
        assert(b.skip(16) =~= t1);
        assert(b.skip(62) =~= t2);
    }

    proof fn dec_short(b: Seq<u8>) {
        ClipId::dec_short(b);
        if b.len() >= 16 {
            <Option<ImageMask> as Wire>::dec_short(b.skip(16));
        }
        if b.len() >= 62 {
            ScrollSensitivity::dec_short(b.skip(62));
        }
    }

    fn wsize() -> (n: usize) {
        63
    }

    fn put(&self, out: &mut Vec<u8>) {
        self.id.put(out);
        self.image_mask.put(out);
        self.scroll_sensitivity.put(out);
        proof {
            assert(out@ =~= old(out)@ + self.enc());
        }
    }

    fn read_at(buf: &Vec<u8>, pos: usize) -> (r: Option<Self>) {
        let buf_len = buf.len();
        let ghost b = buf@.skip(pos as int);
        match ClipId::read_at(buf, pos) {
            None => None,
            Some(v0) => {
                proof {
                    ClipId::dec_short(b);
                    assert(b.skip(16) =~= buf@.skip(pos as int + 16));
                }
                match <Option<ImageMask> as Wire>::read_at(buf, pos + 16) {
                    None => None,
                    Some(v1) => {
                        proof {
                            <Option<ImageMask> as Wire>::dec_short(b.skip(16));
                            assert(b.skip(62) =~= buf@.skip(pos as int + 62));
                        }
                        match ScrollSensitivity::read_at(buf, pos + 62) {
                            None => None,
                            Some(v2) => {
                                Some(ScrollFrameDisplayItem { id: v0, image_mask: v1, scroll_sensitivity: v2 })
                            },
                        }
                    },
                }
            },
        }
    }
}

/// Defines a sticky frame pinned within offset bounds.
#[derive(Clone, Copy, Debug, PartialEq, Eq, Structural)]
pub struct StickyFrameDisplayItem {
    pub id: ClipId,
    pub margins: SideOffsets,
    pub vertical_offset_bounds: StickyOffsetBounds,
    pub horizontal_offset_bounds: StickyOffsetBounds,
    pub previously_applied_offset: LayoutVector2D,
}

impl Wire for StickyFrameDisplayItem {
    open spec fn wlen() -> nat {
        110
    }

    open spec fn enc(self) -> Seq<u8> {
        self.id.enc() + self.margins.enc() + self.vertical_offset_bounds.enc() + self.horizontal_offset_bounds.enc() + self.previously_applied_offset.enc()
    }

    open spec fn dec(b: Seq<u8>) -> Option<Self> {
        match (ClipId::dec(b), SideOffsets::dec(b.skip(16)), StickyOffsetBounds::dec(b.skip(56)), StickyOffsetBounds::dec(b.skip(74)), LayoutVector2D::dec(b.skip(92))) {
            (Some(v0), Some(v1), Some(v2), Some(v3), Some(v4)) => Some(StickyFrameDisplayItem { id: v0, margins: v1, vertical_offset_bounds: v2, horizontal_offset_bounds: v3, previously_applied_offset: v4 }),
            _ => None,
        }
    }

    #[verifier::rlimit(100)]
    #[verifier::spinoff_prover]
    proof fn codec(self, rest: Seq<u8>) {
        let t5 = rest;
        let t4 = self.previously_applied_offset.enc() + t5;
        let t3 = self.horizontal_offset_bounds.enc() + t4;
        let t2 = self.vertical_offset_bounds.enc() + t3;
        let t1 = self.margins.enc() + t2;
        self.id.codec(t1);
        self.margins.codec(t2);
        self.vertical_offset_bounds.codec(t3);
        self.horizontal_offset_bounds.codec(t4);
        self.previously_applied_offset.codec(t5);
        let b = self.enc() + rest;
        assert(b =~= self.id.enc() + t1);
        assert(b.skip(16) =~= t1);
        assert(b.skip(56) =~= t2);
        assert(b.skip(74) =~= t3);
        assert(b.skip(92) =~= t4);
    }

    proof fn dec_short(b: Seq<u8>) {
        ClipId::dec_short(b);
        if b.len() >= 16 {
            SideOffsets::dec_short(b.skip(16));
        }
        if b.len() >= 56 {
            StickyOffsetBounds::dec_short(b.skip(56));
        }
        if b.len() >= 74 {
            StickyOffsetBounds::dec_short(b.skip(74));
        }
        if b.len() >= 92 {
            LayoutVector2D::dec_short(b.skip(92));
        }
    }

    fn wsize() -> (n: usize) {
        110
    }

    fn put(&self, out: &mut Vec<u8>) {
        self.id.put(out);
        self.margins.put(out);
        self.vertical_offset_bounds.put(out);
        self.horizontal_offset_bounds.put(out);
        self.previously_applied_offset.put(out);
        proof {
            assert(out@ =~= old(out)@ + self.enc());
        }
    }

    fn read_at(buf: &Vec<u8>, pos: usize) -> (r: Option<Self>) {
        let buf_len = buf.len();
        let ghost b = buf@.skip(pos as int);
        match ClipId::read_at(buf, pos) {
            None => None,
            Some(v0) => {
                proof {
                    ClipId::dec_short(b);
                    assert(b.skip(16) =~= buf@.skip(pos as int + 16));
                }
                match SideOffsets::read_at(buf, pos + 16) {
                    None => None,
                    Some(v1) => {
                        proof {
                            SideOffsets::dec_short(b.skip(16));
                            assert(b.skip(56) =~= buf@.skip(pos as int + 56));
                        }
                        match StickyOffsetBounds::read_at(buf, pos + 56) {
                            None => None,
                            Some(v2) => {
                                proof {
                                    StickyOffsetBounds::dec_short(b.skip(56));
                                    assert(b.skip(74) =~= buf@.skip(pos as int + 74));
                                }
                                match StickyOffsetBounds::read_at(buf, pos + 74) {
                                    None => None,
                                    Some(v3) => {
                                        proof {
                                            StickyOffsetBounds::dec_short(b.skip(74));
                                            assert(b.skip(92) =~= buf@.skip(pos as int + 92));
                                        }
                                        match LayoutVector2D::read_at(buf, pos + 92) {
                                            None => None,
                                            Some(v4) => {
                                                Some(StickyFrameDisplayItem { id: v0, margins: v1, vertical_offset_bounds: v2, horizontal_offset_bounds: v3, previously_applied_offset: v4 })
                                            },
                                        }
                                    },
                                }
                            },
                        }
                    },
                }
            },
        }
    }
}


/// The planar layout of a YUV image: which image resources hold its planes.
#[derive(Clone, Copy, Debug, PartialEq, Eq, Structural, Hash)]
pub enum YuvData {
    NV12(ImageKey, ImageKey),
    PlanarYCbCr(ImageKey, ImageKey, ImageKey),
    InterleavedYCbCr(ImageKey),
}

impl Wire for YuvData {
    open spec fn wlen() -> nat {
        25
    }

    open spec fn enc(self) -> Seq<u8> {
        match self {
            YuvData::NV12(a, c) => seq![0u8] + a.enc() + c.enc() + crate::wire::zeros(8),
            YuvData::PlanarYCbCr(a, c, d) => seq![1u8] + a.enc() + c.enc() + d.enc(),
            YuvData::InterleavedYCbCr(a) => seq![2u8] + a.enc() + crate::wire::zeros(16),
        }
    }

    open spec fn dec(b: Seq<u8>) -> Option<Self> {
        if b.len() < 25 {
            None
        } else if b[0] == 0 {
            match (ImageKey::dec(b.skip(1)), ImageKey::dec(b.skip(9))) {
                (Some(a), Some(c)) => Some(YuvData::NV12(a, c)),
                _ => None,
            }
        } else if b[0] == 1 {
            match (ImageKey::dec(b.skip(1)), ImageKey::dec(b.skip(9)), ImageKey::dec(b.skip(17))) {
                (Some(a), Some(c), Some(d)) => Some(YuvData::PlanarYCbCr(a, c, d)),
                _ => None,
            }
        } else if b[0] == 2 {
            match ImageKey::dec(b.skip(1)) {
                Some(a) => Some(YuvData::InterleavedYCbCr(a)),
                _ => None,
            }
        } else {
            None
        }
    }

    #[verifier::rlimit(100)]
    #[verifier::spinoff_prover]
    proof fn codec(self, rest: Seq<u8>) {
        let b = self.enc() + rest;
        match self {
            YuvData::NV12(a, c) => {
                let t2 = c.enc() + (crate::wire::zeros(8) + rest);
                a.codec(t2);
                c.codec(crate::wire::zeros(8) + rest);
                assert(b =~= seq![0u8] + (a.enc() + t2));
                assert(b.skip(1) =~= a.enc() + t2);
                assert(b.skip(9) =~= t2);
            },
            YuvData::PlanarYCbCr(a, c, d) => {
                let t3 = d.enc() + rest;
                let t2 = c.enc() + t3;
                a.codec(t2);
                c.codec(t3);
                d.codec(rest);
                assert(b =~= seq![1u8] + (a.enc() + t2));
                assert(b.skip(1) =~= a.enc() + t2);
                assert(b.skip(9) =~= t2);
                assert(b.skip(17) =~= t3);
            },
            YuvData::InterleavedYCbCr(a) => {
                a.codec(crate::wire::zeros(16) + rest);
                assert(b =~= seq![2u8] + (a.enc() + (crate::wire::zeros(16) + rest)));
                assert(b.skip(1) =~= a.enc() + (crate::wire::zeros(16) + rest));
            },
        }
    }

    proof fn dec_short(b: Seq<u8>) {
    }

    fn wsize() -> (n: usize) {
        25
    }

    fn put(&self, out: &mut Vec<u8>) {
        match self {
            YuvData::NV12(a, c) => {
                out.push(0);
                a.put(out);
                c.put(out);
                crate::wire::put_zeros(out, 8);
            },
            YuvData::PlanarYCbCr(a, c, d) => {
                out.push(1);
                a.put(out);
                c.put(out);
                d.put(out);
            },
            YuvData::InterleavedYCbCr(a) => {
                out.push(2);
                a.put(out);
                crate::wire::put_zeros(out, 16);
            },
        }
        proof {
            assert(out@ =~= old(out)@ + self.enc());
        }
    }

    fn read_at(buf: &Vec<u8>, pos: usize) -> (r: Option<Self>) {
        let buf_len = buf.len();
        let ghost b = buf@.skip(pos as int);
        if buf.len() - pos < 25 {
            None
        } else {
            proof {
                assert(b.skip(1) =~= buf@.skip(pos as int + 1));
                assert(b.skip(9) =~= buf@.skip(pos as int + 9));
                assert(b.skip(17) =~= buf@.skip(pos as int + 17));
            }
            let t = buf[pos];
            if t == 0 {
                match (ImageKey::read_at(buf, pos + 1), ImageKey::read_at(buf, pos + 9)) {
                    (Some(a), Some(c)) => Some(YuvData::NV12(a, c)),
                    _ => None,
                }
            } else if t == 1 {
                match (
                    ImageKey::read_at(buf, pos + 1),
                    ImageKey::read_at(buf, pos + 9),
                    ImageKey::read_at(buf, pos + 17),
                ) {
                    (Some(a), Some(c), Some(d)) => Some(YuvData::PlanarYCbCr(a, c, d)),
                    _ => None,
                }
            } else if t == 2 {
                match ImageKey::read_at(buf, pos + 1) {
                    Some(a) => Some(YuvData::InterleavedYCbCr(a)),
                    _ => None,
                }
            } else {
                None
            }
        }
    }
}

/// A YUV planar image.
#[derive(Clone, Copy, Debug, PartialEq, Eq, Structural)]
pub struct YuvImageDisplayItem {
    pub yuv_data: YuvData,
    pub color_space: YuvColorSpace,
    pub image_rendering: ImageRendering,
}

impl Wire for YuvImageDisplayItem {
    open spec fn wlen() -> nat {
        27
    }

    open spec fn enc(self) -> Seq<u8> {
        self.yuv_data.enc() + self.color_space.enc() + self.image_rendering.enc()
    }

    open spec fn dec(b: Seq<u8>) -> Option<Self> {
        match (YuvData::dec(b), YuvColorSpace::dec(b.skip(25)), ImageRendering::dec(b.skip(26))) {
            (Some(yuv_data), Some(color_space), Some(image_rendering)) => Some(
                YuvImageDisplayItem { yuv_data, color_space, image_rendering },
            ),
            _ => None,
        }
    }

    #[verifier::rlimit(100)]
    #[verifier::spinoff_prover]
    proof fn codec(self, rest: Seq<u8>) {
        let t2 = self.image_rendering.enc() + rest;
        let t1 = self.color_space.enc() + t2;
        self.yuv_data.codec(t1);
        self.color_space.codec(t2);
        self.image_rendering.codec(rest);
        let b = self.enc() + rest;
        assert(b =~= self.yuv_data.enc() + t1);
        assert(b.skip(25) =~= t1);
        assert(b.skip(26) =~= t2);
    }

    proof fn dec_short(b: Seq<u8>) {
        YuvData::dec_short(b);
        if b.len() >= 25 {
            YuvColorSpace::dec_short(b.skip(25));
        }
        if b.len() >= 26 {
            ImageRendering::dec_short(b.skip(26));
        }
    }

    fn wsize() -> (n: usize) {
        27
    }

    fn put(&self, out: &mut Vec<u8>) {
        self.yuv_data.put(out);
        self.color_space.put(out);
        self.image_rendering.put(out);
        proof {
            assert(out@ =~= old(out)@ + self.enc());
        }
    }

    fn read_at(buf: &Vec<u8>, pos: usize) -> (r: Option<Self>) {
        let buf_len = buf.len();
        let ghost b = buf@.skip(pos as int);
        match YuvData::read_at(buf, pos) {
            None => None,
            Some(yuv_data) => {
                proof {
                    YuvData::dec_short(b);
                    assert(b.skip(25) =~= buf@.skip(pos as int + 25));
                }
                match YuvColorSpace::read_at(buf, pos + 25) {
                    None => None,
                    Some(color_space) => {
                        proof {
                            YuvColorSpace::dec_short(b.skip(25));
                            assert(b.skip(26) =~= buf@.skip(pos as int + 26));
                        }
                        match ImageRendering::read_at(buf, pos + 26) {
                            None => None,
                            Some(image_rendering) => Some(
                                YuvImageDisplayItem { yuv_data, color_space, image_rendering },
                            ),
                        }
                    },
                }
            },
        }
    }
}

/// A compositing filter applied by a stacking context.  Each variant carries
/// one fixed-point parameter.
#[derive(Clone, Copy, Debug, PartialEq, Eq, Structural)]
pub enum FilterOp {
    Blur(i64),
    Brightness(i64),
    Contrast(i64),
    Grayscale(i64),
    HueRotate(i64),
    Invert(i64),
    Opacity(i64),
    Saturate(i64),
    Sepia(i64),
}

impl FilterOp {
    pub open spec fn tag(self) -> u8 {
        match self {
            FilterOp::Blur(_) => 0,
            FilterOp::Brightness(_) => 1,
            FilterOp::Contrast(_) => 2,
            FilterOp::Grayscale(_) => 3,
            FilterOp::HueRotate(_) => 4,
            FilterOp::Invert(_) => 5,
            FilterOp::Opacity(_) => 6,
            FilterOp::Saturate(_) => 7,
            FilterOp::Sepia(_) => 8,
        }
    }

    pub open spec fn value(self) -> i64 {
        match self {
            FilterOp::Blur(v) => v,
            FilterOp::Brightness(v) => v,
            FilterOp::Contrast(v) => v,
            FilterOp::Grayscale(v) => v,
            FilterOp::HueRotate(v) => v,
            FilterOp::Invert(v) => v,
            FilterOp::Opacity(v) => v,
            FilterOp::Saturate(v) => v,
            FilterOp::Sepia(v) => v,
        }
    }

    pub open spec fn from_tag(t: u8, v: i64) -> Option<FilterOp> {
        if t == 0 {
            Some(FilterOp::Blur(v))
        } else if t == 1 {
            Some(FilterOp::Brightness(v))
        } else if t == 2 {
            Some(FilterOp::Contrast(v))
        } else if t == 3 {
            Some(FilterOp::Grayscale(v))
        } else if t == 4 {
            Some(FilterOp::HueRotate(v))
        } else if t == 5 {
            Some(FilterOp::Invert(v))
        } else if t == 6 {
            Some(FilterOp::Opacity(v))
        } else if t == 7 {
            Some(FilterOp::Saturate(v))
        } else if t == 8 {
            Some(FilterOp::Sepia(v))
        } else {
            None
        }
    }

    fn tag_exec(&self) -> (t: u8)
        ensures
            t == self.tag(),
    {
        match self {
            FilterOp::Blur(_) => 0,
            FilterOp::Brightness(_) => 1,
            FilterOp::Contrast(_) => 2,
            FilterOp::Grayscale(_) => 3,
            FilterOp::HueRotate(_) => 4,
            FilterOp::Invert(_) => 5,
            FilterOp::Opacity(_) => 6,
            FilterOp::Saturate(_) => 7,
            FilterOp::Sepia(_) => 8,
        }
    }

    fn value_exec(&self) -> (v: i64)
        ensures
            v == self.value(),
    {
        match self {
            FilterOp::Blur(v) => *v,
            FilterOp::Brightness(v) => *v,
            FilterOp::Contrast(v) => *v,
            FilterOp::Grayscale(v) => *v,
            FilterOp::HueRotate(v) => *v,
            FilterOp::Invert(v) => *v,
            FilterOp::Opacity(v) => *v,
            FilterOp::Saturate(v) => *v,
            FilterOp::Sepia(v) => *v,
        }
    }
}

impl Wire for FilterOp {
    open spec fn wlen() -> nat {
        10
    }

    open spec fn enc(self) -> Seq<u8> {
        seq![self.tag()] + self.value().enc()
    }

    open spec fn dec(b: Seq<u8>) -> Option<Self> {
        if b.len() < 10 {
            None
        } else {
            match i64::dec(b.skip(1)) {
                None => None,
                Some(v) => FilterOp::from_tag(b[0], v),
            }
        }
    }

    #[verifier::rlimit(100)]
    #[verifier::spinoff_prover]
    proof fn codec(self, rest: Seq<u8>) {
        self.value().codec(rest);
        assert((self.enc() + rest).skip(1) =~= self.value().enc() + rest);
    }

    proof fn dec_short(b: Seq<u8>) {
    }

    fn wsize() -> (n: usize) {
        10
    }

    fn put(&self, out: &mut Vec<u8>) {
        out.push(self.tag_exec());
        let v = self.value_exec();
        v.put(out);
        proof {
            assert(out@ =~= old(out)@ + self.enc());
        }
    }

    fn read_at(buf: &Vec<u8>, pos: usize) -> (r: Option<Self>) {
        let buf_len = buf.len();
        let ghost b = buf@.skip(pos as int);
        if buf.len() - pos < 10 {
            None
        } else {
            proof {
                assert(b.skip(1) =~= buf@.skip(pos as int + 1));
            }
            let t = buf[pos];
            match i64::read_at(buf, pos + 1) {
                None => None,
                Some(v) => {
                    if t == 0 {
                        Some(FilterOp::Blur(v))
                    } else if t == 1 {
                        Some(FilterOp::Brightness(v))
                    } else if t == 2 {
                        Some(FilterOp::Contrast(v))
                    } else if t == 3 {
                        Some(FilterOp::Grayscale(v))
                    } else if t == 4 {
                        Some(FilterOp::HueRotate(v))
                    } else if t == 5 {
                        Some(FilterOp::Invert(v))
                    } else if t == 6 {
                        Some(FilterOp::Opacity(v))
                    } else if t == 7 {
                        Some(FilterOp::Saturate(v))
                    } else if t == 8 {
                        Some(FilterOp::Sepia(v))
                    } else {
                        None
                    }
                },
            }
        }
    }
}

} // verus!
