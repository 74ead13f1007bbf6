//! Display items: the tagged union of drawing commands, and the full item
//! record that pairs a command with its scope reference and placement
//! metadata.
//!
//! An encoded item is a one-byte kind tag, the kind's fixed-size payload, the
//! scope reference, and the placement metadata.  `dec_item` validates every
//! discriminant and every length, so a truncated or corrupted record decodes
//! to `None` rather than reading out of bounds.

use vstd::prelude::*;

use crate::payload::{
    BorderDisplayItem, BoxShadowDisplayItem, ClipDisplayItem, GradientDisplayItem,
    IframeDisplayItem, ImageDisplayItem, LineDisplayItem, PushStackingContextDisplayItem,
    RadialGradientDisplayItem, RectangleDisplayItem, ScrollFrameDisplayItem, Shadow,
    StickyFrameDisplayItem, TextDisplayItem, YuvImageDisplayItem,
};
use crate::records::{ClipAndScrollInfo, LayoutPrimitiveInfo};
use crate::wire::Wire;

verus! {

/// One drawing or scope-defining command.
#[derive(Clone, Copy, Debug, PartialEq, Eq, Structural)]
pub enum SpecificDisplayItem {

    Clip(ClipDisplayItem),
    ScrollFrame(ScrollFrameDisplayItem),
    StickyFrame(StickyFrameDisplayItem),
    Rectangle(RectangleDisplayItem),
    ClearRectangle,
    Line(LineDisplayItem),
    Text(TextDisplayItem),
    Image(ImageDisplayItem),
    YuvImage(YuvImageDisplayItem),
    Border(BorderDisplayItem),
    BoxShadow(BoxShadowDisplayItem),
    Gradient(GradientDisplayItem),
    RadialGradient(RadialGradientDisplayItem),
    Iframe(IframeDisplayItem),
    PushStackingContext(PushStackingContextDisplayItem),
    PopStackingContext,
    SetGradientStops,
    PushShadow(Shadow),
    PopAllShadows,
}

/// The encoding of a command: kind tag, then the kind's payload.
#[verifier::opaque]
pub open spec fn enc_specific(si: SpecificDisplayItem) -> Seq<u8> {
    match si {
        SpecificDisplayItem::Clip(p) => seq![0u8] + p.enc(),
        SpecificDisplayItem::ScrollFrame(p) => seq![1u8] + p.enc(),
        SpecificDisplayItem::StickyFrame(p) => seq![2u8] + p.enc(),
        SpecificDisplayItem::Rectangle(p) => seq![3u8] + p.enc(),
        SpecificDisplayItem::ClearRectangle => seq![4u8],
        SpecificDisplayItem::Line(p) => seq![5u8] + p.enc(),
        SpecificDisplayItem::Text(p) => seq![6u8] + p.enc(),
        SpecificDisplayItem::Image(p) => seq![7u8] + p.enc(),
        SpecificDisplayItem::YuvImage(p) => seq![8u8] + p.enc(),
        SpecificDisplayItem::Border(p) => seq![9u8] + p.enc(),
        SpecificDisplayItem::BoxShadow(p) => seq![10u8] + p.enc(),
        SpecificDisplayItem::Gradient(p) => seq![11u8] + p.enc(),
        SpecificDisplayItem::RadialGradient(p) => seq![12u8] + p.enc(),
        SpecificDisplayItem::Iframe(p) => seq![13u8] + p.enc(),
        SpecificDisplayItem::PushStackingContext(p) => seq![14u8] + p.enc(),
        SpecificDisplayItem::PopStackingContext => seq![15u8],
        SpecificDisplayItem::SetGradientStops => seq![16u8],
        SpecificDisplayItem::PushShadow(p) => seq![17u8] + p.enc(),
        SpecificDisplayItem::PopAllShadows => seq![18u8],
    }
}

/// The encoded length of a command.
pub open spec fn specific_len(si: SpecificDisplayItem) -> nat {
    match si {
        SpecificDisplayItem::Clip(_) => 63,
        SpecificDisplayItem::ScrollFrame(_) => 64,
        SpecificDisplayItem::StickyFrame(_) => 111,
        SpecificDisplayItem::Rectangle(_) => 5,
        SpecificDisplayItem::ClearRectangle => 1,
        SpecificDisplayItem::Line(_) => 16,
        SpecificDisplayItem::Text(_) => 18,
        SpecificDisplayItem::Image(_) => 46,
        SpecificDisplayItem::YuvImage(_) => 28,
        SpecificDisplayItem::Border(_) => 60,
        SpecificDisplayItem::BoxShadow(_) => 87,
        SpecificDisplayItem::Gradient(_) => 74,
        SpecificDisplayItem::RadialGradient(_) => 101,
        SpecificDisplayItem::Iframe(_) => 9,
        SpecificDisplayItem::PushStackingContext(_) => 4,
        SpecificDisplayItem::PopStackingContext => 1,
        SpecificDisplayItem::SetGradientStops => 1,
        SpecificDisplayItem::PushShadow(_) => 32,
        SpecificDisplayItem::PopAllShadows => 1,
    }
}

/// Decodes a command from the front of `b`, returning it and the number of
/// bytes consumed.
#[verifier::opaque]
pub open spec fn dec_specific(b: Seq<u8>) -> Option<(SpecificDisplayItem, nat)> {
    if b.len() < 1 {
        None
    } else if b[0] == 0 {
        match ClipDisplayItem::dec(b.skip(1)) {
            None => None,
            Some(p) => Some((SpecificDisplayItem::Clip(p), 63 as nat)),
        }
    } else if b[0] == 1 {
        match ScrollFrameDisplayItem::dec(b.skip(1)) {
            None => None,
            Some(p) => Some((SpecificDisplayItem::ScrollFrame(p), 64 as nat)),
        }
    } else if b[0] == 2 {
        match StickyFrameDisplayItem::dec(b.skip(1)) {
            None => None,
            Some(p) => Some((SpecificDisplayItem::StickyFrame(p), 111 as nat)),
        }
    } else if b[0] == 3 {
        match RectangleDisplayItem::dec(b.skip(1)) {
            None => None,
            Some(p) => Some((SpecificDisplayItem::Rectangle(p), 5 as nat)),
        }
    } else if b[0] == 4 {
        Some((SpecificDisplayItem::ClearRectangle, 1 as nat))
    } else if b[0] == 5 {
        match LineDisplayItem::dec(b.skip(1)) {
            None => None,
            Some(p) => Some((SpecificDisplayItem::Line(p), 16 as nat)),
        }
    } else if b[0] == 6 {
        match TextDisplayItem::dec(b.skip(1)) {
            None => None,
            Some(p) => Some((SpecificDisplayItem::Text(p), 18 as nat)),
        }
    } else if b[0] == 7 {
        match ImageDisplayItem::dec(b.skip(1)) {
            None => None,
            Some(p) => Some((SpecificDisplayItem::Image(p), 46 as nat)),
        }
    } else if b[0] == 8 {
        match YuvImageDisplayItem::dec(b.skip(1)) {
            None => None,
            Some(p) => Some((SpecificDisplayItem::YuvImage(p), 28 as nat)),
        }
    } else if b[0] == 9 {
        match BorderDisplayItem::dec(b.skip(1)) {
            None => None,
            Some(p) => Some((SpecificDisplayItem::Border(p), 60 as nat)),
        }
    } else if b[0] == 10 {
        match BoxShadowDisplayItem::dec(b.skip(1)) {
            None => None,
            Some(p) => Some((SpecificDisplayItem::BoxShadow(p), 87 as nat)),
        }
    } else if b[0] == 11 {
        match GradientDisplayItem::dec(b.skip(1)) {
            None => None,
            Some(p) => Some((SpecificDisplayItem::Gradient(p), 74 as nat)),
        }
    } else if b[0] == 12 {
        match RadialGradientDisplayItem::dec(b.skip(1)) {
            None => None,
            Some(p) => Some((SpecificDisplayItem::RadialGradient(p), 101 as nat)),
        }
    } else if b[0] == 13 {
        match IframeDisplayItem::dec(b.skip(1)) {
            None => None,
            Some(p) => Some((SpecificDisplayItem::Iframe(p), 9 as nat)),
        }
    } else if b[0] == 14 {
        match PushStackingContextDisplayItem::dec(b.skip(1)) {
            None => None,
            Some(p) => Some((SpecificDisplayItem::PushStackingContext(p), 4 as nat)),
        }
    } else if b[0] == 15 {
        Some((SpecificDisplayItem::PopStackingContext, 1 as nat))
    } else if b[0] == 16 {
        Some((SpecificDisplayItem::SetGradientStops, 1 as nat))
    } else if b[0] == 17 {
        match Shadow::dec(b.skip(1)) {
            None => None,
            Some(p) => Some((SpecificDisplayItem::PushShadow(p), 32 as nat)),
        }
    } else if b[0] == 18 {
        Some((SpecificDisplayItem::PopAllShadows, 1 as nat))
    } else {
        None
    }
}

#[verifier::rlimit(100)]
#[verifier::spinoff_prover]
proof fn codec_clip(p: ClipDisplayItem, rest: Seq<u8>)
    ensures
        enc_specific(SpecificDisplayItem::Clip(p)).len() == 63,
        dec_specific(enc_specific(SpecificDisplayItem::Clip(p)) + rest) == Some(
            (SpecificDisplayItem::Clip(p), 63 as nat),
        ),
{
    reveal(enc_specific);
    reveal(dec_specific);
    p.codec(rest);
    assert((enc_specific(SpecificDisplayItem::Clip(p)) + rest).skip(1) =~= p.enc() + rest);
}

#[verifier::rlimit(100)]
#[verifier::spinoff_prover]
proof fn codec_scroll_frame(p: ScrollFrameDisplayItem, rest: Seq<u8>)
    ensures
        enc_specific(SpecificDisplayItem::ScrollFrame(p)).len() == 64,
        dec_specific(enc_specific(SpecificDisplayItem::ScrollFrame(p)) + rest) == Some(
            (SpecificDisplayItem::ScrollFrame(p), 64 as nat),
        ),
{
    reveal(enc_specific);
    reveal(dec_specific);
    p.codec(rest);
    assert((enc_specific(SpecificDisplayItem::ScrollFrame(p)) + rest).skip(1) =~= p.enc() + rest);
}

#[verifier::rlimit(100)]
#[verifier::spinoff_prover]
proof fn codec_sticky_frame(p: StickyFrameDisplayItem, rest: Seq<u8>)
    ensures
        enc_specific(SpecificDisplayItem::StickyFrame(p)).len() == 111,
        dec_specific(enc_specific(SpecificDisplayItem::StickyFrame(p)) + rest) == Some(
            (SpecificDisplayItem::StickyFrame(p), 111 as nat),
        ),
{
    reveal(enc_specific);
    reveal(dec_specific);
    p.codec(rest);
    assert((enc_specific(SpecificDisplayItem::StickyFrame(p)) + rest).skip(1) =~= p.enc() + rest);
}

#[verifier::rlimit(100)]
#[verifier::spinoff_prover]
proof fn codec_rectangle(p: RectangleDisplayItem, rest: Seq<u8>)
    ensures
        enc_specific(SpecificDisplayItem::Rectangle(p)).len() == 5,
        dec_specific(enc_specific(SpecificDisplayItem::Rectangle(p)) + rest) == Some(
            (SpecificDisplayItem::Rectangle(p), 5 as nat),
        ),
{
    reveal(enc_specific);
    reveal(dec_specific);
    p.codec(rest);
    assert((enc_specific(SpecificDisplayItem::Rectangle(p)) + rest).skip(1) =~= p.enc() + rest);
}

#[verifier::spinoff_prover]
proof fn codec_clear_rectangle(rest: Seq<u8>)
    ensures
        enc_specific(SpecificDisplayItem::ClearRectangle).len() == 1,
        dec_specific(enc_specific(SpecificDisplayItem::ClearRectangle) + rest) == Some(
            (SpecificDisplayItem::ClearRectangle, 1 as nat),
        ),
{
    reveal(enc_specific);
    reveal(dec_specific);
}

#[verifier::rlimit(100)]
#[verifier::spinoff_prover]
proof fn codec_line(p: LineDisplayItem, rest: Seq<u8>)
    ensures
        enc_specific(SpecificDisplayItem::Line(p)).len() == 16,
        dec_specific(enc_specific(SpecificDisplayItem::Line(p)) + rest) == Some(
            (SpecificDisplayItem::Line(p), 16 as nat),
        ),
{
    reveal(enc_specific);
    reveal(dec_specific);
    p.codec(rest);
    assert((enc_specific(SpecificDisplayItem::Line(p)) + rest).skip(1) =~= p.enc() + rest);
}

#[verifier::rlimit(100)]
#[verifier::spinoff_prover]
proof fn codec_text(p: TextDisplayItem, rest: Seq<u8>)
    ensures
        enc_specific(SpecificDisplayItem::Text(p)).len() == 18,
        dec_specific(enc_specific(SpecificDisplayItem::Text(p)) + rest) == Some(
            (SpecificDisplayItem::Text(p), 18 as nat),
        ),
{
    reveal(enc_specific);
    reveal(dec_specific);
    p.codec(rest);
    assert((enc_specific(SpecificDisplayItem::Text(p)) + rest).skip(1) =~= p.enc() + rest);
}

#[verifier::rlimit(100)]
#[verifier::spinoff_prover]
proof fn codec_image(p: ImageDisplayItem, rest: Seq<u8>)
    ensures
        enc_specific(SpecificDisplayItem::Image(p)).len() == 46,
        dec_specific(enc_specific(SpecificDisplayItem::Image(p)) + rest) == Some(
            (SpecificDisplayItem::Image(p), 46 as nat),
        ),
{
    reveal(enc_specific);
    reveal(dec_specific);
    p.codec(rest);
    assert((enc_specific(SpecificDisplayItem::Image(p)) + rest).skip(1) =~= p.enc() + rest);
}

#[verifier::rlimit(100)]
#[verifier::spinoff_prover]
proof fn codec_yuv_image(p: YuvImageDisplayItem, rest: Seq<u8>)
    ensures
        enc_specific(SpecificDisplayItem::YuvImage(p)).len() == 28,
        dec_specific(enc_specific(SpecificDisplayItem::YuvImage(p)) + rest) == Some(
            (SpecificDisplayItem::YuvImage(p), 28 as nat),
        ),
{
    reveal(enc_specific);
    reveal(dec_specific);
    p.codec(rest);
    assert((enc_specific(SpecificDisplayItem::YuvImage(p)) + rest).skip(1) =~= p.enc() + rest);
}

#[verifier::rlimit(100)]
#[verifier::spinoff_prover]
proof fn codec_border(p: BorderDisplayItem, rest: Seq<u8>)
    ensures
        enc_specific(SpecificDisplayItem::Border(p)).len() == 60,
        dec_specific(enc_specific(SpecificDisplayItem::Border(p)) + rest) == Some(
            (SpecificDisplayItem::Border(p), 60 as nat),
        ),
{
    reveal(enc_specific);
    reveal(dec_specific);
    p.codec(rest);
    assert((enc_specific(SpecificDisplayItem::Border(p)) + rest).skip(1) =~= p.enc() + rest);
}

#[verifier::rlimit(100)]
#[verifier::spinoff_prover]
proof fn codec_box_shadow(p: BoxShadowDisplayItem, rest: Seq<u8>)
    ensures
        enc_specific(SpecificDisplayItem::BoxShadow(p)).len() == 87,
        dec_specific(enc_specific(SpecificDisplayItem::BoxShadow(p)) + rest) == Some(
            (SpecificDisplayItem::BoxShadow(p), 87 as nat),
        ),
{
    reveal(enc_specific);
    reveal(dec_specific);
    p.codec(rest);
    assert((enc_specific(SpecificDisplayItem::BoxShadow(p)) + rest).skip(1) =~= p.enc() + rest);
}

#[verifier::rlimit(100)]
#[verifier::spinoff_prover]
proof fn codec_gradient(p: GradientDisplayItem, rest: Seq<u8>)
    ensures
        enc_specific(SpecificDisplayItem::Gradient(p)).len() == 74,
        dec_specific(enc_specific(SpecificDisplayItem::Gradient(p)) + rest) == Some(
            (SpecificDisplayItem::Gradient(p), 74 as nat),
        ),
{
    reveal(enc_specific);
    reveal(dec_specific);
    p.codec(rest);
    assert((enc_specific(SpecificDisplayItem::Gradient(p)) + rest).skip(1) =~= p.enc() + rest);
}

#[verifier::rlimit(100)]
#[verifier::spinoff_prover]
proof fn codec_radial_gradient(p: RadialGradientDisplayItem, rest: Seq<u8>)
    ensures
        enc_specific(SpecificDisplayItem::RadialGradient(p)).len() == 101,
        dec_specific(enc_specific(SpecificDisplayItem::RadialGradient(p)) + rest) == Some(
            (SpecificDisplayItem::RadialGradient(p), 101 as nat),
        ),
{
    reveal(enc_specific);
    reveal(dec_specific);
    p.codec(rest);
    assert((enc_specific(SpecificDisplayItem::RadialGradient(p)) + rest).skip(1) =~= p.enc() + rest);
}

#[verifier::rlimit(100)]
#[verifier::spinoff_prover]
proof fn codec_iframe(p: IframeDisplayItem, rest: Seq<u8>)
    ensures
        enc_specific(SpecificDisplayItem::Iframe(p)).len() == 9,
        dec_specific(enc_specific(SpecificDisplayItem::Iframe(p)) + rest) == Some(
            (SpecificDisplayItem::Iframe(p), 9 as nat),
        ),
{
    reveal(enc_specific);
    reveal(dec_specific);
    p.codec(rest);
    assert((enc_specific(SpecificDisplayItem::Iframe(p)) + rest).skip(1) =~= p.enc() + rest);
}

#[verifier::rlimit(100)]
#[verifier::spinoff_prover]
proof fn codec_push_stacking_context(p: PushStackingContextDisplayItem, rest: Seq<u8>)
    ensures
        enc_specific(SpecificDisplayItem::PushStackingContext(p)).len() == 4,
        dec_specific(enc_specific(SpecificDisplayItem::PushStackingContext(p)) + rest) == Some(
            (SpecificDisplayItem::PushStackingContext(p), 4 as nat),
        ),
{
    reveal(enc_specific);
    reveal(dec_specific);
    p.codec(rest);
    assert((enc_specific(SpecificDisplayItem::PushStackingContext(p)) + rest).skip(1) =~= p.enc() + rest);
}

#[verifier::spinoff_prover]
proof fn codec_pop_stacking_context(rest: Seq<u8>)
    ensures
        enc_specific(SpecificDisplayItem::PopStackingContext).len() == 1,
        dec_specific(enc_specific(SpecificDisplayItem::PopStackingContext) + rest) == Some(
            (SpecificDisplayItem::PopStackingContext, 1 as nat),
        ),
{
    reveal(enc_specific);
    reveal(dec_specific);
}

#[verifier::spinoff_prover]
proof fn codec_set_gradient_stops(rest: Seq<u8>)
    ensures
        enc_specific(SpecificDisplayItem::SetGradientStops).len() == 1,
        dec_specific(enc_specific(SpecificDisplayItem::SetGradientStops) + rest) == Some(
            (SpecificDisplayItem::SetGradientStops, 1 as nat),
        ),
{
    reveal(enc_specific);
    reveal(dec_specific);
}

#[verifier::rlimit(100)]
#[verifier::spinoff_prover]
proof fn codec_push_shadow(p: Shadow, rest: Seq<u8>)
    ensures
        enc_specific(SpecificDisplayItem::PushShadow(p)).len() == 32,
        dec_specific(enc_specific(SpecificDisplayItem::PushShadow(p)) + rest) == Some(
            (SpecificDisplayItem::PushShadow(p), 32 as nat),
        ),
{
    reveal(enc_specific);
    reveal(dec_specific);
    p.codec(rest);
    assert((enc_specific(SpecificDisplayItem::PushShadow(p)) + rest).skip(1) =~= p.enc() + rest);
}

#[verifier::spinoff_prover]
proof fn codec_pop_all_shadows(rest: Seq<u8>)
    ensures
        enc_specific(SpecificDisplayItem::PopAllShadows).len() == 1,
        dec_specific(enc_specific(SpecificDisplayItem::PopAllShadows) + rest) == Some(
            (SpecificDisplayItem::PopAllShadows, 1 as nat),
        ),
{
    reveal(enc_specific);
    reveal(dec_specific);
}

/// Decoding a command inverts encoding it, under any suffix.
pub proof fn lemma_specific_codec(si: SpecificDisplayItem, rest: Seq<u8>)
    ensures
        enc_specific(si).len() == specific_len(si),
        dec_specific(enc_specific(si) + rest) == Some((si, specific_len(si))),
{
    match si {
        SpecificDisplayItem::Clip(p) => codec_clip(p, rest),
        SpecificDisplayItem::ScrollFrame(p) => codec_scroll_frame(p, rest),
        SpecificDisplayItem::StickyFrame(p) => codec_sticky_frame(p, rest),
        SpecificDisplayItem::Rectangle(p) => codec_rectangle(p, rest),
        SpecificDisplayItem::ClearRectangle => codec_clear_rectangle(rest),
        SpecificDisplayItem::Line(p) => codec_line(p, rest),
        SpecificDisplayItem::Text(p) => codec_text(p, rest),
        SpecificDisplayItem::Image(p) => codec_image(p, rest),
        SpecificDisplayItem::YuvImage(p) => codec_yuv_image(p, rest),
        SpecificDisplayItem::Border(p) => codec_border(p, rest),
        SpecificDisplayItem::BoxShadow(p) => codec_box_shadow(p, rest),
        SpecificDisplayItem::Gradient(p) => codec_gradient(p, rest),
        SpecificDisplayItem::RadialGradient(p) => codec_radial_gradient(p, rest),
        SpecificDisplayItem::Iframe(p) => codec_iframe(p, rest),
        SpecificDisplayItem::PushStackingContext(p) => codec_push_stacking_context(p, rest),
        SpecificDisplayItem::PopStackingContext => codec_pop_stacking_context(rest),
        SpecificDisplayItem::SetGradientStops => codec_set_gradient_stops(rest),
        SpecificDisplayItem::PushShadow(p) => codec_push_shadow(p, rest),
        SpecificDisplayItem::PopAllShadows => codec_pop_all_shadows(rest),
    }
}

#[verifier::rlimit(100)]
#[verifier::spinoff_prover]
proof fn short_clip(p: ClipDisplayItem, k: int)
    requires
        0 <= k < 63,
    ensures
        dec_specific(enc_specific(SpecificDisplayItem::Clip(p)).take(k)) is None,
{
    reveal(enc_specific);
    reveal(dec_specific);
    p.codec(Seq::empty());
    if k >= 1 {
        ClipDisplayItem::dec_short(enc_specific(SpecificDisplayItem::Clip(p)).take(k).skip(1));
    }
}

#[verifier::rlimit(100)]
#[verifier::spinoff_prover]
proof fn short_scroll_frame(p: ScrollFrameDisplayItem, k: int)
    requires
        0 <= k < 64,
    ensures
        dec_specific(enc_specific(SpecificDisplayItem::ScrollFrame(p)).take(k)) is None,
{
    reveal(enc_specific);
    reveal(dec_specific);
    p.codec(Seq::empty());
    if k >= 1 {
        ScrollFrameDisplayItem::dec_short(enc_specific(SpecificDisplayItem::ScrollFrame(p)).take(k).skip(1));
    }
}

#[verifier::rlimit(100)]
#[verifier::spinoff_prover]
proof fn short_sticky_frame(p: StickyFrameDisplayItem, k: int)
    requires
        0 <= k < 111,
    ensures
        dec_specific(enc_specific(SpecificDisplayItem::StickyFrame(p)).take(k)) is None,
{
    reveal(enc_specific);
    reveal(dec_specific);
    p.codec(Seq::empty());
    if k >= 1 {
        StickyFrameDisplayItem::dec_short(enc_specific(SpecificDisplayItem::StickyFrame(p)).take(k).skip(1));
    }
}

#[verifier::rlimit(100)]
#[verifier::spinoff_prover]
proof fn short_rectangle(p: RectangleDisplayItem, k: int)
    requires
        0 <= k < 5,
    ensures
        dec_specific(enc_specific(SpecificDisplayItem::Rectangle(p)).take(k)) is None,
{
    reveal(enc_specific);
    reveal(dec_specific);
    p.codec(Seq::empty());
    if k >= 1 {
        RectangleDisplayItem::dec_short(enc_specific(SpecificDisplayItem::Rectangle(p)).take(k).skip(1));
    }
}

#[verifier::spinoff_prover]
proof fn short_clear_rectangle(k: int)
    requires
        0 <= k < 1,
    ensures
        dec_specific(enc_specific(SpecificDisplayItem::ClearRectangle).take(k)) is None,
{
    reveal(enc_specific);
    reveal(dec_specific);
}

#[verifier::rlimit(100)]
#[verifier::spinoff_prover]
proof fn short_line(p: LineDisplayItem, k: int)
    requires
        0 <= k < 16,
    ensures
        dec_specific(enc_specific(SpecificDisplayItem::Line(p)).take(k)) is None,
{
    reveal(enc_specific);
    reveal(dec_specific);
    p.codec(Seq::empty());
    if k >= 1 {
        LineDisplayItem::dec_short(enc_specific(SpecificDisplayItem::Line(p)).take(k).skip(1));
    }
}

#[verifier::rlimit(100)]
#[verifier::spinoff_prover]
proof fn short_text(p: TextDisplayItem, k: int)
    requires
        0 <= k < 18,
    ensures
        dec_specific(enc_specific(SpecificDisplayItem::Text(p)).take(k)) is None,
{
    reveal(enc_specific);
    reveal(dec_specific);
    p.codec(Seq::empty());
    if k >= 1 {
        TextDisplayItem::dec_short(enc_specific(SpecificDisplayItem::Text(p)).take(k).skip(1));
    }
}

#[verifier::rlimit(100)]
#[verifier::spinoff_prover]
proof fn short_image(p: ImageDisplayItem, k: int)
    requires
        0 <= k < 46,
    ensures
        dec_specific(enc_specific(SpecificDisplayItem::Image(p)).take(k)) is None,
{
    reveal(enc_specific);
    reveal(dec_specific);
    p.codec(Seq::empty());
    if k >= 1 {
        ImageDisplayItem::dec_short(enc_specific(SpecificDisplayItem::Image(p)).take(k).skip(1));
    }
}

#[verifier::rlimit(100)]
#[verifier::spinoff_prover]
proof fn short_yuv_image(p: YuvImageDisplayItem, k: int)
    requires
        0 <= k < 28,
    ensures
        dec_specific(enc_specific(SpecificDisplayItem::YuvImage(p)).take(k)) is None,
{
    reveal(enc_specific);
    reveal(dec_specific);
    p.codec(Seq::empty());
    if k >= 1 {
        YuvImageDisplayItem::dec_short(enc_specific(SpecificDisplayItem::YuvImage(p)).take(k).skip(1));
    }
}

#[verifier::rlimit(100)]
#[verifier::spinoff_prover]
proof fn short_border(p: BorderDisplayItem, k: int)
    requires
        0 <= k < 60,
    ensures
        dec_specific(enc_specific(SpecificDisplayItem::Border(p)).take(k)) is None,
{
    reveal(enc_specific);
    reveal(dec_specific);
    p.codec(Seq::empty());
    if k >= 1 {
        BorderDisplayItem::dec_short(enc_specific(SpecificDisplayItem::Border(p)).take(k).skip(1));
    }
}

#[verifier::rlimit(100)]
#[verifier::spinoff_prover]
proof fn short_box_shadow(p: BoxShadowDisplayItem, k: int)
    requires
        0 <= k < 87,
    ensures
        dec_specific(enc_specific(SpecificDisplayItem::BoxShadow(p)).take(k)) is None,
{
    reveal(enc_specific);
    reveal(dec_specific);
    p.codec(Seq::empty());
    if k >= 1 {
        BoxShadowDisplayItem::dec_short(enc_specific(SpecificDisplayItem::BoxShadow(p)).take(k).skip(1));
    }
}

#[verifier::rlimit(100)]
#[verifier::spinoff_prover]
proof fn short_gradient(p: GradientDisplayItem, k: int)
    requires
        0 <= k < 74,
    ensures
        dec_specific(enc_specific(SpecificDisplayItem::Gradient(p)).take(k)) is None,
{
    reveal(enc_specific);
    reveal(dec_specific);
    p.codec(Seq::empty());
    if k >= 1 {
        GradientDisplayItem::dec_short(enc_specific(SpecificDisplayItem::Gradient(p)).take(k).skip(1));
    }
}

#[verifier::rlimit(100)]
#[verifier::spinoff_prover]
proof fn short_radial_gradient(p: RadialGradientDisplayItem, k: int)
    requires
        0 <= k < 101,
    ensures
        dec_specific(enc_specific(SpecificDisplayItem::RadialGradient(p)).take(k)) is None,
{
    reveal(enc_specific);
    reveal(dec_specific);
    p.codec(Seq::empty());
    if k >= 1 {
        RadialGradientDisplayItem::dec_short(enc_specific(SpecificDisplayItem::RadialGradient(p)).take(k).skip(1));
    }
}

#[verifier::rlimit(100)]
#[verifier::spinoff_prover]
proof fn short_iframe(p: IframeDisplayItem, k: int)
    requires
        0 <= k < 9,
    ensures
        dec_specific(enc_specific(SpecificDisplayItem::Iframe(p)).take(k)) is None,
{
    reveal(enc_specific);
    reveal(dec_specific);
    p.codec(Seq::empty());
    if k >= 1 {
        IframeDisplayItem::dec_short(enc_specific(SpecificDisplayItem::Iframe(p)).take(k).skip(1));
    }
}

#[verifier::rlimit(100)]
#[verifier::spinoff_prover]
proof fn short_push_stacking_context(p: PushStackingContextDisplayItem, k: int)
    requires
        0 <= k < 4,
    ensures
        dec_specific(enc_specific(SpecificDisplayItem::PushStackingContext(p)).take(k)) is None,
{
    reveal(enc_specific);
    reveal(dec_specific);
    p.codec(Seq::empty());
    if k >= 1 {
        PushStackingContextDisplayItem::dec_short(enc_specific(SpecificDisplayItem::PushStackingContext(p)).take(k).skip(1));
    }
}

#[verifier::spinoff_prover]
proof fn short_pop_stacking_context(k: int)
    requires
        0 <= k < 1,
    ensures
        dec_specific(enc_specific(SpecificDisplayItem::PopStackingContext).take(k)) is None,
{
    reveal(enc_specific);
    reveal(dec_specific);
}

#[verifier::spinoff_prover]
proof fn short_set_gradient_stops(k: int)
    requires
        0 <= k < 1,
    ensures
        dec_specific(enc_specific(SpecificDisplayItem::SetGradientStops).take(k)) is None,
{
    reveal(enc_specific);
    reveal(dec_specific);
}

#[verifier::rlimit(100)]
#[verifier::spinoff_prover]
proof fn short_push_shadow(p: Shadow, k: int)
    requires
        0 <= k < 32,
    ensures
        dec_specific(enc_specific(SpecificDisplayItem::PushShadow(p)).take(k)) is None,
{
    reveal(enc_specific);
    reveal(dec_specific);
    p.codec(Seq::empty());
    if k >= 1 {
        Shadow::dec_short(enc_specific(SpecificDisplayItem::PushShadow(p)).take(k).skip(1));
    }
}

#[verifier::spinoff_prover]
proof fn short_pop_all_shadows(k: int)
    requires
        0 <= k < 1,
    ensures
        dec_specific(enc_specific(SpecificDisplayItem::PopAllShadows).take(k)) is None,
{
    reveal(enc_specific);
    reveal(dec_specific);
}

/// A command cut anywhere before its end does not decode.
pub proof fn lemma_specific_short(si: SpecificDisplayItem, k: int)
    requires
        0 <= k < specific_len(si),
    ensures
        dec_specific(enc_specific(si).take(k)) is None,
{
    match si {
        SpecificDisplayItem::Clip(p) => short_clip(p, k),
        SpecificDisplayItem::ScrollFrame(p) => short_scroll_frame(p, k),
        SpecificDisplayItem::StickyFrame(p) => short_sticky_frame(p, k),
        SpecificDisplayItem::Rectangle(p) => short_rectangle(p, k),
        SpecificDisplayItem::ClearRectangle => short_clear_rectangle(k),
        SpecificDisplayItem::Line(p) => short_line(p, k),
        SpecificDisplayItem::Text(p) => short_text(p, k),
        SpecificDisplayItem::Image(p) => short_image(p, k),
        SpecificDisplayItem::YuvImage(p) => short_yuv_image(p, k),
        SpecificDisplayItem::Border(p) => short_border(p, k),
        SpecificDisplayItem::BoxShadow(p) => short_box_shadow(p, k),
        SpecificDisplayItem::Gradient(p) => short_gradient(p, k),
        SpecificDisplayItem::RadialGradient(p) => short_radial_gradient(p, k),
        SpecificDisplayItem::Iframe(p) => short_iframe(p, k),
        SpecificDisplayItem::PushStackingContext(p) => short_push_stacking_context(p, k),
        SpecificDisplayItem::PopStackingContext => short_pop_stacking_context(k),
        SpecificDisplayItem::SetGradientStops => short_set_gradient_stops(k),
        SpecificDisplayItem::PushShadow(p) => short_push_shadow(p, k),
        SpecificDisplayItem::PopAllShadows => short_pop_all_shadows(k),
    }
}

/// A decoded command consumed at least its tag and at most the buffer.
#[verifier::rlimit(100)]
#[verifier::spinoff_prover]
pub proof fn lemma_dec_specific_bounds(b: Seq<u8>)
    ensures
        dec_specific(b) matches Some((si, n)) ==> 1 <= n <= b.len() && n == specific_len(
            si,
        ),
{
    reveal(dec_specific);
    if b.len() >= 1 {
        if b[0] == 0 {
            ClipDisplayItem::dec_short(b.skip(1));
        } else if b[0] == 1 {
            ScrollFrameDisplayItem::dec_short(b.skip(1));
        } else if b[0] == 2 {
            StickyFrameDisplayItem::dec_short(b.skip(1));
        } else if b[0] == 3 {
            RectangleDisplayItem::dec_short(b.skip(1));
        } else if b[0] == 5 {
            LineDisplayItem::dec_short(b.skip(1));
        } else if b[0] == 6 {
            TextDisplayItem::dec_short(b.skip(1));
        } else if b[0] == 7 {
            ImageDisplayItem::dec_short(b.skip(1));
        } else if b[0] == 8 {
            YuvImageDisplayItem::dec_short(b.skip(1));
        } else if b[0] == 9 {
            BorderDisplayItem::dec_short(b.skip(1));
        } else if b[0] == 10 {
            BoxShadowDisplayItem::dec_short(b.skip(1));
        } else if b[0] == 11 {
            GradientDisplayItem::dec_short(b.skip(1));
        } else if b[0] == 12 {
            RadialGradientDisplayItem::dec_short(b.skip(1));
        } else if b[0] == 13 {
            IframeDisplayItem::dec_short(b.skip(1));
        } else if b[0] == 14 {
            PushStackingContextDisplayItem::dec_short(b.skip(1));
        } else if b[0] == 17 {
            Shadow::dec_short(b.skip(1));
        }
    }
}

/// Appends the encoding of a command to `out`.
#[verifier::rlimit(100)]
#[verifier::spinoff_prover]
pub(crate) fn put_specific(si: &SpecificDisplayItem, out: &mut Vec<u8>)
    ensures
        final(out)@ == old(out)@ + enc_specific(*si),
{
    proof {
        reveal(enc_specific);
    }
    match si {
        SpecificDisplayItem::Clip(p) => {
            out.push(0);
            p.put(out);
        },
        SpecificDisplayItem::ScrollFrame(p) => {
            out.push(1);
            p.put(out);
        },
        SpecificDisplayItem::StickyFrame(p) => {
            out.push(2);
            p.put(out);
        },
        SpecificDisplayItem::Rectangle(p) => {
            out.push(3);
            p.put(out);
        },
        SpecificDisplayItem::ClearRectangle => {
            out.push(4);
        },
        SpecificDisplayItem::Line(p) => {
            out.push(5);
            p.put(out);
        },
        SpecificDisplayItem::Text(p) => {
            out.push(6);
            p.put(out);
        },
        SpecificDisplayItem::Image(p) => {
            out.push(7);
            p.put(out);
        },
        SpecificDisplayItem::YuvImage(p) => {
            out.push(8);
            p.put(out);
        },
        SpecificDisplayItem::Border(p) => {
            out.push(9);
            p.put(out);
        },
        SpecificDisplayItem::BoxShadow(p) => {
            out.push(10);
            p.put(out);
        },
        SpecificDisplayItem::Gradient(p) => {
            out.push(11);
            p.put(out);
        },
        SpecificDisplayItem::RadialGradient(p) => {
            out.push(12);
            p.put(out);
        },
        SpecificDisplayItem::Iframe(p) => {
            out.push(13);
            p.put(out);
        },
        SpecificDisplayItem::PushStackingContext(p) => {
            out.push(14);
            p.put(out);
        },
        SpecificDisplayItem::PopStackingContext => {
            out.push(15);
        },
        SpecificDisplayItem::SetGradientStops => {
            out.push(16);
        },
        SpecificDisplayItem::PushShadow(p) => {
            out.push(17);
            p.put(out);
        },
        SpecificDisplayItem::PopAllShadows => {
            out.push(18);
        },
    }
    proof {
        assert(out@ =~= old(out)@ + enc_specific(*si));
    }
}

/// Decodes a command from `buf` at `pos`, mirroring `dec_specific`.
#[verifier::rlimit(100)]
#[verifier::spinoff_prover]
pub(crate) fn read_specific(buf: &Vec<u8>, pos: usize) -> (r: Option<
    (SpecificDisplayItem, usize),
>)
    requires
        pos <= buf@.len(),
    ensures
        match dec_specific(buf@.skip(pos as int)) {
            None => r is None,
            Some((si, n)) => r == Some((si, (pos + n) as usize)),
        },
{
    proof {
        reveal(dec_specific);
    }
    let buf_len = buf.len();
    let ghost b = buf@.skip(pos as int);
    if buf.len() - pos < 1 {
        None
    } else {
        proof {
            assert(b.skip(1) =~= buf@.skip(pos as int + 1));
        }
        let t = buf[pos];
        if t == 0 {
            match ClipDisplayItem::read_at(buf, pos + 1) {
                None => None,
                Some(p) => {
                    proof {
                        ClipDisplayItem::dec_short(b.skip(1));
                    }
                    Some((SpecificDisplayItem::Clip(p), pos + 63))
                },
            }
        } else if t == 1 {
            match ScrollFrameDisplayItem::read_at(buf, pos + 1) {
                None => None,
                Some(p) => {
                    proof {
                        ScrollFrameDisplayItem::dec_short(b.skip(1));
                    }
                    Some((SpecificDisplayItem::ScrollFrame(p), pos + 64))
                },
            }
        } else if t == 2 {
            match StickyFrameDisplayItem::read_at(buf, pos + 1) {
                None => None,
                Some(p) => {
                    proof {
                        StickyFrameDisplayItem::dec_short(b.skip(1));
                    }
                    Some((SpecificDisplayItem::StickyFrame(p), pos + 111))
                },
            }
        } else if t == 3 {
            match RectangleDisplayItem::read_at(buf, pos + 1) {
                None => None,
                Some(p) => {
                    proof {
                        RectangleDisplayItem::dec_short(b.skip(1));
                    }
                    Some((SpecificDisplayItem::Rectangle(p), pos + 5))
                },
            }
        } else if t == 4 {
            Some((SpecificDisplayItem::ClearRectangle, pos + 1))
        } else if t == 5 {
            match LineDisplayItem::read_at(buf, pos + 1) {
                None => None,
                Some(p) => {
                    proof {
                        LineDisplayItem::dec_short(b.skip(1));
                    }
                    Some((SpecificDisplayItem::Line(p), pos + 16))
                },
            }
        } else if t == 6 {
            match TextDisplayItem::read_at(buf, pos + 1) {
                None => None,
                Some(p) => {
                    proof {
                        TextDisplayItem::dec_short(b.skip(1));
                    }
                    Some((SpecificDisplayItem::Text(p), pos + 18))
                },
            }
        } else if t == 7 {
            match ImageDisplayItem::read_at(buf, pos + 1) {
                None => None,
                Some(p) => {
                    proof {
                        ImageDisplayItem::dec_short(b.skip(1));
                    }
                    Some((SpecificDisplayItem::Image(p), pos + 46))
                },
            }
        } else if t == 8 {
            match YuvImageDisplayItem::read_at(buf, pos + 1) {
                None => None,
                Some(p) => {
                    proof {
                        YuvImageDisplayItem::dec_short(b.skip(1));
                    }
                    Some((SpecificDisplayItem::YuvImage(p), pos + 28))
                },
            }
        } else if t == 9 {
            match BorderDisplayItem::read_at(buf, pos + 1) {
                None => None,
                Some(p) => {
                    proof {
                        BorderDisplayItem::dec_short(b.skip(1));
                    }
                    Some((SpecificDisplayItem::Border(p), pos + 60))
                },
            }
        } else if t == 10 {
            match BoxShadowDisplayItem::read_at(buf, pos + 1) {
                None => None,
                Some(p) => {
                    proof {
                        BoxShadowDisplayItem::dec_short(b.skip(1));
                    }
                    Some((SpecificDisplayItem::BoxShadow(p), pos + 87))
                },
            }
        } else if t == 11 {
            match GradientDisplayItem::read_at(buf, pos + 1) {
                None => None,
                Some(p) => {
                    proof {
                        GradientDisplayItem::dec_short(b.skip(1));
                    }
                    Some((SpecificDisplayItem::Gradient(p), pos + 74))
                },
            }
        } else if t == 12 {
            match RadialGradientDisplayItem::read_at(buf, pos + 1) {
                None => None,
                Some(p) => {
                    proof {
                        RadialGradientDisplayItem::dec_short(b.skip(1));
                    }
                    Some((SpecificDisplayItem::RadialGradient(p), pos + 101))
                },
            }
        } else if t == 13 {
            match IframeDisplayItem::read_at(buf, pos + 1) {
                None => None,
                Some(p) => {
                    proof {
                        IframeDisplayItem::dec_short(b.skip(1));
                    }
                    Some((SpecificDisplayItem::Iframe(p), pos + 9))
                },
            }
        } else if t == 14 {
            match PushStackingContextDisplayItem::read_at(buf, pos + 1) {
                None => None,
                Some(p) => {
                    proof {
                        PushStackingContextDisplayItem::dec_short(b.skip(1));
                    }
                    Some((SpecificDisplayItem::PushStackingContext(p), pos + 4))
                },
            }
        } else if t == 15 {
            Some((SpecificDisplayItem::PopStackingContext, pos + 1))
        } else if t == 16 {
            Some((SpecificDisplayItem::SetGradientStops, pos + 1))
        } else if t == 17 {
            match Shadow::read_at(buf, pos + 1) {
                None => None,
                Some(p) => {
                    proof {
                        Shadow::dec_short(b.skip(1));
                    }
                    Some((SpecificDisplayItem::PushShadow(p), pos + 32))
                },
            }
        } else if t == 18 {
            Some((SpecificDisplayItem::PopAllShadows, pos + 1))
        } else {
            None
        }
    }
}

/// A full display item: the command, the scope under which it was pushed,
/// and its placement metadata.
#[derive(Clone, Copy, Debug, PartialEq, Eq, Structural)]
pub struct DisplayItem {
    pub item: SpecificDisplayItem,
    pub clip_and_scroll: ClipAndScrollInfo,
    pub info: LayoutPrimitiveInfo,
}

/// The encoding of a full item: command, scope reference, placement metadata.
pub open spec fn enc_item(d: DisplayItem) -> Seq<u8> {
    enc_specific(d.item) + d.clip_and_scroll.enc() + d.info.enc()
}

/// The encoded length of a full item.
pub open spec fn item_len(d: DisplayItem) -> nat {
    specific_len(d.item) + 106
}

/// Decodes a full item from the front of `b`, returning it and the number of
/// bytes consumed.
pub open spec fn dec_item(b: Seq<u8>) -> Option<(DisplayItem, nat)> {
    match dec_specific(b) {
        None => None,
        Some((item, n)) => match (
            ClipAndScrollInfo::dec(b.skip(n as int)),
            LayoutPrimitiveInfo::dec(b.skip(n as int + 33)),
        ) {
            (Some(clip_and_scroll), Some(info)) => Some(
                (DisplayItem { item, clip_and_scroll, info }, (n + 106) as nat),
            ),
            _ => None,
        },
    }
}

/// Decoding a full item inverts encoding it, under any suffix.
#[verifier::rlimit(100)]
#[verifier::spinoff_prover]
pub proof fn lemma_item_codec(d: DisplayItem, rest: Seq<u8>)
    ensures
        enc_item(d).len() == item_len(d),
        dec_item(enc_item(d) + rest) == Some((d, item_len(d))),
{
    let n = specific_len(d.item);
    let t2 = d.info.enc() + rest;
    let t1 = d.clip_and_scroll.enc() + t2;
    lemma_specific_codec(d.item, t1);
    d.clip_and_scroll.codec(t2);
    d.info.codec(rest);
    let b = enc_item(d) + rest;
    assert(b =~= enc_specific(d.item) + t1);
    assert(b.skip(n as int) =~= t1);
    assert(b.skip(n as int + 33) =~= t2);
}

/// A full item cut anywhere before its end does not decode.
#[verifier::rlimit(100)]
#[verifier::spinoff_prover]
pub proof fn lemma_item_short(d: DisplayItem, k: int)
    requires
        0 <= k < item_len(d),
    ensures
        dec_item(enc_item(d).take(k)) is None,
{
    let n = specific_len(d.item);
    let e = enc_item(d);
    lemma_item_codec(d, Seq::empty());
    lemma_specific_codec(d.item, d.clip_and_scroll.enc() + d.info.enc());
    d.clip_and_scroll.codec(d.info.enc());
    d.info.codec(Seq::empty());
    let t = e.take(k);
    if k < n {
        assert(t =~= enc_specific(d.item).take(k));
        lemma_specific_short(d.item, k);
    } else {
        let tail = (d.clip_and_scroll.enc() + d.info.enc()).take(k - n as int);
        assert(t =~= enc_specific(d.item) + tail);
        lemma_specific_codec(d.item, tail);
        assert(t.skip(n as int) =~= tail);
        if k < n + 33 {
            ClipAndScrollInfo::dec_short(tail);
        } else {
            let tail2 = d.info.enc().take(k - n as int - 33);
            assert(tail =~= d.clip_and_scroll.enc() + tail2);
            d.clip_and_scroll.codec(tail2);
            assert(t.skip(n as int + 33) =~= tail2);
            LayoutPrimitiveInfo::dec_short(tail2);
        }
    }
}

/// A decoded full item consumed at least 107 bytes and at most the buffer.
pub proof fn lemma_dec_item_bounds(b: Seq<u8>)
    ensures
        dec_item(b) matches Some((d, n)) ==> 107 <= n <= b.len() && n == item_len(d),
{
    lemma_dec_specific_bounds(b);
    match dec_specific(b) {
        Some((si, m)) => {
            ClipAndScrollInfo::dec_short(b.skip(m as int));
            LayoutPrimitiveInfo::dec_short(b.skip(m as int + 33));
        },
        None => {},
    }
}

/// Appends the encoding of a full item to `out`.
pub(crate) fn put_item(d: &DisplayItem, out: &mut Vec<u8>)
    ensures
        final(out)@ == old(out)@ + enc_item(*d),
{
    put_specific(&d.item, out);
    d.clip_and_scroll.put(out);
    d.info.put(out);
    proof {
        assert(out@ =~= old(out)@ + enc_item(*d));
    }
}

/// Decodes a full item from `buf` at `pos`, mirroring `dec_item`.
#[verifier::rlimit(100)]
#[verifier::spinoff_prover]
pub(crate) fn read_item(buf: &Vec<u8>, pos: usize) -> (r: Option<(DisplayItem, usize)>)
    requires
        pos <= buf@.len(),
    ensures
        match dec_item(buf@.skip(pos as int)) {
            None => r is None,
            Some((d, n)) => r == Some((d, (pos + n) as usize)),
        },
{
    let buf_len = buf.len();
    let ghost b = buf@.skip(pos as int);
    match read_specific(buf, pos) {
        None => None,
        Some((item, p1)) => {
            proof {
                lemma_dec_specific_bounds(b);
                assert(b.skip(p1 - pos) =~= buf@.skip(p1 as int));
            }
            match ClipAndScrollInfo::read_at(buf, p1) {
                None => None,
                Some(clip_and_scroll) => {
                    proof {
                        ClipAndScrollInfo::dec_short(buf@.skip(p1 as int));
                        assert(b.skip(p1 - pos + 33) =~= buf@.skip(p1 as int + 33));
                    }
                    match LayoutPrimitiveInfo::read_at(buf, p1 + 33) {
                        None => None,
                        Some(info) => Some((DisplayItem { item, clip_and_scroll, info }, p1 + 106)),
                    }
                },
            }
        },
    }
}

} // verus!
