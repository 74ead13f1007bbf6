//! A display-list container format: a builder appends drawing commands to a
//! flat byte buffer, and a lazy iterator walks the finished buffer one item at
//! a time, decoding auxiliary payloads (glyphs, gradient stops, filters,
//! complex clip regions) on demand.

use vstd::prelude::*;

mod builder;
mod clock;
mod color;
mod counted;
mod list;
mod item;
mod payload;
mod records;
mod stream;
mod wire;

pub use color::ColorU;
pub use builder::{
    BuilderSnap, DisplayListBuilder, SaveState, GRADIENT_EPSILON, MAX_TEXT_RUN_LENGTH,
};
pub use counted::{AuxIter, ItemRange};
pub use item::{DisplayItem, SpecificDisplayItem};
pub use list::{BuiltDisplayList, BuiltDisplayListDescriptor, BuiltDisplayListIter, DisplayItemRef};
pub use payload::{
    BorderDetails, BorderDisplayItem, BoxShadowDisplayItem, ClipDisplayItem, FilterOp, Gradient,
    GradientDisplayItem, IframeDisplayItem, ImageDisplayItem, LineDisplayItem,
    PushStackingContextDisplayItem, RadialGradient, RadialGradientDisplayItem,
    RectangleDisplayItem, ScrollFrameDisplayItem, Shadow, StackingContext,
    StickyFrameDisplayItem, TextDisplayItem, YuvData, YuvImageDisplayItem,
};
pub use records::{
    BorderStyle, BorderWidths, BoxShadowClipMode, ClipAndScrollInfo, ClipId, ComplexClipRegion,
    ExtendMode, FontInstanceKey, GlyphInstance, GlyphOptions, GradientStop, ImageKey, ImageMask,
    ImageRendering, LayoutPoint, LayoutPrimitiveInfo, LayoutRect, LayoutSize, LayoutVector2D,
    LineOrientation, LineStyle, MixBlendMode, PipelineId, ScrollPolicy, ScrollSensitivity,
    SideOffsets, StickyOffsetBounds, TransformStyle, YuvColorSpace, SCALE,
};
pub use wire::DecodeError;

verus! {

} // verus!
