use display_list::{
    BuiltDisplayList, BuiltDisplayListDescriptor, ColorU, DisplayListBuilder, ExtendMode,
    GlyphInstance, GradientStop, LayoutPoint, LayoutPrimitiveInfo, LayoutRect, LayoutSize,
    PipelineId, SpecificDisplayItem, MAX_TEXT_RUN_LENGTH,
};

fn pid() -> PipelineId {
    PipelineId(1, 2)
}

fn info() -> LayoutPrimitiveInfo {
    LayoutPrimitiveInfo::new(LayoutRect::new(
        LayoutPoint::new(1_000_000, 2_000_000),
        LayoutSize::new(3_000_000, 4_000_000),
    ))
}

#[test]
fn round_trip_rect() {
    let mut b = DisplayListBuilder::new(pid(), LayoutSize::new(10, 10));
    let c = ColorU::new(10, 20, 30, 255);
    b.push_rect(&info(), c);
    let (p, _, list) = b.finalize();
    assert_eq!(p, pid());
    let mut it = list.iter();
    let item = it.next().unwrap().unwrap();
    match item.item() {
        SpecificDisplayItem::Rectangle(r) => assert_eq!(r.color, c),
        _ => panic!("wrong item"),
    }
    assert_eq!(item.rect(), info().rect);
    assert!(it.next().unwrap().is_none());
}

#[test]
fn peek_idempotent() {
    let mut b = DisplayListBuilder::new(pid(), LayoutSize::new(10, 10));
    b.push_rect(&info(), ColorU::new(1, 2, 3, 4));
    b.push_clear_rect(&info());
    let (_, _, list) = b.finalize();
    let mut it = list.iter();
    let a1 = *it.peek().unwrap().unwrap().item();
    let a2 = *it.peek().unwrap().unwrap().item();
    let a3 = *it.peek().unwrap().unwrap().item();
    assert_eq!(a1, a2);
    assert_eq!(a2, a3);
    let n1 = *it.next().unwrap().unwrap().item();
    assert_eq!(n1, a1);
    let n2 = *it.next().unwrap().unwrap().item();
    assert!(matches!(n2, SpecificDisplayItem::ClearRectangle));
    assert!(it.next().unwrap().is_none());
}

#[test]
fn save_restore_identity() {
    let mut b = DisplayListBuilder::new(pid(), LayoutSize::new(10, 10));
    b.push_rect(&info(), ColorU::new(1, 2, 3, 4));
    let before = b.data.clone();
    b.save();
    b.push_clear_rect(&info());
    b.push_rect(&info(), ColorU::new(9, 9, 9, 9));
    b.restore();
    assert_eq!(b.data, before);
    let (_, _, list) = b.finalize();
    let mut it = list.iter();
    assert!(it.next().unwrap().is_some());
    assert!(it.next().unwrap().is_none());
}

#[test]
fn clear_save_keeps_work() {
    let mut b = DisplayListBuilder::new(pid(), LayoutSize::new(10, 10));
    b.save();
    b.push_rect(&info(), ColorU::new(1, 2, 3, 4));
    b.clear_save();
    let (_, _, list) = b.finalize();
    let mut it = list.iter();
    assert!(it.next().unwrap().is_some());
    assert!(it.next().unwrap().is_none());
}

#[test]
fn text_chunking() {
    let mut b = DisplayListBuilder::new(pid(), LayoutSize::new(10, 10));
    let n = MAX_TEXT_RUN_LENGTH * 2 + 5;
    let mut glyphs = Vec::new();
    for i in 0..n {
        glyphs.push(GlyphInstance { index: i as u32, point: LayoutPoint::new(i as i64, 0) });
    }
    b.push_text(
        &info(),
        &glyphs,
        display_list::FontInstanceKey { namespace_id: 1, key: 7 },
        ColorU::new(0, 0, 0, 255),
        None,
    );
    let (_, _, list) = b.finalize();
    let mut it = list.iter();
    let mut counts = Vec::new();
    let mut all = Vec::new();
    loop {
        let item = match it.next().unwrap() {
            Some(i) => i,
            None => break,
        };
        assert!(matches!(item.item(), SpecificDisplayItem::Text(_)));
        let mut aux = list.get::<GlyphInstance>(item.glyphs()).unwrap();
        let mut k = 0;
        while let Some(g) = aux.next().unwrap() {
            all.push(g);
            k += 1;
        }
        counts.push(k);
    }
    assert_eq!(counts, vec![2038, 2038, 5]);
    assert_eq!(all, glyphs);
}

#[test]
fn degenerate_gradient_clamp() {
    let mut b = DisplayListBuilder::new(pid(), LayoutSize::new(10, 10));
    let c1 = ColorU::new(255, 0, 0, 255);
    let c2 = ColorU::new(0, 0, 255, 255);
    let stops = vec![
        GradientStop { offset: 300_000, color: c1 },
        GradientStop { offset: 300_000, color: c2 },
    ];
    let g = b.create_gradient(
        LayoutPoint::new(0, 0),
        LayoutPoint::new(1_000_000, 0),
        stops,
        ExtendMode::Clamp,
    );
    b.push_gradient(&info(), g, LayoutSize::new(10, 10), LayoutSize::new(0, 0));
    let (_, _, list) = b.finalize();
    let mut it = list.iter();
    let item = it.next().unwrap().unwrap();
    let mut aux = list.get::<GradientStop>(item.gradient_stops()).unwrap();
    let mut got = Vec::new();
    while let Some(s) = aux.next().unwrap() {
        got.push(s);
    }
    assert_eq!(
        got,
        vec![
            GradientStop { offset: 0, color: c1 },
            GradientStop { offset: 500_000, color: c1 },
            GradientStop { offset: 500_000, color: c2 },
            GradientStop { offset: 1_000_000, color: c2 },
        ]
    );
}

#[test]
fn gradient_normalization_endpoints() {
    let mut b = DisplayListBuilder::new(pid(), LayoutSize::new(10, 10));
    let c1 = ColorU::new(255, 0, 0, 255);
    let c2 = ColorU::new(0, 0, 255, 255);
    // offsets -0.5 and 1.5 in fixed-point units
    let stops = vec![
        GradientStop { offset: -500_000, color: c1 },
        GradientStop { offset: 1_500_000, color: c2 },
    ];
    let g = b.create_gradient(
        LayoutPoint::new(0, 0),
        LayoutPoint::new(2_000_000, 0),
        stops,
        ExtendMode::Clamp,
    );
    // line re-anchored at the first and last stop positions
    assert_eq!(g.start_point, LayoutPoint::new(-1_000_000, 0));
    assert_eq!(g.end_point, LayoutPoint::new(3_000_000, 0));
}

#[test]
fn truncated_list_reports_malformed() {
    let mut b = DisplayListBuilder::new(pid(), LayoutSize::new(10, 10));
    b.push_rect(&info(), ColorU::new(1, 2, 3, 4));
    let (_, _, list) = b.finalize();
    let (mut data, desc) = list.into_data();
    data.pop();
    let list2 = BuiltDisplayList::from_data(data, desc);
    let mut it = list2.iter();
    assert!(it.next().is_err());
}

#[test]
fn empty_list_ends_immediately() {
    let b = DisplayListBuilder::new(pid(), LayoutSize::new(10, 10));
    let (_, _, list) = b.finalize();
    let mut it = list.iter();
    assert!(it.next().unwrap().is_none());
    assert!(it.peek().unwrap().is_none());
}

#[test]
fn descriptor_times() {
    let d = BuiltDisplayListDescriptor::default();
    let list = BuiltDisplayList::from_data(Vec::new(), d);
    assert_eq!(list.times(), (0, 0, 0));
    assert!(list.data().is_empty());
    assert!(list.item_slice().is_empty());
}

#[test]
fn item_range_is_empty() {
    let r = display_list::ItemRange::default();
    assert!(r.is_empty());
}

#[test]
fn define_clip_allocates_ids() {
    let mut b = DisplayListBuilder::new(pid(), LayoutSize::new(10, 10));
    let id1 = b.define_clip(
        None,
        LayoutRect::new(LayoutPoint::new(0, 0), LayoutSize::new(5, 5)),
        &Vec::new(),
        None,
    );
    let id2 = b.define_clip(
        None,
        LayoutRect::new(LayoutPoint::new(0, 0), LayoutSize::new(5, 5)),
        &Vec::new(),
        None,
    );
    assert_eq!(id1.id, 1);
    assert_eq!(id2.id, 2);
    b.push_clip_id(id1);
    b.push_rect(&info(), ColorU::new(5, 5, 5, 5));
    b.pop_clip_id();
    let (_, _, list) = b.finalize();
    let mut it = list.iter();
    let c1 = it.next().unwrap().unwrap();
    assert!(matches!(c1.item(), SpecificDisplayItem::Clip(_)));
    let c2 = it.next().unwrap().unwrap();
    assert!(matches!(c2.item(), SpecificDisplayItem::Clip(_)));
    let r = it.next().unwrap().unwrap();
    assert_eq!(r.clip_and_scroll().scroll_node_id, id1);
    assert!(it.next().unwrap().is_none());
}

#[test]
fn skip_stacking_context_subtree() {
    // stream: Push, Push, Pop, Pop, Rect — skipping right after the first
    // push must stop exactly after its matching pop, leaving Rect next
    let mut b = DisplayListBuilder::new(pid(), LayoutSize::new(10, 10));
    let filters: Vec<display_list::FilterOp> = Vec::new();
    b.push_stacking_context(
        &info(),
        display_list::ScrollPolicy::Scrollable,
        display_list::TransformStyle::Flat,
        display_list::MixBlendMode::Normal,
        filters,
    );
    let filters2: Vec<display_list::FilterOp> = Vec::new();
    b.push_stacking_context(
        &info(),
        display_list::ScrollPolicy::Scrollable,
        display_list::TransformStyle::Flat,
        display_list::MixBlendMode::Normal,
        filters2,
    );
    b.pop_stacking_context();
    b.pop_stacking_context();
    b.push_rect(&info(), ColorU::new(7, 7, 7, 7));
    let (_, _, list) = b.finalize();
    let mut it = list.iter();
    let first = it.next().unwrap().unwrap();
    assert!(matches!(first.item(), SpecificDisplayItem::PushStackingContext(_)));
    it.skip_current_stacking_context().unwrap();
    let after = it.next().unwrap().unwrap();
    assert!(matches!(after.item(), SpecificDisplayItem::Rectangle(_)));
    assert!(it.next().unwrap().is_none());
}

#[test]
fn starting_stacking_context_reads_push() {
    let mut b = DisplayListBuilder::new(pid(), LayoutSize::new(10, 10));
    let filters = vec![display_list::FilterOp::Invert(500_000)];
    b.push_stacking_context(
        &info(),
        display_list::ScrollPolicy::Fixed,
        display_list::TransformStyle::Preserve3D,
        display_list::MixBlendMode::Multiply,
        filters,
    );
    b.pop_stacking_context();
    let (_, _, list) = b.finalize();
    let mut it = list.iter();
    let (sc, rect, filter_range) = it.starting_stacking_context().unwrap().unwrap();
    assert!(matches!(sc.scroll_policy, display_list::ScrollPolicy::Fixed));
    assert!(matches!(sc.transform_style, display_list::TransformStyle::Preserve3D));
    assert!(matches!(sc.mix_blend_mode, display_list::MixBlendMode::Multiply));
    assert_eq!(rect, info().rect);
    let mut aux = list.get::<display_list::FilterOp>(filter_range).unwrap();
    assert_eq!(aux.next().unwrap(), Some(display_list::FilterOp::Invert(500_000)));
    assert_eq!(aux.next().unwrap(), None);
    // the next item is not a push: starting a context there yields nothing
    assert!(it.starting_stacking_context().unwrap().is_none());
    assert!(it.next().unwrap().is_none());
}

#[test]
fn current_stacking_context_empty_checks_lookahead() {
    let mut b = DisplayListBuilder::new(pid(), LayoutSize::new(10, 10));
    let filters: Vec<display_list::FilterOp> = Vec::new();
    b.push_stacking_context(
        &info(),
        display_list::ScrollPolicy::Scrollable,
        display_list::TransformStyle::Flat,
        display_list::MixBlendMode::Normal,
        filters,
    );
    b.pop_stacking_context();
    let (_, _, list) = b.finalize();
    let mut it = list.iter();
    // before any item the next one is the push, so the context is not empty
    assert!(!it.current_stacking_context_empty().unwrap());
    let _ = it.next().unwrap().unwrap();
    // right after the push, the lookahead sees the matching pop
    assert!(it.current_stacking_context_empty().unwrap());
    let _ = it.next().unwrap().unwrap();
    // at the end of the stream the context counts as empty
    assert!(it.current_stacking_context_empty().unwrap());
}

#[test]
fn radial_gradient_radii() {
    let mut b = DisplayListBuilder::new(pid(), LayoutSize::new(10, 10));
    let c1 = ColorU::new(255, 0, 0, 255);
    let c2 = ColorU::new(0, 255, 0, 255);
    let stops = vec![
        GradientStop { offset: 0, color: c1 },
        GradientStop { offset: 1_000_000, color: c2 },
    ];
    // radius 4.0 x 2.0 in fixed-point units
    let g = b.create_radial_gradient(
        LayoutPoint::new(5, 5),
        LayoutSize::new(4_000_000, 2_000_000),
        stops,
        ExtendMode::Clamp,
    );
    assert_eq!(g.start_center, LayoutPoint::new(5, 5));
    assert_eq!(g.end_center, LayoutPoint::new(5, 5));
    assert_eq!(g.start_radius, 0);
    assert_eq!(g.end_radius, 4_000_000);
    assert_eq!(g.ratio_xy, 2_000_000);
}

#[test]
fn radial_gradient_non_positive_radius() {
    let mut b = DisplayListBuilder::new(pid(), LayoutSize::new(10, 10));
    let c1 = ColorU::new(255, 0, 0, 255);
    let c2 = ColorU::new(0, 255, 0, 255);
    let stops = vec![
        GradientStop { offset: 0, color: c1 },
        GradientStop { offset: 1_000_000, color: c2 },
    ];
    let g = b.create_radial_gradient(
        LayoutPoint::new(5, 5),
        LayoutSize::new(0, 2_000_000),
        stops,
        ExtendMode::Clamp,
    );
    assert_eq!(g.start_radius, 0);
    assert_eq!(g.end_radius, 1_000_000);
    assert_eq!(g.ratio_xy, 1_000_000);
    b.push_radial_gradient(&info(), g, LayoutSize::new(10, 10), LayoutSize::new(0, 0));
    let (_, _, list) = b.finalize();
    let mut it = list.iter();
    let item = it.next().unwrap().unwrap();
    let mut aux = list.get::<GradientStop>(item.gradient_stops()).unwrap();
    assert_eq!(aux.next().unwrap(), Some(GradientStop { offset: 0, color: c2 }));
    assert_eq!(aux.next().unwrap(), Some(GradientStop { offset: 1_000_000, color: c2 }));
    assert_eq!(aux.next().unwrap(), None);
}

#[test]
fn finalize_descriptor_transfer_unset() {
    let b = DisplayListBuilder::new(pid(), LayoutSize::new(10, 10));
    let (_, _, list) = b.finalize();
    let (_, _, send) = list.times();
    assert_eq!(send, 0);
}
