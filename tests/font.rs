use silicon::{
    classify, draw_glyphs, get_glyph_width, CoverageMask, Face, FontCollection, FontStyle,
    GlyphInfo, ImageFont, Metrics, Plot, PositionedGlyph, RasterRect, Slant, WeightClass,
    SIZE_SCALE,
};

fn metrics(ascent: i32, descent: i32, units_per_em: u32) -> Metrics {
    Metrics { ascent, descent, units_per_em }
}

fn face(name: &'static str, m: Metrics) -> Face<&'static str> {
    Face { font: name, metrics: m }
}

/// A set with only a regular face.
fn regular_set(name: &'static str, m: Metrics, points: u32) -> ImageFont<&'static str> {
    let mut set = ImageFont::new(points * SIZE_SCALE);
    set.add_face(Slant::Normal, WeightClass::Normal, face(name, m));
    set
}

fn rect(x: i32, y: i32, width: i32, height: i32) -> RasterRect {
    RasterRect { x, y, width, height }
}

fn info(id: u32, advance: u32, raster: RasterRect) -> Option<GlyphInfo> {
    Some(GlyphInfo { id, advance, raster })
}

#[test]
fn style_from_flags() {
    assert_eq!(FontStyle::from_flags(false, false), FontStyle::REGULAR);
    assert_eq!(FontStyle::from_flags(false, true), FontStyle::ITALIC);
    assert_eq!(FontStyle::from_flags(true, false), FontStyle::BOLD);
    assert_eq!(FontStyle::from_flags(true, true), FontStyle::BOLDITALIC);
}

#[test]
fn faces_are_classified_by_slant_and_weight() {
    assert_eq!(classify(Slant::Normal, WeightClass::Normal), Some(FontStyle::REGULAR));
    assert_eq!(classify(Slant::Normal, WeightClass::Bold), Some(FontStyle::BOLD));
    assert_eq!(classify(Slant::Italic, WeightClass::Normal), Some(FontStyle::ITALIC));
    assert_eq!(classify(Slant::Italic, WeightClass::Bold), Some(FontStyle::BOLDITALIC));
    assert_eq!(classify(Slant::Oblique, WeightClass::Normal), None);
    assert_eq!(classify(Slant::Normal, WeightClass::Other), None);
}

#[test]
fn missing_style_falls_back_to_regular() {
    let m = metrics(800, -200, 1000);
    let mut set = regular_set("regular", m, 20);
    set.add_face(Slant::Italic, WeightClass::Bold, face("bold italic", m));
    set.add_face(Slant::Oblique, WeightClass::Normal, face("oblique", m));
    assert!(set.is_usable());
    assert_eq!(set.get_by_style(FontStyle::REGULAR).font, "regular");
    assert_eq!(set.get_by_style(FontStyle::ITALIC).font, "regular");
    assert_eq!(set.get_by_style(FontStyle::BOLD).font, "regular");
    assert_eq!(set.get_by_style(FontStyle::BOLDITALIC).font, "bold italic");
    assert_eq!(set.get_regular().font, "regular");
}

#[test]
fn later_face_replaces_earlier_one() {
    let m = metrics(800, -200, 1000);
    let mut set = regular_set("first", m, 20);
    set.add_face(Slant::Normal, WeightClass::Normal, face("second", m));
    assert_eq!(set.get_regular().font, "second");
}

#[test]
fn set_without_regular_is_not_usable() {
    let m = metrics(800, -200, 1000);
    let mut set: ImageFont<&'static str> = ImageFont::new(20 * SIZE_SCALE);
    assert!(!set.is_usable());
    set.add_face(Slant::Italic, WeightClass::Normal, face("italic", m));
    assert!(!set.is_usable());
    set.add_face(Slant::Normal, WeightClass::Normal, face("regular", metrics(800, -200, 0)));
    assert!(!set.is_usable());
}

#[test]
fn monospaced_advance_is_rounded_up() {
    let m = metrics(800, -200, 1000);
    assert_eq!(get_glyph_width(&m, 600, 20 * SIZE_SCALE), 12);
    assert_eq!(get_glyph_width(&m, 601, 20 * SIZE_SCALE), 13);
    assert_eq!(get_glyph_width(&m, 0, 20 * SIZE_SCALE), 0);
    // 1233 units of 2048 at 26.5 points: 15.95... pixels.
    assert_eq!(get_glyph_width(&metrics(1901, -483, 2048), 1233, 26 * SIZE_SCALE + 32), 16);
}

#[test]
fn line_height_of_a_set() {
    assert_eq!(regular_set("a", metrics(800, -200, 1000), 20).get_font_height(), 20);
    // (1901 + 483) / 2048 * 26 = 30.27
    assert_eq!(regular_set("hack", metrics(1901, -483, 2048), 26).get_font_height(), 31);
    assert_eq!(metrics(-5, 5, 1000).height_at(20 * SIZE_SCALE), 0);
    assert_eq!(metrics(i32::MAX, i32::MIN, 1).height_at(u32::MAX), u32::MAX);
}

#[test]
fn descent_is_rounded_half_away_from_zero() {
    // -483 / 2048 * 26 = -6.13
    assert_eq!(metrics(1901, -483, 2048).descent_at(26 * SIZE_SCALE), -6);
    // -500 / 1000 * 21 = -10.5
    assert_eq!(metrics(800, -500, 1000).descent_at(21 * SIZE_SCALE), -11);
    assert_eq!(metrics(800, 500, 1000).descent_at(21 * SIZE_SCALE), 11);
    assert_eq!(metrics(800, 0, 1000).descent_at(21 * SIZE_SCALE), 0);
    assert_eq!(metrics(0, i32::MIN, 1).descent_at(u32::MAX), i32::MIN);
}

#[test]
fn chain_height_is_the_tallest_set() {
    let m = metrics(800, -200, 1000);
    let chain = FontCollection::new(vec![
        Some(regular_set("a", m, 10)),
        Some(regular_set("b", m, 15)),
        Some(regular_set("c", m, 12)),
    ]);
    assert_eq!(chain.get_font_height(), 15);
}

#[test]
fn failed_loads_are_left_out() {
    let m = metrics(800, -200, 1000);
    let chain = FontCollection::new(vec![None, Some(regular_set("b", m, 15)), None]);
    assert_eq!(chain.0.len(), 1);
    assert_eq!(chain.0[0].get_regular().font, "b");
}

#[test]
fn all_failed_loads_give_an_empty_chain() {
    let chain: FontCollection<&'static str> = FontCollection::new(vec![None, None, None]);
    assert_eq!(chain.0.len(), 0);
}

#[test]
fn first_set_with_a_glyph_wins() {
    let r = rect(0, 0, 5, 5);
    assert_eq!(FontCollection::<()>::glyph_for_char(&vec![None, info(1, 1, r), info(2, 2, r)]), Some(1));
    assert_eq!(FontCollection::<()>::glyph_for_char(&vec![info(3, 1, r), info(2, 2, r)]), Some(0));
    assert_eq!(FontCollection::<()>::glyph_for_char(&vec![None, None]), None);
    assert_eq!(FontCollection::<()>::glyph_for_char(&vec![]), None);
}

fn two_set_chain() -> FontCollection<&'static str> {
    let mut first = regular_set("first", metrics(800, -200, 1000), 20);
    first.add_face(Slant::Italic, WeightClass::Normal, face("first italic", metrics(800, -200, 500)));
    let second = regular_set("second", metrics(1600, -400, 2000), 24);
    FontCollection::new(vec![Some(first), Some(second)])
}

#[test]
fn layout_places_glyphs_on_a_shared_line() {
    let chain = two_set_chain();
    assert_eq!(chain.get_font_height(), 24);
    let probes = vec![
        vec![info(7, 600, rect(1, -2, 10, 14)), info(70, 100, rect(0, 0, 1, 1))],
        vec![None, None],
        vec![None, info(9, 1000, rect(-1, 0, 8, 20))],
        vec![info(3, 600, rect(0, 0, 0, 0)), None],
    ];
    let (glyphs, width) = chain.layout(&probes, FontStyle::REGULAR).unwrap();
    assert_eq!(glyphs.len(), 3);
    assert_eq!(
        glyphs[0],
        PositionedGlyph { id: 7, set: 0, size: 20 * SIZE_SCALE, x: 1, y: 12, raster: rect(1, -2, 10, 14) }
    );
    // 600 / 1000 * 20 = 12, then 1000 / 2000 * 24 = 12
    assert_eq!(
        glyphs[1],
        PositionedGlyph { id: 9, set: 1, size: 24 * SIZE_SCALE, x: 11, y: 4, raster: rect(-1, 0, 8, 20) }
    );
    assert_eq!(glyphs[2].x, 24);
    assert_eq!(glyphs[2].y, 24);
    assert_eq!(width, 36);
}

#[test]
fn style_picks_the_metrics_of_its_face() {
    let chain = two_set_chain();
    let probes = vec![vec![info(7, 600, rect(0, 0, 5, 5)), None]];
    // The italic face has 500 units per em: 600 / 500 * 20 = 24.
    assert_eq!(chain.layout(&probes, FontStyle::ITALIC).unwrap().1, 24);
    // The bold face is missing and falls back to regular.
    assert_eq!(chain.layout(&probes, FontStyle::BOLD).unwrap().1, 12);
}

#[test]
fn text_length_is_the_regular_layout_width() {
    let chain = two_set_chain();
    let probes = vec![
        vec![info(7, 600, rect(0, 0, 5, 5)), None],
        vec![None, info(9, 1000, rect(0, 0, 5, 5))],
        vec![info(8, 450, rect(0, 0, 5, 5)), None],
    ];
    let width = chain.layout(&probes, FontStyle::REGULAR).unwrap().1;
    assert_eq!(chain.get_text_len(&probes), Some(width));
    assert_eq!(width, 12 + 12 + 9);
    assert_ne!(chain.layout(&probes, FontStyle::ITALIC).unwrap().1, width);
}

#[test]
fn unsupported_characters_give_nothing() {
    let chain = two_set_chain();
    let probes = vec![vec![None, None], vec![None, None], vec![None, None]];
    let (glyphs, width) = chain.layout(&probes, FontStyle::BOLD).unwrap();
    assert!(glyphs.is_empty());
    assert_eq!(width, 0);
    assert_eq!(chain.get_text_len(&probes), Some(0));
}

#[test]
fn layout_that_leaves_the_coordinate_range_is_refused() {
    let chain = two_set_chain();
    let probes = vec![vec![info(1, u32::MAX, rect(0, 0, 1, 1)), None]; 60];
    assert_eq!(chain.layout(&probes, FontStyle::REGULAR), None);
    assert_eq!(chain.get_text_len(&probes), None);
    let far = vec![vec![info(1, 1, rect(i32::MAX, 0, 1, 1)), None], vec![info(1, 1, rect(i32::MAX, 0, 1, 1)), None]];
    assert_eq!(chain.layout(&far, FontStyle::REGULAR), None);
    let low = vec![vec![info(1, 1, rect(0, i32::MIN, 1, 1)), None]];
    assert_eq!(chain.layout(&low, FontStyle::REGULAR), None);
}

#[test]
fn whitespace_advances_but_is_not_rasterized() {
    let chain = two_set_chain();
    let probes = vec![
        vec![info(1, 600, rect(0, 0, 0, 0)), None],
        vec![info(2, 600, rect(0, 0, 4, 0)), None],
        vec![info(3, 600, rect(0, 0, 0, 4)), None],
    ];
    let (glyphs, width) = chain.layout(&probes, FontStyle::REGULAR).unwrap();
    assert_eq!(width, 36);
    assert_eq!(glyphs.len(), 3);
    for g in &glyphs {
        assert!(!g.needs_raster());
        let mask = CoverageMask { stride: g.raster.width as usize, pixels: vec![] };
        assert!(g.draw(&mask, 0, 0, 0).is_empty());
    }
}

fn glyph(x: i32, y: i32, width: i32, height: i32) -> PositionedGlyph {
    PositionedGlyph { id: 1, set: 0, size: 20 * SIZE_SCALE, x, y, raster: rect(0, 0, width, height) }
}

#[test]
fn raster_origin_undoes_the_box_offset() {
    let g = PositionedGlyph { id: 1, set: 0, size: 64, x: 0, y: 0, raster: rect(2, -3, 5, 7) };
    assert_eq!(g.raster_origin(), (-2, 4));
    assert!(g.needs_raster());
}

#[test]
fn draw_skips_uncovered_pixels() {
    let g = glyph(3, 4, 2, 2);
    // stride 3: the last byte of each row lies outside the box
    let mask = CoverageMask { stride: 3, pixels: vec![0, 128, 9, 255, 0, 9] };
    let plots = g.draw(&mask, -1, 10, 20);
    assert_eq!(
        plots,
        vec![
            Plot { x: 13, y: 24, coverage: 255 },
            Plot { x: 14, y: 23, coverage: 128 },
        ]
    );
    let blank = CoverageMask { stride: 2, pixels: vec![0; 4] };
    assert!(g.draw(&blank, 0, 0, 0).is_empty());
}

#[test]
fn draw_glyphs_concatenates_in_order() {
    let glyphs = vec![glyph(0, 0, 1, 1), glyph(5, 0, 0, 0), glyph(2, 1, 1, 2)];
    let masks = vec![
        CoverageMask { stride: 1, pixels: vec![7] },
        CoverageMask { stride: 0, pixels: vec![] },
        CoverageMask { stride: 1, pixels: vec![1, 2] },
    ];
    let plots = draw_glyphs(&glyphs, &masks, 2, 1, 1);
    assert_eq!(
        plots,
        vec![
            Plot { x: 1, y: 3, coverage: 7 },
            Plot { x: 3, y: 5, coverage: 2 },
            Plot { x: 3, y: 4, coverage: 1 },
        ]
    );
}

#[test]
fn baseline_offset_comes_from_the_first_set() {
    let chain = two_set_chain();
    // -200 / 1000 * 20 = -4, whatever the second set says
    assert_eq!(chain.baseline_offset(), -4);
}

#[test]
fn two_characters_are_drawn_with_soft_edges() {
    let m = metrics(1901, -483, 2048);
    let chain = FontCollection::new(vec![Some(regular_set("hack", m, 20))]);
    let boxes = [rect(1, 0, 9, 15), rect(2, 0, 4, 15)];
    let probes = vec![vec![info(43, 1233, boxes[0])], vec![info(76, 1233, boxes[1])]];
    let (glyphs, width) = chain.layout(&probes, FontStyle::REGULAR).unwrap();
    assert!(width > 0);
    assert_eq!(width, 13 + 13);
    let mut masks = Vec::new();
    for g in &glyphs {
        assert!(g.needs_raster());
        let (w, h) = (g.raster.width as usize, g.raster.height as usize);
        let mut pixels = vec![0u8; w * h];
        for row in 0..h {
            pixels[row * w] = 96;
            for col in 1..w - 1 {
                pixels[row * w + col] = 255;
            }
        }
        masks.push(CoverageMask { stride: w, pixels });
    }
    let offset = chain.baseline_offset();
    let plots = draw_glyphs(&glyphs, &masks, offset, 0, 0);
    assert!(plots.iter().any(|p| p.coverage > 0 && p.coverage < 255));
    assert!(plots.iter().all(|p| p.coverage > 0));
    for p in &plots {
        let inside = glyphs.iter().any(|g| {
            p.x >= g.x as i64
                && p.x < (g.x + g.raster.width) as i64
                && p.y >= (g.y + offset) as i64
                && p.y < (g.y + offset + g.raster.height) as i64
        });
        assert!(inside);
        assert!(p.x >= 0 && p.x < 100 && p.y >= 0 && p.y < 50);
    }
}

#[test]
fn empty_text_draws_nothing() {
    let chain = two_set_chain();
    let probes: Vec<Vec<Option<GlyphInfo>>> = vec![];
    let (glyphs, width) = chain.layout(&probes, FontStyle::REGULAR).unwrap();
    assert_eq!(width, 0);
    assert!(glyphs.is_empty());
    assert!(draw_glyphs(&glyphs, &vec![], chain.baseline_offset(), 0, 0).is_empty());
}
