use crate::font::FontCollection;
use crate::metrics::{advance_px, get_glyph_width};
use crate::style::FontStyle;
use vstd::prelude::*;

verus! {

/// The pixel box a rasterized glyph covers, as the rasterizer reports it:
/// `(x, y)` is the bottom-left corner relative to the glyph's origin on the
/// baseline, with `y` growing upwards.
#[derive(Copy, Clone, Debug, PartialEq, Eq, Structural)]
pub struct RasterRect {
    pub x: i32,
    pub y: i32,
    pub width: i32,
    pub height: i32,
}

/// What a font program reports for one character it has a glyph for: the
/// glyph's id, its advance in design units and its raster box at the set's size.
#[derive(Copy, Clone, Debug, PartialEq, Eq, Structural)]
pub struct GlyphInfo {
    pub id: u32,
    pub advance: u32,
    pub raster: RasterRect,
}

/// A glyph placed on the output: `(x, y)` is the top-left corner of its
/// raster box in top-down pixel coordinates; `set` is the index of the font
/// set in the chain that supplied it.
#[derive(Copy, Clone, Debug, PartialEq, Eq, Structural)]
pub struct PositionedGlyph {
    pub id: u32,
    pub set: usize,
    pub size: u32,
    pub x: i32,
    pub y: i32,
    pub raster: RasterRect,
}

/// The index of the first candidate at or after `i` that is present.
pub open spec fn first_hit_from(row: Seq<Option<GlyphInfo>>, i: int) -> Option<int>
    decreases row.len() - i,
{
    if i < 0 || i >= row.len() {
        None
    } else if row[i] is Some {
        Some(i)
    } else {
        first_hit_from(row, i + 1)
    }
}

/// The index of the first set, in chain order, whose face has a glyph.
pub open spec fn first_hit(row: Seq<Option<GlyphInfo>>) -> Option<int> {
    first_hit_from(row, 0)
}

/// One list of candidates per character: entry `i` of a list is what set `i`
/// of the chain has for that character, in the style being laid out.
pub open spec fn candidates_fit<F>(c: &FontCollection<F>, probes: Seq<Vec<Option<GlyphInfo>>>) -> bool {
    forall|k: int| 0 <= k < probes.len() ==> #[trigger] probes[k]@.len() == c.0@.len()
}

impl<F> FontCollection<F> {
    /// The glyphs placed for the first `n` characters, and the cursor after
    /// them, whether or not they stay within the range of the output.
    pub open spec fn layout_upto(
        &self,
        probes: Seq<Vec<Option<GlyphInfo>>>,
        style: FontStyle,
        n: int,
    ) -> (Seq<PositionedGlyph>, int)
        decreases n,
    {
        if n <= 0 {
            (Seq::empty(), 0)
        } else {
            let prev = self.layout_upto(probes, style, n - 1);
            match first_hit(probes[n - 1]@) {
                None => prev,
                Some(i) => {
                    let g = probes[n - 1]@[i].unwrap();
                    let set = self.0@[i];
                    (
                        prev.0.push(
                            PositionedGlyph {
                                id: g.id,
                                set: i as usize,
                                size: set.size,
                                x: (prev.1 + g.raster.x) as i32,
                                y: (self.height() - g.raster.height - g.raster.y) as i32,
                                raster: g.raster,
                            },
                        ),
                        prev.1 + advance_px(set.resolved(style).metrics, g.advance, set.size),
                    )
                },
            }
        }
    }

    /// The `k`-th character places its glyph within the range of the
    /// output's coordinates and its width.
    pub open spec fn step_fits(
        &self,
        probes: Seq<Vec<Option<GlyphInfo>>>,
        style: FontStyle,
        k: int,
    ) -> bool {
        match first_hit(probes[k]@) {
            None => true,
            Some(i) => {
                let g = probes[k]@[i].unwrap();
                let set = self.0@[i];
                let w = self.layout_upto(probes, style, k).1;
                let x = w + g.raster.x;
                let y = self.height() - g.raster.height - g.raster.y;
                &&& i32::MIN <= x <= i32::MAX
                &&& i32::MIN <= y <= i32::MAX
                &&& w + advance_px(set.resolved(style).metrics, g.advance, set.size) <= u32::MAX
            },
        }
    }

    /// Every one of the first `n` characters fits.
    pub open spec fn fits_upto(
        &self,
        probes: Seq<Vec<Option<GlyphInfo>>>,
        style: FontStyle,
        n: int,
    ) -> bool
        decreases n,
    {
        n <= 0 || (self.fits_upto(probes, style, n - 1) && self.step_fits(probes, style, n - 1))
    }

    /// The set that supplies a glyph: the first, in chain order, whose face
    /// has one.
    pub fn glyph_for_char(candidates: &Vec<Option<GlyphInfo>>) -> (r: Option<usize>)
        ensures
            r matches Some(i) ==> first_hit(candidates@) == Some(i as int) && i < candidates@.len()
                && candidates@[i as int] is Some,
            r is None ==> first_hit(candidates@) is None,
    {
        proof {
            lemma_first_hit(candidates@, 0);
        }
        let mut i: usize = 0;
        while i < candidates.len()
            invariant
                i <= candidates@.len(),
                first_hit(candidates@) == first_hit_from(candidates@, i as int),
            decreases candidates@.len() - i,
        {
            if candidates[i].is_some() {
                return Some(i);
            }
            i = i + 1;
        }
        None
    }
}

impl<F> FontCollection<F> {
    /// Lays out a text of `probes@.len()` characters in `style`: each
    /// character takes the glyph of the first set that has one and moves the
    /// cursor by that glyph's advance, scaled to the set's size and rounded
    /// up; a character no set has is left out and moves nothing. Glyph boxes
    /// hang from the chain's line height. Returns the placed glyphs and the
    /// total advance, or `None` where a position or the total leaves the
    /// range of the output's coordinates.
    pub fn layout(&self, probes: &Vec<Vec<Option<GlyphInfo>>>, style: FontStyle) -> (r: Option<
        (Vec<PositionedGlyph>, u32),
    >)
        requires
            self.wf(),
            candidates_fit(self, probes@),
        ensures
            r is Some <==> self.fits_upto(probes@, style, probes@.len() as int),
            r matches Some((glyphs, width)) ==> {
                &&& glyphs@ == self.layout_upto(probes@, style, probes@.len() as int).0
                &&& width == self.layout_upto(probes@, style, probes@.len() as int).1
            },
    {
        let height = self.get_font_height();
        let mut glyphs: Vec<PositionedGlyph> = Vec::new();
        let mut delta: u32 = 0;
        let mut k: usize = 0;
        while k < probes.len()
            invariant
                self.wf(),
                candidates_fit(self, probes@),
                height == self.height(),
                k <= probes@.len(),
                self.fits_upto(probes@, style, k as int),
                glyphs@ == self.layout_upto(probes@, style, k as int).0,
                delta == self.layout_upto(probes@, style, k as int).1,
            decreases probes@.len() - k,
        {
            let row = &probes[k];
            match Self::glyph_for_char(row) {
                None => {},
                Some(i) => {
                    assert(probes@[k as int]@.len() == self.0@.len());
                    let g = row[i].unwrap();
                    let set = &self.0[i];
                    assert(set.wf());
                    let face = set.get_by_style(style);
                    assert(face.metrics.wf()) by {
                        match style {
                            FontStyle::REGULAR => {},
                            FontStyle::ITALIC => {},
                            FontStyle::BOLD => {},
                            FontStyle::BOLDITALIC => {},
                        }
                    }
                    let x: i64 = delta as i64 + g.raster.x as i64;
                    let y: i64 = height as i64 - g.raster.height as i64 - g.raster.y as i64;
                    let adv: u64 = get_glyph_width(&face.metrics, g.advance, set.size);
                    if x < i32::MIN as i64 || x > i32::MAX as i64 || y < i32::MIN as i64 || y
                        > i32::MAX as i64 || adv > (u32::MAX - delta) as u64 {
                        proof {
                            if self.fits_upto(probes@, style, probes@.len() as int) {
                                lemma_fits_prefix(
                                    self,
                                    probes@,
                                    style,
                                    probes@.len() as int,
                                    k + 1,
                                );
                            }
                        }
                        return None;
                    }
                    glyphs.push(
                        PositionedGlyph {
                            id: g.id,
                            set: i,
                            size: set.size,
                            x: x as i32,
                            y: y as i32,
                            raster: g.raster,
                        },
                    );
                    delta = delta + adv as u32;
                },
            }
            k = k + 1;
        }
        Some((glyphs, delta))
    }

    /// The width of a text set in the regular style: the total advance of
    /// its layout, or `None` where that layout does not fit.
    pub fn get_text_len(&self, probes: &Vec<Vec<Option<GlyphInfo>>>) -> (r: Option<u32>)
        requires
            self.wf(),
            candidates_fit(self, probes@),
        ensures
            r is Some <==> self.fits_upto(probes@, FontStyle::REGULAR, probes@.len() as int),
            r matches Some(w) ==> w == self.layout_upto(
                probes@,
                FontStyle::REGULAR,
                probes@.len() as int,
            ).1,
    {
        match self.layout(probes, FontStyle::REGULAR) {
            Some((_, width)) => Some(width),
            None => None,
        }
    }
}

/// The first hit is a present candidate, and none before it is.
pub proof fn lemma_first_hit(row: Seq<Option<GlyphInfo>>, j: int)
    requires
        0 <= j,
    ensures
        first_hit_from(row, j) matches Some(i) ==> {
            &&& j <= i < row.len()
            &&& row[i] is Some
            &&& forall|l: int| j <= l < i ==> #[trigger] row[l] is None
        },
        first_hit_from(row, j) is None ==> forall|l: int| j <= l < row.len() ==> #[trigger] row[l] is None,
    decreases row.len() - j,
{
    if j < row.len() && row[j] is None {
        lemma_first_hit(row, j + 1);
    }
}

/// A text of characters that no set of the chain has lays out as no glyphs
/// and a width of zero, and always fits.
pub proof fn lemma_unsupported_text_is_empty<F>(
    c: &FontCollection<F>,
    probes: Seq<Vec<Option<GlyphInfo>>>,
    style: FontStyle,
    n: int,
)
    requires
        0 <= n <= probes.len(),
        forall|k: int, i: int|
            0 <= k < probes.len() && 0 <= i < probes[k]@.len() ==> #[trigger] probes[k]@[i] is None,
    ensures
        c.layout_upto(probes, style, n).0.len() == 0,
        c.layout_upto(probes, style, n).1 == 0,
        c.fits_upto(probes, style, n),
    decreases n,
{
    if n > 0 {
        lemma_unsupported_text_is_empty(c, probes, style, n - 1);
        lemma_first_hit(probes[n - 1]@, 0);
        if first_hit(probes[n - 1]@) is Some {
            let i = first_hit(probes[n - 1]@).unwrap();
            assert(probes[n - 1]@[i] is None);
        }
    }
}

/// A glyph is placed and moves the cursor by its advance whatever its raster
/// box, an empty one (as whitespace has) included.
pub proof fn lemma_blank_glyph_advances<F>(
    c: &FontCollection<F>,
    probes: Seq<Vec<Option<GlyphInfo>>>,
    style: FontStyle,
    k: int,
    i: int,
)
    requires
        0 <= k < probes.len(),
        first_hit(probes[k]@) == Some(i),
    ensures
        ({
            let g = probes[k]@[i].unwrap();
            let set = c.0@[i];
            let before = c.layout_upto(probes, style, k);
            let after = c.layout_upto(probes, style, k + 1);
            &&& after.0.len() == before.0.len() + 1
            &&& after.0.last().raster == g.raster
            &&& after.1 == before.1 + advance_px(set.resolved(style).metrics, g.advance, set.size)
        }),
{
}

proof fn lemma_fits_prefix<F>(
    c: &FontCollection<F>,
    probes: Seq<Vec<Option<GlyphInfo>>>,
    style: FontStyle,
    m: int,
    k: int,
)
    requires
        0 <= k <= m,
        c.fits_upto(probes, style, m),
    ensures
        c.fits_upto(probes, style, k),
    decreases m - k,
{
    if k < m {
        lemma_fits_prefix(c, probes, style, m - 1, k);
    }
}

} // verus!
