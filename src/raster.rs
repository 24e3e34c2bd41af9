use crate::font::FontCollection;
use crate::layout::PositionedGlyph;
use crate::metrics::descent_px;
use vstd::prelude::*;

verus! {

/// A glyph's coverage, one byte per pixel from 0 (untouched) to 255 (fully
/// covered), row after row with `stride` bytes from one row to the next.
/// Its size is that of the glyph's raster box.
pub struct CoverageMask {
    pub stride: usize,
    pub pixels: Vec<u8>,
}

/// One destination pixel to blend the text color into, with the coverage
/// that weighs the color against what is there.
#[derive(Copy, Clone, Debug, PartialEq, Eq, Structural)]
pub struct Plot {
    pub x: i64,
    pub y: i64,
    pub coverage: u8,
}

/// The glyph has a raster box with a sensible size.
pub open spec fn glyph_wf(g: PositionedGlyph) -> bool {
    g.raster.width >= 0 && g.raster.height >= 0
}

/// The mask holds a full raster box of the glyph.
pub open spec fn mask_fits(g: PositionedGlyph, m: CoverageMask) -> bool {
    &&& glyph_wf(g)
    &&& m.stride >= g.raster.width
    &&& m.pixels@.len() >= m.stride * g.raster.height
}

/// The coverage of the pixel at `row`, `col` of the mask.
pub open spec fn coverage_at(m: CoverageMask, row: int, col: int) -> u8 {
    m.pixels@[row * m.stride + col]
}

/// The plots of the first `n` pixels of row `row` of a glyph's mask, drawn
/// with its top-left corner at `(ox, oy)` and moved down by `offset`: one
/// for each pixel of nonzero coverage, left to right.
pub open spec fn row_plots(
    g: PositionedGlyph,
    m: CoverageMask,
    offset: i32,
    ox: u32,
    oy: u32,
    row: int,
    n: int,
) -> Seq<Plot>
    decreases n,
{
    if n <= 0 {
        Seq::empty()
    } else {
        let prev = row_plots(g, m, offset, ox, oy, row, n - 1);
        let c = coverage_at(m, row, n - 1);
        if c == 0 {
            prev
        } else {
            prev.push(
                Plot { x: (ox + g.x + (n - 1)) as i64, y: (oy + g.y + row + offset) as i64, coverage: c },
            )
        }
    }
}

/// The plots of the bottom `k` rows of a glyph's mask, bottom row first.
pub open spec fn glyph_plots(
    g: PositionedGlyph,
    m: CoverageMask,
    offset: i32,
    ox: u32,
    oy: u32,
    k: int,
) -> Seq<Plot>
    decreases k,
{
    if k <= 0 {
        Seq::empty()
    } else {
        glyph_plots(g, m, offset, ox, oy, k - 1) + row_plots(
            g,
            m,
            offset,
            ox,
            oy,
            g.raster.height - k,
            g.raster.width as int,
        )
    }
}

/// All plots of a glyph's mask.
pub open spec fn all_plots(g: PositionedGlyph, m: CoverageMask, offset: i32, ox: u32, oy: u32) -> Seq<Plot> {
    glyph_plots(g, m, offset, ox, oy, g.raster.height as int)
}

/// The plot `p` stands for a pixel of the glyph's raster box whose
/// coverage is nonzero, and carries that coverage.
pub open spec fn plot_in_box(
    p: Plot,
    g: PositionedGlyph,
    m: CoverageMask,
    offset: i32,
    ox: u32,
    oy: u32,
) -> bool {
    let col = p.x - ox - g.x;
    let row = p.y - oy - g.y - offset;
    &&& 0 <= col < g.raster.width
    &&& 0 <= row < g.raster.height
    &&& p.coverage == coverage_at(m, row, col)
    &&& p.coverage > 0
}

proof fn lemma_cell_in_mask(g: PositionedGlyph, m: CoverageMask, row: int, col: int)
    requires
        mask_fits(g, m),
        0 <= row < g.raster.height,
        0 <= col < g.raster.width,
    ensures
        0 <= row * m.stride + col < m.stride * g.raster.height,
{
    let s = m.stride as int;
    let h = g.raster.height as int;
    assert(0 <= row * s + col < s * h) by (nonlinear_arith)
        requires
            0 <= row < h,
            0 <= col < s,
    ;
}

/// Each plot of a row stands for a covered pixel of that row.
proof fn lemma_row_plots_in_box(
    g: PositionedGlyph,
    m: CoverageMask,
    offset: i32,
    ox: u32,
    oy: u32,
    row: int,
    n: int,
)
    requires
        0 <= row < g.raster.height,
        n <= g.raster.width,
    ensures
        forall|j: int|
            0 <= j < row_plots(g, m, offset, ox, oy, row, n).len() ==> {
                let p = #[trigger] row_plots(g, m, offset, ox, oy, row, n)[j];
                &&& plot_in_box(p, g, m, offset, ox, oy)
                &&& p.y - oy - g.y - offset == row
            },
    decreases n,
{
    if n > 0 {
        lemma_row_plots_in_box(g, m, offset, ox, oy, row, n - 1);
        let prev = row_plots(g, m, offset, ox, oy, row, n - 1);
        let cur = row_plots(g, m, offset, ox, oy, row, n);
        assert forall|j: int| 0 <= j < cur.len() implies {
            let p = #[trigger] cur[j];
            &&& plot_in_box(p, g, m, offset, ox, oy)
            &&& p.y - oy - g.y - offset == row
        } by {
            if j < prev.len() {
                assert(cur[j] == prev[j]);
            }
        }
    }
}

/// Every plot of a glyph stands for a pixel of its raster box whose
/// coverage is nonzero: a pixel of zero coverage is never blended into,
/// and nothing outside the box is touched.
pub proof fn lemma_plots_in_box(
    g: PositionedGlyph,
    m: CoverageMask,
    offset: i32,
    ox: u32,
    oy: u32,
    k: int,
)
    requires
        glyph_wf(g),
        k <= g.raster.height,
    ensures
        forall|j: int|
            0 <= j < glyph_plots(g, m, offset, ox, oy, k).len() ==> plot_in_box(
                #[trigger] glyph_plots(g, m, offset, ox, oy, k)[j],
                g,
                m,
                offset,
                ox,
                oy,
            ),
    decreases k,
{
    if k > 0 {
        lemma_plots_in_box(g, m, offset, ox, oy, k - 1);
        let row = g.raster.height - k;
        lemma_row_plots_in_box(g, m, offset, ox, oy, row, g.raster.width as int);
        let prev = glyph_plots(g, m, offset, ox, oy, k - 1);
        let rp = row_plots(g, m, offset, ox, oy, row, g.raster.width as int);
        let cur = glyph_plots(g, m, offset, ox, oy, k);
        assert forall|j: int| 0 <= j < cur.len() implies plot_in_box(
            #[trigger] cur[j],
            g,
            m,
            offset,
            ox,
            oy,
        ) by {
            if j < prev.len() {
                assert(cur[j] == prev[j]);
            } else {
                assert(cur[j] == rp[j - prev.len()]);
            }
        }
    }
}

/// A glyph with an empty raster box, as whitespace has, plots nothing.
pub proof fn lemma_blank_glyph_plots_nothing(
    g: PositionedGlyph,
    m: CoverageMask,
    offset: i32,
    ox: u32,
    oy: u32,
)
    requires
        glyph_wf(g),
        g.raster.width == 0 || g.raster.height == 0,
    ensures
        all_plots(g, m, offset, ox, oy).len() == 0,
{
    lemma_plots_in_box(g, m, offset, ox, oy, g.raster.height as int);
    let ps = all_plots(g, m, offset, ox, oy);
    if ps.len() > 0 {
        assert(plot_in_box(ps[0], g, m, offset, ox, oy));
    }
}

impl PositionedGlyph {
    /// Whether the glyph has pixels to rasterize: a box of zero width or
    /// zero height (whitespace) has none.
    pub fn needs_raster(&self) -> (r: bool)
        ensures
            r == (self.raster.width > 0 && self.raster.height > 0),
    {
        self.raster.width > 0 && self.raster.height > 0
    }

    /// Where to put the glyph's origin when rasterizing it so that its box
    /// starts at the top-left pixel of the mask.
    pub fn raster_origin(&self) -> (r: (i64, i64))
        ensures
            r.0 == -self.raster.x,
            r.1 == self.raster.height + self.raster.y,
    {
        (-(self.raster.x as i64), self.raster.height as i64 + self.raster.y as i64)
    }

    /// The destination pixels to blend into for this glyph, drawn at
    /// `(ox, oy)` and moved down by `offset`: one plot for each pixel of the
    /// mask with nonzero coverage, rows from the bottom up, each row left
    /// to right.
    pub fn draw(&self, mask: &CoverageMask, offset: i32, ox: u32, oy: u32) -> (r: Vec<Plot>)
        requires
            mask_fits(*self, *mask),
        ensures
            r@ == all_plots(*self, *mask, offset, ox, oy),
    {
        let g = *self;
        let w = self.raster.width;
        let h = self.raster.height;
        let mut out: Vec<Plot> = Vec::new();
        let mut k: i32 = 0;
        while k < h
            invariant
                g == *self,
                mask_fits(g, *mask),
                w == g.raster.width,
                h == g.raster.height,
                0 <= k <= h,
                out@ == glyph_plots(g, *mask, offset, ox, oy, k as int),
            decreases h - k,
        {
            let row: i32 = h - 1 - k;
            let ghost done = out@;
            let mut col: i32 = 0;
            assert(out@ =~= done + row_plots(g, *mask, offset, ox, oy, row as int, 0));
            while col < w
                invariant
                    g == *self,
                    mask_fits(g, *mask),
                    w == g.raster.width,
                    h == g.raster.height,
                    0 <= k < h,
                    row == h - 1 - k,
                    0 <= col <= w,
                    out@ == done + row_plots(g, *mask, offset, ox, oy, row as int, col as int),
                decreases w - col,
            {
                let len = mask.pixels.len();
                proof {
                    lemma_cell_in_mask(g, *mask, row as int, col as int);
                    assert(row * mask.stride <= row * mask.stride + col);
                    assert(row * mask.stride + col < len);
                }
                let idx: usize = row as usize * mask.stride + col as usize;
                let c = mask.pixels[idx];
                if c != 0 {
                    out.push(
                        Plot {
                            x: ox as i64 + g.x as i64 + col as i64,
                            y: oy as i64 + g.y as i64 + row as i64 + offset as i64,
                            coverage: c,
                        },
                    );
                }
                proof {
                    let ghost rp = row_plots(g, *mask, offset, ox, oy, row as int, col + 1);
                    assert(out@ =~= done + rp);
                }
                col = col + 1;
            }
            k = k + 1;
        }
        out
    }
}

/// The plots of the first `n` glyphs of a text, glyph after glyph.
pub open spec fn text_plots(
    glyphs: Seq<PositionedGlyph>,
    masks: Seq<CoverageMask>,
    offset: i32,
    ox: u32,
    oy: u32,
    n: int,
) -> Seq<Plot>
    decreases n,
{
    if n <= 0 {
        Seq::empty()
    } else {
        text_plots(glyphs, masks, offset, ox, oy, n - 1) + all_plots(
            glyphs[n - 1],
            masks[n - 1],
            offset,
            ox,
            oy,
        )
    }
}

/// The destination pixels to blend into for a laid out text drawn at
/// `(ox, oy)`: the plots of each glyph with its mask (`masks[i]` is the
/// coverage of `glyphs[i]`), all moved down by the same `offset`.
pub fn draw_glyphs(
    glyphs: &Vec<PositionedGlyph>,
    masks: &Vec<CoverageMask>,
    offset: i32,
    ox: u32,
    oy: u32,
) -> (r: Vec<Plot>)
    requires
        masks@.len() == glyphs@.len(),
        forall|i: int| 0 <= i < glyphs@.len() ==> mask_fits(#[trigger] glyphs@[i], masks@[i]),
    ensures
        r@ == text_plots(glyphs@, masks@, offset, ox, oy, glyphs@.len() as int),
{
    let mut out: Vec<Plot> = Vec::new();
    let mut i: usize = 0;
    while i < glyphs.len()
        invariant
            masks@.len() == glyphs@.len(),
            forall|j: int| 0 <= j < glyphs@.len() ==> mask_fits(#[trigger] glyphs@[j], masks@[j]),
            i <= glyphs@.len(),
            out@ == text_plots(glyphs@, masks@, offset, ox, oy, i as int),
        decreases glyphs@.len() - i,
    {
        assert(mask_fits(glyphs@[i as int], masks@[i as int]));
        let mut ps = glyphs[i].draw(&masks[i], offset, ox, oy);
        out.append(&mut ps);
        i = i + 1;
    }
    out
}

impl<F> FontCollection<F> {
    /// How far every glyph of a text is moved down: the descent of the
    /// regular face of the chain's first set, at that set's size, rounded
    /// to a whole pixel. The same offset holds for glyphs of every set.
    pub fn baseline_offset(&self) -> (r: i32)
        requires
            self.wf(),
        ensures
            r == descent_px(self.0@[0].regular.unwrap().metrics, self.0@[0].size),
    {
        let first = &self.0[0];
        assert(first.wf());
        first.get_regular().metrics.descent_at(first.size)
    }
}

} // verus!
