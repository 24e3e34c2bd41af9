use vstd::arithmetic::div_mod::lemma_div_is_ordered_by_denominator;
use vstd::prelude::*;

verus! {

/// Point sizes are fixed point numbers with six fractional bits: a size of
/// `s` stands for `s / 64` points, so 20 points is written `20 * 64`.
pub const SIZE_SCALE: u32 = 64;

/// The vertical metrics of a font program, in font design units.
#[derive(Copy, Clone, Debug, PartialEq, Eq, Structural)]
pub struct Metrics {
    pub ascent: i32,
    pub descent: i32,
    pub units_per_em: u32,
}

impl Metrics {
    pub open spec fn wf(&self) -> bool {
        self.units_per_em > 0
    }

    /// The number of design units that make up one pixel-sized step of `SIZE_SCALE`.
    pub open spec fn scale(&self) -> int {
        self.units_per_em * SIZE_SCALE
    }
}

/// `a / d` rounded up, for a positive `d`.
pub open spec fn ceil_div(a: int, d: int) -> int {
    (a + d - 1) / d
}

/// `a / d` rounded to the nearest integer, halves away from zero, for a positive `d`.
pub open spec fn round_div(a: int, d: int) -> int {
    if a >= 0 {
        (2 * a + d) / (2 * d)
    } else {
        -((-2 * a + d) / (2 * d))
    }
}

/// `v` saturated into the range of `u32`.
pub open spec fn clamp_u32(v: int) -> int {
    if v < 0 {
        0
    } else if v > u32::MAX {
        u32::MAX as int
    } else {
        v
    }
}

/// `v` saturated into the range of `i32`.
pub open spec fn clamp_i32(v: int) -> int {
    if v < i32::MIN {
        i32::MIN as int
    } else if v > i32::MAX {
        i32::MAX as int
    } else {
        v
    }
}

/// The horizontal advance, in whole pixels rounded up, of a glyph whose
/// advance is `advance` design units, at point size `size`.
pub open spec fn advance_px(m: Metrics, advance: u32, size: u32) -> int {
    ceil_div(advance * size, m.scale())
}

/// The line height of a font at point size `size`: the distance from
/// descent to ascent, rounded up to a whole pixel.
pub open spec fn height_px(m: Metrics, size: u32) -> int {
    clamp_u32(ceil_div((m.ascent - m.descent) * size, m.scale()))
}

/// The descent of a font at point size `size`, rounded to the nearest pixel.
pub open spec fn descent_px(m: Metrics, size: u32) -> int {
    clamp_i32(round_div(m.descent * size, m.scale()))
}

proof fn lemma_div_bounds(a: int, d: int)
    requires
        d > 0,
    ensures
        a >= 0 ==> a / d >= 0,
        a >= 0 ==> a / d <= a,
        a < d ==> a / d <= 0,
{
    assert(a >= 0 ==> a / d >= 0) by (nonlinear_arith)
        requires
            d > 0,
    ;
    assert(a >= 0 ==> a / d <= a) by (nonlinear_arith)
        requires
            d > 0,
    ;
    assert(a < d ==> a / d <= 0) by (nonlinear_arith)
        requires
            d > 0,
    ;
}

/// The advance in pixels of a glyph of `advance` design units at point size
/// `size` under metrics `m`.
pub fn get_glyph_width(m: &Metrics, advance: u32, size: u32) -> (r: u64)
    requires
        m.wf(),
    ensures
        r == advance_px(*m, advance, size),
{
    let d: u64 = m.units_per_em as u64 * SIZE_SCALE as u64;
    assert(d == m.scale());
    assert(0 < d <= 0x40_0000_0000);
    assert(advance * size <= 0xffff_fffe_0000_0001) by (nonlinear_arith)
        requires
            0 <= advance <= u32::MAX,
            0 <= size <= u32::MAX,
    ;
    let n: u128 = advance as u128 * size as u128;
    let q: u128 = (n + (d as u128 - 1)) / d as u128;
    proof {
        lemma_div_bounds(n + d - 1, d as int);
        lemma_div_is_ordered_by_denominator(n + d - 1, 64, d as int);
    }
    q as u64
}

impl Metrics {
    /// The line height in pixels of this font at point size `size`.
    pub fn height_at(&self, size: u32) -> (r: u32)
        requires
            self.wf(),
        ensures
            r == height_px(*self, size),
    {
        let d: u128 = self.units_per_em as u128 * SIZE_SCALE as u128;
        assert(d == self.scale());
        assert(d > 0);
        let span: i64 = self.ascent as i64 - self.descent as i64;
        if span <= 0 {
            proof {
                let a: int = (self.ascent - self.descent) * size;
                assert(a <= 0) by (nonlinear_arith)
                    requires
                        a == (self.ascent - self.descent) * size,
                        self.ascent - self.descent <= 0,
                        size >= 0,
                ;
                lemma_div_bounds(a + d - 1, d as int);
            }
            0
        } else {
            assert(span * size <= 0x1_ffff_fffd_0000_0001) by (nonlinear_arith)
                requires
                    0 < span <= 0xffff_ffff,
                    0 <= size <= u32::MAX,
            ;
            let n: u128 = span as u128 * size as u128;
            let q: u128 = (n + (d - 1)) / d;
            proof {
                lemma_div_bounds(n + d - 1, d as int);
            }
            if q > u32::MAX as u128 {
                u32::MAX
            } else {
                q as u32
            }
        }
    }

    /// The descent in whole pixels of this font at point size `size`,
    /// rounded to the nearest pixel; it is where glyphs sit relative to the
    /// bottom of a line.
    pub fn descent_at(&self, size: u32) -> (r: i32)
        requires
            self.wf(),
        ensures
            r == descent_px(*self, size),
    {
        let d: u128 = self.units_per_em as u128 * SIZE_SCALE as u128;
        assert(d == self.scale());
        assert(d > 0);
        let mag: u128 = if self.descent >= 0 {
            self.descent as u128
        } else {
            (-(self.descent as i64)) as u128
        };
        assert(mag * size <= 0x8000_0000 * 0xffff_ffffu128) by (nonlinear_arith)
            requires
                0 <= mag <= 0x8000_0000,
                0 <= size <= u32::MAX,
        ;
        let n: u128 = mag * size as u128;
        let q: u128 = (2 * n + d) / (2 * d);
        proof {
            lemma_div_bounds(2 * n + d, 2 * d);
            if self.descent >= 0 {
                assert(n == self.descent * size);
            } else {
                assert(n == -(self.descent * size)) by (nonlinear_arith)
                    requires
                        n == mag * size,
                        mag == -self.descent,
                ;
            }
        }
        if self.descent >= 0 {
            if q > i32::MAX as u128 {
                i32::MAX
            } else {
                q as i32
            }
        } else {
            if q > 0x8000_0000u128 {
                i32::MIN
            } else {
                (-(q as i64)) as i32
            }
        }
    }
}

} // verus!
