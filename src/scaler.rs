//! Addressing glyphs in a font atlas: a texture tiled row-major into
//! `chars_per_row` columns and `n_rows` rows of equal cells.

use vstd::prelude::*;

verus! {

/// A rectangle of the atlas. The `u` bounds are numerators over the atlas's
/// `chars_per_row`, the `v` bounds numerators over its `n_rows`: the texture
/// coordinate `u0` is `u0 / chars_per_row`, and so on.
#[derive(Clone, Copy, Debug, PartialEq, Eq, Structural)]
pub struct AtlasRect {
    pub u0: u32,
    pub v0: u32,
    pub u1: u32,
    pub v1: u32,
}

/// The glyph that is actually sampled: a glyph past the end of the atlas is
/// clamped to its last cell, so that nothing outside the atlas is ever read.
pub open spec fn clamped_glyph(glyph: u16, chars_per_row: u16, n_rows: u16) -> int {
    let total = chars_per_row as int * n_rows as int;
    if (glyph as int) < total {
        glyph as int
    } else {
        total - 1
    }
}

/// The atlas cell of a glyph. Column and row both come from `chars_per_row`,
/// as the atlas is laid out row by row with `chars_per_row` glyphs in each.
pub open spec fn glyph_rect(glyph: u16, chars_per_row: u16, n_rows: u16) -> AtlasRect {
    let g = clamped_glyph(glyph, chars_per_row, n_rows);
    let col = g % (chars_per_row as int);
    let row = g / (chars_per_row as int);
    AtlasRect { u0: col as u32, v0: row as u32, u1: (col + 1) as u32, v1: (row + 1) as u32 }
}

/// Computes `glyph_rect`.
pub fn atlas_rect(glyph: u16, chars_per_row: u16, n_rows: u16) -> (r: AtlasRect)
    requires
        chars_per_row > 0,
        n_rows > 0,
    ensures
        r == glyph_rect(glyph, chars_per_row, n_rows),
{
    let cpr = chars_per_row as u32;
    assert(1 <= cpr * (n_rows as u32) <= 0xffff * 0xffff) by (nonlinear_arith)
        requires 1 <= cpr <= 0xffff, 1 <= n_rows <= 0xffff;
    let total: u32 = cpr * (n_rows as u32);
    let g: u32 = if (glyph as u32) < total {
        glyph as u32
    } else {
        total - 1
    };
    let col = g % cpr;
    let row = g / cpr;
    proof {
        vstd::arithmetic::div_mod::lemma_div_is_ordered_by_denominator(g as int, 1, cpr as int);
    }
    AtlasRect { u0: col, v0: row, u1: col + 1, v1: row + 1 }
}

/// Every glyph, in the atlas or past its end, maps to a non-empty rectangle
/// inside the unit square: `0 <= u0 < u1 <= chars_per_row` and
/// `0 <= v0 < v1 <= n_rows`. Glyph 0 maps to the first cell,
/// `(0, 0, 1/chars_per_row, 1/n_rows)`.
pub proof fn lemma_glyph_rect_in_atlas(glyph: u16, chars_per_row: u16, n_rows: u16)
    requires
        chars_per_row > 0,
        n_rows > 0,
    ensures
        glyph_rect(glyph, chars_per_row, n_rows).u0 < glyph_rect(glyph, chars_per_row, n_rows).u1,
        glyph_rect(glyph, chars_per_row, n_rows).u1 <= chars_per_row,
        glyph_rect(glyph, chars_per_row, n_rows).v0 < glyph_rect(glyph, chars_per_row, n_rows).v1,
        glyph_rect(glyph, chars_per_row, n_rows).v1 <= n_rows,
        glyph_rect(0, chars_per_row, n_rows) == (AtlasRect { u0: 0, v0: 0, u1: 1, v1: 1 }),
{
    let cpr = chars_per_row as int;
    let n = n_rows as int;
    let g = clamped_glyph(glyph, chars_per_row, n_rows);
    assert(cpr * n >= 1) by (nonlinear_arith)
        requires cpr > 0, n > 0;
    assert(0 <= g < cpr * n);
    vstd::arithmetic::div_mod::lemma_div_pos_is_pos(g, cpr);
    vstd::arithmetic::div_mod::lemma_mod_bound(g, cpr);
    vstd::arithmetic::div_mod::lemma_multiply_divide_lt(g, cpr, n);
    assert(0 < cpr * n);
    vstd::arithmetic::div_mod::lemma_small_mod(0, cpr as nat);
    vstd::arithmetic::div_mod::lemma_div_of0(cpr);
}

/// Refusal of an atlas with no columns or no rows.
#[derive(Clone, Copy, Debug, PartialEq, Eq, Structural)]
pub enum AtlasError {
    InvalidAtlasGeometry,
}

/// An atlas's layout and the size in pixels of one glyph on screen.
#[derive(Clone, Copy, Debug)]
pub struct FontScaler {
    pub chars_per_row: u16,
    pub n_rows: u16,
    pub font_pixels: (u16, u16),
}

impl FontScaler {
    pub open spec fn wf(&self) -> bool {
        self.chars_per_row > 0 && self.n_rows > 0
    }

    /// Fails exactly when the atlas has no columns or no rows.
    pub fn new(chars_per_row: u16, n_rows: u16, font_pixels: (u16, u16)) -> (r: Result<
        FontScaler,
        AtlasError,
    >)
        ensures
            (chars_per_row > 0 && n_rows > 0) <==> r.is_ok(),
            r.is_err() ==> r == Err::<FontScaler, AtlasError>(AtlasError::InvalidAtlasGeometry),
            r matches Ok(s) ==> s.wf() && s.chars_per_row == chars_per_row && s.n_rows == n_rows
                && s.font_pixels == font_pixels,
    {
        if chars_per_row == 0 || n_rows == 0 {
            Err(AtlasError::InvalidAtlasGeometry)
        } else {
            Ok(FontScaler { chars_per_row, n_rows, font_pixels })
        }
    }

    /// The atlas cell of `glyph`.
    pub fn texture_coords(&self, glyph: u16) -> (r: AtlasRect)
        requires
            self.wf(),
        ensures
            r == glyph_rect(glyph, self.chars_per_row, self.n_rows),
    {
        atlas_rect(glyph, self.chars_per_row, self.n_rows)
    }
}

} // verus!
