//! The console's cell storage: a row-major grid whose first stored row is
//! the top of the screen, addressed with `y` growing upward.

use crate::glyph_table::{encode_spec, GlyphTable};
use crate::mesh::{
    build_quads, build_sparse_quads, grid_fits, mesh_spec, sparse_mesh_spec, MeshBuffers, QuadLayout,
};
use crate::scaler::{atlas_rect, glyph_rect, AtlasRect};
use vstd::prelude::*;

verus! {

/// The glyph of an empty cell (a space).
pub const BLANK_GLYPH: u16 = 32;

/// A colour with 8-bit channels.
#[derive(Clone, Copy, Debug, PartialEq, Eq, Structural)]
pub struct Rgba {
    pub r: u8,
    pub g: u8,
    pub b: u8,
    pub a: u8,
}

impl Rgba {
    /// Opaque white, the foreground of a new cell.
    pub fn white() -> (r: Rgba)
        ensures
            r == white_spec(),
    {
        Rgba { r: 255, g: 255, b: 255, a: 255 }
    }
}

pub open spec fn white_spec() -> Rgba {
    Rgba { r: 255, g: 255, b: 255, a: 255 }
}

/// One character position: its glyph and the colour it is drawn in.
#[derive(Clone, Copy, Debug, PartialEq, Eq, Structural)]
pub struct Cell {
    pub glyph: u16,
    pub foreground: Rgba,
}

/// Refusal of a write that would land outside the grid.
#[derive(Clone, Copy, Debug, PartialEq, Eq, Structural)]
pub enum GridError {
    OutOfBounds,
}

/// Marks the entity that draws the console with this index.
#[derive(Clone, Copy, Debug, PartialEq, Eq, Structural)]
pub struct SimpleConsoleMarker(pub usize);

/// The storage index of cell `(x, y)`: rows are stored top first, while `y`
/// counts from the bottom.
pub open spec fn at_spec(width: int, height: int, x: int, y: int) -> int {
    (height - 1 - y) * width + x
}

pub open spec fn is_storage_index(width: int, height: int, i: int) -> bool {
    0 <= i < width * height
}

/// Addressing is a bijection from the cells of a `width` by `height` grid
/// onto the storage indices `0 .. width * height`.
pub proof fn lemma_at_bijective(width: int, height: int)
    requires
        width >= 0,
        height >= 0,
    ensures
        forall|x: int, y: int|
            0 <= x < width && 0 <= y < height ==> 0 <= #[trigger] at_spec(width, height, x, y)
                < width * height,
        forall|x1: int, y1: int, x2: int, y2: int|
            0 <= x1 < width && 0 <= y1 < height && 0 <= x2 < width && 0 <= y2 < height
                && #[trigger] at_spec(width, height, x1, y1) == #[trigger] at_spec(
                width,
                height,
                x2,
                y2,
            ) ==> x1 == x2 && y1 == y2,
        forall|i: int|
            #[trigger] is_storage_index(width, height, i) ==> exists|x: int, y: int|
                0 <= x < width && 0 <= y < height && #[trigger] at_spec(width, height, x, y) == i,
{
    assert forall|x: int, y: int| 0 <= x < width && 0 <= y < height implies 0 <= #[trigger] at_spec(
        width,
        height,
        x,
        y,
    ) < width * height by {
        lemma_at_in_bounds(width, height, x, y);
    }
    assert forall|x1: int, y1: int, x2: int, y2: int|
        0 <= x1 < width && 0 <= y1 < height && 0 <= x2 < width && 0 <= y2 < height
            && #[trigger] at_spec(width, height, x1, y1) == #[trigger] at_spec(
            width,
            height,
            x2,
            y2,
        ) implies x1 == x2 && y1 == y2 by {
        let i = at_spec(width, height, x1, y1);
        vstd::arithmetic::div_mod::lemma_fundamental_div_mod_converse(i, width, height - 1 - y1, x1);
        vstd::arithmetic::div_mod::lemma_fundamental_div_mod_converse(i, width, height - 1 - y2, x2);
    }
    assert forall|i: int| #[trigger] is_storage_index(width, height, i) implies exists|x: int, y: int|
        0 <= x < width && 0 <= y < height && #[trigger] at_spec(width, height, x, y) == i by {
        let x = i % width;
        let r = i / width;
        vstd::arithmetic::div_mod::lemma_fundamental_div_mod(i, width);
        vstd::arithmetic::div_mod::lemma_mod_bound(i, width);
        vstd::arithmetic::div_mod::lemma_div_pos_is_pos(i, width);
        vstd::arithmetic::div_mod::lemma_multiply_divide_lt(i, width, height);
        vstd::arithmetic::mul::lemma_mul_is_commutative(width, r);
        assert(height - 1 - (height - 1 - r) == r);
        assert(at_spec(width, height, x, height - 1 - r) == i);
    }
}

/// A cell's storage index lies in the grid, and so does the rest of its row.
pub proof fn lemma_at_in_bounds(width: int, height: int, x: int, y: int)
    requires
        0 <= x < width,
        0 <= y < height,
    ensures
        0 <= at_spec(width, height, x, y) < width * height,
        at_spec(width, height, x, y) + width - x <= width * height,
{
    assert(0 <= (height - 1 - y) * width) by (nonlinear_arith)
        requires height - 1 - y >= 0, width > 0;
    assert((height - 1 - y) * width + width <= width * height) by (nonlinear_arith)
        requires 0 <= y, width > 0;
}

/// The cells after writing `glyphs` from storage index `start` on: each
/// written cell takes its glyph and keeps its colour; the others are kept.
pub open spec fn written(cells: Seq<Cell>, start: int, glyphs: Seq<u16>) -> Seq<Cell> {
    Seq::new(
        cells.len(),
        |k: int|
            if start <= k < start + glyphs.len() {
                Cell { glyph: glyphs[k - start], foreground: cells[k].foreground }
            } else {
                cells[k]
            },
    )
}

/// Writing glyphs at cell `(x, y)` of a row sets cell `(x + i, y)` to glyph
/// `i` and leaves every other cell of the grid as it was.
pub proof fn lemma_written_cells(
    cells: Seq<Cell>,
    width: int,
    height: int,
    x: int,
    y: int,
    glyphs: Seq<u16>,
)
    requires
        cells.len() == width * height,
        0 <= x,
        0 <= y < height,
        x + glyphs.len() <= width,
    ensures
        forall|i: int|
            0 <= i < glyphs.len() ==> (#[trigger] written(
                cells,
                at_spec(width, height, x, y),
                glyphs,
            )[at_spec(width, height, x + i, y)]).glyph == glyphs[i],
        forall|cx: int, cy: int|
            0 <= cx < width && 0 <= cy < height && !(cy == y && x <= cx < x + glyphs.len())
                ==> #[trigger] written(cells, at_spec(width, height, x, y), glyphs)[at_spec(
                width,
                height,
                cx,
                cy,
            )] == cells[at_spec(width, height, cx, cy)],
{
    let start = at_spec(width, height, x, y);
    assert forall|i: int| 0 <= i < glyphs.len() implies (#[trigger] written(
        cells,
        start,
        glyphs,
    )[at_spec(width, height, x + i, y)]).glyph == glyphs[i] by {
        lemma_at_in_bounds(width, height, x + i, y);
    }
    assert forall|cx: int, cy: int|
        0 <= cx < width && 0 <= cy < height && !(cy == y && x <= cx < x + glyphs.len())
            implies #[trigger] written(cells, start, glyphs)[at_spec(width, height, cx, cy)]
            == cells[at_spec(width, height, cx, cy)] by {
        let k = at_spec(width, height, cx, cy);
        lemma_at_in_bounds(width, height, cx, cy);
        if start <= k < start + glyphs.len() {
            lemma_at_in_bounds(width, height, x + (k - start), y);
            lemma_at_bijective(width, height);
            assert(at_spec(width, height, x + (k - start), y) == k);
        }
    }
}

/// The side of a cell, in pixels, in a console's own mesh.
pub const CELL_PIXELS: u16 = 8;

/// The layout of a console's own mesh: square cells at depth 0.
pub open spec fn simple_layout() -> QuadLayout {
    QuadLayout { cell_width: CELL_PIXELS, cell_height: CELL_PIXELS, depth: 0 }
}

/// A console: a `width` by `height` grid of cells drawn with one font.
#[derive(Clone, Debug)]
pub struct SimpleConsole {
    pub font_index: usize,
    pub width: usize,
    pub height: usize,
    /// The cells, top row first; see `at_spec`.
    pub terminal: Vec<Cell>,
    /// How `print` turns text into glyphs.
    pub glyphs: GlyphTable,
    /// Whether a cell may have changed since the mesh was last built.
    pub dirty: bool,
}

impl SimpleConsole {
    pub open spec fn wf(&self) -> bool {
        &&& grid_fits(self.terminal@, self.width as int, self.height as int)
        &&& self.glyphs.wf()
    }

    /// The cell at `(x, y)`.
    pub open spec fn cell(&self, x: int, y: int) -> Cell {
        self.terminal@[at_spec(self.width as int, self.height as int, x, y)]
    }

    /// A console of blank cells in opaque white, encoding text with the
    /// identity table.
    pub fn new(font_index: usize, width: usize, height: usize) -> (r: SimpleConsole)
        requires
            6 * width * height <= u32::MAX,
        ensures
            r.wf(),
            r.font_index == font_index,
            r.width == width,
            r.height == height,
            forall|i: int|
                0 <= i < width * height ==> #[trigger] r.terminal@[i] == (Cell {
                    glyph: BLANK_GLYPH,
                    foreground: white_spec(),
                }),
            forall|i: int| 0 <= i < 256 ==> r.glyphs.entries@[i] == i,
            r.dirty,
    {
        assert(6 * width * height == 6 * (width * height)) by (nonlinear_arith);
        let n = width * height;
        let blank = Cell { glyph: BLANK_GLYPH, foreground: Rgba::white() };
        let mut terminal: Vec<Cell> = Vec::with_capacity(n);
        let mut i: usize = 0;
        while i < n
            invariant
                i <= n,
                terminal@.len() == i,
                forall|j: int| 0 <= j < i ==> #[trigger] terminal@[j] == blank,
            decreases n - i,
        {
            terminal.push(blank);
            i = i + 1;
        }
        SimpleConsole {
            font_index,
            width,
            height,
            terminal,
            glyphs: GlyphTable::identity(),
            dirty: true,
        }
    }

    /// The storage index of cell `(x, y)`.
    pub fn at(&self, x: usize, y: usize) -> (r: usize)
        requires
            self.wf(),
            x < self.width,
            y < self.height,
        ensures
            r == at_spec(self.width as int, self.height as int, x as int, y as int),
            r < self.terminal@.len(),
    {
        proof {
            lemma_at_in_bounds(self.width as int, self.height as int, x as int, y as int);
            assert(6 * self.width * self.height == 6 * (self.width * self.height))
                by (nonlinear_arith);
        }
        (self.height - 1 - y) * self.width + x
    }

    /// The cell at `(x, y)`, or `None` outside the grid.
    pub fn get(&self, x: usize, y: usize) -> (r: Option<Cell>)
        requires
            self.wf(),
        ensures
            r is Some <==> x < self.width && y < self.height,
            r matches Some(c) ==> c == self.cell(x as int, y as int),
    {
        if x < self.width && y < self.height {
            Some(self.terminal[self.at(x, y)])
        } else {
            None
        }
    }

    /// Sets every cell to the blank glyph, keeping its colour.
    pub fn cls(&mut self)
        requires
            old(self).wf(),
        ensures
            final(self).wf(),
            final(self).font_index == old(self).font_index,
            final(self).width == old(self).width,
            final(self).height == old(self).height,
            final(self).glyphs == old(self).glyphs,
            final(self).dirty,
            final(self).terminal@.len() == old(self).terminal@.len(),
            forall|i: int|
                0 <= i < old(self).terminal@.len() ==> #[trigger] final(self).terminal@[i] == (Cell {
                    glyph: BLANK_GLYPH,
                    foreground: old(self).terminal@[i].foreground,
                }),
            forall|x: int, y: int|
                0 <= x < old(self).width && 0 <= y < old(self).height ==> (#[trigger] final(self).cell(
                    x,
                    y,
                )).glyph == BLANK_GLYPH,
    {
        let n = self.terminal.len();
        let mut i: usize = 0;
        while i < n
            invariant
                n == old(self).terminal@.len(),
                self.terminal@.len() == n,
                i <= n,
                self.font_index == old(self).font_index,
                self.width == old(self).width,
                self.height == old(self).height,
                self.glyphs == old(self).glyphs,
                forall|j: int|
                    0 <= j < i ==> #[trigger] self.terminal@[j] == (Cell {
                        glyph: BLANK_GLYPH,
                        foreground: old(self).terminal@[j].foreground,
                    }),
                forall|j: int| i <= j < n ==> #[trigger] self.terminal@[j] == old(self).terminal@[j],
            decreases n - i,
        {
            let fg = self.terminal[i].foreground;
            self.terminal.set(i, Cell { glyph: BLANK_GLYPH, foreground: fg });
            i = i + 1;
        }
        self.dirty = true;
        assert forall|x: int, y: int| 0 <= x < self.width && 0 <= y < self.height implies #[trigger] self.cell(
            x,
            y,
        ).glyph == BLANK_GLYPH by {
            lemma_at_in_bounds(self.width as int, self.height as int, x, y);
        }
    }

    /// Writes the glyphs of `text` into row `y`, from column `x` rightward.
    /// Fails, changing nothing, where the row is outside the grid or the
    /// text would run past its right edge.
    pub fn print(&mut self, x: usize, y: usize, text: &str) -> (r: Result<(), GridError>)
        requires
            old(self).wf(),
        ensures
            final(self).wf(),
            r is Ok <==> y < old(self).height && x + encode_spec(old(self).glyphs.entries@, text@).len()
                <= old(self).width,
            r is Ok ==> *final(self) == (SimpleConsole {
                terminal: final(self).terminal,
                dirty: true,
                ..*old(self)
            }) && final(self).terminal@ == written(
                old(self).terminal@,
                at_spec(old(self).width as int, old(self).height as int, x as int, y as int),
                encode_spec(old(self).glyphs.entries@, text@),
            ),
            r is Err ==> r == Err::<(), GridError>(GridError::OutOfBounds) && *final(self) == *old(
                self,
            ),
    {
        let glyphs = self.glyphs.encode(text);
        let len = glyphs.len();
        if y >= self.height || len > self.width || x > self.width - len {
            return Err(GridError::OutOfBounds);
        }
        let ghost w = self.width as int;
        let ghost h = self.height as int;
        proof {
            assert(0 <= (h - 1 - y) * w && (h - 1 - y) * w + w <= w * h) by (nonlinear_arith)
                requires 0 <= y < h, w >= 0;
            assert(6 * w * h == 6 * (w * h)) by (nonlinear_arith);
        }
        let start = (self.height - 1 - y) * self.width + x;
        let ghost cells0 = self.terminal@;
        let ghost want = written(cells0, start as int, glyphs@);
        let mut i: usize = 0;
        while i < len
            invariant
                len == glyphs@.len(),
                i <= len,
                start + len <= cells0.len(),
                cells0.len() <= u32::MAX,
                want == written(cells0, start as int, glyphs@),
                self.terminal@.len() == cells0.len(),
                *self == (SimpleConsole { terminal: self.terminal, ..*old(self) }),
                cells0 == old(self).terminal@,
                forall|k: int|
                    0 <= k < cells0.len() && !(start + i <= k < start + len) ==> #[trigger] self.terminal@[k]
                        == want[k],
                forall|k: int|
                    start + i <= k < start + len ==> #[trigger] self.terminal@[k] == cells0[k],
            decreases len - i,
        {
            let k = start + i;
            let fg = self.terminal[k].foreground;
            self.terminal.set(k, Cell { glyph: glyphs[i], foreground: fg });
            i = i + 1;
        }
        assert(self.terminal@ =~= want);
        self.dirty = true;
        Ok(())
    }

    /// The atlas cell of `glyph` in an atlas of `chars_per_row` columns and
    /// `n_rows` rows.
    pub fn texture_coords(&self, glyph: u16, chars_per_row: u16, n_rows: u16) -> (r: AtlasRect)
        requires
            chars_per_row > 0,
            n_rows > 0,
        ensures
            r == glyph_rect(glyph, chars_per_row, n_rows),
    {
        atlas_rect(glyph, chars_per_row, n_rows)
    }

    /// The console's own mesh: `CELL_PIXELS`-square cells centred on the
    /// origin, at depth 0.
    pub fn build_mesh(&self, chars_per_row: u16, n_rows: u16) -> (r: MeshBuffers)
        requires
            self.wf(),
            chars_per_row > 0,
            n_rows > 0,
        ensures
            r@ == mesh_spec(
                self.terminal@,
                self.width as int,
                self.height as int,
                simple_layout(),
                chars_per_row,
                n_rows,
            ),
            r.vertices@.len() == 4 * self.width * self.height,
            r.indices@.len() == 6 * self.width * self.height,
    {
        let layout = QuadLayout { cell_width: CELL_PIXELS, cell_height: CELL_PIXELS, depth: 0 };
        build_quads(&self.terminal, self.width, self.height, layout, chars_per_row, n_rows)
    }

    /// The console's own mesh without the quads of blank cells.
    pub fn build_sparse_mesh(&self, chars_per_row: u16, n_rows: u16) -> (r: MeshBuffers)
        requires
            self.wf(),
            chars_per_row > 0,
            n_rows > 0,
        ensures
            r@ == sparse_mesh_spec(
                self.terminal@,
                self.width as int,
                self.height as int,
                simple_layout(),
                chars_per_row,
                n_rows,
            ),
    {
        let layout = QuadLayout { cell_width: CELL_PIXELS, cell_height: CELL_PIXELS, depth: 0 };
        build_sparse_quads(&self.terminal, self.width, self.height, layout, chars_per_row, n_rows)
    }

    /// The texture coordinates of the console's mesh alone, for a grid
    /// whose glyphs changed and whose size did not.
    pub fn build_uvs(&self, chars_per_row: u16, n_rows: u16) -> (r: Vec<(u32, u32)>)
        requires
            self.wf(),
            chars_per_row > 0,
            n_rows > 0,
        ensures
            r@ == mesh_spec(
                self.terminal@,
                self.width as int,
                self.height as int,
                simple_layout(),
                chars_per_row,
                n_rows,
            ).uvs,
    {
        self.build_mesh(chars_per_row, n_rows).uvs
    }

    /// Whether the mesh must be built again: always where the layer asks
    /// for it, else only after a change since the last build.
    pub fn needs_rebuild(&self, always: bool) -> (r: bool)
        ensures
            r == (always || self.dirty),
    {
        always || self.dirty
    }

    /// Records that a mesh was built from the current cells.
    pub fn mark_built(&mut self)
        ensures
            *final(self) == (SimpleConsole { dirty: false, ..*old(self) }),
    {
        self.dirty = false;
    }

    /// Writes `cell` at `(x, y)`; fails, changing nothing, outside the grid.
    pub fn set(&mut self, x: usize, y: usize, cell: Cell) -> (r: Result<(), GridError>)
        requires
            old(self).wf(),
        ensures
            final(self).wf(),
            r is Ok <==> x < old(self).width && y < old(self).height,
            r is Ok ==> *final(self) == (SimpleConsole {
                terminal: final(self).terminal,
                dirty: true,
                ..*old(self)
            }) && final(self).terminal@ == old(self).terminal@.update(
                at_spec(old(self).width as int, old(self).height as int, x as int, y as int),
                cell,
            ),
            r is Err ==> r == Err::<(), GridError>(GridError::OutOfBounds) && *final(self) == *old(
                self,
            ),
    {
        if x < self.width && y < self.height {
            let i = self.at(x, y);
            self.terminal.set(i, cell);
            self.dirty = true;
            Ok(())
        } else {
            Err(GridError::OutOfBounds)
        }
    }
}

} // verus!
