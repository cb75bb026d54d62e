//! Mesh buffers for a console: one quad (four vertices, two triangles) per
//! cell, in exact units. Positions are in half pixels, so that a grid
//! centred on the origin has integer corners; texture coordinates are the
//! numerators of an `AtlasRect`.

use crate::scaler::{atlas_rect, glyph_rect, AtlasRect};
use crate::simple_console::{at_spec, lemma_at_in_bounds, Cell, BLANK_GLYPH};
use vstd::prelude::*;

verus! {

/// The buffers of one mesh: corner `c` of quad `q` at position `4 * q + c`
/// of each per-vertex buffer.
#[derive(Clone, Debug)]
pub struct MeshBuffers {
    /// Corner positions in half pixels: `(x, y, depth)`.
    pub vertices: Vec<(i64, i64, i64)>,
    /// One flat normal, `(0, 1, 0)`, per vertex.
    pub normals: Vec<(i8, i8, i8)>,
    /// Atlas coordinates per vertex, as the numerators of an `AtlasRect`.
    pub uvs: Vec<(u32, u32)>,
    /// The cell's foreground, per vertex.
    pub colors: Vec<crate::simple_console::Rgba>,
    /// Two triangles per quad, wound `(0, 1, 2)` and `(3, 2, 1)`.
    pub indices: Vec<u32>,
}

/// What a `MeshBuffers` holds.
pub ghost struct MeshModel {
    pub vertices: Seq<(i64, i64, i64)>,
    pub normals: Seq<(i8, i8, i8)>,
    pub uvs: Seq<(u32, u32)>,
    pub colors: Seq<crate::simple_console::Rgba>,
    pub indices: Seq<u32>,
}

impl View for MeshBuffers {
    type V = MeshModel;

    open spec fn view(&self) -> MeshModel {
        MeshModel {
            vertices: self.vertices@,
            normals: self.normals@,
            uvs: self.uvs@,
            colors: self.colors@,
            indices: self.indices@,
        }
    }
}

/// How a grid is laid out on screen: the size of a cell in pixels, and the
/// depth of the layer in half pixels, the unit of every position.
#[derive(Clone, Copy, Debug, PartialEq, Eq, Structural)]
pub struct QuadLayout {
    pub cell_width: u16,
    pub cell_height: u16,
    /// Depth in half pixels.
    pub depth: i64,
}

/// Corner `c` of the quad of screen cell `(x, y)`: bottom-left,
/// bottom-right, top-left, top-right, on a grid centred on the origin.
pub open spec fn corner_spec(
    width: int,
    height: int,
    l: QuadLayout,
    x: int,
    y: int,
    c: int,
) -> (i64, i64, i64) {
    let sx = (2 * x - width) * l.cell_width + if c == 1 || c == 3 {
        2 * l.cell_width
    } else {
        0
    };
    let sy = (2 * y - height) * l.cell_height + if c >= 2 {
        2 * l.cell_height
    } else {
        0
    };
    (sx as i64, sy as i64, l.depth)
}

/// The cell drawn at screen cell `(x, y)`.
pub open spec fn cell_at(cells: Seq<Cell>, width: int, height: int, x: int, y: int) -> Cell {
    cells[at_spec(width, height, x, y)]
}

/// The atlas corner of quad corner `c`: the bottom of the quad samples the
/// bottom of the glyph's atlas cell, so glyphs stand upright.
pub open spec fn uv_corner(r: AtlasRect, c: int) -> (u32, u32) {
    if c == 0 {
        (r.u0, r.v1)
    } else if c == 1 {
        (r.u1, r.v1)
    } else if c == 2 {
        (r.u0, r.v0)
    } else {
        (r.u1, r.v0)
    }
}

/// The quad corner at position `j` of a quad's six indices: triangles
/// `(0, 1, 2)` and `(3, 2, 1)`.
pub open spec fn tri_corner(j: int) -> int {
    if j < 3 {
        j
    } else {
        6 - j
    }
}

/// Vertex `k` of the dense mesh: corner `k % 4` of quad `k / 4`, the quads
/// going row by row from the bottom of the screen.
pub open spec fn vertex_spec(width: int, height: int, l: QuadLayout, k: int) -> (i64, i64, i64) {
    corner_spec(width, height, l, (k / 4) % width, (k / 4) / width, k % 4)
}

/// The cell that vertex `k` of the dense mesh belongs to.
pub open spec fn source_cell(cells: Seq<Cell>, width: int, height: int, k: int) -> Cell {
    cell_at(cells, width, height, (k / 4) % width, (k / 4) / width)
}

/// The texture coordinates of vertex `k` of the dense mesh.
pub open spec fn uv_spec(
    cells: Seq<Cell>,
    width: int,
    height: int,
    chars_per_row: u16,
    n_rows: u16,
    k: int,
) -> (u32, u32) {
    uv_corner(glyph_rect(source_cell(cells, width, height, k).glyph, chars_per_row, n_rows), k % 4)
}

/// Entry `k` of the index buffer: corner `tri_corner(k % 6)` of quad `k / 6`.
pub open spec fn index_spec(k: int) -> u32 {
    (4 * (k / 6) + tri_corner(k % 6)) as u32
}

/// The mesh of a `width` by `height` grid of `cells`.
pub open spec fn mesh_spec(
    cells: Seq<Cell>,
    width: int,
    height: int,
    l: QuadLayout,
    chars_per_row: u16,
    n_rows: u16,
) -> MeshModel {
    let n = (4 * width * height) as nat;
    MeshModel {
        vertices: Seq::new(n, |k: int| vertex_spec(width, height, l, k)),
        normals: Seq::new(n, |k: int| (0i8, 1i8, 0i8)),
        uvs: Seq::new(n, |k: int| uv_spec(cells, width, height, chars_per_row, n_rows, k)),
        colors: Seq::new(n, |k: int| source_cell(cells, width, height, k).foreground),
        indices: Seq::new((6 * width * height) as nat, |k: int| index_spec(k)),
    }
}

/// The dense quads, in order, among the first `q`, whose cell holds a glyph
/// other than the blank one: those that a sparse mesh draws.
pub open spec fn kept_quads(cells: Seq<Cell>, width: int, height: int, q: nat) -> Seq<int>
    decreases q,
{
    if q == 0 {
        Seq::empty()
    } else {
        let p = q - 1;
        let prev = kept_quads(cells, width, height, p as nat);
        if cell_at(cells, width, height, p % width, p / width).glyph == BLANK_GLYPH {
            prev
        } else {
            prev.push(p)
        }
    }
}

/// The sparse mesh: the dense mesh's quads of non-blank cells, in the same
/// order and with the same positions, texture coordinates and colours, their
/// vertices renumbered from 0.
pub open spec fn sparse_mesh_spec(
    cells: Seq<Cell>,
    width: int,
    height: int,
    l: QuadLayout,
    chars_per_row: u16,
    n_rows: u16,
) -> MeshModel {
    let kept = kept_quads(cells, width, height, (width * height) as nat);
    let n = (4 * kept.len()) as nat;
    MeshModel {
        vertices: Seq::new(
            n,
            |k: int| corner_spec(width, height, l, kept[k / 4] % width, kept[k / 4] / width, k % 4),
        ),
        normals: Seq::new(n, |k: int| (0i8, 1i8, 0i8)),
        uvs: Seq::new(
            n,
            |k: int|
                uv_corner(
                    glyph_rect(
                        cell_at(cells, width, height, kept[k / 4] % width, kept[k / 4] / width).glyph,
                        chars_per_row,
                        n_rows,
                    ),
                    k % 4,
                ),
        ),
        colors: Seq::new(
            n,
            |k: int| cell_at(cells, width, height, kept[k / 4] % width, kept[k / 4] / width).foreground,
        ),
        indices: Seq::new((6 * kept.len()) as nat, |k: int| index_spec(k)),
    }
}

/// The quads that a sparse mesh keeps are exactly the dense quads whose cell
/// is not blank, in increasing order.
pub proof fn lemma_kept_quads(cells: Seq<Cell>, width: int, height: int, q: nat)
    ensures
        forall|i: int|
            0 <= i < kept_quads(cells, width, height, q).len() ==> 0 <= #[trigger] kept_quads(
                cells,
                width,
                height,
                q,
            )[i] < q,
        forall|i: int, j: int|
            0 <= i < j < kept_quads(cells, width, height, q).len() ==> #[trigger] kept_quads(
                cells,
                width,
                height,
                q,
            )[i] < #[trigger] kept_quads(cells, width, height, q)[j],
        forall|p: int|
            0 <= p < q ==> (#[trigger] kept_quads(cells, width, height, q).contains(p) <==> cell_at(
                cells,
                width,
                height,
                p % width,
                p / width,
            ).glyph != BLANK_GLYPH),
    decreases q,
{
    if q > 0 {
        let p0 = q - 1;
        lemma_kept_quads(cells, width, height, p0 as nat);
        let prev = kept_quads(cells, width, height, p0 as nat);
        let cur = kept_quads(cells, width, height, q);
        assert forall|p: int| 0 <= p < q implies (#[trigger] cur.contains(p) <==> cell_at(
            cells,
            width,
            height,
            p % width,
            p / width,
        ).glyph != BLANK_GLYPH) by {
            if p < p0 {
                if cur.contains(p) {
                    let i = choose|i: int| 0 <= i < cur.len() && cur[i] == p;
                    assert(prev[i] == p);
                }
                if prev.contains(p) {
                    let i = choose|i: int| 0 <= i < prev.len() && prev[i] == p;
                    assert(cur[i] == p);
                }
            } else {
                if cell_at(cells, width, height, p % width, p / width).glyph != BLANK_GLYPH {
                    assert(cur[cur.len() - 1] == p);
                }
            }
        }
    }
}

/// A sparse mesh draws what a dense build draws for every non-blank cell:
/// its quad `j` has the positions, texture coordinates and colours of the
/// dense quad `kept[j]`.
pub proof fn lemma_sparse_matches_dense(
    cells: Seq<Cell>,
    width: int,
    height: int,
    l: QuadLayout,
    chars_per_row: u16,
    n_rows: u16,
)
    requires
        width >= 0,
        height >= 0,
    ensures
        ({
            let kept = kept_quads(cells, width, height, (width * height) as nat);
            let sparse = sparse_mesh_spec(cells, width, height, l, chars_per_row, n_rows);
            let dense = mesh_spec(cells, width, height, l, chars_per_row, n_rows);
            forall|j: int, c: int|
                0 <= j < kept.len() && 0 <= c < 4 ==> {
                    &&& #[trigger] sparse.vertices[4 * j + c] == dense.vertices[4 * kept[j] + c]
                    &&& sparse.uvs[4 * j + c] == dense.uvs[4 * kept[j] + c]
                    &&& sparse.colors[4 * j + c] == dense.colors[4 * kept[j] + c]
                }
        }),
{
    let n = (width * height) as nat;
    let kept = kept_quads(cells, width, height, n);
    let sparse = sparse_mesh_spec(cells, width, height, l, chars_per_row, n_rows);
    let dense = mesh_spec(cells, width, height, l, chars_per_row, n_rows);
    assert(width * height >= 0 && 4 * width * height == 4 * (width * height)) by (nonlinear_arith)
        requires width >= 0, height >= 0;
    lemma_kept_quads(cells, width, height, n);
    assert forall|j: int, c: int| 0 <= j < kept.len() && 0 <= c < 4 implies {
        &&& #[trigger] sparse.vertices[4 * j + c] == dense.vertices[4 * kept[j] + c]
        &&& sparse.uvs[4 * j + c] == dense.uvs[4 * kept[j] + c]
        &&& sparse.colors[4 * j + c] == dense.colors[4 * kept[j] + c]
    } by {
        assert(0 <= kept[j] < n);
        lemma_slot(4 * j + c, j, c, 4);
        lemma_slot(4 * kept[j] + c, kept[j], c, 4);
    }
}

/// Building twice from an unchanged grid, layout and atlas gives identical
/// buffers: a mesh is a function of those alone.
pub proof fn lemma_mesh_deterministic(
    cells: Seq<Cell>,
    width: int,
    height: int,
    l: QuadLayout,
    chars_per_row: u16,
    n_rows: u16,
    first: MeshModel,
    second: MeshModel,
)
    requires
        first == mesh_spec(cells, width, height, l, chars_per_row, n_rows),
        second == mesh_spec(cells, width, height, l, chars_per_row, n_rows),
    ensures
        first == second,
{
}

proof fn lemma_split(k: int, d: int, n: int)
    requires
        0 < d,
        0 <= k < d * n,
    ensures
        k == d * (k / d) + k % d,
        0 <= k % d < d,
        0 <= k / d < n,
{
    vstd::arithmetic::div_mod::lemma_fundamental_div_mod(k, d);
    vstd::arithmetic::div_mod::lemma_mod_bound(k, d);
    vstd::arithmetic::div_mod::lemma_div_pos_is_pos(k, d);
    vstd::arithmetic::div_mod::lemma_multiply_divide_lt(k, d, n);
}

proof fn lemma_slot(k: int, q: int, c: int, d: int)
    requires
        0 <= c < d,
        k == q * d + c,
    ensures
        k / d == q,
        k % d == c,
{
    vstd::arithmetic::div_mod::lemma_fundamental_div_mod_converse(k, d, q, c);
}

/// The grid's limits: storage matches the dimensions, and the index buffer's
/// length, and so every vertex number, fits a `u32`.
pub open spec fn grid_fits(cells: Seq<Cell>, width: int, height: int) -> bool {
    &&& cells.len() == width * height
    &&& 6 * width * height <= u32::MAX
}

/// Appends the quad of screen cell `(x, y)`, numbering its vertices after
/// those already in `m`.
fn push_quad(
    m: &mut MeshBuffers,
    cells: &Vec<Cell>,
    width: usize,
    height: usize,
    l: QuadLayout,
    chars_per_row: u16,
    n_rows: u16,
    x: usize,
    y: usize,
)
    requires
        grid_fits(cells@, width as int, height as int),
        chars_per_row > 0,
        n_rows > 0,
        x < width,
        y < height,
        old(m).normals@.len() == old(m).vertices@.len(),
        old(m).uvs@.len() == old(m).vertices@.len(),
        old(m).colors@.len() == old(m).vertices@.len(),
        old(m).vertices@.len() + 4 <= u32::MAX + 1,
    ensures
        final(m).vertices@ == old(m).vertices@ + Seq::new(
            4,
            |c: int| corner_spec(width as int, height as int, l, x as int, y as int, c),
        ),
        final(m).normals@ == old(m).normals@ + Seq::new(4, |c: int| (0i8, 1i8, 0i8)),
        final(m).uvs@ == old(m).uvs@ + Seq::new(
            4,
            |c: int|
                uv_corner(
                    glyph_rect(
                        cell_at(cells@, width as int, height as int, x as int, y as int).glyph,
                        chars_per_row,
                        n_rows,
                    ),
                    c,
                ),
        ),
        final(m).colors@ == old(m).colors@ + Seq::new(
            4,
            |c: int| cell_at(cells@, width as int, height as int, x as int, y as int).foreground,
        ),
        final(m).indices@ == old(m).indices@ + Seq::new(
            6,
            |j: int| (old(m).vertices@.len() + tri_corner(j)) as u32,
        ),
{
    let ghost w = width as int;
    let ghost h = height as int;
    proof {
        assert(w <= w * h && h <= w * h && 6 * w * h == 6 * (w * h)) by (nonlinear_arith)
            requires w > 0, h > 0;
        lemma_at_in_bounds(w, h, x as int, y as int);
        assert(-w <= 2 * x - w < w);
        assert(-w * 0xffff <= (2 * x - w) * l.cell_width <= w * 0xffff) by (nonlinear_arith)
            requires -w <= 2 * x - w < w, 0 <= l.cell_width <= 0xffff;
        assert(-h * 0xffff <= (2 * y - h) * l.cell_height <= h * 0xffff) by (nonlinear_arith)
            requires -h <= 2 * y - h < h, 0 <= l.cell_height <= 0xffff;
    }
    let ghost v0 = m.vertices@;
    let ghost n0 = m.normals@;
    let ghost t0 = m.uvs@;
    let ghost c0 = m.colors@;
    let ghost i0 = m.indices@;
    let cw = l.cell_width as i64;
    let ch = l.cell_height as i64;
    let sx: i64 = (2 * (x as i64) - (width as i64)) * cw;
    let sy: i64 = (2 * (y as i64) - (height as i64)) * ch;
    let z = l.depth;
    let base = m.vertices.len() as u32;
    m.vertices.push((sx, sy, z));
    m.vertices.push((sx + 2 * cw, sy, z));
    m.vertices.push((sx, sy + 2 * ch, z));
    m.vertices.push((sx + 2 * cw, sy + 2 * ch, z));
    m.normals.push((0, 1, 0));
    m.normals.push((0, 1, 0));
    m.normals.push((0, 1, 0));
    m.normals.push((0, 1, 0));
    let cell = cells[(height - 1 - y) * width + x];
    let tex = atlas_rect(cell.glyph, chars_per_row, n_rows);
    m.uvs.push((tex.u0, tex.v1));
    m.uvs.push((tex.u1, tex.v1));
    m.uvs.push((tex.u0, tex.v0));
    m.uvs.push((tex.u1, tex.v0));
    m.colors.push(cell.foreground);
    m.colors.push(cell.foreground);
    m.colors.push(cell.foreground);
    m.colors.push(cell.foreground);
    m.indices.push(base);
    m.indices.push(base + 1);
    m.indices.push(base + 2);
    m.indices.push(base + 3);
    m.indices.push(base + 2);
    m.indices.push(base + 1);
    assert(m.vertices@ =~= v0 + Seq::new(4, |c: int| corner_spec(w, h, l, x as int, y as int, c)));
    assert(m.normals@ =~= n0 + Seq::new(4, |c: int| (0i8, 1i8, 0i8)));
    assert(m.uvs@ =~= t0 + Seq::new(
        4,
        |c: int|
            uv_corner(
                glyph_rect(cell_at(cells@, w, h, x as int, y as int).glyph, chars_per_row, n_rows),
                c,
            ),
    ));
    assert(m.colors@ =~= c0 + Seq::new(
        4,
        |c: int| cell_at(cells@, w, h, x as int, y as int).foreground,
    ));
    assert(m.indices@ =~= i0 + Seq::new(6, |j: int| (v0.len() + tri_corner(j)) as u32));
}

/// Builds the mesh of a `width` by `height` grid of `cells`.
pub fn build_quads(
    cells: &Vec<Cell>,
    width: usize,
    height: usize,
    l: QuadLayout,
    chars_per_row: u16,
    n_rows: u16,
) -> (r: MeshBuffers)
    requires
        grid_fits(cells@, width as int, height as int),
        chars_per_row > 0,
        n_rows > 0,
    ensures
        r@ == mesh_spec(cells@, width as int, height as int, l, chars_per_row, n_rows),
{
    let ghost w = width as int;
    let ghost h = height as int;
    let ghost want = mesh_spec(cells@, w, h, l, chars_per_row, n_rows);
    assert(w * h * 4 == 4 * w * h && w * h * 6 == 6 * w * h && 6 * w * h == 6 * (w * h))
        by (nonlinear_arith);
    let n_cells = width * height;
    let mut m = MeshBuffers {
        vertices: Vec::with_capacity(n_cells * 4),
        normals: Vec::with_capacity(n_cells * 4),
        uvs: Vec::with_capacity(n_cells * 4),
        colors: Vec::with_capacity(n_cells * 4),
        indices: Vec::with_capacity(n_cells * 6),
    };
    let mut q: usize = 0;
    let mut x: usize = 0;
    let mut y: usize = 0;
    while q < n_cells
        invariant
            grid_fits(cells@, w, h),
            w == width,
            h == height,
            chars_per_row > 0,
            n_rows > 0,
            n_cells == w * h,
            6 * n_cells <= u32::MAX,
            want == mesh_spec(cells@, w, h, l, chars_per_row, n_rows),
            q <= n_cells,
            q == y * w + x,
            0 <= x,
            w > 0 ==> x < w,
            m.vertices@.len() == 4 * q,
            m.normals@.len() == 4 * q,
            m.uvs@.len() == 4 * q,
            m.colors@.len() == 4 * q,
            m.indices@.len() == 6 * q,
            forall|k: int| 0 <= k < 4 * q ==> #[trigger] m.vertices@[k] == vertex_spec(w, h, l, k),
            forall|k: int| 0 <= k < 4 * q ==> #[trigger] m.normals@[k] == (0i8, 1i8, 0i8),
            forall|k: int|
                0 <= k < 4 * q ==> #[trigger] m.uvs@[k] == uv_spec(
                    cells@,
                    w,
                    h,
                    chars_per_row,
                    n_rows,
                    k,
                ),
            forall|k: int|
                0 <= k < 4 * q ==> #[trigger] m.colors@[k] == source_cell(cells@, w, h, k).foreground,
            forall|k: int| 0 <= k < 6 * q ==> #[trigger] m.indices@[k] == index_spec(k),
        decreases n_cells - q,
    {
        proof {
            assert(w > 0 && h > 0) by (nonlinear_arith)
                requires q < n_cells, n_cells == w * h, w >= 0, h >= 0;
            assert(y < h) by (nonlinear_arith)
                requires q == y * w + x, q < w * h, x >= 0, w > 0, y >= 0;
            assert(6 * q + 6 <= 6 * w * h) by (nonlinear_arith)
                requires q < w * h;
            vstd::arithmetic::div_mod::lemma_fundamental_div_mod_converse(q as int, w, y as int, x as int);
        }
        push_quad(&mut m, cells, width, height, l, chars_per_row, n_rows, x, y);
        proof {
            let qi = q as int;
            assert forall|c: int| 0 <= c < 4 implies {
                &&& #[trigger] m.vertices@[4 * qi + c] == vertex_spec(w, h, l, 4 * qi + c)
                &&& m.normals@[4 * qi + c] == (0i8, 1i8, 0i8)
                &&& m.uvs@[4 * qi + c] == uv_spec(cells@, w, h, chars_per_row, n_rows, 4 * qi + c)
                &&& m.colors@[4 * qi + c] == source_cell(cells@, w, h, 4 * qi + c).foreground
            } by {
                lemma_slot(4 * qi + c, qi, c, 4);
            }
            assert forall|c: int| 0 <= c < 6 implies #[trigger] m.indices@[6 * qi + c] == index_spec(
                6 * qi + c,
            ) by {
                lemma_slot(6 * qi + c, qi, c, 6);
            }
        }
        q = q + 1;
        x = x + 1;
        if x == width {
            proof {
                assert((y + 1) * w == y * w + w) by (nonlinear_arith);
            }
            x = 0;
            y = y + 1;
        }
    }
    let r = m;
    assert(r@.vertices =~= want.vertices);
    assert(r@.normals =~= want.normals);
    assert(r@.uvs =~= want.uvs);
    assert(r@.colors =~= want.colors);
    assert(r@.indices =~= want.indices);
    r
}

/// Builds the sparse mesh of a `width` by `height` grid of `cells`.
pub fn build_sparse_quads(
    cells: &Vec<Cell>,
    width: usize,
    height: usize,
    l: QuadLayout,
    chars_per_row: u16,
    n_rows: u16,
) -> (r: MeshBuffers)
    requires
        grid_fits(cells@, width as int, height as int),
        chars_per_row > 0,
        n_rows > 0,
    ensures
        r@ == sparse_mesh_spec(cells@, width as int, height as int, l, chars_per_row, n_rows),
{
    let ghost w = width as int;
    let ghost h = height as int;
    let ghost want = sparse_mesh_spec(cells@, w, h, l, chars_per_row, n_rows);
    assert(w * h * 6 == 6 * w * h && 6 * w * h == 6 * (w * h)) by (nonlinear_arith);
    let n_cells = width * height;
    let mut m = MeshBuffers {
        vertices: Vec::new(),
        normals: Vec::new(),
        uvs: Vec::new(),
        colors: Vec::new(),
        indices: Vec::new(),
    };
    let ghost mut kept: Seq<int> = Seq::empty();
    let mut q: usize = 0;
    let mut x: usize = 0;
    let mut y: usize = 0;
    while q < n_cells
        invariant
            grid_fits(cells@, w, h),
            w == width,
            h == height,
            chars_per_row > 0,
            n_rows > 0,
            n_cells == w * h,
            6 * n_cells <= u32::MAX,
            want == sparse_mesh_spec(cells@, w, h, l, chars_per_row, n_rows),
            q <= n_cells,
            q == y * w + x,
            0 <= x,
            w > 0 ==> x < w,
            kept == kept_quads(cells@, w, h, q as nat),
            kept.len() <= q,
            m.vertices@.len() == 4 * kept.len(),
            m.normals@.len() == 4 * kept.len(),
            m.uvs@.len() == 4 * kept.len(),
            m.colors@.len() == 4 * kept.len(),
            m.indices@.len() == 6 * kept.len(),
            forall|j: int, c: int|
                0 <= j < kept.len() && 0 <= c < 4 ==> #[trigger] m.vertices@[4 * j + c] == corner_spec(
                    w,
                    h,
                    l,
                    kept[j] % w,
                    kept[j] / w,
                    c,
                ),
            forall|j: int, c: int|
                0 <= j < kept.len() && 0 <= c < 4 ==> #[trigger] m.normals@[4 * j + c] == (
                    0i8,
                    1i8,
                    0i8,
                ),
            forall|j: int, c: int|
                0 <= j < kept.len() && 0 <= c < 4 ==> #[trigger] m.uvs@[4 * j + c] == uv_corner(
                    glyph_rect(
                        cell_at(cells@, w, h, kept[j] % w, kept[j] / w).glyph,
                        chars_per_row,
                        n_rows,
                    ),
                    c,
                ),
            forall|j: int, c: int|
                0 <= j < kept.len() && 0 <= c < 4 ==> #[trigger] m.colors@[4 * j + c] == cell_at(
                    cells@,
                    w,
                    h,
                    kept[j] % w,
                    kept[j] / w,
                ).foreground,
            forall|j: int, c: int|
                0 <= j < kept.len() && 0 <= c < 6 ==> #[trigger] m.indices@[6 * j + c] == (4 * j
                    + tri_corner(c)) as u32,
        decreases n_cells - q,
    {
        proof {
            assert(w > 0 && h > 0) by (nonlinear_arith)
                requires q < n_cells, n_cells == w * h, w >= 0, h >= 0;
            assert(y < h) by (nonlinear_arith)
                requires q == y * w + x, q < w * h, x >= 0, w > 0, y >= 0;
            vstd::arithmetic::div_mod::lemma_fundamental_div_mod_converse(q as int, w, y as int, x as int);
            lemma_at_in_bounds(w, h, x as int, y as int);
        }
        let cell = cells[(height - 1 - y) * width + x];
        if cell.glyph != BLANK_GLYPH {
            let ghost j = kept.len() as int;
            let ghost m0 = m;
            push_quad(&mut m, cells, width, height, l, chars_per_row, n_rows, x, y);
            proof {
                kept = kept.push(q as int);
                assert forall|j2: int, c: int| 0 <= j2 < kept.len() && 0 <= c < 4 implies #[trigger] m.vertices@[
                    4 * j2 + c] == corner_spec(w, h, l, kept[j2] % w, kept[j2] / w, c) by {
                    if j2 < j {
                        assert(m0.vertices@[4 * j2 + c] == m.vertices@[4 * j2 + c]);
                    }
                }
                assert forall|j2: int, c: int| 0 <= j2 < kept.len() && 0 <= c < 4 implies #[trigger] m.normals@[
                    4 * j2 + c] == (0i8, 1i8, 0i8) by {
                    if j2 < j {
                        assert(m0.normals@[4 * j2 + c] == m.normals@[4 * j2 + c]);
                    }
                }
                assert forall|j2: int, c: int| 0 <= j2 < kept.len() && 0 <= c < 4 implies #[trigger] m.uvs@[
                    4 * j2 + c] == uv_corner(
                    glyph_rect(
                        cell_at(cells@, w, h, kept[j2] % w, kept[j2] / w).glyph,
                        chars_per_row,
                        n_rows,
                    ),
                    c,
                ) by {
                    if j2 < j {
                        assert(m0.uvs@[4 * j2 + c] == m.uvs@[4 * j2 + c]);
                    }
                }
                assert forall|j2: int, c: int| 0 <= j2 < kept.len() && 0 <= c < 4 implies #[trigger] m.colors@[
                    4 * j2 + c] == cell_at(cells@, w, h, kept[j2] % w, kept[j2] / w).foreground by {
                    if j2 < j {
                        assert(m0.colors@[4 * j2 + c] == m.colors@[4 * j2 + c]);
                    }
                }
                assert forall|j2: int, c: int| 0 <= j2 < kept.len() && 0 <= c < 6 implies #[trigger] m.indices@[
                    6 * j2 + c] == (4 * j2 + tri_corner(c)) as u32 by {
                    if j2 < j {
                        assert(m0.indices@[6 * j2 + c] == m.indices@[6 * j2 + c]);
                    }
                }
            }
        }
        q = q + 1;
        x = x + 1;
        if x == width {
            proof {
                assert((y + 1) * w == y * w + w) by (nonlinear_arith);
            }
            x = 0;
            y = y + 1;
        }
    }
    proof {
        let n = kept.len() as int;
        assert forall|k: int| 0 <= k < 4 * n implies #[trigger] m.vertices@[k] == want.vertices[k] by {
            lemma_split(k, 4, n);
        }
        assert forall|k: int| 0 <= k < 4 * n implies #[trigger] m.normals@[k] == want.normals[k] by {
            lemma_split(k, 4, n);
        }
        assert forall|k: int| 0 <= k < 4 * n implies #[trigger] m.uvs@[k] == want.uvs[k] by {
            lemma_split(k, 4, n);
        }
        assert forall|k: int| 0 <= k < 4 * n implies #[trigger] m.colors@[k] == want.colors[k] by {
            lemma_split(k, 4, n);
        }
        assert forall|k: int| 0 <= k < 6 * n implies #[trigger] m.indices@[k] == want.indices[k] by {
            lemma_split(k, 6, n);
        }
    }
    let r = m;
    assert(r@.vertices =~= want.vertices);
    assert(r@.normals =~= want.normals);
    assert(r@.uvs =~= want.uvs);
    assert(r@.colors =~= want.colors);
    assert(r@.indices =~= want.indices);
    r
}

} // verus!
