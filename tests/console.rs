use bracket_bevy::glyph_table::GlyphTable;
use bracket_bevy::mesh::MeshBuffers;
use bracket_bevy::scaler::{AtlasError, AtlasRect, FontScaler};
use bracket_bevy::simple_console::{Cell, GridError, Rgba, SimpleConsole, BLANK_GLYPH};
use bracket_bevy::simple_no_background::SimpleBackendNoBackground;
use bracket_bevy::terminal_layer::{MeshStrategy, SimpleConsoleFeatures, TerminalLayer};

fn rect(u0: u32, v0: u32, u1: u32, v1: u32) -> AtlasRect {
    AtlasRect { u0, v0, u1, v1 }
}

fn quad_uvs(r: AtlasRect) -> Vec<(u32, u32)> {
    vec![(r.u0, r.v1), (r.u1, r.v1), (r.u0, r.v0), (r.u1, r.v0)]
}

fn red() -> Rgba {
    Rgba { r: 255, g: 0, b: 0, a: 255 }
}

#[test]
fn at_is_a_bijection_onto_storage() {
    let c = SimpleConsole::new(0, 3, 2);
    let mut seen = vec![false; 6];
    for y in 0..2 {
        for x in 0..3 {
            let i = c.at(x, y);
            assert!(i < 6);
            assert!(!seen[i]);
            seen[i] = true;
        }
    }
    assert!(seen.iter().all(|s| *s));
    assert_eq!(c.at(0, 1), 0);
    assert_eq!(c.at(0, 0), 3);
    assert_eq!(c.at(2, 0), 5);
}

#[test]
fn new_console_is_blank_white() {
    let c = SimpleConsole::new(2, 4, 3);
    assert_eq!(c.font_index, 2);
    assert_eq!(c.terminal.len(), 12);
    for cell in c.terminal.iter() {
        assert_eq!(cell.glyph, BLANK_GLYPH);
        assert_eq!(cell.foreground, Rgba::white());
    }
}

#[test]
fn cls_blanks_every_cell_and_keeps_colours() {
    let mut c = SimpleConsole::new(0, 3, 3);
    c.print(0, 0, "abc").unwrap();
    c.print(1, 2, "xy").unwrap();
    c.set(2, 1, Cell { glyph: 7, foreground: red() }).unwrap();
    c.cls();
    for y in 0..3 {
        for x in 0..3 {
            assert_eq!(c.get(x, y).unwrap().glyph, BLANK_GLYPH);
        }
    }
    assert_eq!(c.get(2, 1).unwrap().foreground, red());
}

#[test]
fn print_sets_consecutive_cells_only() {
    let mut c = SimpleConsole::new(0, 4, 3);
    let before = c.terminal.clone();
    assert_eq!(c.print(1, 2, "AB"), Ok(()));
    assert_eq!(c.get(1, 2).unwrap().glyph, 65);
    assert_eq!(c.get(2, 2).unwrap().glyph, 66);
    for y in 0..3 {
        for x in 0..4 {
            if y == 2 && (x == 1 || x == 2) {
                continue;
            }
            assert_eq!(c.get(x, y).unwrap(), before[c.at(x, y)]);
        }
    }
}

#[test]
fn print_out_of_bounds_changes_nothing() {
    let mut c = SimpleConsole::new(0, 4, 2);
    assert_eq!(c.print(3, 0, "AB"), Err(GridError::OutOfBounds));
    assert_eq!(c.print(0, 2, "A"), Err(GridError::OutOfBounds));
    assert_eq!(c.print(5, 0, ""), Err(GridError::OutOfBounds));
    assert!(c.terminal.iter().all(|cell| cell.glyph == BLANK_GLYPH));
    assert_eq!(c.print(2, 0, "AB"), Ok(()));
    assert_eq!(c.print(4, 1, ""), Ok(()));
}

#[test]
fn set_and_get_bounds() {
    let mut c = SimpleConsole::new(0, 2, 2);
    let cell = Cell { glyph: 1, foreground: red() };
    assert_eq!(c.set(2, 0, cell), Err(GridError::OutOfBounds));
    assert_eq!(c.set(0, 2, cell), Err(GridError::OutOfBounds));
    assert_eq!(c.set(1, 1, cell), Ok(()));
    assert_eq!(c.get(1, 1), Some(cell));
    assert_eq!(c.terminal[1], cell);
    assert_eq!(c.get(0, 2), None);
}

#[test]
fn encoding_uses_the_table_and_falls_back() {
    let t = GlyphTable::identity();
    assert_eq!(t.encode("Az~"), vec![65, 122, 126]);
    assert_eq!(t.encode("\u{e9}"), vec![233]);
    assert_eq!(t.encode("a\u{263a}b"), vec![97, 63, 98]);
    assert_eq!(t.encode(""), Vec::<u16>::new());
    let mut entries: Vec<u16> = (0..256).map(|i| 255 - i as u16).collect();
    entries[63] = 500;
    let custom = GlyphTable::new(entries).unwrap();
    assert_eq!(custom.encode("A\u{2603}"), vec![190, 500]);
    assert!(GlyphTable::new(vec![0; 255]).is_none());
}

#[test]
fn texture_coords_first_last_and_clamped() {
    let c = SimpleConsole::new(0, 1, 1);
    assert_eq!(c.texture_coords(0, 16, 16), rect(0, 0, 1, 1));
    assert_eq!(c.texture_coords(255, 16, 16), rect(15, 15, 16, 16));
    assert_eq!(c.texture_coords(65, 16, 16), rect(1, 4, 2, 5));
    assert_eq!(c.texture_coords(300, 16, 16), rect(15, 15, 16, 16));
    assert_eq!(c.texture_coords(23, 8, 4), rect(7, 2, 8, 3));
    assert_eq!(c.texture_coords(31, 8, 4), rect(7, 3, 8, 4));
}

#[test]
fn scaler_refuses_empty_atlas() {
    assert_eq!(FontScaler::new(0, 16, (8, 8)).unwrap_err(), AtlasError::InvalidAtlasGeometry);
    assert_eq!(FontScaler::new(16, 0, (8, 8)).unwrap_err(), AtlasError::InvalidAtlasGeometry);
    let s = FontScaler::new(16, 16, (8, 8)).unwrap();
    assert_eq!(s.texture_coords(65), rect(1, 4, 2, 5));
}

#[test]
fn mesh_buffer_sizes() {
    for (w, h) in [(0usize, 3usize), (1, 1), (3, 2), (5, 4)] {
        let m = SimpleConsole::new(0, w, h).build_mesh(16, 16);
        assert_eq!(m.vertices.len(), 4 * w * h);
        assert_eq!(m.normals.len(), 4 * w * h);
        assert_eq!(m.uvs.len(), 4 * w * h);
        assert_eq!(m.colors.len(), 4 * w * h);
        assert_eq!(m.indices.len(), 6 * w * h);
    }
}

fn same(a: &MeshBuffers, b: &MeshBuffers) -> bool {
    a.vertices == b.vertices
        && a.normals == b.normals
        && a.uvs == b.uvs
        && a.colors == b.colors
        && a.indices == b.indices
}

#[test]
fn mesh_is_deterministic() {
    let mut c = SimpleConsole::new(0, 5, 3);
    c.print(0, 1, "Hello").unwrap();
    let a = c.build_mesh(16, 16);
    let b = c.build_mesh(16, 16);
    assert!(same(&a, &b));
}

#[test]
fn two_by_two_grid_of_a() {
    let mut c = SimpleConsole::new(0, 2, 2);
    c.print(0, 0, "AA").unwrap();
    c.print(0, 1, "AA").unwrap();
    let m = c.build_mesh(16, 16);
    assert_eq!(m.vertices.len(), 16);
    assert_eq!(m.indices.len(), 24);
    let want = quad_uvs(c.texture_coords(65, 16, 16));
    for q in 0..4 {
        assert_eq!(m.uvs[4 * q..4 * q + 4].to_vec(), want);
    }
}

#[test]
fn quad_positions_winding_and_normals() {
    let c = SimpleConsole::new(0, 2, 2);
    let m = c.build_mesh(16, 16);
    assert_eq!(m.vertices[0..4].to_vec(), vec![(-16, -16, 0), (0, -16, 0), (-16, 0, 0), (0, 0, 0)]);
    assert_eq!(m.vertices[12..16].to_vec(), vec![(0, 0, 0), (16, 0, 0), (0, 16, 0), (16, 16, 0)]);
    assert_eq!(m.indices[0..12].to_vec(), vec![0, 1, 2, 3, 2, 1, 4, 5, 6, 7, 6, 5]);
    assert!(m.normals.iter().all(|n| *n == (0, 1, 0)));
}

#[test]
fn bottom_row_of_screen_reads_last_stored_row() {
    let mut c = SimpleConsole::new(0, 1, 2);
    c.print(0, 1, "B").unwrap();
    c.print(0, 0, "A").unwrap();
    assert_eq!(c.terminal[0].glyph, 66);
    let m = c.build_mesh(16, 16);
    assert_eq!(m.uvs[0..4].to_vec(), quad_uvs(rect(1, 4, 2, 5)));
    assert_eq!(m.uvs[4..8].to_vec(), quad_uvs(rect(2, 4, 3, 5)));
    assert_eq!(c.build_uvs(16, 16), m.uvs);
}

#[test]
fn overlay_mesh_uses_font_size_depth_and_foreground() {
    let mut c = SimpleConsole::new(0, 2, 1);
    c.set(1, 0, Cell { glyph: 65, foreground: red() }).unwrap();
    let b = SimpleBackendNoBackground::new(16, 16, (10, 12), 2, 1).unwrap();
    assert_eq!(b.get_pixel_size(), (10, 12));
    let m = b.build_mesh(&c);
    assert_eq!(m.vertices[0..4].to_vec(), vec![(-20, -12, 1), (0, -12, 1), (-20, 12, 1), (0, 12, 1)]);
    assert_eq!(m.vertices[4], (0, -12, 1));
    assert!(m.colors[0..4].iter().all(|col| *col == Rgba::white()));
    assert!(m.colors[4..8].iter().all(|col| *col == red()));
    assert_eq!(m.uvs[4..8].to_vec(), quad_uvs(rect(1, 4, 2, 5)));
    assert!(SimpleBackendNoBackground::new(0, 16, (8, 8), 2, 1).is_err());
}

#[test]
fn layer_selects_builder() {
    let plain = TerminalLayer::Simple { font_index: 0, width: 80, height: 50, features: vec![] };
    assert_eq!(plain.strategy(), MeshStrategy::Solid);
    assert!(!plain.always_rebuild());
    let overlay = TerminalLayer::Simple {
        font_index: 0,
        width: 80,
        height: 50,
        features: vec![SimpleConsoleFeatures::NoDirtyOptimization, SimpleConsoleFeatures::WithoutBackground],
    };
    assert_eq!(overlay.strategy(), MeshStrategy::NoBackground);
    assert!(overlay.always_rebuild());
    assert!(overlay.has_feature(SimpleConsoleFeatures::WithoutBackground));
    let sparse = TerminalLayer::Sparse { font_index: 1, width: 10, height: 10 };
    assert_eq!(sparse.strategy(), MeshStrategy::Sparse);
    assert!(!sparse.has_feature(SimpleConsoleFeatures::NoDirtyOptimization));
}

#[test]
fn sparse_mesh_keeps_only_non_blank_cells() {
    let mut c = SimpleConsole::new(0, 2, 2);
    let empty = c.build_sparse_mesh(16, 16);
    assert!(empty.vertices.is_empty() && empty.indices.is_empty());
    c.print(0, 1, "A").unwrap();
    c.print(1, 0, "B").unwrap();
    let dense = c.build_mesh(16, 16);
    let sparse = c.build_sparse_mesh(16, 16);
    assert_eq!(sparse.vertices.len(), 8);
    assert_eq!(sparse.indices, vec![0, 1, 2, 3, 2, 1, 4, 5, 6, 7, 6, 5]);
    // Dense quad 1 is cell (1, 0), quad 2 is cell (0, 1).
    assert_eq!(sparse.vertices[0..4].to_vec(), dense.vertices[4..8].to_vec());
    assert_eq!(sparse.vertices[4..8].to_vec(), dense.vertices[8..12].to_vec());
    assert_eq!(sparse.uvs[0..4].to_vec(), quad_uvs(rect(2, 4, 3, 5)));
    assert_eq!(sparse.uvs[4..8].to_vec(), quad_uvs(rect(1, 4, 2, 5)));
    assert_eq!(sparse.colors, dense.colors[4..12].to_vec());
    assert!(sparse.normals.iter().all(|n| *n == (0, 1, 0)));
}

#[test]
fn dirty_flag_tracks_writes_since_last_build() {
    let mut c = SimpleConsole::new(0, 3, 1);
    assert!(c.needs_rebuild(false));
    c.mark_built();
    assert!(!c.needs_rebuild(false));
    assert!(c.needs_rebuild(true));
    assert_eq!(c.print(2, 0, "AB"), Err(GridError::OutOfBounds));
    assert!(!c.dirty);
    c.print(0, 0, "A").unwrap();
    assert!(c.needs_rebuild(false));
    c.mark_built();
    c.set(1, 0, Cell { glyph: 2, foreground: red() }).unwrap();
    assert!(c.dirty);
    c.mark_built();
    c.cls();
    assert!(c.dirty);
}

#[test]
fn marker_holds_console_index() {
    let m = bracket_bevy::simple_console::SimpleConsoleMarker(3);
    assert_eq!(m.0, 3);
    assert_eq!(m, bracket_bevy::simple_console::SimpleConsoleMarker(3));
}
