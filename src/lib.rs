//! A glyph-grid console and the builders that turn it into mesh buffers:
//! vertex positions, normals, atlas texture coordinates, colours and
//! triangle indices, all in exact integer units.
//!
//! - `scaler`: where a glyph lies in a font atlas.
//! - `glyph_table`: from text to glyph indices.
//! - `simple_console`: the grid of cells, its addressing and its writes.
//! - `mesh`: the quad builders, dense and sparse, and their models.
//! - `simple_no_background`: the coloured overlay builder.
//! - `terminal_layer`: a layer's configuration and the builder it selects.

pub mod glyph_table;
pub mod mesh;
pub mod scaler;
pub mod simple_console;
pub mod simple_no_background;
pub mod terminal_layer;
