//! The overlay builder: glyph quads sized by the font, lifted half a unit
//! above the background layer, each vertex coloured with its cell's
//! foreground so that glyphs blend over what lies beneath.

use crate::mesh::{build_quads, mesh_spec, MeshBuffers, QuadLayout};
use crate::scaler::{AtlasError, FontScaler};
use crate::simple_console::SimpleConsole;
use vstd::prelude::*;

verus! {

/// The depth of the overlay, in half units: half a unit above depth 0.
pub const OVERLAY_DEPTH: i64 = 1;

/// Builds the overlay mesh of a console of a fixed size.
#[derive(Clone, Copy, Debug)]
pub struct SimpleBackendNoBackground {
    pub font_height_pixels: (u16, u16),
    pub width: usize,
    pub height: usize,
    pub scaler: FontScaler,
}

impl SimpleBackendNoBackground {
    pub open spec fn wf(&self) -> bool {
        self.scaler.wf()
    }

    /// Glyph-sized cells at the overlay's depth.
    pub open spec fn layout(&self) -> QuadLayout {
        QuadLayout {
            cell_width: self.font_height_pixels.0,
            cell_height: self.font_height_pixels.1,
            depth: OVERLAY_DEPTH,
        }
    }

    /// Fails exactly when the atlas has no columns or no rows.
    pub fn new(
        chars_per_row: u16,
        n_rows: u16,
        font_height_pixels: (u16, u16),
        width: usize,
        height: usize,
    ) -> (r: Result<SimpleBackendNoBackground, AtlasError>)
        ensures
            r.is_ok() <==> chars_per_row > 0 && n_rows > 0,
            r.is_err() ==> r == Err::<SimpleBackendNoBackground, AtlasError>(
                AtlasError::InvalidAtlasGeometry,
            ),
            r matches Ok(b) ==> b.wf() && b.font_height_pixels == font_height_pixels && b.width
                == width && b.height == height && b.scaler.chars_per_row == chars_per_row
                && b.scaler.n_rows == n_rows,
    {
        match FontScaler::new(chars_per_row, n_rows, font_height_pixels) {
            Ok(scaler) => Ok(SimpleBackendNoBackground { font_height_pixels, width, height, scaler }),
            Err(e) => Err(e),
        }
    }

    /// The overlay mesh of `parent`, which must have this builder's size.
    pub fn build_mesh(&self, parent: &SimpleConsole) -> (r: MeshBuffers)
        requires
            self.wf(),
            parent.wf(),
            parent.width == self.width,
            parent.height == self.height,
        ensures
            r@ == mesh_spec(
                parent.terminal@,
                self.width as int,
                self.height as int,
                self.layout(),
                self.scaler.chars_per_row,
                self.scaler.n_rows,
            ),
            r.vertices@.len() == 4 * self.width * self.height,
            r.indices@.len() == 6 * self.width * self.height,
    {
        let layout = QuadLayout {
            cell_width: self.font_height_pixels.0,
            cell_height: self.font_height_pixels.1,
            depth: OVERLAY_DEPTH,
        };
        build_quads(
            &parent.terminal,
            self.width,
            self.height,
            layout,
            self.scaler.chars_per_row,
            self.scaler.n_rows,
        )
    }

    /// The on-screen size of one glyph, in pixels.
    pub fn get_pixel_size(&self) -> (r: (u16, u16))
        ensures
            r == self.font_height_pixels,
    {
        self.font_height_pixels
    }
}

} // verus!
