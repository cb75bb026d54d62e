//! The configuration of one console layer, and the builder it selects.

use vstd::prelude::*;

verus! {

/// Options of a simple layer.
#[derive(Clone, Copy, Debug, PartialEq, Eq, Structural, Hash)]
pub enum SimpleConsoleFeatures {
    /// Draw glyphs alone, coloured, over whatever lies beneath.
    WithoutBackground,
    /// Rebuild the mesh every frame instead of only when the grid changed.
    NoDirtyOptimization,
}

/// One console layer: its font, its size in cells, and how it is drawn.
#[derive(Clone, Debug)]
pub enum TerminalLayer {
    Simple {
        font_index: usize,
        width: usize,
        height: usize,
        /// A set of options; an option named twice counts once.
        features: Vec<SimpleConsoleFeatures>,
    },
    Sparse { font_index: usize, width: usize, height: usize },
}

/// The mesh builder that a layer is drawn with.
#[derive(Clone, Copy, Debug, PartialEq, Eq, Structural)]
pub enum MeshStrategy {
    /// Fixed-size cells at depth 0.
    Solid,
    /// Font-sized, coloured glyph quads above the background.
    NoBackground,
    /// Quads for the non-blank cells only.
    Sparse,
}

fn contains_feature(features: &Vec<SimpleConsoleFeatures>, f: SimpleConsoleFeatures) -> (r: bool)
    ensures
        r == features@.contains(f),
{
    let mut i: usize = 0;
    while i < features.len()
        invariant
            i <= features@.len(),
            forall|j: int| 0 <= j < i ==> features@[j] != f,
        decreases features@.len() - i,
    {
        if features[i] == f {
            assert(features@[i as int] == f);
            return true;
        }
        i = i + 1;
    }
    false
}

impl TerminalLayer {
    /// Whether the layer is simple and has option `f`.
    pub open spec fn has_spec(&self, f: SimpleConsoleFeatures) -> bool {
        match self {
            TerminalLayer::Simple { features, .. } => features@.contains(f),
            TerminalLayer::Sparse { .. } => false,
        }
    }

    pub fn has_feature(&self, f: SimpleConsoleFeatures) -> (r: bool)
        ensures
            r == self.has_spec(f),
    {
        match self {
            TerminalLayer::Simple { features, .. } => contains_feature(features, f),
            TerminalLayer::Sparse { .. } => false,
        }
    }

    /// A sparse layer has its own builder; a simple one draws without
    /// background exactly when it has that option.
    pub fn strategy(&self) -> (r: MeshStrategy)
        ensures
            r == (match self {
                TerminalLayer::Sparse { .. } => MeshStrategy::Sparse,
                TerminalLayer::Simple { .. } => if self.has_spec(
                    SimpleConsoleFeatures::WithoutBackground,
                ) {
                    MeshStrategy::NoBackground
                } else {
                    MeshStrategy::Solid
                },
            }),
    {
        match self {
            TerminalLayer::Sparse { .. } => MeshStrategy::Sparse,
            TerminalLayer::Simple { .. } => {
                if self.has_feature(SimpleConsoleFeatures::WithoutBackground) {
                    MeshStrategy::NoBackground
                } else {
                    MeshStrategy::Solid
                }
            },
        }
    }

    /// Whether the mesh is rebuilt every frame, changed or not.
    pub fn always_rebuild(&self) -> (r: bool)
        ensures
            r == self.has_spec(SimpleConsoleFeatures::NoDirtyOptimization),
    {
        self.has_feature(SimpleConsoleFeatures::NoDirtyOptimization)
    }
}

} // verus!
