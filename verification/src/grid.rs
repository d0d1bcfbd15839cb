//! A level's solid-cell grid: the raw input to collision-mesh building.

use vstd::prelude::*;

verus! {

/// Mathematical model of a level grid: its cell dimensions and the set of
/// solid cell coordinates, each pair `(x, y)` with `x` a column and `y` a row.
#[verifier::ext_equal]
pub ghost struct GridModel {
    pub width: int,
    pub height: int,
    pub cells: Set<(int, int)>,
}

impl GridModel {
    /// A cell is solid exactly when its coordinates are in the solid set.
    pub open spec fn is_solid(self, x: int, y: int) -> bool {
        self.cells.contains((x, y))
    }

    /// Well-formed grids keep every solid cell inside the level bounds.
    pub open spec fn wf(self) -> bool {
        &&& 0 <= self.width
        &&& 0 <= self.height
        &&& forall|p: (int, int)|
            self.cells.contains(p) ==> 0 <= p.0 < self.width && 0 <= p.1 < self.height
    }
}

/// A level's grid of solid cells, stored row-major: cell `(x, y)` is solid
/// when `solid[y * width + x]` holds. Immutable once a level is loaded.
pub struct SolidGrid {
    pub width: usize,
    pub height: usize,
    pub solid: Vec<bool>,
}

impl View for SolidGrid {
    type V = GridModel;

    open spec fn view(&self) -> GridModel {
        GridModel {
            width: self.width as int,
            height: self.height as int,
            cells: Set::new(
                |p: (int, int)|
                    0 <= p.0 < self.width && 0 <= p.1 < self.height && self.solid@[p.1
                        * self.width + p.0],
            ),
        }
    }
}

impl SolidGrid {
    /// The stored row-major vector matches the declared dimensions.
    pub open spec fn wf(self) -> bool {
        &&& self.solid@.len() == self.width * self.height
        &&& self.width < usize::MAX
        &&& self.height < usize::MAX
    }

    /// A well-formed grid has a well-formed model.
    pub proof fn lemma_wf_model(self)
        requires
            self.wf(),
        ensures
            self@.wf(),
    {
    }

    /// Builds a grid from its dimensions and a row-major solidity vector.
    pub fn new(width: usize, height: usize, solid: Vec<bool>) -> (g: SolidGrid)
        requires
            solid@.len() == width * height,
            width < usize::MAX,
            height < usize::MAX,
        ensures
            g.wf(),
            g.width == width,
            g.height == height,
            g.solid@ == solid@,
    {
        SolidGrid { width, height, solid }
    }

    /// Reads one cell's solidity.
    pub fn is_solid(&self, x: usize, y: usize) -> (r: bool)
        requires
            self.wf(),
            x < self.width,
            y < self.height,
        ensures
            r == self@.is_solid(x as int, y as int),
    {
        let n: usize = self.solid.len();
        proof {
            lemma_row_major_index(self.width as int, self.height as int, x as int, y as int);
            assert(y * self.width + x < self.width * self.height);
            assert(self.width * self.height == n);
        }
        self.solid[y * self.width + x]
    }
}

/// Row-major indexing stays inside a `width * height` vector.
pub proof fn lemma_row_major_index(width: int, height: int, x: int, y: int)
    requires
        0 <= x < width,
        0 <= y < height,
    ensures
        0 <= y * width + x < width * height,
{
    assert(y * width + x < width * height) by (nonlinear_arith)
        requires
            0 <= x < width,
            0 <= y < height,
    ;
    assert(0 <= y * width) by (nonlinear_arith)
        requires
            0 <= y,
            0 <= width,
    ;
}

} // verus!
