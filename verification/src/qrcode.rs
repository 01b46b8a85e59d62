//! The grid of modules of a symbol.

use vstd::prelude::*;

verus! {

/// The modules of a symbol as rows of cells: `grid[y][x]` is `None` while
/// the module at column `x` of row `y` is unset, and otherwise holds
/// whether the module is dark.
pub type Grid = Seq<Seq<Option<bool>>>;

/// Whether a grid is a square of the given side.
pub open spec fn square(grid: Grid, side: nat) -> bool {
    &&& grid.len() == side
    &&& forall|y: int| 0 <= y < side ==> (#[trigger] grid[y]).len() == side
}

/// The grid with the module at column `x` of row `y` set.
pub open spec fn put(grid: Grid, x: int, y: int, value: bool) -> Grid {
    grid.update(y, grid[y].update(x, Some(value)))
}

/// The grid of the given side in which no module is set.
pub open spec fn blank(side: nat) -> Grid {
    Seq::new(side, |y: int| Seq::new(side, |x: int| None))
}

/// Whether every module of the grid is set.
pub open spec fn complete(grid: Grid) -> bool {
    forall|x: int, y: int| 0 <= y < grid.len() && 0 <= x < grid[y].len() ==> grid[y][x] is Some
}

/// A symbol: a square grid of modules, each unset, light or dark.
#[derive(Debug)]
pub struct QRCode {
    matrix: Vec<bool>,
    some_matrix: Vec<bool>,
    dimension: usize,
}

/// Numbering the modules row by row gives every module of the square a
/// number of its own below the number of modules.
pub proof fn lemma_cell_index(side: int, x: int, y: int, x2: int, y2: int)
    by (nonlinear_arith)
    requires
        0 <= x < side,
        0 <= y < side,
        0 <= x2 < side,
        0 <= y2 < side,
    ensures
        0 <= y * side <= y * side + x < side * side,
        (y * side + x == y2 * side + x2) ==> (x == x2 && y == y2),
{
}

impl View for QRCode {
    type V = Grid;

    closed spec fn view(&self) -> Grid {
        Seq::new(self.dimension as nat, |y: int| Seq::new(self.dimension as nat, |x: int| self.at(x, y)))
    }
}

impl QRCode {
    /// The side of the grid.
    pub closed spec fn side(&self) -> nat {
        self.dimension as nat
    }

    /// The state of the module at column `x` of row `y`.
    pub closed spec fn at(&self, x: int, y: int) -> Option<bool> {
        if self.some_matrix@[y * self.dimension + x] {
            Some(self.matrix@[y * self.dimension + x])
        } else {
            None
        }
    }

    /// Whether the symbol holds a whole grid, in which only set modules are
    /// dark.
    pub closed spec fn wf(&self) -> bool {
        &&& self.matrix@.len() == self.dimension * self.dimension
        &&& self.some_matrix@.len() == self.dimension * self.dimension
        &&& forall|i: int|
            0 <= i < self.matrix@.len() ==> (self.matrix@[i] ==> self.some_matrix@[i])
    }

    /// The view is the square of the cells.
    pub proof fn lemma_view(&self)
        ensures
            square(self@, self.side()),
            forall|x: int, y: int|
                0 <= x < self.side() && 0 <= y < self.side() ==> self@[y][x] == #[trigger] self.at(
                    x,
                    y,
                ),
    {
    }

    /// A symbol shows a grid if it has its side and its cells.
    pub proof fn lemma_view_is(&self, grid: Grid)
        requires
            square(grid, self.side()),
            forall|x: int, y: int|
                0 <= x < self.side() && 0 <= y < self.side() ==> grid[y][x] == #[trigger] self.at(
                    x,
                    y,
                ),
        ensures
            self@ == grid,
    {
        assert forall|y: int| 0 <= y < self.side() implies #[trigger] self@[y] =~= grid[y] by {
            assert forall|x: int| 0 <= x < self.side() implies self@[y][x] == grid[y][x] by {
                assert(grid[y][x] == self.at(x, y));
            }
        }
        assert(self@ =~= grid);
    }

    /// A symbol of the given side in which no module is set.
    pub fn new(dimension: usize) -> (code: QRCode)
        requires
            dimension * dimension <= usize::MAX,
        ensures
            code.wf(),
            code.side() == dimension,
            code@ == blank(dimension as nat),
    {
        let code = QRCode {
            matrix: vec![false; dimension * dimension],
            some_matrix: vec![false; dimension * dimension],
            dimension,
        };
        proof {
            assert forall|x: int, y: int| 0 <= x < dimension && 0 <= y < dimension implies code.at(
                x,
                y,
            ) is None by {
                lemma_cell_index(dimension as int, x, y, x, y);
            }
            code.lemma_view_is(blank(dimension as nat));
        }
        code
    }

    /// Whether the module at column `x` of row `y` is dark.
    pub fn get(&self, x: usize, y: usize) -> (dark: bool)
        requires
            self.wf(),
            x < self.side(),
            y < self.side(),
        ensures
            dark == (self.at(x as int, y as int) == Some(true)),
            dark == (self@[y as int][x as int] == Some(true)),
    {
        proof {
            self.lemma_view();
            lemma_cell_index(self.dimension as int, x as int, y as int, x as int, y as int);
            assert(self.matrix.len() == self.dimension * self.dimension);
        }
        self.matrix[y * self.dimension + x]
    }

    /// Sets the module at column `x` of row `y`.
    pub fn set(&mut self, x: usize, y: usize, value: bool)
        requires
            old(self).wf(),
            x < old(self).side(),
            y < old(self).side(),
        ensures
            final(self).wf(),
            final(self).side() == old(self).side(),
            final(self).at(x as int, y as int) == Some(value),
            forall|x2: int, y2: int|
                0 <= x2 < old(self).side() && 0 <= y2 < old(self).side() && !(x2 == x && y2 == y)
                    ==> #[trigger] final(self).at(x2, y2) == old(self).at(x2, y2),
            final(self)@ == put(old(self)@, x as int, y as int, value),
    {
        proof {
            lemma_cell_index(self.dimension as int, x as int, y as int, x as int, y as int);
            assert(self.matrix.len() == self.dimension * self.dimension);
        }
        let index = y * self.dimension + x;
        self.matrix.set(index, value);
        self.some_matrix.set(index, true);
        proof {
            assert forall|x2: int, y2: int|
                0 <= x2 < old(self).side() && 0 <= y2 < old(self).side() && !(x2 == x && y2
                    == y) implies #[trigger] self.at(x2, y2) == old(self).at(x2, y2) by {
                lemma_cell_index(self.dimension as int, x2, y2, x as int, y as int);
            }
            old(self).lemma_view();
            self.lemma_view_is(put(old(self)@, x as int, y as int, value));
        }
    }

    /// Whether the module at column `x` of row `y` is still unset.
    pub fn is_empty(&self, x: usize, y: usize) -> (empty: bool)
        requires
            self.wf(),
            x < self.side(),
            y < self.side(),
        ensures
            empty == (self.at(x as int, y as int) is None),
            empty == (self@[y as int][x as int] is None),
    {
        proof {
            self.lemma_view();
            lemma_cell_index(self.dimension as int, x as int, y as int, x as int, y as int);
            assert(self.matrix.len() == self.dimension * self.dimension);
        }
        !self.some_matrix[y * self.dimension + x]
    }

    /// The side of the grid.
    pub fn dimension(&self) -> (side: usize)
        ensures
            side == self.side(),
    {
        self.dimension
    }

    /// A copy of the symbol.
    pub fn clone(&self) -> (copy: QRCode)
        ensures
            copy.side() == self.side(),
            copy@ == self@,
            self.wf() ==> copy.wf(),
            forall|x: int, y: int| copy.at(x, y) == self.at(x, y),
    {
        let matrix = self.matrix.clone();
        let some_matrix = self.some_matrix.clone();
        let copy = QRCode { matrix, some_matrix, dimension: self.dimension };
        proof {
            assert(copy.matrix@ =~= self.matrix@);
            assert(copy.some_matrix@ =~= self.some_matrix@);
            self.lemma_view();
            copy.lemma_view_is(self@);
        }
        copy
    }

    /// The side of the symbol of a version: `4 * version + 17` modules for
    /// the full-size versions 1 to 40, `2 * version - 71` for the Micro
    /// versions 41 to 44.
    pub open spec fn dimension_of(version: int) -> nat {
        if 1 <= version <= 40 {
            ((version - 1) * 4 + 21) as nat
        } else {
            ((version - 41) * 2 + 11) as nat
        }
    }

    /// Computes the side of the symbol of a version.
    pub fn calculate_dimension(version: usize) -> (side: usize)
        requires
            1 <= version <= 44,
        ensures
            side == Self::dimension_of(version as int),
            11 <= side <= 177,
            side % 2 == 1,
    {
        if version >= 1 && version <= 40 {
            (version - 1) * 4 + 21
        } else {
            (version - 41) * 2 + 11
        }
    }
}

} // verus!
