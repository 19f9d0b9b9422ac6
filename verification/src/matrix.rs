use vstd::prelude::*;

verus! {

use crate::raster::lemma_index_bound;
use vstd::arithmetic::div_mod::lemma_fundamental_div_mod;
use vstd::arithmetic::div_mod::lemma_fundamental_div_mod_converse;

/// A square grid of QR modules, stored row-major; `true` is a dark module.
#[derive(Debug)]
pub struct ModuleMatrix {
    pub side: usize,
    pub cells: Vec<bool>,
}

impl ModuleMatrix {
    /// The buffer holds exactly `side * side` cells.
    pub closed spec fn wf(self) -> bool {
        self.cells@.len() == self.side * self.side
    }

    /// Whether the module at column `x` of row `y` is dark.
    pub closed spec fn cell(self, x: int, y: int) -> bool {
        self.cells@[y * self.side + x]
    }

    /// The rows of the grid, top to bottom, as the mathematical model of
    /// the symbol.
    pub open spec fn rows(self) -> Seq<Seq<bool>> {
        Seq::new(
            self.side as nat,
            |y: int| Seq::new(self.side as nat, |x: int| self.cell(x, y)),
        )
    }

    /// Build a matrix from a row-major cell buffer; succeeds exactly when
    /// the buffer holds `side * side` cells.
    pub fn from_cells(side: usize, cells: Vec<bool>) -> (r: Option<ModuleMatrix>)
        ensures
            r is Some <==> cells@.len() == side * side,
            r matches Some(m) ==> {
                &&& m.wf()
                &&& m.side == side
                &&& forall|x: int, y: int|
                    0 <= x < side && 0 <= y < side ==> m.cell(x, y) == cells@[y * side + x]
            },
    {
        let len = cells.len();
        if side == 0 {
            if len == 0 {
                Some(ModuleMatrix { side, cells })
            } else {
                None
            }
        } else if len / side == side && len % side == 0 {
            proof {
                lemma_fundamental_div_mod(len as int, side as int);
            }
            Some(ModuleMatrix { side, cells })
        } else {
            proof {
                if len == side * side {
                    lemma_fundamental_div_mod_converse(
                        len as int, side as int, side as int, 0int,
                    );
                }
            }
            None
        }
    }

    /// Whether the module at `(x, y)` is dark.
    pub fn module(&self, x: usize, y: usize) -> (dark: bool)
        requires
            self.wf(),
            x < self.side,
            y < self.side,
        ensures
            dark == self.cell(x as int, y as int),
    {
        let _len: usize = self.cells.len();
        proof {
            lemma_index_bound(x as int, y as int, self.side as int, self.side as int);
        }
        self.cells[y * self.side + x]
    }

    /// Two well-formed matrices with the same model agree cell for cell.
    pub proof fn lemma_rows_determine_cells(a: ModuleMatrix, b: ModuleMatrix)
        requires
            a.rows() == b.rows(),
        ensures
            a.side == b.side,
            forall|x: int, y: int|
                0 <= x < a.side && 0 <= y < a.side ==> a.cell(x, y) == b.cell(x, y),
    {
        assert(a.rows().len() == a.side as nat);
        assert(b.rows().len() == b.side as nat);
        assert forall|x: int, y: int|
            0 <= x < a.side && 0 <= y < a.side implies a.cell(x, y) == b.cell(x, y) by {
            assert(a.rows()[y] == Seq::new(a.side as nat, |i: int| a.cell(i, y)));
            assert(b.rows()[y] == Seq::new(b.side as nat, |i: int| b.cell(i, y)));
            assert(a.rows()[y][x] == a.cell(x, y));
            assert(b.rows()[y][x] == b.cell(x, y));
        }
    }
}

} // verus!
