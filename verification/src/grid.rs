//! The square grid on which the particles of the net are laid out.

use vstd::prelude::*;
use vstd::arithmetic::power::pow;

verus! {

/// Number of particles along each side of the net.
pub const NUM_INSTANCES_PER_ROW: u32 = 31;

/// `cgmath::num_traits::pow` on `u32`: exponentiation by squaring.
///
/// Trusted: the result is `base` raised to `exp`. The function multiplies
/// only powers `base^(2^k)` with `2^k <= exp` and partial products of the
/// result, so none of its multiplications overflows when the result fits in
/// a `u32`; that is what `requires` asks (an overflowing multiplication
/// panics in a debug build).
#[verifier::external_body]
fn num_pow_u32(base: u32, exp: usize) -> (r: u32)
    requires
        pow(base as int, exp as nat) <= u32::MAX,
    ensures
        r == pow(base as int, exp as nat),
{
    cgmath::num_traits::pow(base, exp)
}

/// Number of particles in a net of `per_row` by `per_row` particles.
pub fn instance_count(per_row: u32) -> (n: u32)
    requires
        per_row * per_row <= u32::MAX,
    ensures
        n == per_row * per_row,
{
    proof {
        vstd::arithmetic::power::lemma_square_is_pow2(per_row as int);
    }
    num_pow_u32(per_row, 2)
}

} // verus!

verus! {

/// Column and row of the grid cell that holds particle `index`.
pub open spec fn cell_of(per_row: int, index: int) -> (int, int) {
    (index % per_row, index / per_row)
}

/// Index of the particle in column `col` and row `row`.
pub open spec fn index_of(per_row: int, col: int, row: int) -> int {
    row * per_row + col
}

/// Whether column `col` and row `row` lie on a grid of `per_row` by `per_row` cells.
pub open spec fn in_grid(per_row: int, col: int, row: int) -> bool {
    &&& 0 <= col < per_row
    &&& 0 <= row < per_row
}

/// Numbering the cells row by row is a bijection between the cells of the
/// grid and the particle indices `0 .. per_row * per_row`: a cell's index
/// leads back to the cell, and a particle's cell leads back to the index.
pub proof fn lemma_cell_index_roundtrip(per_row: int, col: int, row: int, index: int)
    requires
        per_row > 0,
    ensures
        in_grid(per_row, col, row) ==> {
            &&& cell_of(per_row, index_of(per_row, col, row)) == (col, row)
            &&& 0 <= index_of(per_row, col, row) < per_row * per_row
        },
        0 <= index < per_row * per_row ==> {
            &&& in_grid(per_row, cell_of(per_row, index).0, cell_of(per_row, index).1)
            &&& index_of(per_row, cell_of(per_row, index).0, cell_of(per_row, index).1) == index
        },
{
    if in_grid(per_row, col, row) {
        vstd::arithmetic::div_mod::lemma_fundamental_div_mod_converse(
            row * per_row + col, per_row, row, col);
        assert(row * per_row + col < per_row * per_row) by (nonlinear_arith)
            requires 0 <= col < per_row, 0 <= row < per_row;
        assert(0 <= row * per_row) by (nonlinear_arith)
            requires 0 <= row, 0 < per_row;
    }
    if 0 <= index < per_row * per_row {
        vstd::arithmetic::div_mod::lemma_fundamental_div_mod(index, per_row);
        vstd::arithmetic::div_mod::lemma_div_pos_is_pos(index, per_row);
        vstd::arithmetic::div_mod::lemma_mod_bound(index, per_row);
        let q = index / per_row;
        let r = index % per_row;
        assert(q < per_row) by (nonlinear_arith)
            requires index == per_row * q + r, 0 <= r, index < per_row * per_row, per_row > 0;
        assert(q * per_row == per_row * q) by (nonlinear_arith);
    }
}

} // verus!

verus! {

/// The cell of the grid on which a particle starts.
#[derive(Clone, Copy, Debug, PartialEq, Eq)]
pub struct GridCell {
    pub col: u32,
    pub row: u32,
}

/// Cell of particle `index` on a grid `per_row` cells wide.
pub fn cell_of_index(per_row: u32, index: u32) -> (cell: GridCell)
    requires
        per_row > 0,
    ensures
        (cell.col as int, cell.row as int) == cell_of(per_row as int, index as int),
        cell.col == index % per_row,
        cell.row == index / per_row,
        cell.row * per_row + cell.col == index,
{
    proof {
        vstd::arithmetic::div_mod::lemma_fundamental_div_mod(index as int, per_row as int);
        assert((index / per_row) * per_row == per_row * (index / per_row)) by (nonlinear_arith);
    }
    GridCell { col: index % per_row, row: index / per_row }
}

/// The starting cells of all the particles of a `per_row` by `per_row`
/// net, in particle order: particle `i` starts in column `i % per_row` and
/// row `i / per_row`.
pub fn particle_cells(per_row: u32) -> (cells: Vec<GridCell>)
    requires
        per_row * per_row <= u32::MAX,
    ensures
        cells.len() == per_row * per_row,
        forall|i: int|
            0 <= i < cells.len() ==> (#[trigger] cells[i].col as int, cells[i].row as int)
                == cell_of(per_row as int, i),
        forall|i: int|
            0 <= i < cells.len() ==> {
                &&& #[trigger] cells[i].col == i % per_row as int
                &&& cells[i].row == i / per_row as int
                &&& cells[i].col < per_row
                &&& cells[i].row < per_row
                &&& cells[i].row * per_row + cells[i].col == i
            },
{
    let count = instance_count(per_row);
    let mut cells: Vec<GridCell> = Vec::new();
    let mut index: u32 = 0;
    while index < count
        invariant
            index <= count,
            count == per_row * per_row,
            cells.len() == index,
            forall|i: int|
                0 <= i < cells.len() ==> (#[trigger] cells[i].col as int, cells[i].row as int)
                    == cell_of(per_row as int, i),
        decreases count - index,
    {
        assert(per_row > 0) by (nonlinear_arith)
            requires index < count, count == per_row * per_row;
        cells.push(cell_of_index(per_row, index));
        index = index + 1;
    }
    assert forall|i: int| 0 <= i < cells.len() implies {
        &&& #[trigger] cells[i].col == i % per_row as int
        &&& cells[i].row == i / per_row as int
        &&& cells[i].col < per_row
        &&& cells[i].row < per_row
        &&& cells[i].row * per_row + cells[i].col == i
    } by {
        lemma_cell_index_roundtrip(per_row as int, 0, 0, i);
    }
    cells
}

} // verus!
