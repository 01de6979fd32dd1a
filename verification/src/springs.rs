//! The three families of springs that hold the net together.

use vstd::prelude::*;

use crate::grid::{cell_of, in_grid, index_of, instance_count};

verus! {

/// The three kinds of springs of the net.
#[derive(Clone, Copy, Debug, PartialEq, Eq)]
pub enum SpringFamily {
    /// Structural springs: to the four direct neighbours (left, up, right, down).
    Stretch,
    /// To the four diagonal neighbours.
    Shear,
    /// To the four particles two cells away along a row or a column.
    Bend,
}

/// The index that a spring points at when its partner would lie off the grid.
pub open spec fn sentinel(per_row: int) -> int {
    per_row * per_row + 1
}

/// Offset (columns, rows) of the `k`-th spring, `0 <= k < 4`, that each
/// particle owns in `family`.
pub open spec fn spring_offset(family: SpringFamily, k: int) -> (int, int) {
    match family {
        SpringFamily::Stretch => {
            if k == 0 { (-1, 0) } else if k == 1 { (0, -1) } else if k == 2 { (1, 0) } else { (0, 1) }
        },
        SpringFamily::Shear => {
            if k == 0 { (-1, -1) } else if k == 1 { (-1, 1) } else if k == 2 { (1, -1) } else { (1, 1) }
        },
        SpringFamily::Bend => {
            if k == 0 { (-2, 0) } else if k == 1 { (0, -2) } else if k == 2 { (2, 0) } else { (0, 2) }
        },
    }
}

/// The particle at offset (`dc`, `dr`) from particle `index`, or the
/// sentinel where that cell lies off the grid.
pub open spec fn spring_partner(per_row: int, index: int, dc: int, dr: int) -> int {
    let (col, row) = cell_of(per_row, index);
    if in_grid(per_row, col + dc, row + dr) {
        index_of(per_row, col + dc, row + dr)
    } else {
        sentinel(per_row)
    }
}

/// `springs` is the list of the springs of `family` for a `per_row` by
/// `per_row` net: four per particle, in particle order, the `k`-th of them
/// going from the particle to its partner at `spring_offset(family, k)`.
pub open spec fn is_spring_list(per_row: int, family: SpringFamily, springs: Seq<[i32; 2]>) -> bool {
    &&& springs.len() == 4 * (per_row * per_row)
    &&& springs_match(per_row, family, springs)
}

/// Every entry of `springs` is the spring that its position in the list
/// calls for: entry `s` goes from particle `s / 4` to its partner at
/// `spring_offset(family, s % 4)`.
pub open spec fn springs_match(per_row: int, family: SpringFamily, springs: Seq<[i32; 2]>) -> bool {
    forall|s: int|
        #![trigger springs[s]]
        0 <= s < springs.len() ==> {
            &&& springs[s][0] == s / 4
            &&& springs[s][1] == spring_partner(
                per_row,
                s / 4,
                spring_offset(family, s % 4).0,
                spring_offset(family, s % 4).1,
            )
        }
}

/// The spring from particle `index` to its partner at offset (`dc`, `dr`).
fn spring_to(per_row: u32, index: u32, dc: i32, dr: i32, sentinel_index: i32) -> (spring: [i32; 2])
    requires
        per_row > 0,
        per_row * per_row < i32::MAX,
        index < per_row * per_row,
        -2 <= dc <= 2,
        -2 <= dr <= 2,
        sentinel_index == sentinel(per_row as int),
    ensures
        spring[0] == index,
        spring[1] == spring_partner(per_row as int, index as int, dc as int, dr as int),
{
    assert(per_row <= per_row * per_row) by (nonlinear_arith)
        requires per_row > 0;
    proof {
        crate::grid::lemma_cell_index_roundtrip(per_row as int, 0, 0, index as int);
    }
    let n = per_row as i32;
    let col = (index % per_row) as i32;
    let row = (index / per_row) as i32;
    assert(index == row * n + col);
    if col + dc >= 0 && col + dc < n && row + dr >= 0 && row + dr < n {
        proof {
            crate::grid::lemma_cell_index_roundtrip(
                per_row as int, col + dc, row + dr, index as int);
        }
        assert(index + dr * n + dc == (row + dr) * n + (col + dc)) by (nonlinear_arith)
            requires
                index == row * n + col;
        [index as i32, index as i32 + dr * n + dc]
    } else {
        [index as i32, sentinel_index]
    }
}

/// Offset of the `k`-th spring of `family`.
fn offset_of(family: SpringFamily, k: usize) -> (offset: (i32, i32))
    requires
        k < 4,
    ensures
        (offset.0 as int, offset.1 as int) == spring_offset(family, k as int),
{
    match family {
        SpringFamily::Stretch => {
            if k == 0 { (-1, 0) } else if k == 1 { (0, -1) } else if k == 2 { (1, 0) } else { (0, 1) }
        },
        SpringFamily::Shear => {
            if k == 0 { (-1, -1) } else if k == 1 { (-1, 1) } else if k == 2 { (1, -1) } else { (1, 1) }
        },
        SpringFamily::Bend => {
            if k == 0 { (-2, 0) } else if k == 1 { (0, -2) } else if k == 2 { (2, 0) } else { (0, 2) }
        },
    }
}

/// Appends the four springs of `family` that particle `index` owns.
fn push_particle_springs(
    springs: &mut Vec<[i32; 2]>,
    per_row: u32,
    index: u32,
    family: SpringFamily,
    sentinel_index: i32,
)
    requires
        per_row * per_row < i32::MAX,
        index < per_row * per_row,
        sentinel_index == sentinel(per_row as int),
        old(springs).len() == 4 * index,
        springs_match(per_row as int, family, old(springs)@),
    ensures
        final(springs).len() == 4 * (index + 1),
        springs_match(per_row as int, family, final(springs)@),
{
    assert(per_row > 0) by (nonlinear_arith)
        requires index < per_row * per_row;
    for k in 0..4usize
        invariant
            per_row > 0,
            per_row * per_row < i32::MAX,
            index < per_row * per_row,
            sentinel_index == sentinel(per_row as int),
            springs.len() == 4 * index + k,
            springs_match(per_row as int, family, springs@),
    {
        let (dc, dr) = offset_of(family, k);
        let spring = spring_to(per_row, index, dc, dr, sentinel_index);
        let ghost before = springs@;
        springs.push(spring);
        assert forall|s: int|
            #![trigger springs@[s]]
            0 <= s < springs@.len() implies {
                &&& springs@[s][0] == s / 4
                &&& springs@[s][1] == spring_partner(
                    per_row as int,
                    s / 4,
                    spring_offset(family, s % 4).0,
                    spring_offset(family, s % 4).1,
                )
            } by {
            if s < before.len() {
                assert(springs@[s] == before[s]);
            } else {
                assert(s / 4 == index && s % 4 == k);
            }
        }
    }
}

/// The springs of a `per_row` by `per_row` net, one list per family.
pub struct SpringSet {
    pub structural: Vec<[i32; 2]>,
    pub shear: Vec<[i32; 2]>,
    pub bend: Vec<[i32; 2]>,
}

/// Builds the structural, shear and bend springs of a `per_row` by
/// `per_row` net. Each list holds four springs per particle, in particle
/// order; a spring is `[particle, partner]`, and where the partner's cell
/// lies off the grid, `partner` is `per_row * per_row + 1`.
pub fn build_springs(per_row: u32) -> (set: SpringSet)
    requires
        per_row * per_row < i32::MAX,
    ensures
        is_spring_list(per_row as int, SpringFamily::Stretch, set.structural@),
        is_spring_list(per_row as int, SpringFamily::Shear, set.shear@),
        is_spring_list(per_row as int, SpringFamily::Bend, set.bend@),
{
    let count = instance_count(per_row);
    let sentinel_index = count as i32 + 1;
    let mut structural: Vec<[i32; 2]> = Vec::new();
    let mut shear: Vec<[i32; 2]> = Vec::new();
    let mut bend: Vec<[i32; 2]> = Vec::new();
    for index in 0..count
        invariant
            count == per_row * per_row,
            count < i32::MAX,
            sentinel_index == sentinel(per_row as int),
            structural.len() == 4 * index,
            shear.len() == 4 * index,
            bend.len() == 4 * index,
            springs_match(per_row as int, SpringFamily::Stretch, structural@),
            springs_match(per_row as int, SpringFamily::Shear, shear@),
            springs_match(per_row as int, SpringFamily::Bend, bend@),
    {
        push_particle_springs(&mut structural, per_row, index, SpringFamily::Stretch, sentinel_index);
        push_particle_springs(&mut shear, per_row, index, SpringFamily::Shear, sentinel_index);
        push_particle_springs(&mut bend, per_row, index, SpringFamily::Bend, sentinel_index);
    }
    SpringSet { structural, shear, bend }
}

/// A spring's partner is either a particle of the net or the sentinel, and
/// it is the sentinel exactly when the cell at the spring's offset lies off
/// the grid. A partner that is a particle sits exactly at that offset from
/// the spring's own particle: no spring wraps around from the end of one row
/// to the start of the next. The sentinel is no particle's index.
pub proof fn lemma_partner_cell(per_row: int, index: int, dc: int, dr: int)
    requires
        per_row > 0,
        0 <= index < per_row * per_row,
    ensures
        sentinel(per_row) >= per_row * per_row,
        ({
            let (col, row) = cell_of(per_row, index);
            let partner = spring_partner(per_row, index, dc, dr);
            &&& partner == sentinel(per_row) <==> !in_grid(per_row, col + dc, row + dr)
            &&& partner != sentinel(per_row) ==> {
                &&& 0 <= partner < per_row * per_row
                &&& cell_of(per_row, partner) == (col + dc, row + dr)
            }
        }),
{
    let (col, row) = cell_of(per_row, index);
    crate::grid::lemma_cell_index_roundtrip(per_row, col + dc, row + dr, index);
}

/// Every spring of a spring list goes from a particle of the net to a
/// particle of the net or to the sentinel; where its partner is a particle,
/// that particle sits at the spring's offset from the first one.
pub proof fn lemma_spring_list_ends(per_row: int, family: SpringFamily, springs: Seq<[i32; 2]>, s: int)
    requires
        per_row > 0,
        is_spring_list(per_row, family, springs),
        0 <= s < springs.len(),
    ensures
        0 <= springs[s][0] < per_row * per_row,
        springs[s][1] == sentinel(per_row) || {
            let (col, row) = cell_of(per_row, springs[s][0] as int);
            let (dc, dr) = spring_offset(family, s % 4);
            &&& 0 <= springs[s][1] < per_row * per_row
            &&& cell_of(per_row, springs[s][1] as int) == (col + dc, row + dr)
        },
{
    let (dc, dr) = spring_offset(family, s % 4);
    lemma_partner_cell(per_row, s / 4, dc, dr);
}

/// Position, in a particle's four springs of `family`, of the spring that
/// points the opposite way to the `k`-th.
spec fn opposite_spring(family: SpringFamily, k: int) -> int {
    match family {
        SpringFamily::Shear => 3 - k,
        _ => if k < 2 { k + 2 } else { k - 2 },
    }
}

/// The springs of each family come in pairs: where a spring goes from
/// particle `a` to particle `b` (not the sentinel), the list also holds the
/// spring from `b` back to `a`.
pub proof fn lemma_spring_list_symmetric(
    per_row: int,
    family: SpringFamily,
    springs: Seq<[i32; 2]>,
    s: int,
)
    requires
        per_row > 0,
        is_spring_list(per_row, family, springs),
        0 <= s < springs.len(),
        springs[s][1] != sentinel(per_row),
    ensures
        exists|m: int|
            #![trigger springs[m]]
            0 <= m < springs.len() && springs[m][0] == springs[s][1] && springs[m][1]
                == springs[s][0],
{
    let index = s / 4;
    let k = s % 4;
    let (dc, dr) = spring_offset(family, k);
    lemma_partner_cell(per_row, index, dc, dr);
    let partner = springs[s][1] as int;
    let (col, row) = cell_of(per_row, index);
    let back = opposite_spring(family, k);
    assert(spring_offset(family, back) == (-dc, -dr));
    let m = 4 * partner + back;
    assert(m / 4 == partner && m % 4 == back);
    crate::grid::lemma_cell_index_roundtrip(per_row, col, row, index);
    assert(spring_partner(per_row, partner, -dc, -dr) == index);
    assert(springs[m][0] == springs[s][1] && springs[m][1] == springs[s][0]);
}

/// The partner of particle `index` at offset (`dc`, `dr`), in plain
/// arithmetic: `index + dr * per_row + dc` where that cell is on the grid,
/// else `per_row * per_row + 1`.
proof fn lemma_partner_arithmetic(per_row: int, index: int, dc: int, dr: int)
    requires
        per_row > 0,
        0 <= index < per_row * per_row,
    ensures
        spring_partner(per_row, index, dc, dr) == if 0 <= index % per_row + dc < per_row && 0
            <= index / per_row + dr < per_row {
            index + dr * per_row + dc
        } else {
            per_row * per_row + 1
        },
{
    let col = index % per_row;
    let row = index / per_row;
    crate::grid::lemma_cell_index_roundtrip(per_row, 0, 0, index);
    assert((row + dr) * per_row + (col + dc) == row * per_row + col + dr * per_row + dc)
        by (nonlinear_arith);
}

/// Structural springs, for every side length: the four springs of particle
/// `i` (column `i % n`, row `i / n`) go, in order, to `i - 1`, `i - n`,
/// `i + 1` and `i + n`; each whose cell would leave the grid goes to
/// `n * n + 1` instead.
pub proof fn lemma_structural_springs(per_row: int, springs: Seq<[i32; 2]>, s: int)
    requires
        per_row > 0,
        is_spring_list(per_row, SpringFamily::Stretch, springs),
        0 <= s < springs.len(),
    ensures
        springs.len() == 4 * per_row * per_row,
        ({
            let i = s / 4;
            let col = i % per_row;
            let row = i / per_row;
            let off = per_row * per_row + 1;
            &&& 0 <= i < per_row * per_row
            &&& springs[s][0] == i
            &&& springs[s][1] == if s % 4 == 0 {
                if col >= 1 { i - 1 } else { off }
            } else if s % 4 == 1 {
                if row >= 1 { i - per_row } else { off }
            } else if s % 4 == 2 {
                if col + 1 < per_row { i + 1 } else { off }
            } else {
                if row + 1 < per_row { i + per_row } else { off }
            }
        }),
{
    lemma_spring_list_ends(per_row, SpringFamily::Stretch, springs, s);
    let i = s / 4;
    crate::grid::lemma_cell_index_roundtrip(per_row, 0, 0, i);
    if s % 4 == 0 {
        lemma_partner_arithmetic(per_row, i, -1, 0);
    } else if s % 4 == 1 {
        lemma_partner_arithmetic(per_row, i, 0, -1);
    } else if s % 4 == 2 {
        lemma_partner_arithmetic(per_row, i, 1, 0);
    } else {
        lemma_partner_arithmetic(per_row, i, 0, 1);
    }
    assert(4 * (per_row * per_row) == 4 * per_row * per_row) by (nonlinear_arith);
}

/// Shear springs, for every side length: the four springs of particle `i`
/// (column `i % n`, row `i / n`) go, in order, to `i - n - 1`, `i + n - 1`,
/// `i - n + 1` and `i + n + 1`; each whose cell would leave the grid goes to
/// `n * n + 1` instead.
pub proof fn lemma_shear_springs(per_row: int, springs: Seq<[i32; 2]>, s: int)
    requires
        per_row > 0,
        is_spring_list(per_row, SpringFamily::Shear, springs),
        0 <= s < springs.len(),
    ensures
        springs.len() == 4 * per_row * per_row,
        ({
            let i = s / 4;
            let col = i % per_row;
            let row = i / per_row;
            let off = per_row * per_row + 1;
            &&& 0 <= i < per_row * per_row
            &&& springs[s][0] == i
            &&& springs[s][1] == if s % 4 == 0 {
                if col >= 1 && row >= 1 { i - per_row - 1 } else { off }
            } else if s % 4 == 1 {
                if col >= 1 && row + 1 < per_row { i + per_row - 1 } else { off }
            } else if s % 4 == 2 {
                if col + 1 < per_row && row >= 1 { i - per_row + 1 } else { off }
            } else {
                if col + 1 < per_row && row + 1 < per_row { i + per_row + 1 } else { off }
            }
        }),
{
    lemma_spring_list_ends(per_row, SpringFamily::Shear, springs, s);
    let i = s / 4;
    crate::grid::lemma_cell_index_roundtrip(per_row, 0, 0, i);
    if s % 4 == 0 {
        lemma_partner_arithmetic(per_row, i, -1, -1);
    } else if s % 4 == 1 {
        lemma_partner_arithmetic(per_row, i, -1, 1);
    } else if s % 4 == 2 {
        lemma_partner_arithmetic(per_row, i, 1, -1);
    } else {
        lemma_partner_arithmetic(per_row, i, 1, 1);
    }
    assert(4 * (per_row * per_row) == 4 * per_row * per_row) by (nonlinear_arith);
}

/// Bend springs, for every side length: the four springs of particle `i`
/// (column `i % n`, row `i / n`) go, in order, to `i - 2`, `i - 2n`, `i + 2`
/// and `i + 2n`; each whose cell would leave the grid goes to `n * n + 1`
/// instead.
pub proof fn lemma_bend_springs(per_row: int, springs: Seq<[i32; 2]>, s: int)
    requires
        per_row > 0,
        is_spring_list(per_row, SpringFamily::Bend, springs),
        0 <= s < springs.len(),
    ensures
        springs.len() == 4 * per_row * per_row,
        ({
            let i = s / 4;
            let col = i % per_row;
            let row = i / per_row;
            let off = per_row * per_row + 1;
            &&& 0 <= i < per_row * per_row
            &&& springs[s][0] == i
            &&& springs[s][1] == if s % 4 == 0 {
                if col >= 2 { i - 2 } else { off }
            } else if s % 4 == 1 {
                if row >= 2 { i - 2 * per_row } else { off }
            } else if s % 4 == 2 {
                if col + 2 < per_row { i + 2 } else { off }
            } else {
                if row + 2 < per_row { i + 2 * per_row } else { off }
            }
        }),
{
    lemma_spring_list_ends(per_row, SpringFamily::Bend, springs, s);
    let i = s / 4;
    crate::grid::lemma_cell_index_roundtrip(per_row, 0, 0, i);
    if s % 4 == 0 {
        lemma_partner_arithmetic(per_row, i, -2, 0);
    } else if s % 4 == 1 {
        lemma_partner_arithmetic(per_row, i, 0, -2);
    } else if s % 4 == 2 {
        lemma_partner_arithmetic(per_row, i, 2, 0);
    } else {
        lemma_partner_arithmetic(per_row, i, 0, 2);
    }
    assert(4 * (per_row * per_row) == 4 * per_row * per_row) by (nonlinear_arith);
}

/// A spring whose partner's cell lies off the grid points at
/// `per_row * per_row + 1`, one past the index after the last particle, in
/// every family and for every side length.
pub proof fn lemma_off_grid_partner_value(
    per_row: int,
    family: SpringFamily,
    springs: Seq<[i32; 2]>,
    s: int,
)
    requires
        per_row > 0,
        is_spring_list(per_row, family, springs),
        0 <= s < springs.len(),
        !(0 <= springs[s][1] < per_row * per_row),
    ensures
        springs[s][1] == per_row * per_row + 1,
{
    lemma_spring_list_ends(per_row, family, springs, s);
    let (dc, dr) = spring_offset(family, s % 4);
    lemma_partner_arithmetic(per_row, s / 4, dc, dr);
}

} // verus!
