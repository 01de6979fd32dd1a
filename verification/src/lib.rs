//! Index logic of a mass-spring cloth ("net") simulated on the GPU.
//!
//! The particles of the net lie on a square grid of `per_row` by `per_row`
//! cells. Particle `i` sits in column `i % per_row` and row `i / per_row`.
//! Every particle owns four structural springs (to its direct neighbours),
//! four shear springs (to its diagonal neighbours) and four bend springs (to
//! the particles two cells away). A spring whose partner would fall off the
//! grid points at a sentinel index, `per_row * per_row + 1`, which the
//! compute shader skips.

use vstd::prelude::*;

pub mod dispatch;
pub mod grid;
pub mod springs;

verus! {

} // verus!
