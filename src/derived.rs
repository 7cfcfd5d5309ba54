//! Finite-difference stencils for fields derived from the velocity
//! (vorticity, Q-criterion): central inside the box, one-sided at its faces.

use crate::grid::{Grid, lemma_index_coords, n_from_xyz};
use vstd::prelude::*;

verus! {

/// The two cells a derivative along one axis reads, and their distance.
#[derive(Clone, Copy, Debug, PartialEq, Eq, Structural)]
pub struct Stencil {
    /// Linear index of the cell on the lower side.
    pub lo: usize,
    /// Linear index of the cell on the upper side.
    pub hi: usize,
    /// Distance in cells between them: 2 inside, 1 at a face, 0 on an axis
    /// one cell long.
    pub span: usize,
}

/// The coordinate one step below `c`, clamped at zero.
pub open spec fn lower(c: int) -> int {
    if c > 0 {
        c - 1
    } else {
        0
    }
}

/// The coordinate one step above `c`, clamped at the last cell.
pub open spec fn upper(c: int, extent: int) -> int {
    if c + 1 < extent {
        c + 1
    } else {
        c
    }
}

/// The stencil of the derivative along `axis` (0, 1 or 2) at `(x, y, z)`.
pub open spec fn stencil_spec(g: Grid, x: int, y: int, z: int, axis: int) -> Stencil {
    if axis == 0 {
        Stencil {
            lo: g.index(lower(x), y, z) as usize,
            hi: g.index(upper(x, g.nx as int), y, z) as usize,
            span: (upper(x, g.nx as int) - lower(x)) as usize,
        }
    } else if axis == 1 {
        Stencil {
            lo: g.index(x, lower(y), z) as usize,
            hi: g.index(x, upper(y, g.ny as int), z) as usize,
            span: (upper(y, g.ny as int) - lower(y)) as usize,
        }
    } else {
        Stencil {
            lo: g.index(x, y, lower(z)) as usize,
            hi: g.index(x, y, upper(z, g.nz as int)) as usize,
            span: (upper(z, g.nz as int) - lower(z)) as usize,
        }
    }
}

fn index_in(g: &Grid, x: usize, y: usize, z: usize) -> (r: usize)
    requires
        g.fits(1),
        g.in_box(x as int, y as int, z as int),
    ensures
        r == g.index(x as int, y as int, z as int),
        r < g.cells(),
{
    proof {
        lemma_index_coords(*g, x as int, y as int, z as int);
        assert(g.nx * g.ny <= g.cells()) by (nonlinear_arith)
            requires g.nz >= 1, g.nx >= 0, g.ny >= 0, g.cells() == g.nx * g.ny * g.nz;
        vstd::arithmetic::mul::lemma_mul_nonnegative(g.nx as int, g.ny as int);
    }
    n_from_xyz(&x, &y, &z, &g.nx, &g.ny)
}

/// The cells a derivative along `axis` reads at `(x, y, z)`: the neighbours
/// on both sides inside the box, or the cell itself on a side where the box
/// ends.
pub fn derivative_stencil(g: &Grid, x: usize, y: usize, z: usize, axis: usize) -> (r: Stencil)
    requires
        g.fits(1),
        g.in_box(x as int, y as int, z as int),
        axis < 3,
    ensures
        r == stencil_spec(*g, x as int, y as int, z as int, axis as int),
        r.lo < g.cells(),
        r.hi < g.cells(),
        r.span <= 2,
{
    if axis == 0 {
        let lo = if x > 0 { x - 1 } else { 0 };
        let hi = if x + 1 < g.nx { x + 1 } else { x };
        Stencil { lo: index_in(g, lo, y, z), hi: index_in(g, hi, y, z), span: hi - lo }
    } else if axis == 1 {
        let lo = if y > 0 { y - 1 } else { 0 };
        let hi = if y + 1 < g.ny { y + 1 } else { y };
        Stencil { lo: index_in(g, x, lo, z), hi: index_in(g, x, hi, z), span: hi - lo }
    } else {
        let lo = if z > 0 { z - 1 } else { 0 };
        let hi = if z + 1 < g.nz { z + 1 } else { z };
        Stencil { lo: index_in(g, x, y, lo), hi: index_in(g, x, y, hi), span: hi - lo }
    }
}

} // verus!
