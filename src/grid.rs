//! Canonical flattening of cell coordinates and periodic neighbours.

use vstd::arithmetic::div_mod::*;
use vstd::arithmetic::mul::*;
use vstd::prelude::*;

verus! {

/// Linear index of cell `(x, y, z)`: `x + nx * (y + ny * z)`.
pub open spec fn linear_index(x: int, y: int, z: int, nx: int, ny: int) -> int {
    x + nx * (y + ny * z)
}

/// Coordinate reached from `coord` by moving `offset` cells along an axis of
/// `extent` cells, wrapping around at both ends.
pub open spec fn wrap_spec(coord: int, offset: int, extent: int) -> int {
    (coord + offset + extent) % extent
}

/// Linear index of cell `(x, y, z)` in a box whose x and y extents are `nx`, `ny`.
pub fn n_from_xyz(x: &usize, y: &usize, z: &usize, nx: &usize, ny: &usize) -> (n: usize)
    requires
        *nx * *ny <= usize::MAX,
        linear_index(*x as int, *y as int, *z as int, *nx as int, *ny as int) <= usize::MAX,
    ensures
        n == linear_index(*x as int, *y as int, *z as int, *nx as int, *ny as int),
{
    let (x, y, z, nx, ny) = (*x, *y, *z, *nx, *ny);
    let plane: usize = nx * ny;
    proof {
        lemma_mul_nonnegative(z as int, plane as int);
        lemma_mul_nonnegative(y as int, nx as int);
        lemma_mul_is_distributive_add(nx as int, y as int, ny * z);
        lemma_mul_is_associative(nx as int, ny as int, z as int);
        lemma_mul_is_commutative(nx * ny, z as int);
        lemma_mul_is_commutative(nx as int, y as int);
    }
    let zp: usize = z * plane;
    let yr: usize = y * nx;
    zp + yr + x
}

/// Coordinates `(x, y, z)` of linear index `n`; inverse of `n_from_xyz`.
pub fn xyz_from_n(n: &usize, nx: &usize, ny: &usize) -> (r: (usize, usize, usize))
    requires
        *nx > 0,
        *ny > 0,
        *nx * *ny <= usize::MAX,
    ensures
        r.0 == *n % *nx,
        r.1 == (*n / *nx) % *ny,
        r.2 == *n as int / (*nx as int * *ny as int),
        r.0 < *nx,
        r.1 < *ny,
        *n as int == linear_index(r.0 as int, r.1 as int, r.2 as int, *nx as int, *ny as int),
{
    let (n, nx, ny) = (*n, *nx, *ny);
    let x = n % nx;
    let y = (n / nx) % ny;
    proof {
        lemma_mul_strictly_positive(nx as int, ny as int);
    }
    let z = n / (nx * ny);
    proof {
        lemma_div_denominator(n as int, nx as int, ny as int);
        lemma_fundamental_div_mod(n as int, nx as int);
        lemma_fundamental_div_mod((n / nx) as int, ny as int);
        assert(n == nx * (ny * z + y) + x);
    }
    (x, y, z)
}

/// Coordinate reached from `coord` by moving `offset` (one of -1, 0, 1) along
/// an axis of `extent` cells, with periodic wrap-around.
pub fn wrap(coord: usize, offset: i32, extent: usize) -> (r: usize)
    requires
        coord < extent,
        -1 <= offset <= 1,
    ensures
        r == wrap_spec(coord as int, offset as int, extent as int),
        r < extent,
{
    proof {
        let (c, o, e) = (coord as int, offset as int, extent as int);
        if o < 0 && c == 0 {
            lemma_small_mod((e - 1) as nat, e as nat);
        } else if o > 0 && c + 1 == e {
            lemma_mod_multiples_basic(2, e);
            assert(c + o + e == 2 * e);
        } else {
            lemma_mod_add_multiples_vanish(c + o, e);
            lemma_small_mod((c + o) as nat, e as nat);
            assert(c + o + e == e + (c + o));
        }
    }
    if offset < 0 {
        if coord == 0 { extent - 1 } else { coord - 1 }
    } else if offset == 0 {
        coord
    } else {
        if coord + 1 == extent { 0 } else { coord + 1 }
    }
}

/// Extents of the simulation box, in cells.
#[derive(Clone, Copy, Debug, PartialEq, Eq, Structural)]
pub struct Grid {
    pub nx: usize,
    pub ny: usize,
    pub nz: usize,
}

impl Grid {
    /// Number of cells.
    pub open spec fn cells(&self) -> int {
        self.nx * self.ny * self.nz
    }

    /// Nonempty, and `per_cell` values for each cell can be addressed.
    pub open spec fn fits(&self, per_cell: int) -> bool {
        &&& self.nx > 0
        &&& self.ny > 0
        &&& self.nz > 0
        &&& per_cell > 0
        &&& self.cells() * per_cell <= usize::MAX
    }

    /// Coordinates of linear index `n`.
    pub open spec fn coords(&self, n: int) -> (int, int, int) {
        (n % self.nx as int, (n / self.nx as int) % self.ny as int, n / (self.nx * self.ny))
    }

    pub open spec fn in_box(&self, x: int, y: int, z: int) -> bool {
        0 <= x < self.nx && 0 <= y < self.ny && 0 <= z < self.nz
    }

    pub open spec fn index(&self, x: int, y: int, z: int) -> int {
        linear_index(x, y, z, self.nx as int, self.ny as int)
    }
}

/// Coordinates inside the box give an index below the cell count, and
/// decoding that index gives the coordinates back.
pub proof fn lemma_index_coords(g: Grid, x: int, y: int, z: int)
    requires
        g.nx > 0,
        g.ny > 0,
        g.in_box(x, y, z),
    ensures
        0 <= g.index(x, y, z) < g.cells(),
        g.coords(g.index(x, y, z)) == (x, y, z),
{
    let (nx, ny, nz) = (g.nx as int, g.ny as int, g.nz as int);
    let n = g.index(x, y, z);
    let r = y + ny * z;
    lemma_mul_nonnegative(ny, z);
    assert(0 <= r < ny * nz) by (nonlinear_arith)
        requires 0 <= y < ny, 0 <= z < nz, r == y + ny * z;
    assert(0 <= n < nx * (ny * nz)) by (nonlinear_arith)
        requires 0 <= x < nx, 0 <= r < ny * nz, n == x + nx * r;
    lemma_mul_is_associative(nx, ny, nz);
    lemma_mul_is_commutative(nx, r);
    lemma_fundamental_div_mod_converse(n, nx, r, x);
    lemma_mul_is_commutative(ny, z);
    lemma_fundamental_div_mod_converse(r, ny, z, y);
    lemma_div_denominator(n, nx, ny);
}

/// Every index below the cell count decodes to coordinates inside the box
/// that encode back to it.
pub proof fn lemma_coords_index(g: Grid, n: int)
    requires
        g.nx > 0,
        g.ny > 0,
        0 <= n < g.cells(),
    ensures
        g.in_box(g.coords(n).0, g.coords(n).1, g.coords(n).2),
        g.index(g.coords(n).0, g.coords(n).1, g.coords(n).2) == n,
{
    let (nx, ny, nz) = (g.nx as int, g.ny as int, g.nz as int);
    lemma_mul_strictly_positive(nx, ny);
    lemma_div_denominator(n, nx, ny);
    lemma_fundamental_div_mod(n, nx);
    lemma_fundamental_div_mod(n / nx, ny);
    lemma_mod_bound(n, nx);
    lemma_mod_bound(n / nx, ny);
    lemma_div_pos_is_pos(n, nx * ny);
    lemma_mul_is_associative(nx, ny, nz);
    lemma_multiply_divide_lt(n, nx * ny, nz);
}

} // verus!
