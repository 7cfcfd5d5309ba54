//! Streaming with periodic wrap-around and bounce-back at solid cells.
//!
//! The values are moved, never combined, so the step works for any element
//! type: device storage words, host floats or integers.

use crate::grid::{Grid, lemma_coords_index, lemma_index_coords, n_from_xyz, wrap, wrap_spec, xyz_from_n};
use crate::velocity_set::{
    Direction, VelocitySet, dimension_of, direction_count, direction_sound, lemma_velocity_set_laws,
    negated, opposite_of, unit_step, weights_of,
};
use vstd::arithmetic::div_mod::*;
use vstd::arithmetic::mul::*;
use vstd::prelude::*;

verus! {

/// Flag of a cell that takes part in collision and streaming.
pub const FLAG_FLUID: u8 = 0;

/// Flag of a wall cell: it never collides and reflects what streams into it.
pub const FLAG_SOLID: u8 = 1;

/// Flag of a cell held at the equilibrium of its prescribed state.
pub const FLAG_EQ: u8 = 2;

/// Cell reached from cell `n` by one step along `d`, wrapping on every axis.
pub open spec fn neighbor(g: Grid, n: int, d: Direction) -> int {
    let (x, y, z) = g.coords(n);
    g.index(
        wrap_spec(x, d.cx as int, g.nx as int),
        wrap_spec(y, d.cy as int, g.ny as int),
        wrap_spec(z, d.cz as int, g.nz as int),
    )
}

/// Position of direction `p` of cell `m` in a distribution array.
pub open spec fn slot(q: int, m: int, p: int) -> int {
    m * q + p
}

/// What streaming delivers into direction `p` of a non-solid cell `m`: the
/// value that the upstream cell sent along `p`, or, when the upstream cell is
/// solid, the value that `m` itself sent towards it, reflected.
pub open spec fn streamed<T>(g: Grid, c: Seq<Direction>, flags: Seq<u8>, f: Seq<T>, m: int, p: int) -> T {
    let q = c.len() as int;
    let back = opposite_of(p);
    let src = neighbor(g, m, c[back]);
    if flags[src] == FLAG_SOLID {
        f[slot(q, m, back)]
    } else {
        f[slot(q, src, p)]
    }
}

/// Content of position `i` after streaming `f` into `prev`: solid cells keep
/// what `prev` held there.
pub open spec fn stream_value<T>(
    g: Grid,
    c: Seq<Direction>,
    flags: Seq<u8>,
    f: Seq<T>,
    prev: Seq<T>,
    i: int,
) -> T {
    let q = c.len() as int;
    if flags[i / q] == FLAG_SOLID {
        prev[i]
    } else {
        streamed(g, c, flags, f, i / q, i % q)
    }
}

/// `after` is the result of streaming `f` into `prev`.
pub open spec fn stream_result<T>(
    g: Grid,
    c: Seq<Direction>,
    flags: Seq<u8>,
    f: Seq<T>,
    prev: Seq<T>,
    after: Seq<T>,
) -> bool {
    &&& after.len() == prev.len()
    &&& forall|i: int|
        0 <= i < g.cells() * c.len() ==> #[trigger] after[i] == stream_value(g, c, flags, f, prev, i)
}

/// Slot positions are distinct and decode back to cell and direction.
pub proof fn lemma_slot(q: int, m: int, p: int)
    requires
        0 < q,
        0 <= m,
        0 <= p < q,
    ensures
        slot(q, m, p) / q == m,
        slot(q, m, p) % q == p,
{
    lemma_fundamental_div_mod_converse(slot(q, m, p), q, m, p);
}

proof fn lemma_slot_bound(q: int, n: int, m: int, p: int)
    requires
        0 <= m < n,
        0 <= p < q,
    ensures
        0 <= slot(q, m, p) < n * q,
{
    assert(0 <= m * q + p < n * q) by (nonlinear_arith)
        requires 0 <= m < n, 0 <= p < q;
}

/// The neighbour of a cell inside the box is inside the box.
proof fn lemma_neighbor_in_box(g: Grid, n: int, d: Direction)
    requires
        g.nx > 0,
        g.ny > 0,
        g.nz > 0,
        0 <= n < g.cells(),
        unit_step(d),
    ensures
        0 <= neighbor(g, n, d) < g.cells(),
{
    lemma_coords_index(g, n);
    let (x, y, z) = g.coords(n);
    let (a, b, e) = (
        wrap_spec(x, d.cx as int, g.nx as int),
        wrap_spec(y, d.cy as int, g.ny as int),
        wrap_spec(z, d.cz as int, g.nz as int),
    );
    lemma_mod_bound(x + d.cx + g.nx, g.nx as int);
    lemma_mod_bound(y + d.cy + g.ny, g.ny as int);
    lemma_mod_bound(z + d.cz + g.nz, g.nz as int);
    lemma_index_coords(g, a, b, e);
}

/// Streams `f` into `f_new`: every non-solid cell pulls, for each direction,
/// the value its upstream neighbour sent along it, or its own reflected value
/// when that neighbour is solid; solid cells are left as they were.
pub fn stream<T: Copy>(grid: &Grid, vs: &VelocitySet, flags: &Vec<u8>, f: &Vec<T>, f_new: &mut Vec<T>)
    requires
        vs.wf(),
        grid.fits(vs.q() as int),
        flags@.len() == grid.cells(),
        f@.len() == grid.cells() * vs.q(),
        old(f_new)@.len() == grid.cells() * vs.q(),
    ensures
        stream_result(*grid, vs.directions@, flags@, f@, old(f_new)@, final(f_new)@),
{
    proof {
        lemma_velocity_set_laws(vs.model);
    }
    let ghost c = vs.directions@;
    let ghost g = *grid;
    let q = vs.len();
    let nx = grid.nx;
    let ny = grid.ny;
    let nz = grid.nz;
    proof {
        lemma_mul_is_associative(nx as int, ny as int, nz as int);
        assert(nx * ny <= nx * ny * nz) by (nonlinear_arith)
            requires nz >= 1, nx >= 0, ny >= 0;
        assert(nx * ny * nz <= nx * ny * nz * q) by (nonlinear_arith)
            requires q >= 1, nx * ny * nz >= 0;
        lemma_mul_nonnegative(nx * ny, nz as int);
    }
    let cells: usize = nx * ny * nz;
    let mut m: usize = 0;
    while m < cells
        invariant
            vs.wf(),
            c == vs.directions@,
            g == *grid,
            q == direction_count(vs.model),
            q == c.len(),
            nx == g.nx && ny == g.ny && nz == g.nz,
            grid.fits(q as int),
            cells == g.cells(),
            nx * ny <= usize::MAX,
            cells * q <= usize::MAX,
            flags@.len() == cells,
            f@.len() == cells * q,
            f_new@.len() == cells * q,
            old(f_new)@.len() == cells * q,
            m <= cells,
            forall|q2: int| 0 <= q2 < q ==> direction_sound(c, weights_of(vs.model), dimension_of(vs.model), q2),
            forall|i: int| 0 <= i < m * q ==> f_new@[i] == stream_value(g, c, flags@, f@, old(f_new)@, i),
            forall|i: int| m * q <= i < cells * q ==> f_new@[i] == old(f_new)@[i],
        decreases cells - m,
    {
        let (x, y, z) = xyz_from_n(&m, &nx, &ny);
        proof {
            lemma_coords_index(g, m as int);
        }
        let solid = flags[m] == FLAG_SOLID;
        let mut p: usize = 0;
        while p < q
            invariant
                vs.wf(),
                c == vs.directions@,
                g == *grid,
                q == direction_count(vs.model),
                q == c.len(),
                nx == g.nx && ny == g.ny && nz == g.nz,
                grid.fits(q as int),
                cells == g.cells(),
                nx * ny <= usize::MAX,
                cells * q <= usize::MAX,
                flags@.len() == cells,
                f@.len() == cells * q,
                f_new@.len() == cells * q,
                old(f_new)@.len() == cells * q,
                m < cells,
                p <= q,
                (x as int, y as int, z as int) == g.coords(m as int),
                g.in_box(x as int, y as int, z as int),
                solid == (flags@[m as int] == FLAG_SOLID),
                forall|q2: int| 0 <= q2 < q ==> direction_sound(c, weights_of(vs.model), dimension_of(vs.model), q2),
                forall|i: int| 0 <= i < m * q + p ==> f_new@[i] == stream_value(g, c, flags@, f@, old(f_new)@, i),
                forall|i: int| m * q + p <= i < cells * q ==> f_new@[i] == old(f_new)@[i],
            decreases q - p,
        {
            proof {
                lemma_slot_bound(q as int, cells as int, m as int, p as int);
                lemma_slot(q as int, m as int, p as int);
            }
            let i: usize = m * q + p;
            if !solid {
                let back = vs.opposite[p];
                assert(direction_sound(c, weights_of(vs.model), dimension_of(vs.model), p as int));
                let d = vs.directions[back];
                let xs = wrap(x, d.cx, nx);
                let ys = wrap(y, d.cy, ny);
                let zs = wrap(z, d.cz, nz);
                proof {
                    lemma_index_coords(g, xs as int, ys as int, zs as int);
                }
                let src = n_from_xyz(&xs, &ys, &zs, &nx, &ny);
                assert(src == neighbor(g, m as int, c[back as int]));
                let v = if flags[src] == FLAG_SOLID {
                    proof {
                        lemma_slot_bound(q as int, cells as int, m as int, back as int);
                    }
                    f[m * q + back]
                } else {
                    proof {
                        lemma_slot_bound(q as int, cells as int, src as int, p as int);
                    }
                    f[src * q + p]
                };
                f_new[i] = v;
            }
            p += 1;
        }
        m += 1;
    }
}

/// No cell is solid: the domain is periodic on every axis.
pub open spec fn all_open(flags: Seq<u8>) -> bool {
    forall|n: int| 0 <= n < flags.len() ==> flags[n] != FLAG_SOLID
}

/// Position of `f` whose value streaming delivers into position `i` of a
/// periodic domain.
pub open spec fn source_of(g: Grid, c: Seq<Direction>, i: int) -> int {
    let q = c.len() as int;
    slot(q, neighbor(g, i / q, c[opposite_of(i % q)]), i % q)
}

proof fn lemma_wrap_inverse(x: int, o: int, e: int)
    requires
        0 <= x < e,
        -1 <= o <= 1,
    ensures
        wrap_spec(wrap_spec(x, o, e), -o, e) == x,
        0 <= wrap_spec(x, o, e) < e,
{
    let w = wrap_spec(x, o, e);
    if o < 0 && x == 0 {
        assert(x + o + e == e - 1);
        lemma_small_mod((e - 1) as nat, e as nat);
        assert(w == e - 1);
        assert(w - o + e == 2 * e);
        lemma_mod_multiples_basic(2, e);
    } else if o > 0 && x + 1 == e {
        assert(x + o + e == 2 * e);
        lemma_mod_multiples_basic(2, e);
        assert(w == 0);
        assert(w - o + e == e - 1);
        lemma_small_mod((e - 1) as nat, e as nat);
    } else {
        assert(x + o + e == e + (x + o));
        lemma_mod_add_multiples_vanish(x + o, e);
        lemma_small_mod((x + o) as nat, e as nat);
        assert(w == x + o);
        assert(w - o + e == e + x);
        lemma_mod_add_multiples_vanish(x, e);
        lemma_small_mod(x as nat, e as nat);
    }
}

/// Stepping along `d` and then along its negation returns to the cell.
pub proof fn lemma_neighbor_inverse(g: Grid, n: int, d: Direction)
    requires
        g.nx > 0,
        g.ny > 0,
        g.nz > 0,
        0 <= n < g.cells(),
        unit_step(d),
    ensures
        0 <= neighbor(g, n, d) < g.cells(),
        neighbor(g, neighbor(g, n, d), negated(d)) == n,
{
    lemma_coords_index(g, n);
    let (x, y, z) = g.coords(n);
    lemma_wrap_inverse(x, d.cx as int, g.nx as int);
    lemma_wrap_inverse(y, d.cy as int, g.ny as int);
    lemma_wrap_inverse(z, d.cz as int, g.nz as int);
    let (a, b, e) = (
        wrap_spec(x, d.cx as int, g.nx as int),
        wrap_spec(y, d.cy as int, g.ny as int),
        wrap_spec(z, d.cz as int, g.nz as int),
    );
    lemma_index_coords(g, a, b, e);
}

/// Conditions under which `after` is a streaming result over a valid set.
pub open spec fn streamed_over<T>(
    g: Grid,
    vs: VelocitySet,
    flags: Seq<u8>,
    f: Seq<T>,
    prev: Seq<T>,
    after: Seq<T>,
) -> bool {
    &&& vs.wf()
    &&& g.fits(vs.q() as int)
    &&& flags.len() == g.cells()
    &&& f.len() == g.cells() * vs.q()
    &&& prev.len() == g.cells() * vs.q()
    &&& stream_result(g, vs.directions@, flags, f, prev, after)
}

/// Bounce-back: nothing streams into a solid cell, which keeps what it held,
/// and a value that a non-solid cell sends towards a solid neighbour comes
/// back into its own slot of the opposite direction.
pub proof fn lemma_bounce_back<T>(
    g: Grid,
    vs: VelocitySet,
    flags: Seq<u8>,
    f: Seq<T>,
    prev: Seq<T>,
    after: Seq<T>,
    m: int,
    p: int,
)
    requires
        streamed_over(g, vs, flags, f, prev, after),
        0 <= m < g.cells(),
        0 <= p < vs.q(),
    ensures
        flags[m] == FLAG_SOLID ==> after[slot(vs.q() as int, m, p)] == prev[slot(
            vs.q() as int,
            m,
            p,
        )],
        flags[m] != FLAG_SOLID && flags[neighbor(g, m, vs.directions@[p])] == FLAG_SOLID
            ==> after[slot(vs.q() as int, m, opposite_of(p))] == f[slot(vs.q() as int, m, p)],
{
    lemma_velocity_set_laws(vs.model);
    let q = vs.q() as int;
    let c = vs.directions@;
    assert(direction_sound(c, weights_of(vs.model), dimension_of(vs.model), p));
    let o = opposite_of(p);
    lemma_slot(q, m, p);
    lemma_slot(q, m, o);
    lemma_slot_bound(q, g.cells(), m, p);
    lemma_slot_bound(q, g.cells(), m, o);
    assert(after[slot(q, m, p)] == stream_value(g, c, flags, f, prev, slot(q, m, p)));
    assert(after[slot(q, m, o)] == stream_value(g, c, flags, f, prev, slot(q, m, o)));
}

/// On a domain without solid cells streaming only moves values: position
/// `i` receives the value at `source_of(i)`, and no two positions share a
/// source, so every value lands in exactly one place and any additive
/// quantity, the total mass among them, is unchanged.
pub proof fn lemma_periodic_stream_permutes<T>(
    g: Grid,
    vs: VelocitySet,
    flags: Seq<u8>,
    f: Seq<T>,
    prev: Seq<T>,
    after: Seq<T>,
)
    requires
        streamed_over(g, vs, flags, f, prev, after),
        all_open(flags),
    ensures
        forall|i: int|
            0 <= i < g.cells() * vs.q() ==> 0 <= #[trigger] source_of(g, vs.directions@, i) < g.cells()
                * vs.q() && after[i] == f[source_of(g, vs.directions@, i)],
        forall|i: int, j: int|
            0 <= i < g.cells() * vs.q() && 0 <= j < g.cells() * vs.q() && #[trigger] source_of(
                g,
                vs.directions@,
                i,
            ) == #[trigger] source_of(g, vs.directions@, j) ==> i == j,
{
    lemma_velocity_set_laws(vs.model);
    let q = vs.q() as int;
    let c = vs.directions@;
    let n = g.cells();
    assert forall|i: int| 0 <= i < n * q implies 0 <= #[trigger] source_of(g, c, i) < n * q
        && after[i] == f[source_of(g, c, i)] by {
        let (m, p) = (i / q, i % q);
        lemma_fundamental_div_mod(i, q);
        lemma_mod_bound(i, q);
        lemma_div_pos_is_pos(i, q);
        lemma_multiply_divide_lt(i, q, n);
        lemma_mul_is_commutative(q, n);
        assert(direction_sound(c, weights_of(vs.model), dimension_of(vs.model), p));
        let o = opposite_of(p);
        assert(direction_sound(c, weights_of(vs.model), dimension_of(vs.model), o));
        lemma_neighbor_inverse(g, m, c[o]);
        lemma_slot_bound(q, n, neighbor(g, m, c[o]), p);
    }
    assert forall|i: int, j: int|
        0 <= i < n * q && 0 <= j < n * q && #[trigger] source_of(g, c, i) == #[trigger] source_of(
            g,
            c,
            j,
        ) implies i == j by {
        lemma_fundamental_div_mod(i, q);
        lemma_fundamental_div_mod(j, q);
        lemma_mod_bound(i, q);
        lemma_mod_bound(j, q);
        lemma_div_pos_is_pos(i, q);
        lemma_div_pos_is_pos(j, q);
        lemma_multiply_divide_lt(i, q, n);
        lemma_multiply_divide_lt(j, q, n);
        lemma_mul_is_commutative(q, n);
        let (mi, pi) = (i / q, i % q);
        let (mj, pj) = (j / q, j % q);
        let oi = opposite_of(pi);
        let oj = opposite_of(pj);
        assert(direction_sound(c, weights_of(vs.model), dimension_of(vs.model), pi));
        assert(direction_sound(c, weights_of(vs.model), dimension_of(vs.model), pj));
        assert(direction_sound(c, weights_of(vs.model), dimension_of(vs.model), oi));
        assert(direction_sound(c, weights_of(vs.model), dimension_of(vs.model), oj));
        lemma_neighbor_inverse(g, mi, c[oi]);
        lemma_neighbor_inverse(g, mj, c[oj]);
        lemma_slot(q, neighbor(g, mi, c[oi]), pi);
        lemma_slot(q, neighbor(g, mj, c[oj]), pj);
        assert(pi == pj);
        assert(c[opposite_of(oi)] == negated(c[oi]));
    }
}

/// A field that holds the same value per direction in every cell of a
/// domain without solid cells is left unchanged by streaming.
pub proof fn lemma_uniform_stream<T>(
    g: Grid,
    vs: VelocitySet,
    flags: Seq<u8>,
    f: Seq<T>,
    prev: Seq<T>,
    after: Seq<T>,
    per_direction: Seq<T>,
)
    requires
        streamed_over(g, vs, flags, f, prev, after),
        all_open(flags),
        per_direction.len() == vs.q(),
        forall|i: int| 0 <= i < g.cells() * vs.q() ==> #[trigger] f[i] == per_direction[i % vs.q() as int],
    ensures
        after == f,
{
    lemma_periodic_stream_permutes(g, vs, flags, f, prev, after);
    let q = vs.q() as int;
    let c = vs.directions@;
    let n = g.cells();
    assert forall|i: int| 0 <= i < n * q implies after[i] == f[i] by {
        let src = source_of(g, c, i);
        lemma_mod_bound(i, q);
        lemma_div_pos_is_pos(i, q);
        lemma_slot(q, neighbor(g, i / q, c[opposite_of(i % q)]), i % q);
        assert(src % q == i % q);
        assert(f[src] == per_direction[src % q]);
    }
    assert(after =~= f);
}

} // verus!
