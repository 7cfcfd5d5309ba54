//! Exact moments of the equilibrium distribution, conservation of density
//! by collision, conservation of the total by periodic streaming, and the
//! rest state as a fixed point of a whole pass.
//!
//! With the velocity written as integers over a common scale `s`,
//! `u = (ux, uy, uz) / s`, the equilibrium of direction `q` is
//! `w_q * rho / (den * 2 s^2) * equilibrium_factor(c_q, u, s)`, where
//! `equilibrium_factor` is `2 s^2 (1 + 3 c.u + 4.5 (c.u)^2 - 1.5 |u|^2)`
//! multiplied out. Everything below is integer arithmetic.

use crate::velocity_set::{
    Direction, Model, VelocitySet, component, dimension_of, dir, direction_count, direction_sound,
    directions_of, first_moment, lemma_velocity_set_laws, negated, opposite_of, second_moment,
    times_unit, weight_denominator_of, weight_sum, weights_of,
};
use crate::grid::Grid;
use crate::stream::{
    all_open, lemma_neighbor_inverse, lemma_periodic_stream_permutes, lemma_slot, lemma_uniform_stream,
    neighbor, slot, source_of, streamed_over,
};
use vstd::arithmetic::mul::*;
use vstd::prelude::*;

verus! {

pub open spec fn dot(d: Direction, ux: int, uy: int, uz: int) -> int {
    d.cx * ux + d.cy * uy + d.cz * uz
}

/// `2 s^2 (1 + 3 c.u + 4.5 (c.u)^2 - 1.5 |u|^2)` for `u = (ux, uy, uz) / s`.
pub open spec fn equilibrium_factor(d: Direction, ux: int, uy: int, uz: int, s: int) -> int {
    2 * s * s + 6 * s * dot(d, ux, uy, uz) + 9 * (dot(d, ux, uy, uz) * dot(d, ux, uy, uz)) - 3 * (ux
        * ux + uy * uy + uz * uz)
}

/// Sum over the first `k` directions of `w_q * equilibrium_factor(c_q, u, s)`.
pub open spec fn equilibrium_sum(
    w: Seq<u32>,
    c: Seq<Direction>,
    ux: int,
    uy: int,
    uz: int,
    s: int,
    k: nat,
) -> int
    decreases k,
{
    if k == 0 {
        0
    } else {
        equilibrium_sum(w, c, ux, uy, uz, s, (k - 1) as nat) + w[k - 1] * equilibrium_factor(
            c[k - 1],
            ux,
            uy,
            uz,
            s,
        )
    }
}

/// Sum over the first `k` directions of `w_q * (c_q . u)`.
pub open spec fn flux_sum(w: Seq<u32>, c: Seq<Direction>, ux: int, uy: int, uz: int, k: nat) -> int
    decreases k,
{
    if k == 0 {
        0
    } else {
        flux_sum(w, c, ux, uy, uz, (k - 1) as nat) + w[k - 1] * dot(c[k - 1], ux, uy, uz)
    }
}

/// Sum over the first `k` directions of `w_q * (c_q . u)^2`.
pub open spec fn flux2_sum(w: Seq<u32>, c: Seq<Direction>, ux: int, uy: int, uz: int, k: nat) -> int
    decreases k,
{
    if k == 0 {
        0
    } else {
        flux2_sum(w, c, ux, uy, uz, (k - 1) as nat) + w[k - 1] * (dot(c[k - 1], ux, uy, uz) * dot(
            c[k - 1],
            ux,
            uy,
            uz,
        ))
    }
}

pub open spec fn unit(v: int) -> bool {
    -1 <= v <= 1
}

proof fn lemma_times_unit(v: int, u: int)
    requires
        unit(u),
    ensures
        times_unit(v, u) == v * u,
{
    if u == 0 {
        assert(v * u == 0) by (nonlinear_arith)
            requires u == 0;
    } else if u == 1 {
        assert(v * u == v) by (nonlinear_arith)
            requires u == 1;
    } else {
        assert(v * u == -v) by (nonlinear_arith)
            requires u == -1;
    }
}

proof fn lemma_factor_step(wq: int, t: int, n: int, s: int)
    ensures
        wq * (2 * s * s + 6 * s * t + 9 * (t * t) - 3 * n) == 2 * s * s * wq + 6 * s * (wq * t) + 9 * (wq
            * (t * t)) - 3 * n * wq,
{
    assert(wq * (2 * s * s + 6 * s * t + 9 * (t * t) - 3 * n) == 2 * s * s * wq + 6 * s * (wq * t) + 9
        * (wq * (t * t)) - 3 * n * wq) by (nonlinear_arith);
}

/// The equilibrium sum splits into the weight sum and the first two
/// velocity moments.
proof fn lemma_equilibrium_split(
    w: Seq<u32>,
    c: Seq<Direction>,
    ux: int,
    uy: int,
    uz: int,
    s: int,
    k: nat,
)
    ensures
        equilibrium_sum(w, c, ux, uy, uz, s, k) == 2 * s * s * weight_sum(w, k) + 6 * s * flux_sum(
            w,
            c,
            ux,
            uy,
            uz,
            k,
        ) + 9 * flux2_sum(w, c, ux, uy, uz, k) - 3 * (ux * ux + uy * uy + uz * uz) * weight_sum(w, k),
    decreases k,
{
    if k > 0 {
        let j = (k - 1) as nat;
        lemma_equilibrium_split(w, c, ux, uy, uz, s, j);
        let wq = w[k - 1] as int;
        let t = dot(c[k - 1], ux, uy, uz);
        let n = ux * ux + uy * uy + uz * uz;
        lemma_factor_step(wq, t, n, s);
        lemma_mul_is_distributive_add(2 * s * s, weight_sum(w, j), wq);
        lemma_mul_is_distributive_add(6 * s, flux_sum(w, c, ux, uy, uz, j), wq * t);
        lemma_mul_is_distributive_add(3 * n, weight_sum(w, j), wq);
    }
}

/// Directions `0..k` have unit components.
pub open spec fn units_upto(c: Seq<Direction>, k: nat) -> bool {
    forall|q: int|
        0 <= q < k ==> unit(component(#[trigger] c[q], 0)) && unit(component(c[q], 1)) && unit(
            component(c[q], 2),
        )
}

proof fn lemma_flux_step(wq: int, a: int, b: int, e: int, ux: int, uy: int, uz: int)
    ensures
        wq * (a * ux + b * uy + e * uz) == ux * (wq * a) + uy * (wq * b) + uz * (wq * e),
{
    lemma_mul_is_distributive_add(wq, a * ux + b * uy, e * uz);
    lemma_mul_is_distributive_add(wq, a * ux, b * uy);
    lemma_swap_factor(wq, a, ux);
    lemma_swap_factor(wq, b, uy);
    lemma_swap_factor(wq, e, uz);
}

proof fn lemma_swap_factor(w: int, a: int, x: int)
    ensures
        w * (a * x) == x * (w * a),
{
    lemma_mul_is_associative(w, a, x);
    lemma_mul_is_commutative(w * a, x);
}

/// The first velocity moment in terms of the first moments of the weights.
proof fn lemma_flux_sum(w: Seq<u32>, c: Seq<Direction>, ux: int, uy: int, uz: int, k: nat)
    requires
        k <= c.len(),
        units_upto(c, k),
    ensures
        flux_sum(w, c, ux, uy, uz, k) == ux * first_moment(w, c, 0, k) + uy * first_moment(w, c, 1, k)
            + uz * first_moment(w, c, 2, k),
    decreases k,
{
    if k > 0 {
        let j = (k - 1) as nat;
        lemma_flux_sum(w, c, ux, uy, uz, j);
        let wq = w[k - 1] as int;
        let d = c[k - 1];
        let (a, b, e) = (component(d, 0), component(d, 1), component(d, 2));
        lemma_times_unit(wq, a);
        lemma_times_unit(wq, b);
        lemma_times_unit(wq, e);
        lemma_flux_step(wq, a, b, e, ux, uy, uz);
        lemma_mul_is_distributive_add(ux, first_moment(w, c, 0, j), wq * a);
        lemma_mul_is_distributive_add(uy, first_moment(w, c, 1, j), wq * b);
        lemma_mul_is_distributive_add(uz, first_moment(w, c, 2, j), wq * e);
    }
}

/// The second moments of the weights weighted by the velocity.
pub open spec fn moment2_form(w: Seq<u32>, c: Seq<Direction>, ux: int, uy: int, uz: int, k: nat) -> int {
    ux * ux * second_moment(w, c, 0, 0, k) + uy * uy * second_moment(w, c, 1, 1, k) + uz * uz
        * second_moment(w, c, 2, 2, k) + 2 * ux * uy * second_moment(w, c, 0, 1, k) + 2 * ux * uz
        * second_moment(w, c, 0, 2, k) + 2 * uy * uz * second_moment(w, c, 1, 2, k)
}

proof fn lemma_square3(p: int, q: int, r: int)
    ensures
        (p + q + r) * (p + q + r) == p * p + q * q + r * r + 2 * (p * q) + 2 * (p * r) + 2 * (q * r),
{
    assert((p + q + r) * (p + q + r) == p * p + q * q + r * r + 2 * (p * q) + 2 * (p * r) + 2 * (q
        * r)) by (nonlinear_arith);
}

proof fn lemma_cross(w: int, a: int, x: int, b: int, y: int)
    ensures
        w * ((a * x) * (b * y)) == x * y * (w * a * b),
{
    assert((a * x) * (b * y) == (x * y) * (a * b)) by (nonlinear_arith);
    assert(w * ((x * y) * (a * b)) == (x * y) * (w * a * b)) by (nonlinear_arith);
}

proof fn lemma_flux2_step(wq: int, a: int, b: int, e: int, ux: int, uy: int, uz: int)
    ensures
        wq * ((a * ux + b * uy + e * uz) * (a * ux + b * uy + e * uz)) == ux * ux * (wq * a * a) + uy
            * uy * (wq * b * b) + uz * uz * (wq * e * e) + 2 * ux * uy * (wq * a * b) + 2 * ux * uz * (wq
            * a * e) + 2 * uy * uz * (wq * b * e),
{
    let (p, q, r) = (a * ux, b * uy, e * uz);
    lemma_square3(p, q, r);
    lemma_cross(wq, a, ux, a, ux);
    lemma_cross(wq, b, uy, b, uy);
    lemma_cross(wq, e, uz, e, uz);
    lemma_cross(wq, a, ux, b, uy);
    lemma_cross(wq, a, ux, e, uz);
    lemma_cross(wq, b, uy, e, uz);
    lemma_distribute6(wq, p * p, q * q, r * r, 2 * (p * q), 2 * (p * r), 2 * (q * r));
    lemma_twice(wq, p * q, ux * uy * (wq * a * b));
    lemma_twice(wq, p * r, ux * uz * (wq * a * e));
    lemma_twice(wq, q * r, uy * uz * (wq * b * e));
    lemma_two_assoc(ux, uy, wq * a * b);
    lemma_two_assoc(ux, uz, wq * a * e);
    lemma_two_assoc(uy, uz, wq * b * e);
}

proof fn lemma_distribute6(w: int, x1: int, x2: int, x3: int, x4: int, x5: int, x6: int)
    ensures
        w * (x1 + x2 + x3 + x4 + x5 + x6) == w * x1 + w * x2 + w * x3 + w * x4 + w * x5 + w * x6,
{
    lemma_mul_is_distributive_add(w, x1 + x2 + x3 + x4 + x5, x6);
    lemma_mul_is_distributive_add(w, x1 + x2 + x3 + x4, x5);
    lemma_mul_is_distributive_add(w, x1 + x2 + x3, x4);
    lemma_mul_is_distributive_add(w, x1 + x2, x3);
    lemma_mul_is_distributive_add(w, x1, x2);
}

proof fn lemma_twice(w: int, m: int, v: int)
    requires
        w * m == v,
    ensures
        w * (2 * m) == 2 * v,
{
    assert(w * (2 * m) == 2 * (w * m)) by (nonlinear_arith);
}

proof fn lemma_two_assoc(x: int, y: int, z: int)
    ensures
        2 * x * y * z == 2 * (x * y * z),
{
    assert(2 * x * y * z == 2 * (x * y * z)) by (nonlinear_arith);
}

proof fn lemma_times_unit2(v: int, a: int, b: int)
    requires
        unit(a),
        unit(b),
    ensures
        times_unit(times_unit(v, a), b) == v * a * b,
{
    lemma_times_unit(v, a);
    lemma_times_unit(v * a, b);
}

/// The second velocity moment in terms of the second moments of the weights.
proof fn lemma_flux2_sum(w: Seq<u32>, c: Seq<Direction>, ux: int, uy: int, uz: int, k: nat)
    requires
        k <= c.len(),
        units_upto(c, k),
    ensures
        flux2_sum(w, c, ux, uy, uz, k) == moment2_form(w, c, ux, uy, uz, k),
    decreases k,
{
    if k > 0 {
        let j = (k - 1) as nat;
        lemma_flux2_sum(w, c, ux, uy, uz, j);
        let wq = w[k - 1] as int;
        let d = c[k - 1];
        let (a, b, e) = (component(d, 0), component(d, 1), component(d, 2));
        lemma_times_unit2(wq, a, a);
        lemma_times_unit2(wq, b, b);
        lemma_times_unit2(wq, e, e);
        lemma_times_unit2(wq, a, b);
        lemma_times_unit2(wq, a, e);
        lemma_times_unit2(wq, b, e);
        lemma_flux2_step(wq, a, b, e, ux, uy, uz);
        lemma_mul_is_distributive_add(ux * ux, second_moment(w, c, 0, 0, j), wq * a * a);
        lemma_mul_is_distributive_add(uy * uy, second_moment(w, c, 1, 1, j), wq * b * b);
        lemma_mul_is_distributive_add(uz * uz, second_moment(w, c, 2, 2, j), wq * e * e);
        lemma_mul_is_distributive_add(2 * ux * uy, second_moment(w, c, 0, 1, j), wq * a * b);
        lemma_mul_is_distributive_add(2 * ux * uz, second_moment(w, c, 0, 2, j), wq * a * e);
        lemma_mul_is_distributive_add(2 * uy * uz, second_moment(w, c, 1, 2, j), wq * b * e);
    }
}

proof fn lemma_second_moments_d2q9()
    ensures
        second_moment(weights_of(Model::D2Q9), directions_of(Model::D2Q9), 0, 0, 9) == 12,
        second_moment(weights_of(Model::D2Q9), directions_of(Model::D2Q9), 0, 1, 9) == 0,
        second_moment(weights_of(Model::D2Q9), directions_of(Model::D2Q9), 0, 2, 9) == 0,
        second_moment(weights_of(Model::D2Q9), directions_of(Model::D2Q9), 1, 1, 9) == 12,
        second_moment(weights_of(Model::D2Q9), directions_of(Model::D2Q9), 1, 2, 9) == 0,
        second_moment(weights_of(Model::D2Q9), directions_of(Model::D2Q9), 2, 2, 9) == 0,
{
    let c = directions_of(Model::D2Q9);
    let w = weights_of(Model::D2Q9);
    assert(c[0] == dir(0, 0, 0) && w[0] == 16);
    assert(c[1] == dir(1, 0, 0) && w[1] == 4);
    assert(c[2] == dir(-1, 0, 0) && w[2] == 4);
    assert(c[3] == dir(0, 1, 0) && w[3] == 4);
    assert(c[4] == dir(0, -1, 0) && w[4] == 4);
    assert(c[5] == dir(1, 1, 0) && w[5] == 1);
    assert(c[6] == dir(-1, -1, 0) && w[6] == 1);
    assert(c[7] == dir(1, -1, 0) && w[7] == 1);
    assert(c[8] == dir(-1, 1, 0) && w[8] == 1);
    reveal_with_fuel(second_moment, 10);
}

proof fn lemma_second_moments_d3q15()
    ensures
        second_moment(weights_of(Model::D3Q15), directions_of(Model::D3Q15), 0, 0, 15) == 24,
        second_moment(weights_of(Model::D3Q15), directions_of(Model::D3Q15), 0, 1, 15) == 0,
        second_moment(weights_of(Model::D3Q15), directions_of(Model::D3Q15), 0, 2, 15) == 0,
        second_moment(weights_of(Model::D3Q15), directions_of(Model::D3Q15), 1, 1, 15) == 24,
        second_moment(weights_of(Model::D3Q15), directions_of(Model::D3Q15), 1, 2, 15) == 0,
        second_moment(weights_of(Model::D3Q15), directions_of(Model::D3Q15), 2, 2, 15) == 24,
{
    let c = directions_of(Model::D3Q15);
    let w = weights_of(Model::D3Q15);
    assert(c[0] == dir(0, 0, 0) && w[0] == 16);
    assert(c[1] == dir(1, 0, 0) && w[1] == 8);
    assert(c[2] == dir(-1, 0, 0) && w[2] == 8);
    assert(c[3] == dir(0, 1, 0) && w[3] == 8);
    assert(c[4] == dir(0, -1, 0) && w[4] == 8);
    assert(c[5] == dir(0, 0, 1) && w[5] == 8);
    assert(c[6] == dir(0, 0, -1) && w[6] == 8);
    assert(c[7] == dir(1, 1, 1) && w[7] == 1);
    assert(c[8] == dir(-1, -1, -1) && w[8] == 1);
    assert(c[9] == dir(1, 1, -1) && w[9] == 1);
    assert(c[10] == dir(-1, -1, 1) && w[10] == 1);
    assert(c[11] == dir(1, -1, 1) && w[11] == 1);
    assert(c[12] == dir(-1, 1, -1) && w[12] == 1);
    assert(c[13] == dir(-1, 1, 1) && w[13] == 1);
    assert(c[14] == dir(1, -1, -1) && w[14] == 1);
    reveal_with_fuel(second_moment, 16);
}

proof fn lemma_second_moments_d3q19()
    ensures
        second_moment(weights_of(Model::D3Q19), directions_of(Model::D3Q19), 0, 0, 19) == 12,
        second_moment(weights_of(Model::D3Q19), directions_of(Model::D3Q19), 0, 1, 19) == 0,
        second_moment(weights_of(Model::D3Q19), directions_of(Model::D3Q19), 0, 2, 19) == 0,
        second_moment(weights_of(Model::D3Q19), directions_of(Model::D3Q19), 1, 1, 19) == 12,
        second_moment(weights_of(Model::D3Q19), directions_of(Model::D3Q19), 1, 2, 19) == 0,
        second_moment(weights_of(Model::D3Q19), directions_of(Model::D3Q19), 2, 2, 19) == 12,
{
    let c = directions_of(Model::D3Q19);
    let w = weights_of(Model::D3Q19);
    assert(c[0] == dir(0, 0, 0) && w[0] == 12);
    assert(c[1] == dir(1, 0, 0) && w[1] == 2);
    assert(c[2] == dir(-1, 0, 0) && w[2] == 2);
    assert(c[3] == dir(0, 1, 0) && w[3] == 2);
    assert(c[4] == dir(0, -1, 0) && w[4] == 2);
    assert(c[5] == dir(0, 0, 1) && w[5] == 2);
    assert(c[6] == dir(0, 0, -1) && w[6] == 2);
    assert(c[7] == dir(1, 1, 0) && w[7] == 1);
    assert(c[8] == dir(-1, -1, 0) && w[8] == 1);
    assert(c[9] == dir(1, 0, 1) && w[9] == 1);
    assert(c[10] == dir(-1, 0, -1) && w[10] == 1);
    assert(c[11] == dir(0, 1, 1) && w[11] == 1);
    assert(c[12] == dir(0, -1, -1) && w[12] == 1);
    assert(c[13] == dir(1, -1, 0) && w[13] == 1);
    assert(c[14] == dir(-1, 1, 0) && w[14] == 1);
    assert(c[15] == dir(1, 0, -1) && w[15] == 1);
    assert(c[16] == dir(-1, 0, 1) && w[16] == 1);
    assert(c[17] == dir(0, 1, -1) && w[17] == 1);
    assert(c[18] == dir(0, -1, 1) && w[18] == 1);
    reveal_with_fuel(second_moment, 20);
}

proof fn lemma_second_moments_d3q27()
    ensures
        second_moment(weights_of(Model::D3Q27), directions_of(Model::D3Q27), 0, 0, 27) == 72,
        second_moment(weights_of(Model::D3Q27), directions_of(Model::D3Q27), 0, 1, 27) == 0,
        second_moment(weights_of(Model::D3Q27), directions_of(Model::D3Q27), 0, 2, 27) == 0,
        second_moment(weights_of(Model::D3Q27), directions_of(Model::D3Q27), 1, 1, 27) == 72,
        second_moment(weights_of(Model::D3Q27), directions_of(Model::D3Q27), 1, 2, 27) == 0,
        second_moment(weights_of(Model::D3Q27), directions_of(Model::D3Q27), 2, 2, 27) == 72,
{
    let c = directions_of(Model::D3Q27);
    let w = weights_of(Model::D3Q27);
    assert(c[0] == dir(0, 0, 0) && w[0] == 64);
    assert(c[1] == dir(1, 0, 0) && w[1] == 16);
    assert(c[2] == dir(-1, 0, 0) && w[2] == 16);
    assert(c[3] == dir(0, 1, 0) && w[3] == 16);
    assert(c[4] == dir(0, -1, 0) && w[4] == 16);
    assert(c[5] == dir(0, 0, 1) && w[5] == 16);
    assert(c[6] == dir(0, 0, -1) && w[6] == 16);
    assert(c[7] == dir(1, 1, 0) && w[7] == 4);
    assert(c[8] == dir(-1, -1, 0) && w[8] == 4);
    assert(c[9] == dir(1, 0, 1) && w[9] == 4);
    assert(c[10] == dir(-1, 0, -1) && w[10] == 4);
    assert(c[11] == dir(0, 1, 1) && w[11] == 4);
    assert(c[12] == dir(0, -1, -1) && w[12] == 4);
    assert(c[13] == dir(1, -1, 0) && w[13] == 4);
    assert(c[14] == dir(-1, 1, 0) && w[14] == 4);
    assert(c[15] == dir(1, 0, -1) && w[15] == 4);
    assert(c[16] == dir(-1, 0, 1) && w[16] == 4);
    assert(c[17] == dir(0, 1, -1) && w[17] == 4);
    assert(c[18] == dir(0, -1, 1) && w[18] == 4);
    assert(c[19] == dir(1, 1, 1) && w[19] == 1);
    assert(c[20] == dir(-1, -1, -1) && w[20] == 1);
    assert(c[21] == dir(1, 1, -1) && w[21] == 1);
    assert(c[22] == dir(-1, -1, 1) && w[22] == 1);
    assert(c[23] == dir(1, -1, 1) && w[23] == 1);
    assert(c[24] == dir(-1, 1, -1) && w[24] == 1);
    assert(c[25] == dir(-1, 1, 1) && w[25] == 1);
    assert(c[26] == dir(1, -1, -1) && w[26] == 1);
    reveal_with_fuel(second_moment, 28);
}

/// The velocity conditions under which the equilibria carry exactly the
/// density: any velocity on the isotropic sets, in the plane for the planar
/// set, and only the rest state on D3Q7, whose weights give a second moment
/// of a quarter instead of a third.
pub open spec fn density_exact(m: Model, ux: int, uy: int, uz: int) -> bool {
    &&& (m == Model::D3Q7 ==> ux == 0 && uy == 0 && uz == 0)
    &&& (m == Model::D2Q9 ==> uz == 0)
}

proof fn lemma_units(m: Model)
    ensures
        units_upto(directions_of(m), direction_count(m) as nat),
        direction_count(m) <= directions_of(m).len(),
{
    lemma_velocity_set_laws(m);
    let c = directions_of(m);
    assert forall|q: int| 0 <= q < direction_count(m) implies unit(component(#[trigger] c[q], 0))
        && unit(component(c[q], 1)) && unit(component(c[q], 2)) by {
        assert(direction_sound(c, weights_of(m), dimension_of(m), q));
    }
}

/// The equilibria built from a density carry exactly that density:
/// `sum_q w_q * equilibrium_factor(c_q, u, s) = 2 s^2 den`, so that
/// `sum_q f_eq_q = rho`.
pub proof fn lemma_equilibrium_density(m: Model, ux: int, uy: int, uz: int, s: int)
    requires
        density_exact(m, ux, uy, uz),
    ensures
        equilibrium_sum(weights_of(m), directions_of(m), ux, uy, uz, s, direction_count(m) as nat) == 2
            * s * s * weight_denominator_of(m),
{
    let w = weights_of(m);
    let c = directions_of(m);
    let k = direction_count(m) as nat;
    let den = weight_denominator_of(m) as int;
    let n = ux * ux + uy * uy + uz * uz;
    lemma_velocity_set_laws(m);
    lemma_units(m);
    lemma_equilibrium_split(w, c, ux, uy, uz, s, k);
    lemma_flux_sum(w, c, ux, uy, uz, k);
    lemma_flux2_sum(w, c, ux, uy, uz, k);
    assert(first_moment(w, c, 0, k) == 0 && first_moment(w, c, 1, k) == 0 && first_moment(w, c, 2, k) == 0);
    lemma_mul_by_zero_is_zero(ux);
    lemma_mul_by_zero_is_zero(uy);
    lemma_mul_by_zero_is_zero(uz);
    assert(flux_sum(w, c, ux, uy, uz, k) == 0);
    let m2 = moment2_form(w, c, ux, uy, uz, k);
    match m {
        Model::D2Q9 => {
            lemma_second_moments_d2q9();
            assert(m2 == 12 * n) by (nonlinear_arith)
                requires
                    m2 == ux * ux * 12 + uy * uy * 12 + uz * uz * 0 + 2 * ux * uy * 0 + 2 * ux * uz * 0
                        + 2 * uy * uz * 0,
                    uz == 0,
                    n == ux * ux + uy * uy + uz * uz;
        },
        Model::D3Q7 => {
            assert(n == 0 && m2 == 0) by (nonlinear_arith)
                requires
                    ux == 0 && uy == 0 && uz == 0,
                    n == ux * ux + uy * uy + uz * uz,
                    m2 == moment2_form(w, c, ux, uy, uz, k);
        },
        Model::D3Q15 => {
            lemma_second_moments_d3q15();
            assert(m2 == 24 * n) by (nonlinear_arith)
                requires
                    m2 == ux * ux * 24 + uy * uy * 24 + uz * uz * 24 + 2 * ux * uy * 0 + 2 * ux * uz * 0
                        + 2 * uy * uz * 0,
                    n == ux * ux + uy * uy + uz * uz;
        },
        Model::D3Q19 => {
            lemma_second_moments_d3q19();
            assert(m2 == 12 * n) by (nonlinear_arith)
                requires
                    m2 == ux * ux * 12 + uy * uy * 12 + uz * uz * 12 + 2 * ux * uy * 0 + 2 * ux * uz * 0
                        + 2 * uy * uz * 0,
                    n == ux * ux + uy * uy + uz * uz;
        },
        Model::D3Q27 => {
            lemma_second_moments_d3q27();
            assert(m2 == 72 * n) by (nonlinear_arith)
                requires
                    m2 == ux * ux * 72 + uy * uy * 72 + uz * uz * 72 + 2 * ux * uy * 0 + 2 * ux * uz * 0
                        + 2 * uy * uz * 0,
                    n == ux * ux + uy * uy + uz * uz;
        },
    }
    assert(3 * n * den == 9 * m2 || n == 0);
    lemma_mul_by_zero_is_zero(6 * s);
    lemma_mul_is_commutative(3 * n, den);
}

/// Sum of the first `k` values.
pub open spec fn value_sum(f: Seq<int>, k: nat) -> int
    decreases k,
{
    if k == 0 {
        0
    } else {
        value_sum(f, (k - 1) as nat) + f[k - 1]
    }
}

/// BGK relaxation of one direction with `omega = a / b`, scaled by
/// `b * 2 s^2 den`: `(b - a) * 2 s^2 den * f_q + a * rho * w_q * factor_q`.
pub open spec fn relaxed(fq: int, wq: int, factor: int, rho: int, a: int, b: int, scale: int) -> int {
    (b - a) * scale * fq + a * rho * (wq * factor)
}

/// Sum over the first `k` directions of the relaxed values.
pub open spec fn relaxed_sum(
    f: Seq<int>,
    w: Seq<u32>,
    c: Seq<Direction>,
    ux: int,
    uy: int,
    uz: int,
    s: int,
    rho: int,
    a: int,
    b: int,
    scale: int,
    k: nat,
) -> int
    decreases k,
{
    if k == 0 {
        0
    } else {
        relaxed_sum(f, w, c, ux, uy, uz, s, rho, a, b, scale, (k - 1) as nat) + relaxed(
            f[k - 1],
            w[k - 1] as int,
            equilibrium_factor(c[k - 1], ux, uy, uz, s),
            rho,
            a,
            b,
            scale,
        )
    }
}

proof fn lemma_relaxed_sum(
    f: Seq<int>,
    w: Seq<u32>,
    c: Seq<Direction>,
    ux: int,
    uy: int,
    uz: int,
    s: int,
    rho: int,
    a: int,
    b: int,
    scale: int,
    k: nat,
)
    ensures
        relaxed_sum(f, w, c, ux, uy, uz, s, rho, a, b, scale, k) == (b - a) * scale * value_sum(f, k) + a
            * rho * equilibrium_sum(w, c, ux, uy, uz, s, k),
    decreases k,
{
    if k > 0 {
        let j = (k - 1) as nat;
        lemma_relaxed_sum(f, w, c, ux, uy, uz, s, rho, a, b, scale, j);
        lemma_mul_is_distributive_add((b - a) * scale, value_sum(f, j), f[k - 1]);
        lemma_mul_is_distributive_add(
            a * rho,
            equilibrium_sum(w, c, ux, uy, uz, s, j),
            w[k - 1] * equilibrium_factor(c[k - 1], ux, uy, uz, s),
        );
    }
}

/// Collision keeps the density of a cell: with `rho` the sum of its values,
/// the BGK-relaxed values, for any rate `a / b`, sum to `rho` again (all
/// scaled by `b * 2 s^2 den`).
pub proof fn lemma_collision_keeps_density(
    m: Model,
    f: Seq<int>,
    ux: int,
    uy: int,
    uz: int,
    s: int,
    a: int,
    b: int,
)
    requires
        f.len() == direction_count(m),
        density_exact(m, ux, uy, uz),
    ensures
        ({
            let k = direction_count(m) as nat;
            let scale = 2 * s * s * weight_denominator_of(m);
            let rho = value_sum(f, k);
            relaxed_sum(f, weights_of(m), directions_of(m), ux, uy, uz, s, rho, a, b, scale, k) == b
                * scale * rho
        }),
{
    let k = direction_count(m) as nat;
    let scale = 2 * s * s * weight_denominator_of(m);
    let rho = value_sum(f, k);
    lemma_relaxed_sum(f, weights_of(m), directions_of(m), ux, uy, uz, s, rho, a, b, scale, k);
    lemma_equilibrium_density(m, ux, uy, uz, s);
    assert((b - a) * scale * rho + a * rho * scale == b * scale * rho) by (nonlinear_arith);
}

/// The rest state is a fixed point of a whole pass. At density one and zero
/// velocity (each value the weight of its direction, over `den`) the
/// equilibria are the weights, relaxation at any rate `a / b` leaves them,
/// and streaming over a domain without solid cells leaves the field as it was.
pub proof fn lemma_rest_state_fixed_point(
    g: Grid,
    vs: VelocitySet,
    flags: Seq<u8>,
    f: Seq<int>,
    prev: Seq<int>,
    after: Seq<int>,
    s: int,
    a: int,
    b: int,
)
    requires
        streamed_over(g, vs, flags, f, prev, after),
        all_open(flags),
        forall|i: int|
            0 <= i < g.cells() * vs.q() ==> #[trigger] f[i] == vs.weights@[i % vs.q() as int] as int,
    ensures
        forall|q: int|
            0 <= q < vs.q() ==> vs.weights@[q] * equilibrium_factor(#[trigger] vs.directions@[q], 0, 0, 0, s)
                == 2 * s * s * vs.weights@[q],
        forall|q: int|
            0 <= q < vs.q() ==> relaxed(
                vs.weights@[q] as int,
                vs.weights@[q] as int,
                equilibrium_factor(#[trigger] vs.directions@[q], 0, 0, 0, s),
                vs.weight_denominator as int,
                a,
                b,
                2 * s * s * vs.weight_denominator,
            ) == b * (2 * s * s * vs.weight_denominator) * vs.weights@[q],
        after == f,
{
    lemma_velocity_set_laws(vs.model);
    let w = vs.weights@;
    let den = vs.weight_denominator as int;
    let per_direction = Seq::new(vs.q(), |q: int| w[q] as int);
    assert forall|i: int| 0 <= i < g.cells() * vs.q() implies #[trigger] f[i] == per_direction[i % vs.q() as int] by {
        vstd::arithmetic::div_mod::lemma_mod_bound(i, vs.q() as int);
    }
    lemma_uniform_stream(g, vs, flags, f, prev, after, per_direction);
    assert forall|q: int| 0 <= q < vs.q() implies w[q] * equilibrium_factor(#[trigger] vs.directions@[q], 0, 0, 0, s)
        == 2 * s * s * w[q] by {
        let d = vs.directions@[q];
        assert(dot(d, 0, 0, 0) == 0) by (nonlinear_arith);
        assert(equilibrium_factor(d, 0, 0, 0, s) == 2 * s * s);
        lemma_mul_is_commutative(w[q] as int, 2 * s * s);
    }
    assert forall|q: int| 0 <= q < vs.q() implies relaxed(
        w[q] as int,
        w[q] as int,
        equilibrium_factor(#[trigger] vs.directions@[q], 0, 0, 0, s),
        den,
        a,
        b,
        2 * s * s * den,
    ) == b * (2 * s * s * den) * w[q] by {
        let d = vs.directions@[q];
        let wq = w[q] as int;
        assert(dot(d, 0, 0, 0) == 0) by (nonlinear_arith);
        assert(equilibrium_factor(d, 0, 0, 0, s) == 2 * s * s);
        let k = 2 * s * s;
        assert((b - a) * (k * den) * wq + a * den * (wq * k) == b * (k * den) * wq) by (nonlinear_arith);
    }
}

proof fn lemma_value_sum_update(f: Seq<int>, k: int, v: int, n: nat)
    requires
        0 <= k < n <= f.len(),
    ensures
        value_sum(f.update(k, v), n) == value_sum(f, n) - f[k] + v,
    decreases n,
{
    let j = (n - 1) as nat;
    if k < n - 1 {
        lemma_value_sum_update(f, k, v, j);
    } else {
        lemma_value_sum_prefix(f, f.update(k, v), j);
    }
}

proof fn lemma_value_sum_prefix(f: Seq<int>, g: Seq<int>, n: nat)
    requires
        n <= f.len(),
        n <= g.len(),
        forall|i: int| 0 <= i < n ==> f[i] == g[i],
    ensures
        value_sum(f, n) == value_sum(g, n),
    decreases n,
{
    if n > 0 {
        lemma_value_sum_prefix(f, g, (n - 1) as nat);
    }
}

/// Reordering values by a bijection of `0..n` keeps their sum.
proof fn lemma_value_sum_permuted(
    f: Seq<int>,
    g: Seq<int>,
    sigma: spec_fn(int) -> int,
    tau: spec_fn(int) -> int,
    n: nat,
)
    requires
        f.len() >= n,
        g.len() >= n,
        forall|i: int| 0 <= i < n ==> 0 <= #[trigger] sigma(i) < n && g[i] == f[sigma(i)],
        forall|j: int| 0 <= j < n ==> 0 <= #[trigger] tau(j) < n && sigma(tau(j)) == j,
        forall|i: int, j: int|
            0 <= i < n && 0 <= j < n && #[trigger] sigma(i) == #[trigger] sigma(j) ==> i == j,
    ensures
        value_sum(g, n) == value_sum(f, n),
    decreases n,
{
    if n > 0 {
        let last = n - 1;
        let k = tau(last);
        let g2 = g.update(k, g[last]);
        let sigma2 = |i: int| if i == k { sigma(last) } else { sigma(i) };
        let tau2 = |j: int| if tau(j) == last { k } else { tau(j) };
        assert(sigma(k) == last);
        assert forall|i: int| 0 <= i < last implies 0 <= #[trigger] sigma2(i) < last && g2[i] == f[sigma2(i)] by {
            if i == k {
                assert(sigma(last) != sigma(k));
            } else {
                assert(sigma(i) != sigma(k));
            }
        }
        assert forall|j: int| 0 <= j < last implies 0 <= #[trigger] tau2(j) < last && sigma2(tau2(j)) == j by {
            assert(sigma(tau(j)) == j);
            if tau(j) == last {
                assert(k != last);
            } else {
                assert(tau(j) != k);
            }
        }
        assert forall|i: int, j: int|
            0 <= i < last && 0 <= j < last && #[trigger] sigma2(i) == #[trigger] sigma2(j) implies i == j by {
            if i == k && j != k {
                assert(sigma(last) == sigma(j));
            } else if j == k && i != k {
                assert(sigma(last) == sigma(i));
            }
        }
        lemma_value_sum_permuted(f, g2, sigma2, tau2, last as nat);
        lemma_value_sum_update(g, k, g[last], last as nat + 1);
        if k == last {
            assert(g2 =~= g);
        }
        lemma_value_sum_prefix(g2, g.update(k, g[last]), last as nat);
        assert(sigma(k) == last);
        assert(g[k] == f[last]);
    }
}

/// On a domain without solid cells streaming keeps the total of all values:
/// the mass summed over every cell and direction is the same afterwards.
pub proof fn lemma_periodic_stream_keeps_mass(
    g: Grid,
    vs: VelocitySet,
    flags: Seq<u8>,
    f: Seq<int>,
    prev: Seq<int>,
    after: Seq<int>,
)
    requires
        streamed_over(g, vs, flags, f, prev, after),
        all_open(flags),
    ensures
        value_sum(after, (g.cells() * vs.q()) as nat) == value_sum(f, (g.cells() * vs.q()) as nat),
{
    lemma_velocity_set_laws(vs.model);
    lemma_periodic_stream_permutes(g, vs, flags, f, prev, after);
    let q = vs.q() as int;
    let c = vs.directions@;
    let n = g.cells() * q;
    let sigma = |i: int| source_of(g, c, i);
    let tau = |j: int| slot(q, neighbor(g, j / q, c[j % q]), j % q);
    assert forall|j: int| 0 <= j < n implies 0 <= #[trigger] tau(j) < n && sigma(tau(j)) == j by {
        let (m, p) = (j / q, j % q);
        vstd::arithmetic::div_mod::lemma_fundamental_div_mod(j, q);
        vstd::arithmetic::div_mod::lemma_mod_bound(j, q);
        vstd::arithmetic::div_mod::lemma_div_pos_is_pos(j, q);
        lemma_mul_is_commutative(q, g.cells());
        vstd::arithmetic::div_mod::lemma_multiply_divide_lt(j, q, g.cells());
        assert(direction_sound(c, weights_of(vs.model), dimension_of(vs.model), p));
        lemma_neighbor_inverse(g, m, c[p]);
        let nb = neighbor(g, m, c[p]);
        lemma_slot(q, nb, p);
        assert(0 <= slot(q, nb, p) < n) by (nonlinear_arith)
            requires 0 <= nb < g.cells(), 0 <= p < q, n == g.cells() * q;
        assert(c[opposite_of(p)] == negated(c[p]));
        assert(j == slot(q, m, p));
    }
    assert forall|i: int| 0 <= i < n implies 0 <= #[trigger] sigma(i) < n && after[i] == f[sigma(i)] by {
        assert(0 <= source_of(g, c, i) < n);
    }
    assert forall|i: int, j: int| 0 <= i < n && 0 <= j < n && #[trigger] sigma(i) == #[trigger] sigma(j) implies i == j by {
        assert(source_of(g, c, i) == source_of(g, c, j));
    }
    lemma_value_sum_permuted(f, after, sigma, tau, n as nat);
}

} // verus!
