//! Catalogue of the supported discrete velocity sets.
//!
//! Weights are kept exactly, as integer numerators over one denominator per
//! model, so that their sums are facts about integers.

use crate::error::{ConfigIssue, LbmError};
use crate::text::str_eq;
use vstd::prelude::*;
use vstd::string::*;

verus! {

/// A supported discretisation scheme: dimensionality and direction count.
#[derive(Clone, Copy, Debug, PartialEq, Eq, Structural)]
pub enum Model {
    D2Q9,
    D3Q7,
    D3Q15,
    D3Q19,
    D3Q27,
}

/// One discrete velocity vector.
#[derive(Clone, Copy, Debug, PartialEq, Eq, Structural)]
pub struct Direction {
    pub cx: i32,
    pub cy: i32,
    pub cz: i32,
}

pub open spec fn dir(cx: int, cy: int, cz: int) -> Direction {
    Direction { cx: cx as i32, cy: cy as i32, cz: cz as i32 }
}

/// Component `axis` (0, 1 or 2) of a direction.
pub open spec fn component(d: Direction, axis: int) -> int {
    if axis == 0 {
        d.cx as int
    } else if axis == 1 {
        d.cy as int
    } else {
        d.cz as int
    }
}

/// Every component is -1, 0 or 1.
pub open spec fn unit_step(d: Direction) -> bool {
    &&& -1 <= d.cx <= 1
    &&& -1 <= d.cy <= 1
    &&& -1 <= d.cz <= 1
}

pub open spec fn negated(d: Direction) -> Direction {
    dir(-d.cx, -d.cy, -d.cz)
}

/// The velocity vectors of each model, in the order used by every array.
pub open spec fn directions_of(m: Model) -> Seq<Direction> {
    match m {
        Model::D2Q9 => seq![
            dir(0, 0, 0), dir(1, 0, 0), dir(-1, 0, 0), dir(0, 1, 0),
            dir(0, -1, 0), dir(1, 1, 0), dir(-1, -1, 0), dir(1, -1, 0),
            dir(-1, 1, 0),
        ],
        Model::D3Q7 => seq![
            dir(0, 0, 0), dir(1, 0, 0), dir(-1, 0, 0), dir(0, 1, 0),
            dir(0, -1, 0), dir(0, 0, 1), dir(0, 0, -1),
        ],
        Model::D3Q15 => seq![
            dir(0, 0, 0), dir(1, 0, 0), dir(-1, 0, 0), dir(0, 1, 0),
            dir(0, -1, 0), dir(0, 0, 1), dir(0, 0, -1), dir(1, 1, 1),
            dir(-1, -1, -1), dir(1, 1, -1), dir(-1, -1, 1), dir(1, -1, 1),
            dir(-1, 1, -1), dir(-1, 1, 1), dir(1, -1, -1),
        ],
        Model::D3Q19 => seq![
            dir(0, 0, 0), dir(1, 0, 0), dir(-1, 0, 0), dir(0, 1, 0),
            dir(0, -1, 0), dir(0, 0, 1), dir(0, 0, -1), dir(1, 1, 0),
            dir(-1, -1, 0), dir(1, 0, 1), dir(-1, 0, -1), dir(0, 1, 1),
            dir(0, -1, -1), dir(1, -1, 0), dir(-1, 1, 0), dir(1, 0, -1),
            dir(-1, 0, 1), dir(0, 1, -1), dir(0, -1, 1),
        ],
        Model::D3Q27 => seq![
            dir(0, 0, 0), dir(1, 0, 0), dir(-1, 0, 0), dir(0, 1, 0),
            dir(0, -1, 0), dir(0, 0, 1), dir(0, 0, -1), dir(1, 1, 0),
            dir(-1, -1, 0), dir(1, 0, 1), dir(-1, 0, -1), dir(0, 1, 1),
            dir(0, -1, -1), dir(1, -1, 0), dir(-1, 1, 0), dir(1, 0, -1),
            dir(-1, 0, 1), dir(0, 1, -1), dir(0, -1, 1), dir(1, 1, 1),
            dir(-1, -1, -1), dir(1, 1, -1), dir(-1, -1, 1), dir(1, -1, 1),
            dir(-1, 1, -1), dir(-1, 1, 1), dir(1, -1, -1),
        ],
    }
}

/// Weight numerators of each model, over `weight_denominator_of(m)`.
pub open spec fn weights_of(m: Model) -> Seq<u32> {
    match m {
        Model::D2Q9 => seq![
            16, 4, 4, 4, 4, 1, 1, 1, 1,
        ],
        Model::D3Q7 => seq![
            2, 1, 1, 1, 1, 1, 1,
        ],
        Model::D3Q15 => seq![
            16, 8, 8, 8, 8, 8, 8, 1, 1, 1, 1, 1, 1, 1, 1,
        ],
        Model::D3Q19 => seq![
            12, 2, 2, 2, 2, 2, 2, 1, 1, 1, 1, 1, 1, 1, 1, 1, 1, 1, 1,
        ],
        Model::D3Q27 => seq![
            64, 16, 16, 16, 16, 16, 16, 4, 4, 4, 4, 4, 4, 4, 4, 4, 4, 4, 4, 1, 1, 1, 1, 1, 1, 1, 1,
        ],
    }
}

pub open spec fn weight_denominator_of(m: Model) -> u32 {
    match m {
        Model::D2Q9 => 36,
        Model::D3Q7 => 8,
        Model::D3Q15 => 72,
        Model::D3Q19 => 36,
        Model::D3Q27 => 216,
    }
}

pub open spec fn dimension_of(m: Model) -> usize {
    match m {
        Model::D2Q9 => 2,
        _ => 3,
    }
}

pub open spec fn direction_count(m: Model) -> usize {
    match m {
        Model::D2Q9 => 9,
        Model::D3Q7 => 7,
        Model::D3Q15 => 15,
        Model::D3Q19 => 19,
        Model::D3Q27 => 27,
    }
}

/// Index of the direction opposite to direction `q`: the rest direction is
/// its own opposite, the others come in pairs `(2k - 1, 2k)`.
pub open spec fn opposite_of(q: int) -> int {
    if q == 0 {
        0
    } else if q % 2 == 1 {
        q + 1
    } else {
        q - 1
    }
}

/// Name of each model as it is written in configurations.
pub open spec fn model_name(m: Model) -> Seq<char> {
    match m {
        Model::D2Q9 => seq!['D', '2', 'Q', '9'],
        Model::D3Q7 => seq!['D', '3', 'Q', '7'],
        Model::D3Q15 => seq!['D', '3', 'Q', '1', '5'],
        Model::D3Q19 => seq!['D', '3', 'Q', '1', '9'],
        Model::D3Q27 => seq!['D', '3', 'Q', '2', '7'],
    }
}

/// `v * u` for a unit `u` (-1, 0 or 1), written without multiplication.
pub open spec fn times_unit(v: int, u: int) -> int {
    if u == 0 {
        0
    } else if u > 0 {
        v
    } else {
        -v
    }
}

/// Sum of the first `k` weight numerators.
pub open spec fn weight_sum(w: Seq<u32>, k: nat) -> int
    decreases k,
{
    if k == 0 {
        0
    } else {
        weight_sum(w, (k - 1) as nat) + w[k - 1] as int
    }
}

/// Sum over the first `k` directions of `w_q * c_q[axis]` (components are units).
pub open spec fn first_moment(w: Seq<u32>, c: Seq<Direction>, axis: int, k: nat) -> int
    decreases k,
{
    if k == 0 {
        0
    } else {
        first_moment(w, c, axis, (k - 1) as nat) + times_unit(w[k - 1] as int, component(c[k - 1], axis))
    }
}

/// Sum over the first `k` directions of `w_q * c_q[a] * c_q[b]` (components are units).
pub open spec fn second_moment(w: Seq<u32>, c: Seq<Direction>, a: int, b: int, k: nat) -> int
    decreases k,
{
    if k == 0 {
        0
    } else {
        second_moment(w, c, a, b, (k - 1) as nat) + times_unit(
            times_unit(w[k - 1] as int, component(c[k - 1], a)),
            component(c[k - 1], b),
        )
    }
}

/// Direction `q` is a unit step and has an opposite inside the set that is its negation and
/// whose own opposite is `q` and whose weight is the same; in a two-dimensional set it lies in the plane.
pub open spec fn direction_sound(c: Seq<Direction>, w: Seq<u32>, dim: usize, q: int) -> bool {
    &&& 0 <= opposite_of(q) < c.len()
    &&& unit_step(c[q])
    &&& opposite_of(opposite_of(q)) == q
    &&& c[opposite_of(q)] == negated(c[q])
    &&& w[opposite_of(q)] == w[q]
    &&& (dim == 2 ==> c[q].cz == 0)
}

pub open spec fn directions_sound_upto(c: Seq<Direction>, w: Seq<u32>, dim: usize, k: nat) -> bool
    decreases k,
{
    if k == 0 {
        true
    } else {
        directions_sound_upto(c, w, dim, (k - 1) as nat) && direction_sound(c, w, dim, k - 1)
    }
}

proof fn lemma_directions_sound(c: Seq<Direction>, w: Seq<u32>, dim: usize, k: nat)
    requires
        directions_sound_upto(c, w, dim, k),
    ensures
        forall|q: int| 0 <= q < k ==> direction_sound(c, w, dim, q),
    decreases k,
{
    if k > 0 {
        lemma_directions_sound(c, w, dim, (k - 1) as nat);
    }
}

/// Opposite pairs of equal weight cancel in the first moment.
proof fn lemma_first_moment_cancels(w: Seq<u32>, c: Seq<Direction>, dim: usize, axis: int, j: nat)
    requires
        2 * j + 1 <= c.len(),
        2 * j + 1 <= w.len(),
        forall|q: int| 0 <= q < 2 * j + 1 ==> direction_sound(c, w, dim, q),
    ensures
        first_moment(w, c, axis, 2 * j + 1) == 0,
    decreases j,
{
    if j == 0 {
        assert(direction_sound(c, w, dim, 0));
        assert(first_moment(w, c, axis, 0) == 0);
        assert(component(c[0], axis) == 0);
    } else {
        lemma_first_moment_cancels(w, c, dim, axis, (j - 1) as nat);
        let a = 2 * j - 1;
        assert(direction_sound(c, w, dim, a));
        assert(opposite_of(a) == a + 1);
        assert(component(c[a + 1], axis) == -component(c[a], axis));
        assert(direction_sound(c, w, dim, a + 1));
        assert(first_moment(w, c, axis, (2 * j) as nat) == first_moment(w, c, axis, (2 * j - 1) as nat)
            + times_unit(w[a] as int, component(c[a], axis)));
    }
}

proof fn lemma_tables_d2q9()
    ensures
        weight_sum(weights_of(Model::D2Q9), 9) == weight_denominator_of(Model::D2Q9),
        directions_sound_upto(directions_of(Model::D2Q9), weights_of(Model::D2Q9), dimension_of(Model::D2Q9), 9),
{
    reveal_with_fuel(weight_sum, 10);
    reveal_with_fuel(directions_sound_upto, 10);
}

proof fn lemma_tables_d3q7()
    ensures
        weight_sum(weights_of(Model::D3Q7), 7) == weight_denominator_of(Model::D3Q7),
        directions_sound_upto(directions_of(Model::D3Q7), weights_of(Model::D3Q7), dimension_of(Model::D3Q7), 7),
{
    reveal_with_fuel(weight_sum, 8);
    reveal_with_fuel(directions_sound_upto, 8);
}

proof fn lemma_tables_d3q15()
    ensures
        weight_sum(weights_of(Model::D3Q15), 15) == weight_denominator_of(Model::D3Q15),
        directions_sound_upto(directions_of(Model::D3Q15), weights_of(Model::D3Q15), dimension_of(Model::D3Q15), 15),
{
    reveal_with_fuel(weight_sum, 16);
    reveal_with_fuel(directions_sound_upto, 16);
}

proof fn lemma_tables_d3q19()
    ensures
        weight_sum(weights_of(Model::D3Q19), 19) == weight_denominator_of(Model::D3Q19),
        directions_sound_upto(directions_of(Model::D3Q19), weights_of(Model::D3Q19), dimension_of(Model::D3Q19), 19),
{
    reveal_with_fuel(weight_sum, 20);
    reveal_with_fuel(directions_sound_upto, 20);
}

proof fn lemma_tables_d3q27()
    ensures
        weight_sum(weights_of(Model::D3Q27), 27) == weight_denominator_of(Model::D3Q27),
        directions_sound_upto(directions_of(Model::D3Q27), weights_of(Model::D3Q27), dimension_of(Model::D3Q27), 27),
{
    reveal_with_fuel(weight_sum, 28);
    reveal_with_fuel(directions_sound_upto, 28);
}

/// The tables of every model are consistent: weights sum to one, the
/// weighted velocities cancel, opposites are an involution mapping each
/// velocity to its negation, and a two-dimensional set stays in the plane.
pub proof fn lemma_velocity_set_laws(m: Model)
    ensures
        directions_of(m).len() == direction_count(m),
        weights_of(m).len() == direction_count(m),
        weight_sum(weights_of(m), direction_count(m) as nat) == weight_denominator_of(m),
        forall|axis: int|
            0 <= axis < 3 ==> first_moment(
                weights_of(m),
                directions_of(m),
                axis,
                direction_count(m) as nat,
            ) == 0,
        forall|q: int|
            0 <= q < direction_count(m) ==> direction_sound(
                directions_of(m),
                weights_of(m),
                dimension_of(m),
                q,
            ),
{
    let w = weights_of(m);
    let c = directions_of(m);
    let k = direction_count(m) as nat;
    match m {
        Model::D2Q9 => lemma_tables_d2q9(),
        Model::D3Q7 => lemma_tables_d3q7(),
        Model::D3Q15 => lemma_tables_d3q15(),
        Model::D3Q19 => lemma_tables_d3q19(),
        Model::D3Q27 => lemma_tables_d3q27(),
    }
    lemma_directions_sound(c, w, dimension_of(m), k);
    let j = ((k - 1) / 2) as nat;
    assert(2 * j + 1 == k);
    lemma_first_moment_cancels(w, c, dimension_of(m), 0, j);
    lemma_first_moment_cancels(w, c, dimension_of(m), 1, j);
    lemma_first_moment_cancels(w, c, dimension_of(m), 2, j);
    assert forall|axis: int| 0 <= axis < 3 implies first_moment(w, c, axis, k) == 0 by {
        lemma_first_moment_cancels(w, c, dimension_of(m), axis, j);
    }
}

/// The tables of one model, as arrays ready for use.
#[derive(Clone, Debug)]
pub struct VelocitySet {
    pub model: Model,
    pub dimension: usize,
    pub directions: Vec<Direction>,
    pub weights: Vec<u32>,
    pub weight_denominator: u32,
    pub opposite: Vec<usize>,
}

impl VelocitySet {
    /// The set holds exactly the tables of its model.
    pub open spec fn wf(&self) -> bool {
        &&& self.dimension == dimension_of(self.model)
        &&& self.directions@ == directions_of(self.model)
        &&& self.weights@ == weights_of(self.model)
        &&& self.weight_denominator == weight_denominator_of(self.model)
        &&& self.opposite@.len() == direction_count(self.model)
        &&& forall|q: int|
            0 <= q < direction_count(self.model) ==> self.opposite@[q] as int == opposite_of(q)
    }

    pub open spec fn q(&self) -> nat {
        direction_count(self.model) as nat
    }

    /// Number of directions.
    pub fn len(&self) -> (r: usize)
        requires
            self.wf(),
        ensures
            r == direction_count(self.model),
    {
        proof {
            lemma_velocity_set_laws(self.model);
        }
        self.directions.len()
    }
}

fn make_dir(cx: i32, cy: i32, cz: i32) -> (r: Direction)
    ensures
        r == dir(cx as int, cy as int, cz as int),
{
    Direction { cx, cy, cz }
}

/// Number of directions of a model.
pub fn model_direction_count(m: Model) -> (r: usize)
    ensures
        r == direction_count(m),
{
    match m {
        Model::D2Q9 => 9,
        Model::D3Q7 => 7,
        Model::D3Q15 => 15,
        Model::D3Q19 => 19,
        Model::D3Q27 => 27,
    }
}

/// Dimensionality of a model.
pub fn model_dimension(m: Model) -> (r: usize)
    ensures
        r == dimension_of(m),
{
    match m {
        Model::D2Q9 => 2,
        _ => 3,
    }
}

fn direction_table(m: Model) -> (r: Vec<Direction>)
    ensures
        r@ == directions_of(m),
{
    let v = match m {
        Model::D2Q9 => vec![
            make_dir(0, 0, 0), make_dir(1, 0, 0), make_dir(-1, 0, 0), make_dir(0, 1, 0),
            make_dir(0, -1, 0), make_dir(1, 1, 0), make_dir(-1, -1, 0), make_dir(1, -1, 0),
            make_dir(-1, 1, 0),
        ],
        Model::D3Q7 => vec![
            make_dir(0, 0, 0), make_dir(1, 0, 0), make_dir(-1, 0, 0), make_dir(0, 1, 0),
            make_dir(0, -1, 0), make_dir(0, 0, 1), make_dir(0, 0, -1),
        ],
        Model::D3Q15 => vec![
            make_dir(0, 0, 0), make_dir(1, 0, 0), make_dir(-1, 0, 0), make_dir(0, 1, 0),
            make_dir(0, -1, 0), make_dir(0, 0, 1), make_dir(0, 0, -1), make_dir(1, 1, 1),
            make_dir(-1, -1, -1), make_dir(1, 1, -1), make_dir(-1, -1, 1), make_dir(1, -1, 1),
            make_dir(-1, 1, -1), make_dir(-1, 1, 1), make_dir(1, -1, -1),
        ],
        Model::D3Q19 => vec![
            make_dir(0, 0, 0), make_dir(1, 0, 0), make_dir(-1, 0, 0), make_dir(0, 1, 0),
            make_dir(0, -1, 0), make_dir(0, 0, 1), make_dir(0, 0, -1), make_dir(1, 1, 0),
            make_dir(-1, -1, 0), make_dir(1, 0, 1), make_dir(-1, 0, -1), make_dir(0, 1, 1),
            make_dir(0, -1, -1), make_dir(1, -1, 0), make_dir(-1, 1, 0), make_dir(1, 0, -1),
            make_dir(-1, 0, 1), make_dir(0, 1, -1), make_dir(0, -1, 1),
        ],
        Model::D3Q27 => vec![
            make_dir(0, 0, 0), make_dir(1, 0, 0), make_dir(-1, 0, 0), make_dir(0, 1, 0),
            make_dir(0, -1, 0), make_dir(0, 0, 1), make_dir(0, 0, -1), make_dir(1, 1, 0),
            make_dir(-1, -1, 0), make_dir(1, 0, 1), make_dir(-1, 0, -1), make_dir(0, 1, 1),
            make_dir(0, -1, -1), make_dir(1, -1, 0), make_dir(-1, 1, 0), make_dir(1, 0, -1),
            make_dir(-1, 0, 1), make_dir(0, 1, -1), make_dir(0, -1, 1), make_dir(1, 1, 1),
            make_dir(-1, -1, -1), make_dir(1, 1, -1), make_dir(-1, -1, 1), make_dir(1, -1, 1),
            make_dir(-1, 1, -1), make_dir(-1, 1, 1), make_dir(1, -1, -1),
        ],
    };
    assert(v@ =~= directions_of(m));
    v
}

fn weight_table(m: Model) -> (r: Vec<u32>)
    ensures
        r@ == weights_of(m),
{
    let v = match m {
        Model::D2Q9 => vec![
            16, 4, 4, 4, 4, 1, 1, 1, 1,
        ],
        Model::D3Q7 => vec![
            2, 1, 1, 1, 1, 1, 1,
        ],
        Model::D3Q15 => vec![
            16, 8, 8, 8, 8, 8, 8, 1, 1, 1, 1, 1, 1, 1, 1,
        ],
        Model::D3Q19 => vec![
            12, 2, 2, 2, 2, 2, 2, 1, 1, 1, 1, 1, 1, 1, 1, 1, 1, 1, 1,
        ],
        Model::D3Q27 => vec![
            64, 16, 16, 16, 16, 16, 16, 4, 4, 4, 4, 4, 4, 4, 4, 4, 4, 4, 4, 1, 1, 1, 1, 1, 1, 1, 1,
        ],
    };
    assert(v@ =~= weights_of(m));
    v
}

fn opposite_table(count: usize) -> (r: Vec<usize>)
    requires
        count <= 27,
    ensures
        r@.len() == count,
        forall|q: int| 0 <= q < count ==> r@[q] as int == opposite_of(q),
{
    let mut v: Vec<usize> = Vec::new();
    let mut q: usize = 0;
    while q < count
        invariant
            q <= count <= 27,
            v@.len() == q,
            forall|i: int| 0 <= i < q ==> v@[i] as int == opposite_of(i),
        decreases count - q,
    {
        let o: usize = if q == 0 {
            0
        } else if q % 2 == 1 {
            q + 1
        } else {
            q - 1
        };
        v.push(o);
        q += 1;
    }
    v
}

/// The velocity set of a model.
pub fn velocity_set(m: Model) -> (vs: VelocitySet)
    ensures
        vs.model == m,
        vs.wf(),
{
    proof {
        lemma_velocity_set_laws(m);
    }
    let weight_denominator: u32 = match m {
        Model::D2Q9 => 36,
        Model::D3Q7 => 8,
        Model::D3Q15 => 72,
        Model::D3Q19 => 36,
        Model::D3Q27 => 216,
    };
    VelocitySet {
        model: m,
        dimension: model_dimension(m),
        directions: direction_table(m),
        weights: weight_table(m),
        weight_denominator,
        opposite: opposite_table(model_direction_count(m)),
    }
}


/// The model whose name is `name`, if any.
pub open spec fn model_named(name: Seq<char>) -> Option<Model> {
    if name == model_name(Model::D2Q9) {
        Some(Model::D2Q9)
    } else if name == model_name(Model::D3Q7) {
        Some(Model::D3Q7)
    } else if name == model_name(Model::D3Q15) {
        Some(Model::D3Q15)
    } else if name == model_name(Model::D3Q19) {
        Some(Model::D3Q19)
    } else if name == model_name(Model::D3Q27) {
        Some(Model::D3Q27)
    } else {
        None
    }
}

/// Every model is found under its own name.
pub proof fn lemma_model_named(m: Model)
    ensures
        model_named(model_name(m)) == Some(m),
{
    assert(model_name(Model::D2Q9) != model_name(Model::D3Q7));
    assert(model_name(Model::D3Q15)[3] != model_name(Model::D3Q19)[4]);
    assert(model_name(Model::D3Q15)[4] != model_name(Model::D3Q19)[4]);
    assert(model_name(Model::D3Q15)[4] != model_name(Model::D3Q27)[4]);
    assert(model_name(Model::D3Q19)[4] != model_name(Model::D3Q27)[4]);
}

impl Model {
    /// The model named `name` (exact, case-sensitive), if supported.
    pub fn from_name(name: &str) -> (r: Option<Model>)
        ensures
            r == model_named(name@),
    {
        proof {
            reveal_strlit("D2Q9");
            reveal_strlit("D3Q7");
            reveal_strlit("D3Q15");
            reveal_strlit("D3Q19");
            reveal_strlit("D3Q27");
            assert("D2Q9"@ =~= model_name(Model::D2Q9));
            assert("D3Q7"@ =~= model_name(Model::D3Q7));
            assert("D3Q15"@ =~= model_name(Model::D3Q15));
            assert("D3Q19"@ =~= model_name(Model::D3Q19));
            assert("D3Q27"@ =~= model_name(Model::D3Q27));
        }
        if str_eq(name, "D2Q9") {
            Some(Model::D2Q9)
        } else if str_eq(name, "D3Q7") {
            Some(Model::D3Q7)
        } else if str_eq(name, "D3Q15") {
            Some(Model::D3Q15)
        } else if str_eq(name, "D3Q19") {
            Some(Model::D3Q19)
        } else if str_eq(name, "D3Q27") {
            Some(Model::D3Q27)
        } else {
            None
        }
    }

    /// The name of the model.
    pub fn name(&self) -> (r: &'static str)
        ensures
            r@ == model_name(*self),
    {
        proof {
            reveal_strlit("D2Q9");
            reveal_strlit("D3Q7");
            reveal_strlit("D3Q15");
            reveal_strlit("D3Q19");
            reveal_strlit("D3Q27");
        }
        let r = match self {
            Model::D2Q9 => "D2Q9",
            Model::D3Q7 => "D3Q7",
            Model::D3Q15 => "D3Q15",
            Model::D3Q19 => "D3Q19",
            Model::D3Q27 => "D3Q27",
        };
        assert(r@ =~= model_name(*self));
        r
    }
}

/// The velocity set named `name`; an unknown name is a configuration error
/// that carries it.
pub fn get_velocity_set(name: &str) -> (r: Result<VelocitySet, LbmError>)
    ensures
        match model_named(name@) {
            Some(m) => r is Ok && r->Ok_0.model == m && r->Ok_0.wf(),
            None => r is Err && r->Err_0 is Configuration && r->Err_0->Configuration_0
                is UnsupportedModel && r->Err_0->Configuration_0->UnsupportedModel_name@
                == name@,
        },
{
    match Model::from_name(name) {
        Some(m) => Ok(velocity_set(m)),
        None => Err(
            LbmError::Configuration(ConfigIssue::UnsupportedModel { name: String::from_str(name) }),
        ),
    }
}

} // verus!
