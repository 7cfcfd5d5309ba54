//! Generation of the device program: size and model constants, the
//! velocity-set tables, and the fused update routine, specialised to one
//! configuration. The text depends on the configuration alone.

use crate::config::{Force, Ratio, ValidConfig};
use crate::precision::PrecisionMode;
use crate::text::{decimal, push_decimal, push_signed_decimal, signed_decimal};
use crate::velocity_set::{
    Direction, VelocitySet, direction_count, lemma_velocity_set_laws, model_name, opposite_of,
    velocity_set, weight_denominator_of, weights_of, directions_of,
};
use vstd::prelude::*;
use vstd::string::*;

verus! {

/// The fused update routine and the equilibrium seeding routine, written
/// against the constants and tables that precede them in the program.
pub const UPDATE_PROGRAM: &'static str = "
inline void equilibria(const REAL rho, const REAL ux, const REAL uy, const REAL uz, REAL* feq) {
    const REAL u2 = ux * ux + uy * uy + uz * uz;
    for (int q = 0; q < Q; q++) {
        const REAL cu = (REAL)c[q][0] * ux + (REAL)c[q][1] * uy + (REAL)c[q][2] * uz;
        feq[q] = (REAL)w[q] * rho
            * ((REAL)1.0f + (REAL)3.0f * cu + (REAL)4.5f * cu * cu - (REAL)1.5f * u2);
    }
}

__kernel void equilibrium(__global STORE_T* f, __global const float* rho, __global const float* u) {
    const uint n = get_global_id(0);
    if (n >= N) return;
    REAL feq[Q];
    equilibria((REAL)rho[n], (REAL)u[3 * n], (REAL)u[3 * n + 1], (REAL)u[3 * n + 2], feq);
    for (int q = 0; q < Q; q++) {
        STORE(f, n * Q + q, feq[q]);
    }
}

__kernel void stream_collide(__global const STORE_T* f, __global STORE_T* f_new,
                             __global float* rho, __global float* u,
                             __global const uchar* flags, const float omega) {
    const uint n = get_global_id(0);
    if (n >= N) return;
    const uchar flag = flags[n];
    if (flag == FLAG_SOLID) return;

    REAL fl[Q];
    REAL r = (REAL)0.0f;
    REAL jx = (REAL)0.0f;
    REAL jy = (REAL)0.0f;
    REAL jz = (REAL)0.0f;
    for (int q = 0; q < Q; q++) {
        fl[q] = LOAD(f, n * Q + q);
        r += fl[q];
        jx += (REAL)c[q][0] * fl[q];
        jy += (REAL)c[q][1] * fl[q];
        jz += (REAL)c[q][2] * fl[q];
    }

    REAL ux = (REAL)0.0f;
    REAL uy = (REAL)0.0f;
    REAL uz = (REAL)0.0f;
    if (flag == FLAG_EQ) {
        r = (REAL)rho[n];
        ux = (REAL)u[3 * n];
        uy = (REAL)u[3 * n + 1];
        uz = (REAL)u[3 * n + 2];
    } else if (r > (REAL)RHO_EPSILON) {
        ux = jx / r;
        uy = jy / r;
        uz = jz / r;
#ifdef USE_CONSTANT_FORCE
        ux += (REAL)0.5f * (REAL)FX / r;
        uy += (REAL)0.5f * (REAL)FY / r;
        uz += (REAL)0.5f * (REAL)FZ / r;
#endif
    }

    if (flag != FLAG_EQ) {
        rho[n] = (float)r;
        u[3 * n] = (float)ux;
        u[3 * n + 1] = (float)uy;
        u[3 * n + 2] = (float)uz;
    }

    REAL feq[Q];
    equilibria(r, ux, uy, uz, feq);
    if (flag == FLAG_EQ) {
        for (int q = 0; q < Q; q++) {
            fl[q] = feq[q];
        }
    } else {
        const REAL om = (REAL)omega;
        for (int q = 0; q < Q; q++) {
            fl[q] = ((REAL)1.0f - om) * fl[q] + om * feq[q];
        }
    }

    const int x = (int)(n % NX);
    const int y = (int)((n / NX) % NY);
    const int z = (int)(n / (NX * NY));
    for (int q = 0; q < Q; q++) {
        const int xn = (x + c[q][0] + NX) % NX;
        const int yn = (y + c[q][1] + NY) % NY;
        const int zn = (z + c[q][2] + NZ) % NZ;
        const uint nn = (uint)(xn + NX * (yn + NY * zn));
        if (flags[nn] == FLAG_SOLID) {
            STORE(f_new, n * Q + opposite[q], fl[q]);
        } else {
            STORE(f_new, nn * Q + q, fl[q]);
        }
    }
}
";

/// Storage and arithmetic types of each precision mode.
pub open spec fn precision_header(p: PrecisionMode) -> Seq<char> {
    match p {
        PrecisionMode::FP32 => "#define USE_FP32\n#define REAL float\n#define STORE_T float\n#define LOAD(a, i) ((REAL)(a)[i])\n#define STORE(a, i, v) ((a)[i] = (v))\n"@,
        PrecisionMode::FP16S => "#define USE_FP16S\n#define REAL float\n#define STORE_T half\n#define LOAD(a, i) vload_half((i), (a))\n#define STORE(a, i, v) vstore_half((v), (i), (a))\n"@,
        PrecisionMode::FP16C => "#pragma OPENCL EXTENSION cl_khr_fp16 : enable\n#define USE_FP16C\n#define REAL half\n#define STORE_T half\n#define LOAD(a, i) ((a)[i])\n#define STORE(a, i, v) ((a)[i] = (v))\n"@,
    }
}

/// Grid extents, cell and direction counts, the model and the flag values.
pub open spec fn size_defines(cfg: ValidConfig) -> Seq<char> {
    "#define NX "@ + decimal(cfg.grid.nx as nat) + "\n#define NY "@ + decimal(cfg.grid.ny as nat)
        + "\n#define NZ "@ + decimal(cfg.grid.nz as nat) + "\n#define N "@ + decimal(
        cfg.grid.cells() as nat,
    ) + "\n#define Q "@ + decimal(direction_count(cfg.model) as nat) + "\n#define "@ + model_name(
        cfg.model,
    ) + "\n#define FLAG_FLUID 0\n#define FLAG_SOLID 1\n#define FLAG_EQ 2\n#define RHO_EPSILON 1e-10f\n"@
}

/// An exact ratio as a constant expression of the device language.
pub open spec fn ratio_text(r: Ratio) -> Seq<char> {
    "("@ + signed_decimal(r.num as int) + ".0f / "@ + decimal(r.den as nat) + ".0f)"@
}

/// The body force constants, when a force is configured.
pub open spec fn force_defines(force: Option<Force>) -> Seq<char> {
    match force {
        Some(f) => "#define USE_CONSTANT_FORCE\n#define FX "@ + ratio_text(f.fx) + "\n#define FY "@
            + ratio_text(f.fy) + "\n#define FZ "@ + ratio_text(f.fz) + "\n"@,
        None => Seq::empty(),
    }
}

pub open spec fn direction_text(d: Direction) -> Seq<char> {
    "{"@ + signed_decimal(d.cx as int) + ", "@ + signed_decimal(d.cy as int) + ", "@ + signed_decimal(
        d.cz as int,
    ) + "}, "@
}

/// Rows of the first `k` directions.
pub open spec fn directions_text(c: Seq<Direction>, k: nat) -> Seq<char>
    decreases k,
{
    if k == 0 {
        Seq::empty()
    } else {
        directions_text(c, (k - 1) as nat) + direction_text(c[k - 1])
    }
}

/// Opposite indices of the first `k` directions.
pub open spec fn opposites_text(k: nat) -> Seq<char>
    decreases k,
{
    if k == 0 {
        Seq::empty()
    } else {
        opposites_text((k - 1) as nat) + decimal(opposite_of(k - 1) as nat) + ", "@
    }
}

/// Weights of the first `k` directions, as exact quotients.
pub open spec fn weights_text(w: Seq<u32>, den: nat, k: nat) -> Seq<char>
    decreases k,
{
    if k == 0 {
        Seq::empty()
    } else {
        weights_text(w, den, (k - 1) as nat) + decimal(w[k - 1] as nat) + ".0f / "@ + decimal(den)
            + ".0f, "@
    }
}

/// The velocity-set tables of a model as constant data.
pub open spec fn tables_text(cfg: ValidConfig) -> Seq<char> {
    let q = direction_count(cfg.model) as nat;
    "__constant int c[Q][3] = {"@ + directions_text(directions_of(cfg.model), q)
        + "};\n__constant int opposite[Q] = {"@ + opposites_text(q) + "};\n__constant float w[Q] = {"@
        + weights_text(weights_of(cfg.model), weight_denominator_of(cfg.model) as nat, q) + "};\n"@
}

/// The whole program for a configuration.
pub open spec fn program_text(cfg: ValidConfig) -> Seq<char> {
    precision_header(cfg.precision) + size_defines(cfg) + force_defines(cfg.force) + tables_text(cfg)
        + UPDATE_PROGRAM@
}

fn push_header(s: &mut String, p: PrecisionMode)
    ensures
        final(s)@ == old(s)@ + precision_header(p),
{
    match p {
        PrecisionMode::FP32 => s.append("#define USE_FP32\n#define REAL float\n#define STORE_T float\n#define LOAD(a, i) ((REAL)(a)[i])\n#define STORE(a, i, v) ((a)[i] = (v))\n"),
        PrecisionMode::FP16S => s.append("#define USE_FP16S\n#define REAL float\n#define STORE_T half\n#define LOAD(a, i) vload_half((i), (a))\n#define STORE(a, i, v) vstore_half((v), (i), (a))\n"),
        PrecisionMode::FP16C => s.append("#pragma OPENCL EXTENSION cl_khr_fp16 : enable\n#define USE_FP16C\n#define REAL half\n#define STORE_T half\n#define LOAD(a, i) ((a)[i])\n#define STORE(a, i, v) ((a)[i] = (v))\n"),
    }
}

fn push_ratio(s: &mut String, r: Ratio)
    ensures
        final(s)@ == old(s)@ + ratio_text(r),
{
    s.append("(");
    push_signed_decimal(s, r.num);
    s.append(".0f / ");
    push_decimal(s, r.den);
    s.append(".0f)");
    assert(s@ =~= old(s)@ + ratio_text(r));
}

fn push_force(s: &mut String, force: Option<Force>)
    ensures
        final(s)@ == old(s)@ + force_defines(force),
{
    match force {
        Some(f) => {
            s.append("#define USE_CONSTANT_FORCE\n#define FX ");
            push_ratio(s, f.fx);
            s.append("\n#define FY ");
            push_ratio(s, f.fy);
            s.append("\n#define FZ ");
            push_ratio(s, f.fz);
            s.append("\n");
            assert(s@ =~= old(s)@ + force_defines(force));
        },
        None => {
            assert(s@ =~= old(s)@ + force_defines(force));
        },
    }
}

fn push_sizes(s: &mut String, cfg: &ValidConfig)
    requires
        cfg.wf(),
    ensures
        final(s)@ == old(s)@ + size_defines(*cfg),
{
    let q = crate::velocity_set::model_direction_count(cfg.model);
    let g = cfg.grid;
    proof {
        assert(g.cells() <= g.cells() * q) by (nonlinear_arith)
            requires q >= 1, g.cells() >= 0;
        vstd::arithmetic::mul::lemma_mul_nonnegative(g.nx * g.ny, g.nz as int);
        vstd::arithmetic::mul::lemma_mul_nonnegative(g.nx as int, g.ny as int);
        assert(g.nx * g.ny <= g.cells()) by (nonlinear_arith)
            requires g.nz >= 1, g.nx * g.ny >= 0, g.cells() == g.nx * g.ny * g.nz;
    }
    let cells = g.nx * g.ny * g.nz;
    s.append("#define NX ");
    push_decimal(s, g.nx as u64);
    s.append("\n#define NY ");
    push_decimal(s, g.ny as u64);
    s.append("\n#define NZ ");
    push_decimal(s, g.nz as u64);
    s.append("\n#define N ");
    push_decimal(s, cells as u64);
    s.append("\n#define Q ");
    push_decimal(s, q as u64);
    s.append("\n#define ");
    s.append(cfg.model.name());
    s.append(
        "\n#define FLAG_FLUID 0\n#define FLAG_SOLID 1\n#define FLAG_EQ 2\n#define RHO_EPSILON 1e-10f\n",
    );
    assert(s@ =~= old(s)@ + size_defines(*cfg));
}

fn push_direction(s: &mut String, d: Direction)
    ensures
        final(s)@ == old(s)@ + direction_text(d),
{
    s.append("{");
    push_signed_decimal(s, d.cx as i64);
    s.append(", ");
    push_signed_decimal(s, d.cy as i64);
    s.append(", ");
    push_signed_decimal(s, d.cz as i64);
    s.append("}, ");
    assert(s@ =~= old(s)@ + direction_text(d));
}

fn push_weight(s: &mut String, num: u32, den: u32)
    ensures
        final(s)@ == old(s)@ + decimal(num as nat) + ".0f / "@ + decimal(den as nat) + ".0f, "@,
{
    push_decimal(s, num as u64);
    s.append(".0f / ");
    push_decimal(s, den as u64);
    s.append(".0f, ");
    assert(s@ =~= old(s)@ + decimal(num as nat) + ".0f / "@ + decimal(den as nat) + ".0f, "@);
}

fn push_tables(s: &mut String, cfg: &ValidConfig, vs: &VelocitySet)
    requires
        vs.wf(),
        vs.model == cfg.model,
    ensures
        final(s)@ == old(s)@ + tables_text(*cfg),
{
    proof {
        lemma_velocity_set_laws(vs.model);
    }
    let q = vs.len();
    let ghost c = vs.directions@;
    s.append("__constant int c[Q][3] = {");
    let ghost start = s@;
    let mut i: usize = 0;
    while i < q
        invariant
            vs.wf(),
            c == vs.directions@,
            q == direction_count(vs.model),
            q == c.len(),
            i <= q,
            s@ == start + directions_text(c, i as nat),
        decreases q - i,
    {
        push_direction(s, vs.directions[i]);
        assert(s@ =~= start + directions_text(c, (i + 1) as nat));
        i += 1;
    }
    s.append("};\n__constant int opposite[Q] = {");
    let ghost start2 = s@;
    let mut i: usize = 0;
    while i < q
        invariant
            vs.wf(),
            q == direction_count(vs.model),
            i <= q,
            s@ == start2 + opposites_text(i as nat),
        decreases q - i,
    {
        push_decimal(s, vs.opposite[i] as u64);
        s.append(", ");
        assert(s@ =~= start2 + opposites_text((i + 1) as nat));
        i += 1;
    }
    s.append("};\n__constant float w[Q] = {");
    let ghost start3 = s@;
    let ghost w = vs.weights@;
    let ghost den = vs.weight_denominator as nat;
    let mut i: usize = 0;
    while i < q
        invariant
            vs.wf(),
            w == vs.weights@,
            den == vs.weight_denominator,
            q == direction_count(vs.model),
            q == w.len(),
            i <= q,
            s@ == start3 + weights_text(w, den, i as nat),
        decreases q - i,
    {
        push_weight(s, vs.weights[i], vs.weight_denominator);
        assert(s@ =~= start3 + weights_text(w, den, (i + 1) as nat));
        i += 1;
    }
    s.append("};\n");
    assert(s@ =~= old(s)@ + tables_text(*cfg));
}

/// The device program for a validated configuration.
pub fn generate_custom_kernel(cfg: &ValidConfig) -> (r: String)
    requires
        cfg.wf(),
    ensures
        r@ == program_text(*cfg),
{
    let vs = velocity_set(cfg.model);
    let mut s = String::new();
    push_header(&mut s, cfg.precision);
    push_sizes(&mut s, cfg);
    push_force(&mut s, cfg.force);
    push_tables(&mut s, cfg, &vs);
    s.append(UPDATE_PROGRAM);
    assert(s@ =~= program_text(*cfg));
    s
}

} // verus!
