use lattelab::grid::{n_from_xyz, Grid};
use lattelab::stream::{stream, FLAG_FLUID, FLAG_SOLID};
use lattelab::velocity_set::{velocity_set, Model};

fn numbered(len: usize) -> Vec<u32> {
    (0..len as u32).map(|i| i + 1).collect()
}

#[test]
fn solid_cell_receives_nothing_and_reflects() {
    let g = Grid { nx: 3, ny: 3, nz: 1 };
    let vs = velocity_set(Model::D2Q9);
    let mut flags = vec![FLAG_FLUID; 9];
    let centre = n_from_xyz(&1, &1, &0, &3, &3);
    flags[centre] = FLAG_SOLID;
    let f = numbered(81);
    let mut f_new = vec![0u32; 81];
    stream(&g, &vs, &flags, &f, &mut f_new);
    for q in 0..9 {
        assert_eq!(f_new[centre * 9 + q], 0);
    }
    for q in 1..9 {
        let d = vs.directions[q];
        let x = (1 - d.cx) as usize;
        let y = (1 - d.cy) as usize;
        let m = n_from_xyz(&x, &y, &0, &3, &3);
        assert_eq!(f_new[m * 9 + vs.opposite[q]], f[m * 9 + q]);
    }
    let inflow: u32 = (1..9)
        .map(|q| {
            let d = vs.directions[q];
            let m = n_from_xyz(&((1 - d.cx) as usize), &((1 - d.cy) as usize), &0, &3, &3);
            f[m * 9 + q]
        })
        .sum();
    let reflected: u32 = (1..9)
        .map(|q| {
            let d = vs.directions[q];
            let m = n_from_xyz(&((1 - d.cx) as usize), &((1 - d.cy) as usize), &0, &3, &3);
            f_new[m * 9 + vs.opposite[q]]
        })
        .sum();
    assert_eq!(inflow, reflected);
}

#[test]
fn periodic_stream_moves_every_value_once() {
    for (model, g) in [
        (Model::D2Q9, Grid { nx: 5, ny: 4, nz: 1 }),
        (Model::D3Q19, Grid { nx: 3, ny: 4, nz: 2 }),
        (Model::D3Q27, Grid { nx: 2, ny: 3, nz: 3 }),
    ] {
        let vs = velocity_set(model);
        let n = g.nx * g.ny * g.nz;
        let q = vs.directions.len();
        let flags = vec![FLAG_FLUID; n];
        let f = numbered(n * q);
        let mut f_new = vec![0u32; n * q];
        stream(&g, &vs, &flags, &f, &mut f_new);
        let total_before: u64 = f.iter().map(|v| *v as u64).sum();
        let total_after: u64 = f_new.iter().map(|v| *v as u64).sum();
        assert_eq!(total_before, total_after);
        let mut sorted = f_new.clone();
        sorted.sort();
        assert_eq!(sorted, f);
    }
}

#[test]
fn periodic_stream_moves_along_direction() {
    let g = Grid { nx: 4, ny: 3, nz: 1 };
    let vs = velocity_set(Model::D2Q9);
    let flags = vec![FLAG_FLUID; 12];
    let f = numbered(108);
    let mut f_new = vec![0u32; 108];
    stream(&g, &vs, &flags, &f, &mut f_new);
    let src = n_from_xyz(&3, &0, &0, &4, &3);
    let dst = n_from_xyz(&0, &1, &0, &4, &3);
    assert_eq!(f_new[dst * 9 + 5], f[src * 9 + 5]);
}

#[test]
fn mass_is_conserved_over_many_periodic_steps() {
    let g = Grid { nx: 6, ny: 5, nz: 1 };
    let vs = velocity_set(Model::D2Q9);
    let flags = vec![FLAG_FLUID; 30];
    let mut f: Vec<u64> = (0..270u64).map(|i| (i * 7919) % 101).collect();
    let mut f_new = vec![0u64; 270];
    let total: u64 = f.iter().sum();
    for _ in 0..50 {
        stream(&g, &vs, &flags, &f, &mut f_new);
        std::mem::swap(&mut f, &mut f_new);
        assert_eq!(f.iter().sum::<u64>(), total);
    }
}

#[test]
fn rest_state_is_a_fixed_point() {
    for (model, g) in [
        (Model::D2Q9, Grid { nx: 4, ny: 4, nz: 1 }),
        (Model::D3Q7, Grid { nx: 3, ny: 3, nz: 3 }),
        (Model::D3Q15, Grid { nx: 3, ny: 2, nz: 2 }),
        (Model::D3Q19, Grid { nx: 2, ny: 2, nz: 3 }),
        (Model::D3Q27, Grid { nx: 3, ny: 3, nz: 2 }),
    ] {
        let vs = velocity_set(model);
        let n = g.nx * g.ny * g.nz;
        let q = vs.directions.len();
        let den = vs.weight_denominator as f32;
        let omega = 1.0f32 / (3.0 * 0.1 + 0.5);
        let flags = vec![FLAG_FLUID; n];
        let seed: Vec<f32> = (0..n * q).map(|i| vs.weights[i % q] as f32 / den).collect();
        let mut f = seed.clone();
        let mut f_new = vec![0.0f32; n * q];
        for _ in 0..1000 {
            for cell in 0..n {
                let rho: f32 = (0..q).map(|p| f[cell * q + p]).sum();
                let ux: f32 = (0..q).map(|p| vs.directions[p].cx as f32 * f[cell * q + p]).sum::<f32>() / rho;
                assert!((rho - 1.0).abs() < 1e-5);
                assert!(ux.abs() < 1e-6);
                for p in 0..q {
                    let feq = vs.weights[p] as f32 / den * rho;
                    let v = &mut f[cell * q + p];
                    *v = (1.0 - omega) * *v + omega * feq;
                }
            }
            stream(&g, &vs, &flags, &f, &mut f_new);
            std::mem::swap(&mut f, &mut f_new);
        }
        for i in 0..n * q {
            assert!((f[i] - seed[i]).abs() < 1e-6);
        }
    }
}

fn equilibrium_mass(model: Model, rho: f64, u: [f64; 3]) -> f64 {
    let vs = velocity_set(model);
    let den = vs.weight_denominator as f64;
    let u2 = u[0] * u[0] + u[1] * u[1] + u[2] * u[2];
    vs.directions
        .iter()
        .zip(vs.weights.iter())
        .map(|(d, w)| {
            let cu = d.cx as f64 * u[0] + d.cy as f64 * u[1] + d.cz as f64 * u[2];
            *w as f64 / den * rho * (1.0 + 3.0 * cu + 4.5 * cu * cu - 1.5 * u2)
        })
        .sum()
}

#[test]
fn equilibria_carry_their_density() {
    assert!((equilibrium_mass(Model::D2Q9, 1.3, [0.05, -0.03, 0.0]) - 1.3).abs() < 1e-12);
    for m in [Model::D3Q15, Model::D3Q19, Model::D3Q27] {
        assert!((equilibrium_mass(m, 0.9, [0.02, 0.07, -0.04]) - 0.9).abs() < 1e-12, "{:?}", m);
    }
    for m in [Model::D2Q9, Model::D3Q7, Model::D3Q15, Model::D3Q19, Model::D3Q27] {
        assert!((equilibrium_mass(m, 1.0, [0.0, 0.0, 0.0]) - 1.0).abs() < 1e-12);
    }
}

#[test]
fn d3q7_equilibrium_mass_drifts_under_flow() {
    let mass = equilibrium_mass(Model::D3Q7, 1.0, [0.1, 0.0, 0.0]);
    assert!((mass - (1.0 - 0.375 * 0.01)).abs() < 1e-12);
}
