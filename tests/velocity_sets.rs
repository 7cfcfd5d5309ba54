use lattelab::error::{ConfigIssue, LbmError};
use lattelab::velocity_set::{get_velocity_set, velocity_set, Model};

const MODELS: [Model; 5] = [Model::D2Q9, Model::D3Q7, Model::D3Q15, Model::D3Q19, Model::D3Q27];

#[test]
fn weights_sum_to_one() {
    for m in MODELS {
        let vs = velocity_set(m);
        let total: f64 = vs.weights.iter().map(|w| *w as f64 / vs.weight_denominator as f64).sum();
        assert!((total - 1.0).abs() < 1e-6, "{:?}", m);
        let exact: u32 = vs.weights.iter().sum();
        assert_eq!(exact, vs.weight_denominator);
    }
}

#[test]
fn weighted_velocities_cancel() {
    for m in MODELS {
        let vs = velocity_set(m);
        let mut sum = [0i64; 3];
        for (d, w) in vs.directions.iter().zip(vs.weights.iter()) {
            sum[0] += *w as i64 * d.cx as i64;
            sum[1] += *w as i64 * d.cy as i64;
            sum[2] += *w as i64 * d.cz as i64;
        }
        assert_eq!(sum, [0, 0, 0], "{:?}", m);
    }
}

#[test]
fn opposites_are_involutive_negations() {
    for m in MODELS {
        let vs = velocity_set(m);
        let q = vs.directions.len();
        assert_eq!(vs.opposite.len(), q);
        for i in 0..q {
            let o = vs.opposite[i];
            assert_eq!(vs.opposite[o], i);
            let (a, b) = (vs.directions[i], vs.directions[o]);
            assert_eq!((b.cx, b.cy, b.cz), (-a.cx, -a.cy, -a.cz));
        }
    }
}

#[test]
fn direction_counts_and_dimensions() {
    let expected = [(Model::D2Q9, 2, 9), (Model::D3Q7, 3, 7), (Model::D3Q15, 3, 15), (Model::D3Q19, 3, 19), (Model::D3Q27, 3, 27)];
    for (m, d, q) in expected {
        let vs = velocity_set(m);
        assert_eq!(vs.dimension, d);
        assert_eq!(vs.len(), q);
        assert_eq!(vs.weights.len(), q);
    }
    let planar = velocity_set(Model::D2Q9);
    assert!(planar.directions.iter().all(|d| d.cz == 0));
}

#[test]
fn d2q9_tables() {
    let vs = velocity_set(Model::D2Q9);
    assert_eq!(vs.weights, vec![16, 4, 4, 4, 4, 1, 1, 1, 1]);
    assert_eq!(vs.weight_denominator, 36);
    assert_eq!(vs.opposite, vec![0, 2, 1, 4, 3, 6, 5, 8, 7]);
    let d = vs.directions[7];
    assert_eq!((d.cx, d.cy, d.cz), (1, -1, 0));
}

#[test]
fn names_round_trip() {
    for m in MODELS {
        assert_eq!(Model::from_name(m.name()), Some(m));
        let vs = get_velocity_set(m.name()).unwrap();
        assert_eq!(vs.model, m);
    }
    assert_eq!(Model::from_name("d2q9"), None);
}

#[test]
fn unknown_model_name_is_rejected() {
    match get_velocity_set("D4Q1") {
        Err(LbmError::Configuration(ConfigIssue::UnsupportedModel { name })) => assert_eq!(name, "D4Q1"),
        other => panic!("unexpected: {:?}", other),
    }
}
