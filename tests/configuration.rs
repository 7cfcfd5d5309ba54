use lattelab::config::{relaxation_rate, Force, LbmConfig, Ratio};
use lattelab::error::{ConfigIssue, LbmError};
use lattelab::grid::Grid;
use lattelab::precision::PrecisionMode;
use lattelab::resources::{buffer_lengths, cell_memory_bytes, estimated_bytes, plan_allocation};
use lattelab::velocity_set::Model;

fn tenth() -> Ratio {
    Ratio { num: 1, den: 10 }
}

fn cfg(nx: usize, ny: usize, nz: usize, model: &str) -> LbmConfig {
    LbmConfig::new(nx, ny, nz, model.to_string(), tenth(), PrecisionMode::FP32)
}

fn issue(r: Result<lattelab::config::ValidConfig, LbmError>) -> ConfigIssue {
    match r {
        Err(LbmError::Configuration(i)) => i,
        other => panic!("expected a configuration error, got {:?}", other),
    }
}

#[test]
fn valid_configuration() {
    let v = cfg(8, 4, 1, "D2Q9").check_errors_in_input(32, 96, 32).unwrap();
    assert_eq!(v.grid, Grid { nx: 8, ny: 4, nz: 1 });
    assert_eq!(v.model, Model::D2Q9);
    assert_eq!(v.viscosity, tenth());
}

#[test]
fn zero_dimension() {
    assert!(matches!(
        issue(cfg(8, 0, 1, "D2Q9").check_errors_in_input(0, 0, 0)),
        ConfigIssue::ZeroDimension { nx: 8, ny: 0, nz: 1 }
    ));
}

#[test]
fn unsupported_model_before_allocation() {
    match issue(cfg(4, 4, 4, "D4Q1").check_errors_in_input(64, 192, 64)) {
        ConfigIssue::UnsupportedModel { name } => assert_eq!(name, "D4Q1"),
        other => panic!("{:?}", other),
    }
}

#[test]
fn planar_model_needs_unit_depth() {
    assert!(matches!(
        issue(cfg(4, 4, 2, "D2Q9").check_errors_in_input(32, 96, 32)),
        ConfigIssue::PlanarModelDepth { nz: 2 }
    ));
}

#[test]
fn viscosity_must_be_positive() {
    let mut c = cfg(4, 4, 4, "D3Q19");
    c.viscosity = Ratio { num: 0, den: 10 };
    assert!(matches!(issue(c.check_errors_in_input(64, 192, 64)), ConfigIssue::NonPositiveViscosity));
    c.viscosity = Ratio { num: -1, den: 10 };
    assert!(matches!(issue(c.check_errors_in_input(64, 192, 64)), ConfigIssue::NonPositiveViscosity));
}

#[test]
fn array_lengths_are_checked() {
    let c = cfg(4, 4, 4, "D3Q7");
    assert!(matches!(
        issue(c.check_errors_in_input(63, 192, 64)),
        ConfigIssue::DensityLength { expected: 64, found: 63 }
    ));
    assert!(matches!(
        issue(c.check_errors_in_input(64, 64, 64)),
        ConfigIssue::VelocityLength { expected: 192, found: 64 }
    ));
    assert!(matches!(
        issue(c.check_errors_in_input(64, 192, 65)),
        ConfigIssue::FlagsLength { expected: 64, found: 65 }
    ));
}

#[test]
fn oversized_grid_and_bad_force() {
    let c = cfg(usize::MAX / 2, 4, 1, "D3Q27");
    assert!(matches!(issue(c.check_errors_in_input(0, 0, 0)), ConfigIssue::GridTooLarge));
    let zero = Ratio { num: 0, den: 1 };
    let f = cfg(2, 2, 2, "D3Q15").with_force(Force { fx: zero, fy: Ratio { num: 1, den: 0 }, fz: zero });
    assert!(matches!(issue(f.check_errors_in_input(8, 24, 8)), ConfigIssue::InvalidForce));
}

#[test]
fn relaxation_from_viscosity() {
    let r = relaxation_rate(tenth());
    assert_eq!((r.num, r.den), (20, 16));
    let r = relaxation_rate(Ratio { num: 1, den: 6 });
    assert_eq!((r.num, r.den), (12, 12));
}

#[test]
fn memory_estimates() {
    assert_eq!(cell_memory_bytes(9, PrecisionMode::FP32), Some(89));
    assert_eq!(cell_memory_bytes(9, PrecisionMode::FP16S), Some(53));
    assert_eq!(estimated_bytes(100, 9, PrecisionMode::FP32), Some(8900));
    assert_eq!(estimated_bytes(100, 19, PrecisionMode::FP16C), Some(9300));
    assert_eq!(estimated_bytes(u64::MAX / 10, 27, PrecisionMode::FP32), None);
    let l = buffer_lengths(10, 9);
    assert_eq!((l.f, l.f_new, l.density, l.velocity, l.flags), (90, 90, 10, 30, 10));
}

#[test]
fn allocation_capacity() {
    assert_eq!(plan_allocation(100, 9, PrecisionMode::FP32, 8900).unwrap(), 8900);
    match plan_allocation(100, 9, PrecisionMode::FP32, 8899) {
        Err(LbmError::Allocation { required, available }) => assert_eq!((required, available), (8900, 8899)),
        other => panic!("{:?}", other),
    }
    match plan_allocation(u64::MAX, 27, PrecisionMode::FP32, 1 << 40) {
        Err(LbmError::Allocation { required, .. }) => assert_eq!(required, u64::MAX),
        other => panic!("{:?}", other),
    }
}

#[test]
fn precision_names() {
    assert_eq!(PrecisionMode::from_str("FP32"), Ok(PrecisionMode::FP32));
    assert_eq!(PrecisionMode::from_str("fp16s"), Ok(PrecisionMode::FP16S));
    assert_eq!(PrecisionMode::from_str("Fp16C"), Ok(PrecisionMode::FP16C));
    assert_eq!(
        PrecisionMode::from_str("fp64"),
        Err("Invalid precision mode: fp64. Use FP32, FP16S, or FP16C".to_string())
    );
    assert_eq!(PrecisionMode::from_upper("FP16S", "fp16s"), Ok(PrecisionMode::FP16S));
    assert_eq!(PrecisionMode::FP16S.name(), "FP16S");
    assert_eq!(PrecisionMode::FP32.description(), "Full FP32 precision (maximum accuracy)");
    assert_eq!(PrecisionMode::FP16C.description(), "FP16 compute (maximum performance)");
    assert_eq!(PrecisionMode::FP32.storage_bytes(), 4);
    assert_eq!(PrecisionMode::FP16C.storage_bytes(), 2);
}

#[test]
fn unknown_precision_mode_is_an_error() {
    match PrecisionMode::parse("fp8") {
        Err(LbmError::UnsupportedPrecisionMode { name }) => assert_eq!(name, "fp8"),
        other => panic!("{:?}", other),
    }
    assert!(matches!(PrecisionMode::parse("fp16c"), Ok(PrecisionMode::FP16C)));
}
