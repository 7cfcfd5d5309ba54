use lattelab::config::{Force, LbmConfig, Ratio, ValidConfig};
use lattelab::kernel::{generate_custom_kernel, UPDATE_PROGRAM};
use lattelab::precision::PrecisionMode;

fn valid(nx: usize, ny: usize, nz: usize, model: &str, p: PrecisionMode, force: Option<Force>) -> ValidConfig {
    let mut c = LbmConfig::new(nx, ny, nz, model.to_string(), Ratio { num: 1, den: 10 }, p);
    if let Some(f) = force {
        c = c.with_force(f);
    }
    let n = nx * ny * nz;
    c.check_errors_in_input(n, 3 * n, n).unwrap()
}

#[test]
fn planar_program() {
    let text = generate_custom_kernel(&valid(3, 2, 1, "D2Q9", PrecisionMode::FP32, None));
    assert!(text.starts_with("#define USE_FP32\n#define REAL float\n"));
    assert!(text.contains("#define NX 3\n#define NY 2\n#define NZ 1\n#define N 6\n#define Q 9\n#define D2Q9\n"));
    assert!(text.contains("__constant int c[Q][3] = {{0, 0, 0}, {1, 0, 0}, {-1, 0, 0}, {0, 1, 0}, {0, -1, 0}, {1, 1, 0}, {-1, -1, 0}, {1, -1, 0}, {-1, 1, 0}, };\n"));
    assert!(text.contains("__constant int opposite[Q] = {0, 2, 1, 4, 3, 6, 5, 8, 7, };\n"));
    assert!(text.contains("__constant float w[Q] = {16.0f / 36.0f, 4.0f / 36.0f, "));
    assert!(!text.contains("USE_CONSTANT_FORCE\n#define FX"));
    assert!(text.ends_with(UPDATE_PROGRAM));
}

#[test]
fn program_is_deterministic() {
    let a = generate_custom_kernel(&valid(16, 8, 4, "D3Q27", PrecisionMode::FP16S, None));
    let b = generate_custom_kernel(&valid(16, 8, 4, "D3Q27", PrecisionMode::FP16S, None));
    assert_eq!(a, b);
    assert!(a.contains("#define N 512\n#define Q 27\n#define D3Q27\n"));
    assert!(a.contains("1.0f / 216.0f, };\n"));
    let c = generate_custom_kernel(&valid(16, 8, 4, "D3Q27", PrecisionMode::FP32, None));
    assert_ne!(a, c);
}

#[test]
fn precision_headers() {
    let s = generate_custom_kernel(&valid(2, 2, 2, "D3Q7", PrecisionMode::FP16S, None));
    assert!(s.starts_with("#define USE_FP16S\n#define REAL float\n#define STORE_T half\n"));
    let h = generate_custom_kernel(&valid(2, 2, 2, "D3Q7", PrecisionMode::FP16C, None));
    assert!(h.starts_with("#pragma OPENCL EXTENSION cl_khr_fp16 : enable\n#define USE_FP16C\n#define REAL half\n"));
}

#[test]
fn force_constants() {
    let f = Force { fx: Ratio { num: 1, den: 1000 }, fy: Ratio { num: -3, den: 4 }, fz: Ratio { num: 0, den: 1 } };
    let s = generate_custom_kernel(&valid(4, 4, 1, "D2Q9", PrecisionMode::FP32, Some(f)));
    assert!(s.contains("#define USE_CONSTANT_FORCE\n#define FX (1.0f / 1000.0f)\n#define FY (-3.0f / 4.0f)\n#define FZ (0.0f / 1.0f)\n"));
}
