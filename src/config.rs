//! Run configuration and its validation, made before any device work.

use crate::error::{ConfigIssue, LbmError};
use crate::grid::Grid;
use crate::precision::PrecisionMode;
use crate::velocity_set::{Model, direction_count, model_direction_count, model_named};
use vstd::arithmetic::mul::*;
use vstd::prelude::*;
use vstd::string::*;

verus! {

/// An exact rational number `num / den`.
#[derive(Clone, Copy, Debug, PartialEq, Eq, Structural)]
pub struct Ratio {
    pub num: i64,
    pub den: u64,
}

/// Strictly positive, with a nonzero denominator.
pub open spec fn positive(r: Ratio) -> bool {
    r.num > 0 && r.den > 0
}

/// A constant body force, one exact component per axis.
#[derive(Clone, Copy, Debug, PartialEq, Eq, Structural)]
pub struct Force {
    pub fx: Ratio,
    pub fy: Ratio,
    pub fz: Ratio,
}

pub open spec fn force_valid(f: Option<Force>) -> bool {
    match f {
        Some(f) => f.fx.den > 0 && f.fy.den > 0 && f.fz.den > 0,
        None => true,
    }
}

/// The relaxation rate `1 / (3 nu + 1/2)` as an exact fraction.
#[derive(Clone, Copy, Debug, PartialEq, Eq, Structural)]
pub struct Relaxation {
    pub num: u128,
    pub den: u128,
}

/// Everything fixed at construction of a run.
#[derive(Clone, Debug)]
pub struct LbmConfig {
    pub nx: usize,
    pub ny: usize,
    pub nz: usize,
    pub model: String,
    /// Kinematic viscosity in lattice units.
    pub viscosity: Ratio,
    pub precision: PrecisionMode,
    pub force: Option<Force>,
}

/// A configuration that passed every check.
#[derive(Clone, Copy, Debug)]
pub struct ValidConfig {
    pub grid: Grid,
    pub model: Model,
    pub viscosity: Ratio,
    pub precision: PrecisionMode,
    pub force: Option<Force>,
}

impl ValidConfig {
    pub open spec fn wf(&self) -> bool {
        &&& self.grid.fits(direction_count(self.model) as int)
        &&& (self.model == Model::D2Q9 ==> self.grid.nz == 1)
        &&& positive(self.viscosity)
        &&& force_valid(self.force)
    }
}

/// Distribution arrays of `q` values per cell can be addressed.
pub open spec fn addressable(nx: int, ny: int, nz: int, q: int) -> bool {
    nx * ny * nz * q <= usize::MAX
}

impl LbmConfig {
    /// A configuration without body force.
    pub fn new(
        nx: usize,
        ny: usize,
        nz: usize,
        model: String,
        viscosity: Ratio,
        precision: PrecisionMode,
    ) -> (r: Self)
        ensures
            r.nx == nx && r.ny == ny && r.nz == nz,
            r.model == model,
            r.viscosity == viscosity,
            r.precision == precision,
            r.force is None,
    {
        LbmConfig { nx, ny, nz, model, viscosity, precision, force: None }
    }

    /// The same configuration with a constant body force.
    pub fn with_force(self, force: Force) -> (r: Self)
        ensures
            r.nx == self.nx && r.ny == self.ny && r.nz == self.nz,
            r.model == self.model,
            r.viscosity == self.viscosity,
            r.precision == self.precision,
            r.force == Some(force),
    {
        LbmConfig { force: Some(force), ..self }
    }

    pub open spec fn has_zero_extent(&self) -> bool {
        self.nx == 0 || self.ny == 0 || self.nz == 0
    }

    pub open spec fn cells(&self) -> int {
        self.nx * self.ny * self.nz
    }

    /// Validates the configuration and the lengths of the host arrays
    /// (density, velocity, flags) that the per-cell initializer filled. The
    /// checks run in a fixed order and the first failing one is reported.
    pub fn check_errors_in_input(&self, density_len: usize, velocity_len: usize, flags_len: usize) -> (r:
        Result<ValidConfig, LbmError>)
        ensures
            self.has_zero_extent() ==> (r matches Err(
                LbmError::Configuration(ConfigIssue::ZeroDimension { nx, ny, nz }),
            ) && nx == self.nx && ny == self.ny && nz == self.nz),
            !self.has_zero_extent() && model_named(self.model@) is None ==> (r matches Err(
                LbmError::Configuration(ConfigIssue::UnsupportedModel { name }),
            ) && name@ == self.model@),
            !self.has_zero_extent() && model_named(self.model@) == Some(Model::D2Q9) && self.nz != 1
                ==> (r matches Err(LbmError::Configuration(ConfigIssue::PlanarModelDepth { nz }))
                && nz == self.nz),
            !self.has_zero_extent() && model_named(self.model@) is Some && !(model_named(
                self.model@,
            ) == Some(Model::D2Q9) && self.nz != 1) ==> {
                let q = direction_count(model_named(self.model@)->0) as int;
                let n = self.cells();
                &&& !addressable(self.nx as int, self.ny as int, self.nz as int, q) ==> (r matches Err(
                    LbmError::Configuration(ConfigIssue::GridTooLarge),
                ))
                &&& addressable(self.nx as int, self.ny as int, self.nz as int, q) && !positive(
                    self.viscosity,
                ) ==> (r matches Err(LbmError::Configuration(ConfigIssue::NonPositiveViscosity)))
                &&& addressable(self.nx as int, self.ny as int, self.nz as int, q) && positive(
                    self.viscosity,
                ) && !force_valid(self.force) ==> (r matches Err(
                    LbmError::Configuration(ConfigIssue::InvalidForce),
                ))
                &&& addressable(self.nx as int, self.ny as int, self.nz as int, q) && positive(
                    self.viscosity,
                ) && force_valid(self.force) ==> {
                    &&& density_len != n ==> (r matches Err(
                        LbmError::Configuration(ConfigIssue::DensityLength { expected, found }),
                    ) && expected == n && found == density_len)
                    &&& density_len == n && velocity_len != 3 * n ==> (r matches Err(
                        LbmError::Configuration(ConfigIssue::VelocityLength { expected, found }),
                    ) && expected == 3 * n && found == velocity_len)
                    &&& density_len == n && velocity_len == 3 * n && flags_len != n ==> (r matches Err(
                        LbmError::Configuration(ConfigIssue::FlagsLength { expected, found }),
                    ) && expected == n && found == flags_len)
                    &&& density_len == n && velocity_len == 3 * n && flags_len == n ==> (r matches Ok(
                        v,
                    ) && v.wf() && v.grid == (Grid { nx: self.nx, ny: self.ny, nz: self.nz })
                        && Some(v.model) == model_named(self.model@) && v.viscosity == self.viscosity
                        && v.precision == self.precision && v.force == self.force)
                }
            },
    {
        if self.nx == 0 || self.ny == 0 || self.nz == 0 {
            return Err(
                LbmError::Configuration(
                    ConfigIssue::ZeroDimension { nx: self.nx, ny: self.ny, nz: self.nz },
                ),
            );
        }
        let model = match Model::from_name(self.model.as_str()) {
            Some(m) => m,
            None => {
                return Err(
                    LbmError::Configuration(
                        ConfigIssue::UnsupportedModel { name: self.model.clone() },
                    ),
                );
            },
        };
        if model == Model::D2Q9 && self.nz != 1 {
            return Err(LbmError::Configuration(ConfigIssue::PlanarModelDepth { nz: self.nz }));
        }
        let q = model_direction_count(model);
        let plane = match self.nx.checked_mul(self.ny) {
            Some(v) => v,
            None => {
                proof {
                    lemma_grow(self.nx as int * self.ny as int, self.nz as int, q as int);
                }
                return Err(LbmError::Configuration(ConfigIssue::GridTooLarge));
            },
        };
        let cells = match plane.checked_mul(self.nz) {
            Some(v) => v,
            None => {
                proof {
                    lemma_grow(plane as int * self.nz as int, 1, q as int);
                }
                return Err(LbmError::Configuration(ConfigIssue::GridTooLarge));
            },
        };
        if cells.checked_mul(q).is_none() {
            return Err(LbmError::Configuration(ConfigIssue::GridTooLarge));
        }
        if self.viscosity.num <= 0 || self.viscosity.den == 0 {
            return Err(LbmError::Configuration(ConfigIssue::NonPositiveViscosity));
        }
        match self.force {
            Some(f) => {
                if f.fx.den == 0 || f.fy.den == 0 || f.fz.den == 0 {
                    return Err(LbmError::Configuration(ConfigIssue::InvalidForce));
                }
            },
            None => {},
        }
        if density_len != cells {
            return Err(
                LbmError::Configuration(
                    ConfigIssue::DensityLength { expected: cells, found: density_len },
                ),
            );
        }
        proof {
            assert(cells * 3 <= cells * q) by (nonlinear_arith)
                requires q >= 3, cells >= 0;
        }
        if velocity_len != cells * 3 {
            return Err(
                LbmError::Configuration(
                    ConfigIssue::VelocityLength { expected: cells * 3, found: velocity_len },
                ),
            );
        }
        if flags_len != cells {
            return Err(
                LbmError::Configuration(ConfigIssue::FlagsLength { expected: cells, found: flags_len }),
            );
        }
        Ok(
            ValidConfig {
                grid: Grid { nx: self.nx, ny: self.ny, nz: self.nz },
                model,
                viscosity: self.viscosity,
                precision: self.precision,
                force: self.force,
            },
        )
    }
}

/// A product that already exceeds the machine range stays above it when
/// multiplied by positive factors.
proof fn lemma_grow(a: int, b: int, c: int)
    requires
        a > usize::MAX,
        b >= 1,
        c >= 1,
    ensures
        a * b * c > usize::MAX,
{
    assert(a * b * c >= a) by (nonlinear_arith)
        requires a >= 0, b >= 1, c >= 1;
}

/// The relaxation rate of a viscosity: `omega = 1 / (3 nu + 1/2)`, which for
/// `nu = n / d` is `2 d / (6 n + d)`.
pub fn relaxation_rate(viscosity: Ratio) -> (r: Relaxation)
    requires
        positive(viscosity),
    ensures
        r.num == 2 * viscosity.den,
        r.den == 6 * viscosity.num + viscosity.den,
{
    let n = viscosity.num as u128;
    let d = viscosity.den as u128;
    Relaxation { num: 2 * d, den: 6 * n + d }
}

} // verus!
