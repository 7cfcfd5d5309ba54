//! Errors of the update engine.

use crate::precision::PrecisionMode;
use crate::velocity_set::Model;
use vstd::prelude::*;

verus! {

/// Why a configuration was refused before any device work.
#[derive(Clone, Debug)]
pub enum ConfigIssue {
    /// One of the extents is zero.
    ZeroDimension { nx: usize, ny: usize, nz: usize },
    /// The model name is not one of the supported velocity sets.
    UnsupportedModel { name: String },
    /// A two-dimensional model was given a depth other than one cell.
    PlanarModelDepth { nz: usize },
    /// The kinematic viscosity is not a positive number.
    NonPositiveViscosity,
    /// A component of the body force has a zero denominator.
    InvalidForce,
    /// The distribution arrays of the grid cannot be addressed.
    GridTooLarge,
    /// The density array does not hold one value per cell.
    DensityLength { expected: usize, found: usize },
    /// The velocity array does not hold three values per cell.
    VelocityLength { expected: usize, found: usize },
    /// The flag array does not hold one value per cell.
    FlagsLength { expected: usize, found: usize },
}

/// A fatal error of a simulation run.
#[derive(Clone, Debug)]
pub enum LbmError {
    /// The configuration was refused; nothing was allocated.
    Configuration(ConfigIssue),
    /// The precision mode name is not recognised.
    UnsupportedPrecisionMode { name: String },
    /// The device cannot hold the buffers of the run.
    Allocation { required: u64, available: u64 },
    /// The generated program did not build; carries the generator inputs.
    Compile {
        model: Model,
        precision: PrecisionMode,
        nx: usize,
        ny: usize,
        nz: usize,
        log: String,
    },
    /// A kernel launch or a buffer transfer failed.
    RuntimeDispatch { step: u64, detail: String },
    /// The run is over: no further dispatch is permitted.
    EngineFinalized,
}

impl ConfigIssue {
    /// A short description of the issue.
    pub fn describe(&self) -> (r: &'static str)
        ensures
            r@ == match self {
            ConfigIssue::ZeroDimension { .. } => "Dimensions Nx, Ny, and Nz must be greater than 0."@,
            ConfigIssue::UnsupportedModel { .. } => "Unsupported model."@,
            ConfigIssue::PlanarModelDepth { .. } => "D2Q9 model should have Nz equal to 1."@,
            ConfigIssue::NonPositiveViscosity => "Viscosity must be greater than 0."@,
            ConfigIssue::InvalidForce => "Body force components need a nonzero denominator."@,
            ConfigIssue::GridTooLarge => "The grid is too large to be addressed."@,
            ConfigIssue::DensityLength { .. } => "Density vector has incorrect length."@,
            ConfigIssue::VelocityLength { .. } => "Velocity vector has incorrect length. Expected size * 3."@,
            ConfigIssue::FlagsLength { .. } => "Flags vector has incorrect length."@,
            },
    {
        match self {
            ConfigIssue::ZeroDimension { .. } => "Dimensions Nx, Ny, and Nz must be greater than 0.",
            ConfigIssue::UnsupportedModel { .. } => "Unsupported model.",
            ConfigIssue::PlanarModelDepth { .. } => "D2Q9 model should have Nz equal to 1.",
            ConfigIssue::NonPositiveViscosity => "Viscosity must be greater than 0.",
            ConfigIssue::InvalidForce => "Body force components need a nonzero denominator.",
            ConfigIssue::GridTooLarge => "The grid is too large to be addressed.",
            ConfigIssue::DensityLength { .. } => "Density vector has incorrect length.",
            ConfigIssue::VelocityLength { .. } => "Velocity vector has incorrect length. Expected size * 3.",
            ConfigIssue::FlagsLength { .. } => "Flags vector has incorrect length.",
        }
    }
}

} // verus!
