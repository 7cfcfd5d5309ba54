//! Sizes of the device buffers and the capacity check made before
//! allocating them.

use crate::error::LbmError;
use crate::precision::{PrecisionMode, storage_bytes_of};
use vstd::prelude::*;

verus! {

/// Bytes of one density value and of one velocity component.
pub const FIELD_BYTES: u64 = 4;

/// Bytes of one cell flag.
pub const FLAG_BYTES: u64 = 1;

/// Bytes that one cell takes over all buffers: two distribution arrays of
/// `q` values, one density, three velocity components and one flag.
pub open spec fn cell_bytes(q: int, p: PrecisionMode) -> int {
    2 * q * storage_bytes_of(p) + FIELD_BYTES + 3 * FIELD_BYTES + FLAG_BYTES
}

/// Bytes of all buffers of a run over `cells` cells.
pub open spec fn total_bytes(cells: int, q: int, p: PrecisionMode) -> int {
    cells * cell_bytes(q, p)
}

/// Bytes reported as required: the total, or the largest 64-bit value when
/// the total does not fit.
pub open spec fn required_bytes(cells: int, q: int, p: PrecisionMode) -> int {
    if total_bytes(cells, q, p) <= u64::MAX {
        total_bytes(cells, q, p)
    } else {
        u64::MAX as int
    }
}

/// Element counts of the five device buffers.
#[derive(Clone, Copy, Debug, PartialEq, Eq, Structural)]
pub struct BufferLengths {
    pub f: u64,
    pub f_new: u64,
    pub density: u64,
    pub velocity: u64,
    pub flags: u64,
}

/// Bytes one cell takes over all buffers.
pub fn cell_memory_bytes(q: u64, p: PrecisionMode) -> (r: Option<u64>)
    ensures
        cell_bytes(q as int, p) <= u64::MAX ==> r == Some(cell_bytes(q as int, p) as u64),
        cell_bytes(q as int, p) > u64::MAX ==> r is None,
{
    let s = p.storage_bytes() as u64;
    if q > (u64::MAX - 17) / 8 {
        assert(2 * q * storage_bytes_of(p) + 17 > u64::MAX || s == 2);
        if s == 2 && q <= (u64::MAX - 17) / 4 {
            return Some(4 * q + 17);
        }
        return None;
    }
    Some(2 * q * s + FIELD_BYTES + 3 * FIELD_BYTES + FLAG_BYTES)
}

/// Bytes of all buffers of a run: the sum of the buffer sizes, `None` when
/// it does not fit in 64 bits.
pub fn estimated_bytes(cells: u64, q: u64, p: PrecisionMode) -> (r: Option<u64>)
    ensures
        total_bytes(cells as int, q as int, p) <= u64::MAX ==> r == Some(
            total_bytes(cells as int, q as int, p) as u64,
        ),
        total_bytes(cells as int, q as int, p) > u64::MAX ==> r is None,
{
    match cell_memory_bytes(q, p) {
        None => {
            proof {
                if cells > 0 {
                    assert(cells * cell_bytes(q as int, p) >= cell_bytes(q as int, p)) by (nonlinear_arith)
                        requires cells >= 1, cell_bytes(q as int, p) >= 0;
                }
            }
            if cells == 0 {
                Some(0)
            } else {
                None
            }
        },
        Some(per_cell) => {
            if per_cell != 0 && cells > u64::MAX / per_cell {
                proof {
                    assert(cells * per_cell > u64::MAX) by (nonlinear_arith)
                        requires cells > u64::MAX / per_cell, per_cell > 0;
                }
                None
            } else {
                proof {
                    assert(cells * per_cell <= u64::MAX) by (nonlinear_arith)
                        requires per_cell == 0 || cells <= u64::MAX / per_cell, per_cell >= 0;
                }
                Some(cells * per_cell)
            }
        },
    }
}

/// Element counts of the buffers of a run.
pub fn buffer_lengths(cells: u64, q: u64) -> (r: BufferLengths)
    requires
        cells * q <= u64::MAX,
        cells * 3 <= u64::MAX,
    ensures
        r.f == cells * q,
        r.f_new == cells * q,
        r.density == cells,
        r.velocity == cells * 3,
        r.flags == cells,
{
    BufferLengths { f: cells * q, f_new: cells * q, density: cells, velocity: cells * 3, flags: cells }
}

/// Checks that the buffers of a run fit in `available` bytes of device
/// memory, and returns the bytes they need.
pub fn plan_allocation(cells: u64, q: u64, p: PrecisionMode, available: u64) -> (r: Result<
    u64,
    LbmError,
>)
    ensures
        total_bytes(cells as int, q as int, p) <= available ==> r == Ok::<u64, LbmError>(
            total_bytes(cells as int, q as int, p) as u64,
        ),
        total_bytes(cells as int, q as int, p) > available ==> (r matches Err(
            LbmError::Allocation { required, available: a },
        ) && a == available && required as int == required_bytes(cells as int, q as int, p)),
{
    match estimated_bytes(cells, q, p) {
        Some(required) => {
            if required <= available {
                Ok(required)
            } else {
                Err(LbmError::Allocation { required, available })
            }
        },
        None => Err(LbmError::Allocation { required: u64::MAX, available }),
    }
}

} // verus!
