//! Precision modes: storage width of the distribution values and the
//! arithmetic type of the device program.

use crate::error::LbmError;
use crate::text::str_eq;
use vstd::prelude::*;
use vstd::string::*;

verus! {

/// Storage and compute width policy.
#[derive(Clone, Copy, Debug, PartialEq, Eq, Structural)]
pub enum PrecisionMode {
    /// Four-byte storage and arithmetic.
    FP32,
    /// Two-byte storage, four-byte arithmetic.
    FP16S,
    /// Two-byte storage and arithmetic.
    FP16C,
}

/// The upper-case name of each mode.
pub open spec fn precision_name(p: PrecisionMode) -> Seq<char> {
    match p {
        PrecisionMode::FP32 => seq!['F', 'P', '3', '2'],
        PrecisionMode::FP16S => seq!['F', 'P', '1', '6', 'S'],
        PrecisionMode::FP16C => seq!['F', 'P', '1', '6', 'C'],
    }
}

/// The mode whose name is `upper`, if any.
pub open spec fn precision_named(upper: Seq<char>) -> Option<PrecisionMode> {
    if upper == precision_name(PrecisionMode::FP32) {
        Some(PrecisionMode::FP32)
    } else if upper == precision_name(PrecisionMode::FP16S) {
        Some(PrecisionMode::FP16S)
    } else if upper == precision_name(PrecisionMode::FP16C) {
        Some(PrecisionMode::FP16C)
    } else {
        None
    }
}

/// Message for a mode name that is not recognised.
pub open spec fn invalid_precision_message(given: Seq<char>) -> Seq<char> {
    "Invalid precision mode: "@ + given + ". Use FP32, FP16S, or FP16C"@
}

/// Bytes per stored distribution value.
pub open spec fn storage_bytes_of(p: PrecisionMode) -> nat {
    match p {
        PrecisionMode::FP32 => 4,
        _ => 2,
    }
}

/// Upper-case mapping of a string, as Unicode defines it.
pub uninterp spec fn upper_of(s: Seq<char>) -> Seq<char>;

/// Relies on `str::to_uppercase`: the result depends on the characters alone.
#[verifier::external_body]
fn uppercase(s: &str) -> (r: String)
    ensures
        r@ == upper_of(s@),
{
    s.to_uppercase()
}

impl PrecisionMode {
    /// Parses an already upper-cased mode name; `given` is the text as the
    /// caller wrote it, quoted in the error message.
    pub fn from_upper(upper: &str, given: &str) -> (r: Result<PrecisionMode, String>)
        ensures
            match precision_named(upper@) {
                Some(p) => r == Ok::<PrecisionMode, String>(p),
                None => r is Err && r->Err_0@ == invalid_precision_message(given@),
            },
    {
        proof {
            reveal_strlit("FP32");
            reveal_strlit("FP16S");
            reveal_strlit("FP16C");
        }
        if str_eq(upper, "FP32") {
            assert("FP32"@ =~= precision_name(PrecisionMode::FP32));
            Ok(PrecisionMode::FP32)
        } else if str_eq(upper, "FP16S") {
            assert("FP16S"@ =~= precision_name(PrecisionMode::FP16S));
            Ok(PrecisionMode::FP16S)
        } else if str_eq(upper, "FP16C") {
            assert("FP16C"@ =~= precision_name(PrecisionMode::FP16C));
            Ok(PrecisionMode::FP16C)
        } else {
            assert("FP32"@ =~= precision_name(PrecisionMode::FP32));
            assert("FP16S"@ =~= precision_name(PrecisionMode::FP16S));
            assert("FP16C"@ =~= precision_name(PrecisionMode::FP16C));
            let mut msg = String::from_str("Invalid precision mode: ");
            msg.append(given);
            msg.append(". Use FP32, FP16S, or FP16C");
            Err(msg)
        }
    }

    /// Parses a mode name, ignoring letter case.
    pub fn from_str(s: &str) -> (r: Result<PrecisionMode, String>)
        ensures
            match precision_named(upper_of(s@)) {
                Some(p) => r == Ok::<PrecisionMode, String>(p),
                None => r is Err && r->Err_0@ == invalid_precision_message(s@),
            },
    {
        let upper = uppercase(s);
        PrecisionMode::from_upper(upper.as_str(), s)
    }

    /// Parses a mode name, ignoring letter case; an unknown name is an
    /// error that carries it.
    pub fn parse(s: &str) -> (r: Result<PrecisionMode, LbmError>)
        ensures
            match precision_named(upper_of(s@)) {
                Some(p) => r == Ok::<PrecisionMode, LbmError>(p),
                None => r matches Err(LbmError::UnsupportedPrecisionMode { name }) && name@ == s@,
            },
    {
        match PrecisionMode::from_str(s) {
            Ok(p) => Ok(p),
            Err(_) => Err(LbmError::UnsupportedPrecisionMode { name: String::from_str(s) }),
        }
    }

    /// A one-line description of the mode.
    pub fn description(&self) -> (r: &'static str)
        ensures
            r@ == match self {
                PrecisionMode::FP32 => "Full FP32 precision (maximum accuracy)"@,
                PrecisionMode::FP16S => "FP16 storage, FP32 compute (balanced)"@,
                PrecisionMode::FP16C => "FP16 compute (maximum performance)"@,
            },
    {
        match self {
            PrecisionMode::FP32 => "Full FP32 precision (maximum accuracy)",
            PrecisionMode::FP16S => "FP16 storage, FP32 compute (balanced)",
            PrecisionMode::FP16C => "FP16 compute (maximum performance)",
        }
    }

    /// The upper-case name of the mode.
    pub fn name(&self) -> (r: &'static str)
        ensures
            r@ == precision_name(*self),
    {
        proof {
            reveal_strlit("FP32");
            reveal_strlit("FP16S");
            reveal_strlit("FP16C");
        }
        let r = match self {
            PrecisionMode::FP32 => "FP32",
            PrecisionMode::FP16S => "FP16S",
            PrecisionMode::FP16C => "FP16C",
        };
        assert(r@ =~= precision_name(*self));
        r
    }

    /// Bytes per stored distribution value.
    pub fn storage_bytes(&self) -> (r: usize)
        ensures
            r == storage_bytes_of(*self),
    {
        match self {
            PrecisionMode::FP32 => 4,
            _ => 2,
        }
    }
}

} // verus!
