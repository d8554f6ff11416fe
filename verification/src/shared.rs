//! The precision table: the closed set of supported quantisation
//! granularities, and the error taxonomy shared by the whole codec.

use vstd::prelude::*;

verus! {

/// A supported quantisation granularity, in metres.
///
/// The set is closed: any other metre count is refused at the boundary by
/// [`parse_precision`]. The 2 km granularity is the irregular tetrad case:
/// it is encoded with one digit per axis plus a tetrad letter rather than a
/// pure power-of-ten digit run.
#[derive(Clone, Copy, Debug, PartialEq, Eq, Structural)]
pub enum Precision {
    M1,
    M10,
    M100,
    Km1,
    Km2,
    Km10,
    Km100,
}

/// One of the ways a string or a coordinate triple can be refused.
#[derive(Clone, Copy, Debug, PartialEq, Eq, Structural)]
pub enum GridError {
    /// Malformed prefix or digit run, or an unknown letter square.
    InvalidReference,
    /// A coordinate lies outside the system's extent.
    OutOfRange,
    /// A precision value outside the closed enumerated set.
    UnsupportedPrecision,
}

impl Precision {
    /// The granularity in metres.
    pub open spec fn spec_metres(self) -> u32 {
        match self {
            Precision::M1 => 1,
            Precision::M10 => 10,
            Precision::M100 => 100,
            Precision::Km1 => 1_000,
            Precision::Km2 => 2_000,
            Precision::Km10 => 10_000,
            Precision::Km100 => 100_000,
        }
    }

    /// Returns the granularity in metres.
    pub fn metres(self) -> (m: u32)
        ensures
            m == self.spec_metres(),
    {
        match self {
            Precision::M1 => 1,
            Precision::M10 => 10,
            Precision::M100 => 100,
            Precision::Km1 => 1_000,
            Precision::Km2 => 2_000,
            Precision::Km10 => 10_000,
            Precision::Km100 => 100_000,
        }
    }
}

/// Whether a metre count lies in the closed set of supported granularities.
pub open spec fn supported_precision(m: int) -> bool {
    m == 1 || m == 10 || m == 100 || m == 1_000 || m == 2_000 || m == 10_000 || m == 100_000
}

/// The precision that a supported metre count denotes.
pub open spec fn precision_from_metres(m: int) -> Precision {
    if m == 1 {
        Precision::M1
    } else if m == 10 {
        Precision::M10
    } else if m == 100 {
        Precision::M100
    } else if m == 1_000 {
        Precision::Km1
    } else if m == 2_000 {
        Precision::Km2
    } else if m == 10_000 {
        Precision::Km10
    } else {
        Precision::Km100
    }
}

/// Maps a raw metre count into the closed precision set; every value outside
/// the set is refused with `UnsupportedPrecision`.
pub fn parse_precision(precision: i32) -> (r: Result<Precision, GridError>)
    ensures
        supported_precision(precision as int) ==> r == Ok::<Precision, GridError>(
            precision_from_metres(precision as int),
        ),
        !supported_precision(precision as int) ==> r == Err::<Precision, GridError>(
            GridError::UnsupportedPrecision,
        ),
        r is Ok ==> r.unwrap().spec_metres() == precision,
{
    match precision {
        1 => Ok(Precision::M1),
        10 => Ok(Precision::M10),
        100 => Ok(Precision::M100),
        1_000 => Ok(Precision::Km1),
        2_000 => Ok(Precision::Km2),
        10_000 => Ok(Precision::Km10),
        100_000 => Ok(Precision::Km100),
        _ => Err(GridError::UnsupportedPrecision),
    }
}

} // verus!
