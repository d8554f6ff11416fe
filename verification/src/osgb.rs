//! The British (OSGB) grid: a two-letter prefix over a 1 500 km by
//! 2 000 km extent.

use vstd::prelude::*;

use crate::reference::{
    format_spec, from_coords_spec, parse_spec, recalc_spec, GridReference, System,
};
use crate::shared::{parse_precision, precision_from_metres, supported_precision, GridError};

verus! {

/// A valid British national grid reference.
#[derive(Clone, Copy, Debug, PartialEq, Eq, Structural)]
pub struct OSGB(pub GridReference);

impl OSGB {
    /// The invariant of every constructed value: a well-formed reference on
    /// the British grid.
    pub open spec fn wf(self) -> bool {
        self.0.wf() && self.0.system == System::Osgb
    }

    /// Renders the canonical string of the reference.
    pub fn to_text(&self) -> (r: String)
        requires
            self.wf(),
        ensures
            r@ == format_spec(self.0),
    {
        self.0.to_text()
    }
}

/// Validates an explicit (easting, northing, precision-in-metres) triple
/// into a British grid reference. A precision outside the closed set is
/// refused with `UnsupportedPrecision`; a coordinate outside the extent,
/// negative ones included, with `OutOfRange`.
pub fn osgb_from_eastings_northings(eastings: i32, northings: i32, precision: i32) -> (r: Result<
    OSGB,
    GridError,
>)
    ensures
        !supported_precision(precision as int) ==> r == Err::<OSGB, GridError>(
            GridError::UnsupportedPrecision,
        ),
        supported_precision(precision as int) && (eastings < 0 || northings < 0) ==> r == Err::<
            OSGB,
            GridError,
        >(GridError::OutOfRange),
        supported_precision(precision as int) && eastings >= 0 && northings >= 0 ==> r == (
        match from_coords_spec(
            System::Osgb,
            eastings as int,
            northings as int,
            precision_from_metres(precision as int),
        ) {
            Ok(g) => Ok(OSGB(g)),
            Err(x) => Err::<OSGB, GridError>(x),
        }),
        r is Ok ==> r.unwrap().wf(),
{
    let p = match parse_precision(precision) {
        Ok(p) => p,
        Err(x) => {
            return Err(x);
        },
    };
    if eastings < 0 || northings < 0 {
        return Err(GridError::OutOfRange);
    }
    match GridReference::from_coordinates(System::Osgb, eastings as u32, northings as u32, p) {
        Ok(g) => Ok(OSGB(g)),
        Err(x) => Err(x),
    }
}

/// Parses a British grid reference string.
pub fn osgb_from_string(string: &str) -> (r: Result<OSGB, GridError>)
    ensures
        r == (match parse_spec(string@, System::Osgb) {
            Ok(g) => Ok(OSGB(g)),
            Err(x) => Err::<OSGB, GridError>(x),
        }),
        r is Ok ==> r.unwrap().wf(),
{
    match GridReference::parse(string, System::Osgb) {
        Ok(g) => Ok(OSGB(g)),
        Err(x) => Err(x),
    }
}

/// Reports whether a string is a valid British grid reference: true exactly
/// when [`osgb_from_string`] succeeds.
pub fn osgb_is_valid(string: &str) -> (r: bool)
    ensures
        r == (parse_spec(string@, System::Osgb) is Ok),
{
    GridReference::is_valid(string, System::Osgb)
}

/// Returns the precision of a British grid reference, in metres.
pub fn osgb_precision(grid: OSGB) -> (r: i32)
    ensures
        r == grid.0.precision.spec_metres() as i32,
{
    grid.0.precision().metres() as i32
}

/// Re-quantises a British grid reference to the given precision in metres.
/// A precision outside the closed set is refused with
/// `UnsupportedPrecision`; an equal or finer precision than the reference
/// already carries leaves it unchanged.
pub fn osgb_recalculate(grid: OSGB, precision: i32) -> (r: Result<OSGB, GridError>)
    requires
        grid.wf(),
    ensures
        supported_precision(precision as int) ==> r == Ok::<OSGB, GridError>(
            OSGB(recalc_spec(grid.0, precision_from_metres(precision as int))),
        ),
        !supported_precision(precision as int) ==> r == Err::<OSGB, GridError>(
            GridError::UnsupportedPrecision,
        ),
        r is Ok ==> r.unwrap().wf(),
{
    match parse_precision(precision) {
        Ok(p) => Ok(OSGB(grid.0.recalculate(p))),
        Err(x) => Err(x),
    }
}

} // verus!
