//! The Irish (OSI) grid: a one-letter prefix over a 500 km by 500 km
//! extent.

use vstd::prelude::*;

use crate::reference::{
    format_spec, from_coords_spec, parse_spec, recalc_spec, GridReference, System,
};
use crate::shared::{parse_precision, precision_from_metres, supported_precision, GridError};

verus! {

/// A valid Irish national grid reference.
#[derive(Clone, Copy, Debug, PartialEq, Eq, Structural)]
pub struct OSI(pub GridReference);

impl OSI {
    /// The invariant of every constructed value: a well-formed reference on
    /// the Irish grid.
    pub open spec fn wf(self) -> bool {
        self.0.wf() && self.0.system == System::Osi
    }

    /// Renders the canonical string of the reference.
    pub fn to_text(&self) -> (r: String)
        requires
            self.wf(),
        ensures
            r@ == format_spec(self.0),
    {
        self.0.to_text()
    }
}

/// Validates an explicit (easting, northing, precision-in-metres) triple
/// into an Irish grid reference. A precision outside the closed set is
/// refused with `UnsupportedPrecision`; a coordinate outside the extent,
/// negative ones included, with `OutOfRange`.
pub fn osi_from_eastings_northings(eastings: i32, northings: i32, precision: i32) -> (r: Result<
    OSI,
    GridError,
>)
    ensures
        !supported_precision(precision as int) ==> r == Err::<OSI, GridError>(
            GridError::UnsupportedPrecision,
        ),
        supported_precision(precision as int) && (eastings < 0 || northings < 0) ==> r == Err::<
            OSI,
            GridError,
        >(GridError::OutOfRange),
        supported_precision(precision as int) && eastings >= 0 && northings >= 0 ==> r == (
        match from_coords_spec(
            System::Osi,
            eastings as int,
            northings as int,
            precision_from_metres(precision as int),
        ) {
            Ok(g) => Ok(OSI(g)),
            Err(x) => Err::<OSI, GridError>(x),
        }),
        r is Ok ==> r.unwrap().wf(),
{
    let p = match parse_precision(precision) {
        Ok(p) => p,
        Err(x) => {
            return Err(x);
        },
    };
    if eastings < 0 || northings < 0 {
        return Err(GridError::OutOfRange);
    }
    match GridReference::from_coordinates(System::Osi, eastings as u32, northings as u32, p) {
        Ok(g) => Ok(OSI(g)),
        Err(x) => Err(x),
    }
}

/// Parses an Irish grid reference string.
pub fn osi_from_string(string: &str) -> (r: Result<OSI, GridError>)
    ensures
        r == (match parse_spec(string@, System::Osi) {
            Ok(g) => Ok(OSI(g)),
            Err(x) => Err::<OSI, GridError>(x),
        }),
        r is Ok ==> r.unwrap().wf(),
{
    match GridReference::parse(string, System::Osi) {
        Ok(g) => Ok(OSI(g)),
        Err(x) => Err(x),
    }
}

/// Returns the precision of an Irish grid reference, in metres.
pub fn osi_precision(grid: OSI) -> (r: i32)
    ensures
        r == grid.0.precision.spec_metres() as i32,
{
    grid.0.precision().metres() as i32
}

/// Re-quantises an Irish grid reference to the given precision in metres.
/// A precision outside the closed set is refused with
/// `UnsupportedPrecision`; an equal or finer precision than the reference
/// already carries leaves it unchanged.
pub fn osi_recalculate(grid: OSI, precision: i32) -> (r: Result<OSI, GridError>)
    requires
        grid.wf(),
    ensures
        supported_precision(precision as int) ==> r == Ok::<OSI, GridError>(
            OSI(recalc_spec(grid.0, precision_from_metres(precision as int))),
        ),
        !supported_precision(precision as int) ==> r == Err::<OSI, GridError>(
            GridError::UnsupportedPrecision,
        ),
        r is Ok ==> r.unwrap().wf(),
{
    match parse_precision(precision) {
        Ok(p) => Ok(OSI(grid.0.recalculate(p))),
        Err(x) => Err(x),
    }
}

} // verus!
