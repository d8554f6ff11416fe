//! A national grid reference codec: a bidirectional, precision-aware encoding
//! between compact alphanumeric strings such as `"SO892437"` and numeric
//! (easting, northing, precision) coordinate triples in metres, for the
//! two-letter OSGB grid and the one-letter OSI grid.

pub mod grid;
pub mod laws;
pub mod osgb;
pub mod osi;
pub mod reference;
pub mod shared;
pub mod text;
