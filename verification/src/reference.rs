//! The grid reference value type and its codec.
//!
//! A [`GridReference`] is a coordinate triple (easting, northing, precision)
//! in one of two grid systems. The codec between references and their
//! canonical strings is specified by the pure functions [`format_spec`] and
//! [`parse_spec`]; the executable functions are proved equal to them.

use vstd::arithmetic::div_mod::{
    lemma_fundamental_div_mod, lemma_mod_bound, lemma_mod_mod, lemma_mod_multiples_basic,
};
use vstd::prelude::*;

use crate::grid::{
    letter_at, letter_char, letter_index, letter_lookup, tetrad_at, tetrad_char, tetrad_index,
    tetrad_lookup,
};
use crate::shared::{GridError, Precision};
use crate::text::{
    all_digits, digit_char, digit_val, digits_seq, digits_val, is_digit_char, is_ws, pow10,
    strip_ws,
};

verus! {

/// One of the two supported national grid systems.
#[derive(Clone, Copy, Debug, PartialEq, Eq, Structural)]
pub enum System {
    /// The British grid: a two-letter prefix.
    Osgb,
    /// The Irish grid: a one-letter prefix.
    Osi,
}

impl System {
    /// The exclusive upper bound on eastings, in metres.
    pub open spec fn extent_east(self) -> int {
        match self {
            System::Osgb => 1_500_000,
            System::Osi => 500_000,
        }
    }

    /// The exclusive upper bound on northings, in metres.
    pub open spec fn extent_north(self) -> int {
        match self {
            System::Osgb => 2_000_000,
            System::Osi => 500_000,
        }
    }
}

/// A grid reference: a point on one system's grid, held to a stated
/// precision. Eastings and northings are metres from the system's false
/// origin and are always exact multiples of the precision.
#[derive(Clone, Copy, Debug, PartialEq, Eq, Structural)]
pub struct GridReference {
    /// The grid system the coordinates are expressed in.
    pub system: System,
    /// Metres east of the system's false origin.
    pub easting: u32,
    /// Metres north of the system's false origin.
    pub northing: u32,
    /// The granularity the coordinates are quantised to.
    pub precision: Precision,
}

/// The number of digits each of the two offset halves uses.
pub open spec fn half_width(p: Precision) -> nat {
    match p {
        Precision::Km100 => 0,
        Precision::Km10 => 1,
        Precision::Km2 => 1,
        Precision::Km1 => 2,
        Precision::M100 => 3,
        Precision::M10 => 4,
        Precision::M1 => 5,
    }
}

/// The metre value of one unit of the least significant offset digit.
pub open spec fn digit_scale(p: Precision) -> int {
    match p {
        Precision::Km100 => 100_000,
        Precision::Km10 => 10_000,
        Precision::Km2 => 10_000,
        Precision::Km1 => 1_000,
        Precision::M100 => 100,
        Precision::M10 => 10,
        Precision::M1 => 1,
    }
}

/// The precision a digit run of `2 * h` digits denotes.
pub open spec fn precision_of_half_width(h: int) -> Precision {
    if h == 0 {
        Precision::Km100
    } else if h == 1 {
        Precision::Km10
    } else if h == 2 {
        Precision::Km1
    } else if h == 3 {
        Precision::M100
    } else if h == 4 {
        Precision::M10
    } else {
        Precision::M1
    }
}

impl GridReference {
    /// The invariant every constructed reference satisfies: the coordinates
    /// lie inside the system's extent and are exact multiples of the
    /// precision.
    pub open spec fn wf(self) -> bool {
        &&& (self.easting as int) < self.system.extent_east()
        &&& (self.northing as int) < self.system.extent_north()
        &&& self.easting as int % (self.precision.spec_metres() as int) == 0
        &&& self.northing as int % (self.precision.spec_metres() as int) == 0
    }
}

/// The main-table index of the first (500 km) OSGB prefix letter.
pub open spec fn osgb_first_index(e: int, n: int) -> int {
    (e + 1_000_000) / 500_000 + 5 * ((n + 500_000) / 500_000)
}

/// The main-table index of the second (100 km) OSGB prefix letter.
pub open spec fn osgb_second_index(e: int, n: int) -> int {
    (e % 500_000) / 100_000 + 5 * ((n % 500_000) / 100_000)
}

/// The main-table index of the single (100 km) OSI prefix letter.
pub open spec fn osi_index(e: int, n: int) -> int {
    e / 100_000 + 5 * (n / 100_000)
}

/// The tetrad-table index of the 2 km square within the 10 km square.
pub open spec fn tetrad_of(e: int, n: int) -> int {
    (e % 10_000) / 2_000 + 5 * ((n % 10_000) / 2_000)
}

/// The letter prefix of a reference's canonical string.
pub open spec fn prefix_spec(g: GridReference) -> Seq<char> {
    match g.system {
        System::Osgb => seq![
            letter_at(osgb_first_index(g.easting as int, g.northing as int)),
            letter_at(osgb_second_index(g.easting as int, g.northing as int)),
        ],
        System::Osi => seq![letter_at(osi_index(g.easting as int, g.northing as int))],
    }
}

/// The part of a reference's canonical string after the letter prefix: the
/// two zero-padded offset halves, easting first, and for the 2 km precision
/// the trailing tetrad letter.
pub open spec fn offsets_spec(g: GridReference) -> Seq<char> {
    let eoff = g.easting as int % 100_000;
    let noff = g.northing as int % 100_000;
    let h = half_width(g.precision);
    let sc = digit_scale(g.precision);
    let run = digits_seq(eoff / sc, h) + digits_seq(noff / sc, h);
    if g.precision is Km2 {
        run + seq![tetrad_at(tetrad_of(eoff, noff))]
    } else {
        run
    }
}

/// The canonical string of a reference.
pub open spec fn format_spec(g: GridReference) -> Seq<char> {
    prefix_spec(g) + offsets_spec(g)
}

/// Parses what follows the letter prefix, given the prefix square's origin.
pub open spec fn parse_offsets(r: Seq<char>, oe: int, on: int, sys: System) -> Result<
    GridReference,
    GridError,
> {
    if all_digits(r) {
        if r.len() % 2 == 0 && r.len() <= 10 {
            let h = (r.len() / 2) as int;
            let sc = pow10((5 - h) as nat);
            Ok(
                GridReference {
                    system: sys,
                    easting: (oe + digits_val(r.take(h)) * sc) as u32,
                    northing: (on + digits_val(r.skip(h)) * sc) as u32,
                    precision: precision_of_half_width(h),
                },
            )
        } else {
            Err(GridError::InvalidReference)
        }
    } else if r.len() == 3 && is_digit_char(r[0]) && is_digit_char(r[1]) && tetrad_index(
        r[2],
    ) is Some {
        let t = tetrad_index(r[2]).unwrap();
        Ok(
            GridReference {
                system: sys,
                easting: (oe + digit_val(r[0]) * 10_000 + (t % 5) * 2_000) as u32,
                northing: (on + digit_val(r[1]) * 10_000 + (t / 5) * 2_000) as u32,
                precision: Precision::Km2,
            },
        )
    } else {
        Err(GridError::InvalidReference)
    }
}

/// Parses a whitespace-stripped string: the letter prefix, then the offsets.
pub open spec fn parse_stripped(t: Seq<char>, sys: System) -> Result<GridReference, GridError> {
    if t.len() == 0 {
        Err(GridError::InvalidReference)
    } else {
        match letter_index(t[0]) {
            None => Err(GridError::InvalidReference),
            Some(i) => match sys {
                System::Osi => parse_offsets(
                    t.skip(1),
                    (i % 5) * 100_000,
                    (i / 5) * 100_000,
                    sys,
                ),
                System::Osgb => {
                    if i % 5 < 2 || i / 5 < 1 {
                        Err(GridError::OutOfRange)
                    } else if t.len() < 2 {
                        Err(GridError::InvalidReference)
                    } else {
                        match letter_index(t[1]) {
                            None => Err(GridError::InvalidReference),
                            Some(j) => parse_offsets(
                                t.skip(2),
                                (i % 5 - 2) * 500_000 + (j % 5) * 100_000,
                                (i / 5 - 1) * 500_000 + (j / 5) * 100_000,
                                sys,
                            ),
                        }
                    }
                },
            },
        }
    }
}

/// What parsing a string yields: whitespace is stripped everywhere, the
/// letter prefix is resolved case-insensitively, and the digit run fixes the
/// precision.
pub open spec fn parse_spec(s: Seq<char>, sys: System) -> Result<GridReference, GridError> {
    parse_stripped(strip_ws(s), sys)
}

/// What recalculation yields: truncation of both coordinates to a coarser
/// granularity, and the unchanged reference for an equal or finer one.
pub open spec fn recalc_spec(g: GridReference, p: Precision) -> GridReference {
    if p.spec_metres() <= g.precision.spec_metres() {
        g
    } else {
        GridReference {
            system: g.system,
            easting: (g.easting as int - g.easting as int % (p.spec_metres() as int)) as u32,
            northing: (g.northing as int - g.northing as int % (p.spec_metres() as int)) as u32,
            precision: p,
        }
    }
}

/// What validating an explicit coordinate triple yields: a range check, then
/// truncation of both coordinates to exact multiples of the precision.
pub open spec fn from_coords_spec(sys: System, e: int, n: int, p: Precision) -> Result<
    GridReference,
    GridError,
> {
    if e >= sys.extent_east() || n >= sys.extent_north() {
        Err(GridError::OutOfRange)
    } else {
        Ok(
            GridReference {
                system: sys,
                easting: (e - e % (p.spec_metres() as int)) as u32,
                northing: (n - n % (p.spec_metres() as int)) as u32,
                precision: p,
            },
        )
    }
}

/// Truncating a non-negative value to a positive granularity keeps it
/// non-negative, does not grow it, and yields an exact multiple.
pub proof fn lemma_truncate(x: int, m: int)
    requires
        x >= 0,
        m > 0,
    ensures
        0 <= x - x % m <= x,
        (x - x % m) % m == 0,
        x - x % m == m * (x / m),
{
    lemma_mod_bound(x, m);
    lemma_fundamental_div_mod(x, m);
    lemma_mod_multiples_basic(x / m, m);
    vstd::arithmetic::mul::lemma_mul_is_commutative(x / m, m);
}

/// Recalculation preserves well-formedness and the system.
pub proof fn lemma_recalc_wf(g: GridReference, p: Precision)
    requires
        g.wf(),
    ensures
        recalc_spec(g, p).wf(),
        recalc_spec(g, p).system == g.system,
        recalc_spec(g, p).precision.spec_metres() >= g.precision.spec_metres() || recalc_spec(
            g,
            p,
        ) == g,
{
    let m = p.spec_metres() as int;
    if !(p.spec_metres() <= g.precision.spec_metres()) {
        lemma_truncate(g.easting as int, m);
        lemma_truncate(g.northing as int, m);
    }
}

/// Coordinate validation yields a well-formed reference whenever it yields
/// one at all.
pub proof fn lemma_from_coords_wf(sys: System, e: int, n: int, p: Precision)
    requires
        0 <= e,
        0 <= n,
    ensures
        from_coords_spec(sys, e, n, p) is Ok ==> from_coords_spec(sys, e, n, p).unwrap().wf()
            && from_coords_spec(sys, e, n, p).unwrap().system == sys && from_coords_spec(
            sys,
            e,
            n,
            p,
        ).unwrap().precision == p,
{
    let m = p.spec_metres() as int;
    if e < sys.extent_east() && n < sys.extent_north() {
        lemma_truncate(e, m);
        lemma_truncate(n, m);
    }
}

impl GridReference {
    /// Returns the eastings of the reference, in metres.
    pub fn eastings(&self) -> (e: u32)
        ensures
            e == self.easting,
    {
        self.easting
    }

    /// Returns the northings of the reference, in metres.
    pub fn northings(&self) -> (n: u32)
        ensures
            n == self.northing,
    {
        self.northing
    }

    /// Returns the precision of the reference.
    pub fn precision(&self) -> (p: Precision)
        ensures
            p == self.precision,
    {
        self.precision
    }

    /// Returns the grid system of the reference.
    pub fn system(&self) -> (s: System)
        ensures
            s == self.system,
    {
        self.system
    }

    /// Decides the invariant at run time, for callers outside the verified
    /// library that assembled a reference by hand.
    pub fn is_well_formed(&self) -> (b: bool)
        ensures
            b == self.wf(),
    {
        let m = self.precision.metres();
        let extent_e: u32 = match self.system {
            System::Osgb => 1_500_000,
            System::Osi => 500_000,
        };
        let extent_n: u32 = match self.system {
            System::Osgb => 2_000_000,
            System::Osi => 500_000,
        };
        self.easting < extent_e && self.northing < extent_n && self.easting % m == 0
            && self.northing % m == 0
    }

    /// Validates an explicit coordinate triple into a reference. The
    /// coordinates are truncated to exact multiples of the precision;
    /// coordinates outside the system's extent are refused.
    pub fn from_coordinates(system: System, easting: u32, northing: u32, precision: Precision) -> (r:
        Result<GridReference, GridError>)
        ensures
            r == from_coords_spec(system, easting as int, northing as int, precision),
            r is Ok ==> r.unwrap().wf() && r.unwrap().system == system && r.unwrap().precision
                == precision,
    {
        proof {
            lemma_from_coords_wf(system, easting as int, northing as int, precision);
        }
        let extent_e: u32 = match system {
            System::Osgb => 1_500_000,
            System::Osi => 500_000,
        };
        let extent_n: u32 = match system {
            System::Osgb => 2_000_000,
            System::Osi => 500_000,
        };
        if easting >= extent_e || northing >= extent_n {
            return Err(GridError::OutOfRange);
        }
        let m = precision.metres();
        proof {
            lemma_truncate(easting as int, m as int);
            lemma_truncate(northing as int, m as int);
        }
        Ok(
            GridReference {
                system,
                easting: easting - easting % m,
                northing: northing - northing % m,
                precision,
            },
        )
    }

    /// Re-quantises the reference to the target precision: coordinates are
    /// truncated toward the origin for a coarser target, and the reference
    /// is returned unchanged for an equal or finer one.
    pub fn recalculate(&self, target: Precision) -> (r: GridReference)
        requires
            self.wf(),
        ensures
            r == recalc_spec(*self, target),
            r.wf(),
            r.system == self.system,
    {
        proof {
            lemma_recalc_wf(*self, target);
        }
        if target.metres() <= self.precision.metres() {
            *self
        } else {
            let m = target.metres();
            proof {
                lemma_truncate(self.easting as int, m as int);
                lemma_truncate(self.northing as int, m as int);
            }
            GridReference {
                system: self.system,
                easting: self.easting - self.easting % m,
                northing: self.northing - self.northing % m,
                precision: target,
            }
        }
    }
}

/// Zero is a multiple of every positive granularity.
proof fn lemma_zero_mod(m: int)
    requires
        m > 0,
    ensures
        0int % m == 0,
{
    vstd::arithmetic::div_mod::lemma_small_mod(0nat, m as nat);
}

/// A multiple of 100 km is a multiple of every granularity the codec uses.
proof fn lemma_aligned_100k(x: int, sc: int)
    requires
        x % 100_000 == 0,
        sc == 1 || sc == 10 || sc == 100 || sc == 1_000 || sc == 2_000 || sc == 10_000 || sc
            == 100_000,
    ensures
        x % sc == 0,
{
    lemma_zero_mod(sc);
    if sc == 1 {
        lemma_mod_mod(x, 1, 100_000);
    } else if sc == 10 {
        lemma_mod_mod(x, 10, 10_000);
    } else if sc == 100 {
        lemma_mod_mod(x, 100, 1_000);
    } else if sc == 1_000 {
        lemma_mod_mod(x, 1_000, 100);
    } else if sc == 2_000 {
        lemma_mod_mod(x, 2_000, 50);
    } else if sc == 10_000 {
        lemma_mod_mod(x, 10_000, 10);
    } else {
        lemma_mod_mod(x, 100_000, 1);
    }
}

/// An offset half scaled to metres stays under 100 km and is a multiple of
/// its scale.
proof fn lemma_scaled_offset(v: int, h: int)
    requires
        0 <= h <= 5,
        0 <= v < crate::text::pow10(h as nat),
    ensures
        0 <= v * crate::text::pow10((5 - h) as nat) <= 100_000 - crate::text::pow10(
            (5 - h) as nat,
        ),
        (v * crate::text::pow10((5 - h) as nat)) % crate::text::pow10((5 - h) as nat) == 0,
{
    crate::text::lemma_pow10_values();
    let sc = crate::text::pow10((5 - h) as nat);
    lemma_mod_multiples_basic(v, sc);
}

/// Parsing the part after the prefix only yields well-formed references on
/// the square the prefix resolved to.
pub proof fn lemma_parse_offsets_wf(r: Seq<char>, oe: int, on: int, sys: System)
    requires
        0 <= oe,
        0 <= on,
        oe % 100_000 == 0,
        on % 100_000 == 0,
        oe + 100_000 <= sys.extent_east(),
        on + 100_000 <= sys.extent_north(),
    ensures
        parse_offsets(r, oe, on, sys) is Ok ==> parse_offsets(r, oe, on, sys).unwrap().wf()
            && parse_offsets(r, oe, on, sys).unwrap().system == sys,
{
    crate::text::lemma_pow10_values();
    if all_digits(r) {
        if r.len() % 2 == 0 && r.len() <= 10 {
            let h = (r.len() / 2) as int;
            let sc = pow10((5 - h) as nat);
            let ve = digits_val(r.take(h));
            let vn = digits_val(r.skip(h));
            assert(all_digits(r.take(h))) by {
                assert(forall|k: int|
                    0 <= k < h ==> #[trigger] r.take(h)[k] == r[k]);
            }
            assert(all_digits(r.skip(h))) by {
                assert(forall|k: int|
                    0 <= k < r.len() - h ==> #[trigger] r.skip(h)[k] == r[k + h]);
            }
            crate::text::lemma_digits_val_bound(r.take(h));
            crate::text::lemma_digits_val_bound(r.skip(h));
            lemma_scaled_offset(ve, h);
            lemma_scaled_offset(vn, h);
            let m = precision_of_half_width(h).spec_metres() as int;
            assert(m == sc);
            lemma_aligned_100k(oe, sc);
            lemma_aligned_100k(on, sc);
            vstd::arithmetic::mul::lemma_mul_is_commutative(ve, sc);
            vstd::arithmetic::mul::lemma_mul_is_commutative(vn, sc);
            vstd::arithmetic::div_mod::lemma_mod_multiples_vanish(ve, oe, sc);
            vstd::arithmetic::div_mod::lemma_mod_multiples_vanish(vn, on, sc);
        }
    } else if r.len() == 3 && is_digit_char(r[0]) && is_digit_char(r[1]) && tetrad_index(
        r[2],
    ) is Some {
        let t = tetrad_index(r[2]).unwrap();
        crate::grid::lemma_tetrad_index_range(r[2]);
        let d0 = digit_val(r[0]);
        let d1 = digit_val(r[1]);
        let eo = d0 * 10_000 + (t % 5) * 2_000;
        let no = d1 * 10_000 + (t / 5) * 2_000;
        assert(0 <= eo <= 98_000);
        assert(0 <= no <= 98_000);
        lemma_aligned_100k(oe, 2_000);
        lemma_aligned_100k(on, 2_000);
        assert(oe + eo == 2_000 * (d0 * 5 + t % 5) + oe);
        assert(on + no == 2_000 * (d1 * 5 + t / 5) + on);
        vstd::arithmetic::div_mod::lemma_mod_multiples_vanish(d0 * 5 + t % 5, oe, 2_000);
        vstd::arithmetic::div_mod::lemma_mod_multiples_vanish(d1 * 5 + t / 5, on, 2_000);
    }
}

/// Parsing a stripped string only yields well-formed references of the asked
/// system.
pub proof fn lemma_parse_stripped_wf(t: Seq<char>, sys: System)
    ensures
        parse_stripped(t, sys) is Ok ==> parse_stripped(t, sys).unwrap().wf() && parse_stripped(
            t,
            sys,
        ).unwrap().system == sys,
{
    if t.len() > 0 && letter_index(t[0]) is Some {
        let i = letter_index(t[0]).unwrap();
        crate::grid::lemma_letter_index_range(t[0]);
        match sys {
            System::Osi => {
                let oe = (i % 5) * 100_000;
                let on = (i / 5) * 100_000;
                lemma_mod_multiples_basic(i % 5, 100_000);
                lemma_mod_multiples_basic(i / 5, 100_000);
                lemma_parse_offsets_wf(t.skip(1), oe, on, sys);
            },
            System::Osgb => {
                if !(i % 5 < 2 || i / 5 < 1) && t.len() >= 2 && letter_index(t[1]) is Some {
                    let j = letter_index(t[1]).unwrap();
                    crate::grid::lemma_letter_index_range(t[1]);
                    let oe = (i % 5 - 2) * 500_000 + (j % 5) * 100_000;
                    let on = (i / 5 - 1) * 500_000 + (j / 5) * 100_000;
                    assert(oe == ((i % 5 - 2) * 5 + j % 5) * 100_000);
                    assert(on == ((i / 5 - 1) * 5 + j / 5) * 100_000);
                    lemma_mod_multiples_basic((i % 5 - 2) * 5 + j % 5, 100_000);
                    lemma_mod_multiples_basic((i / 5 - 1) * 5 + j / 5, 100_000);
                    lemma_parse_offsets_wf(t.skip(2), oe, on, sys);
                }
            },
        }
    }
}

/// Parsing only yields well-formed references of the asked system.
pub proof fn lemma_parse_spec_wf(s: Seq<char>, sys: System)
    ensures
        parse_spec(s, sys) is Ok ==> parse_spec(s, sys).unwrap().wf() && parse_spec(
            s,
            sys,
        ).unwrap().system == sys,
{
    lemma_parse_stripped_wf(strip_ws(s), sys);
}

/// Whether a character is a decimal digit.
fn is_digit_c(c: char) -> (r: bool)
    ensures
        r == is_digit_char(c),
{
    let u = c as u32;
    48 <= u && u <= 57
}

/// The numeric value of a decimal digit character.
fn char_digit(c: char) -> (d: u8)
    requires
        is_digit_char(c),
    ensures
        d as int == digit_val(c),
{
    (c as u32 - 48) as u8
}

/// Reads the decimal value of a digit run inside a character buffer.
fn digits_value(v: &Vec<char>, from: usize, to: usize) -> (r: u32)
    requires
        from <= to <= v@.len(),
        to - from <= 5,
        forall|j: int| from <= j < to ==> is_digit_char(#[trigger] v@[j]),
    ensures
        r == digits_val(v@.subrange(from as int, to as int)),
        r < pow10((to - from) as nat),
{
    proof {
        crate::text::lemma_pow10_values();
    }
    let mut r: u32 = 0;
    let mut i = from;
    while i < to
        invariant
            from <= i <= to <= v@.len(),
            to - from <= 5,
            forall|j: int| from <= j < to ==> is_digit_char(#[trigger] v@[j]),
            r == digits_val(v@.subrange(from as int, i as int)),
            r < pow10((i - from) as nat),
            pow10((i - from) as nat) <= 100_000,
        decreases to - i,
    {
        let c = v[i];
        let d = char_digit(c);
        proof {
            let pre = v@.subrange(from as int, i as int);
            let post = v@.subrange(from as int, i + 1 as int);
            assert(post.drop_last() =~= pre);
            assert(post.last() == v@[i as int]);
            assert(pow10((i + 1 - from) as nat) == 10 * pow10((i - from) as nat));
            crate::text::lemma_pow10_values();
        }
        r = r * 10 + (d as u32);
        i += 1;
    }
    r
}

/// Parses what follows the letter prefix of a grid reference string.
fn parse_offsets_run(v: &Vec<char>, from: usize, oe: u32, on: u32, sys: System) -> (r: Result<
    GridReference,
    GridError,
>)
    requires
        from <= v@.len(),
        oe as int % 100_000 == 0,
        on as int % 100_000 == 0,
        oe + 100_000 <= sys.extent_east(),
        on + 100_000 <= sys.extent_north(),
    ensures
        r == parse_offsets(v@.skip(from as int), oe as int, on as int, sys),
        r is Ok ==> r.unwrap().wf() && r.unwrap().system == sys,
{
    let to = v.len();
    let ghost run = v@.skip(from as int);
    proof {
        lemma_parse_offsets_wf(run, oe as int, on as int, sys);
        crate::text::lemma_pow10_values();
        assert(forall|k: int| 0 <= k < run.len() ==> run[k] == v@[k + from]);
    }
    let mut i = from;
    while i < to && is_digit_c(v[i])
        invariant
            from <= i <= to == v@.len(),
            forall|j: int| from <= j < i ==> is_digit_char(#[trigger] v@[j]),
        decreases to - i,
    {
        i += 1;
    }
    if i == to {
        // the whole run is digits
        assert(all_digits(run));
        let len = to - from;
        if len % 2 != 0 || len > 10 {
            return Err(GridError::InvalidReference);
        }
        let h = len / 2;
        let sc: u32 = match h {
            0 => 100_000,
            1 => 10_000,
            2 => 1_000,
            3 => 100,
            4 => 10,
            _ => 1,
        };
        assert(sc == pow10((5 - h) as nat));
        let ve = digits_value(v, from, from + h);
        let vn = digits_value(v, from + h, to);
        proof {
            assert(run.take(h as int) =~= v@.subrange(from as int, (from + h) as int));
            assert(run.skip(h as int) =~= v@.subrange((from + h) as int, to as int));
            lemma_scaled_offset(ve as int, h as int);
            lemma_scaled_offset(vn as int, h as int);
        }
        let easting = oe + ve * sc;
        let northing = on + vn * sc;
        let precision = match h {
            0 => Precision::Km100,
            1 => Precision::Km10,
            2 => Precision::Km1,
            3 => Precision::M100,
            4 => Precision::M10,
            _ => Precision::M1,
        };
        Ok(GridReference { system: sys, easting, northing, precision })
    } else {
        // a non-digit inside the run: only the tetrad form remains
        assert(!all_digits(run)) by {
            assert(run[i - from] == v@[i as int]);
        }
        if to - from == 3 && i == from + 2 {
            match tetrad_lookup(v[from + 2]) {
                Some(t) => {
                    proof {
                        crate::grid::lemma_tetrad_index_range(v@[from + 2]);
                    }
                    let d0 = char_digit(v[from]);
                    let d1 = char_digit(v[from + 1]);
                    let easting = oe + (d0 as u32) * 10_000 + ((t % 5) as u32) * 2_000;
                    let northing = on + (d1 as u32) * 10_000 + ((t / 5) as u32) * 2_000;
                    assert(run[0] == v@[from as int] && run[1] == v@[from + 1] && run[2] == v@[
                        from + 2
                    ]);
                    Ok(
                        GridReference {
                            system: sys,
                            easting,
                            northing,
                            precision: Precision::Km2,
                        },
                    )
                },
                None => Err(GridError::InvalidReference),
            }
        } else {
            Err(GridError::InvalidReference)
        }
    }
}

impl GridReference {
    /// Parses a grid reference string: whitespace is stripped, the letter
    /// prefix is resolved case-insensitively, the digit run (with the tetrad
    /// letter for the 2 km case) fixes the precision, and the resulting
    /// coordinates are absolute metres from the system's false origin.
    /// Exactly the strings [`parse_spec`] accepts are accepted.
    pub fn parse(s: &str, system: System) -> (r: Result<GridReference, GridError>)
        ensures
            r == parse_spec(s@, system),
            r is Ok ==> r.unwrap().wf() && r.unwrap().system == system,
    {
        proof {
            lemma_parse_spec_wf(s@, system);
        }
        let n = s.unicode_len();
        let mut v: Vec<char> = Vec::new();
        let mut i: usize = 0;
        while i < n
            invariant
                i <= n == s@.len(),
                v@ == strip_ws(s@.take(i as int)),
            decreases n - i,
        {
            let c = s.get_char(i);
            proof {
                assert(s@.take(i as int + 1).drop_last() =~= s@.take(i as int));
                assert(s@.take(i as int + 1) =~= s@.take(i as int).push(s@[i as int]));
                crate::text::lemma_strip_ws_push(s@.take(i as int), s@[i as int]);
            }
            if !crate::text::is_ws_char(c) {
                v.push(c);
            }
            i += 1;
        }
        proof {
            assert(s@.take(n as int) =~= s@);
        }
        let ghost t = strip_ws(s@);
        if v.len() == 0 {
            return Err(GridError::InvalidReference);
        }
        let c0 = v[0];
        let l0 = match letter_lookup(c0) {
            Some(i0) => i0,
            None => {
                return Err(GridError::InvalidReference);
            },
        };
        match system {
            System::Osi => {
                let oe = ((l0 % 5) as u32) * 100_000;
                let on = ((l0 / 5) as u32) * 100_000;
                proof {
                    lemma_mod_multiples_basic((l0 % 5) as int, 100_000);
                    lemma_mod_multiples_basic((l0 / 5) as int, 100_000);
                }
                parse_offsets_run(&v, 1, oe, on, system)
            },
            System::Osgb => {
                if l0 % 5 < 2 || l0 / 5 < 1 {
                    return Err(GridError::OutOfRange);
                }
                if v.len() < 2 {
                    return Err(GridError::InvalidReference);
                }
                let c1 = v[1];
                let l1 = match letter_lookup(c1) {
                    Some(j0) => j0,
                    None => {
                        return Err(GridError::InvalidReference);
                    },
                };
                let oe = ((l0 % 5 - 2) as u32) * 500_000 + ((l1 % 5) as u32) * 100_000;
                let on = ((l0 / 5 - 1) as u32) * 500_000 + ((l1 / 5) as u32) * 100_000;
                proof {
                    let a = (l0 % 5 - 2) as int;
                    let b = (l1 % 5) as int;
                    let a2 = (l0 / 5 - 1) as int;
                    let b2 = (l1 / 5) as int;
                    assert(oe == (a * 5 + b) * 100_000);
                    assert(on == (a2 * 5 + b2) * 100_000);
                    lemma_mod_multiples_basic(a * 5 + b, 100_000);
                    lemma_mod_multiples_basic(a2 * 5 + b2, 100_000);
                }
                parse_offsets_run(&v, 2, oe, on, system)
            },
        }
    }

    /// Reports whether a string parses as a reference of the given system.
    /// True exactly when [`GridReference::parse`] succeeds.
    pub fn is_valid(s: &str, system: System) -> (r: bool)
        ensures
            r == (parse_spec(s@, system) is Ok),
    {
        match GridReference::parse(s, system) {
            Ok(_) => true,
            Err(_) => false,
        }
    }
}

/// Appends one decimal digit character.
fn push_digit_char(out: &mut Vec<char>, d: u8)
    requires
        d < 10,
    ensures
        final(out)@ == old(out)@ + seq![digit_char(d as int)],
{
    let c: char = match d {
        0 => '0',
        1 => '1',
        2 => '2',
        3 => '3',
        4 => '4',
        5 => '5',
        6 => '6',
        7 => '7',
        8 => '8',
        _ => '9',
    };
    out.push(c);
    proof {
        assert(out@ =~= old(out)@ + seq![digit_char(d as int)]);
    }
}

/// Appends the zero-padded `w`-digit decimal run for a value.
fn push_digits(out: &mut Vec<char>, n: u32, w: u8)
    requires
        w <= 5,
        (n as int) < pow10(w as nat),
    ensures
        final(out)@ == old(out)@ + digits_seq(n as int, w as nat),
    decreases w,
{
    if w == 0 {
        proof {
            assert(out@ + digits_seq(n as int, 0nat) =~= out@);
        }
    } else {
        proof {
            crate::text::lemma_pow10_values();
            assert(pow10(w as nat) == 10 * pow10((w - 1) as nat));
            vstd::arithmetic::div_mod::lemma_multiply_divide_lt(
                n as int,
                10,
                pow10((w - 1) as nat),
            );
        }
        push_digits(out, n / 10, w - 1);
        push_digit_char(out, (n % 10) as u8);
        proof {
            assert(out@ =~= old(out)@ + digits_seq(n as int, w as nat));
        }
    }
}

impl GridReference {
    /// Renders the canonical string of the reference: the letter prefix,
    /// then the two zero-padded offset halves (easting first), and for the
    /// 2 km precision the trailing tetrad letter. Letters are upper case and
    /// no separators are produced. Never fails on a well-formed reference.
    pub fn to_text(&self) -> (r: String)
        requires
            self.wf(),
        ensures
            r@ == format_spec(*self),
    {
        let e = self.easting;
        let n = self.northing;
        let mut out: Vec<char> = Vec::new();
        match self.system {
            System::Osgb => {
                proof {
                    vstd::arithmetic::div_mod::lemma_multiply_divide_lt(
                        e as int + 1_000_000,
                        500_000,
                        5,
                    );
                    vstd::arithmetic::div_mod::lemma_div_is_ordered(
                        1_000_000,
                        e as int + 1_000_000,
                        500_000,
                    );
                    vstd::arithmetic::div_mod::lemma_multiply_divide_lt(
                        n as int + 500_000,
                        500_000,
                        5,
                    );
                    vstd::arithmetic::div_mod::lemma_div_is_ordered(
                        500_000,
                        n as int + 500_000,
                        500_000,
                    );
                    lemma_mod_bound(e as int, 500_000);
                    lemma_mod_bound(n as int, 500_000);
                    vstd::arithmetic::div_mod::lemma_multiply_divide_lt(
                        e as int % 500_000,
                        100_000,
                        5,
                    );
                    vstd::arithmetic::div_mod::lemma_multiply_divide_lt(
                        n as int % 500_000,
                        100_000,
                        5,
                    );
                }
                let c1 = (e + 1_000_000) / 500_000;
                let r1 = (n + 500_000) / 500_000;
                out.push(letter_char((c1 + 5 * r1) as u8));
                let c2 = (e % 500_000) / 100_000;
                let r2 = (n % 500_000) / 100_000;
                out.push(letter_char((c2 + 5 * r2) as u8));
                proof {
                    assert(out@ =~= prefix_spec(*self));
                }
            },
            System::Osi => {
                proof {
                    vstd::arithmetic::div_mod::lemma_multiply_divide_lt(e as int, 100_000, 5);
                    vstd::arithmetic::div_mod::lemma_multiply_divide_lt(n as int, 100_000, 5);
                }
                let c1 = e / 100_000;
                let r1 = n / 100_000;
                out.push(letter_char((c1 + 5 * r1) as u8));
                proof {
                    assert(out@ =~= prefix_spec(*self));
                }
            },
        }
        let eoff = e % 100_000;
        let noff = n % 100_000;
        proof {
            lemma_mod_bound(e as int, 100_000);
            lemma_mod_bound(n as int, 100_000);
            crate::text::lemma_pow10_values();
        }
        let (h, sc): (u8, u32) = match self.precision {
            Precision::Km100 => (0, 100_000),
            Precision::Km10 => (1, 10_000),
            Precision::Km2 => (1, 10_000),
            Precision::Km1 => (2, 1_000),
            Precision::M100 => (3, 100),
            Precision::M10 => (4, 10),
            Precision::M1 => (5, 1),
        };
        proof {
            assert(h as nat == half_width(self.precision));
            assert(sc as int == digit_scale(self.precision));
            vstd::arithmetic::div_mod::lemma_multiply_divide_lt(
                eoff as int,
                sc as int,
                pow10(h as nat),
            );
            vstd::arithmetic::div_mod::lemma_multiply_divide_lt(
                noff as int,
                sc as int,
                pow10(h as nat),
            );
        }
        let ghost before_digits = out@;
        push_digits(&mut out, eoff / sc, h);
        push_digits(&mut out, noff / sc, h);
        if matches!(self.precision, Precision::Km2) {
            proof {
                lemma_mod_bound(eoff as int, 10_000);
                lemma_mod_bound(noff as int, 10_000);
                vstd::arithmetic::div_mod::lemma_multiply_divide_lt(
                    eoff as int % 10_000,
                    2_000,
                    5,
                );
                vstd::arithmetic::div_mod::lemma_multiply_divide_lt(
                    noff as int % 10_000,
                    2_000,
                    5,
                );
            }
            let ti = (eoff % 10_000) / 2_000 + 5 * ((noff % 10_000) / 2_000);
            out.push(tetrad_char(ti as u8));
        }
        proof {
            assert(out@ =~= format_spec(*self));
        }
        crate::text::chars_to_string(&out)
    }
}

} // verus!
