//! The laws the codec obeys, proved once for every well-formed reference:
//! the format/parse round trip, precision-identity of recalculation, and
//! composition of stepwise coarsening.

use vstd::arithmetic::div_mod::{
    lemma_fundamental_div_mod, lemma_fundamental_div_mod_converse_div,
    lemma_fundamental_div_mod_converse_mod, lemma_mod_bound, lemma_mod_mod,
    lemma_mod_multiples_vanish, lemma_multiply_divide_lt, lemma_small_mod,
};
use vstd::arithmetic::mul::{lemma_mul_is_associative, lemma_mul_is_commutative};
use vstd::prelude::*;

use crate::grid::{lemma_letter_round_trip, lemma_tetrad_round_trip, letter_at, tetrad_at};
use crate::reference::{
    digit_scale, format_spec, half_width, offsets_spec, osgb_first_index, osgb_second_index,
    osi_index, parse_offsets, parse_spec, parse_stripped, precision_of_half_width, recalc_spec,
    tetrad_of, GridReference, System,
};
use crate::shared::{GridError, Precision};
use crate::text::{
    all_digits, digit_char, digit_val, digits_seq, digits_val, is_digit_char, is_ws,
    lemma_digit_char_val, lemma_digits_round_trip, lemma_digits_seq_wf, lemma_pow10_values,
    lemma_strip_ws_id, pow10,
};

verus! {

/// Letters of the main table are neither whitespace nor digits.
proof fn lemma_letter_class(i: int)
    requires
        0 <= i < 25,
    ensures
        !is_ws(letter_at(i)),
        !is_digit_char(letter_at(i)),
{
}

/// Letters of the tetrad table are neither whitespace nor digits.
proof fn lemma_tetrad_class(i: int)
    requires
        0 <= i < 25,
    ensures
        !is_ws(tetrad_at(i)),
        !is_digit_char(tetrad_at(i)),
{
}

/// A decimal digit character is never whitespace.
proof fn lemma_digit_not_ws(c: char)
    requires
        is_digit_char(c),
    ensures
        !is_ws(c),
{
}

/// No character of the offset part of a canonical string is whitespace.
proof fn lemma_offsets_not_ws(g: GridReference, k: int)
    requires
        g.wf(),
        0 <= k < offsets_spec(g).len(),
    ensures
        !is_ws(offsets_spec(g)[k]),
{
    let e = g.easting as int;
    let n = g.northing as int;
    let eoff = e % 100_000;
    let noff = n % 100_000;
    let p = g.precision;
    let h = half_width(p);
    let sc = digit_scale(p);
    lemma_pow10_values();
    lemma_mod_bound(e, 100_000);
    lemma_mod_bound(n, 100_000);
    assert(sc * pow10(h) == 100_000);
    lemma_multiply_divide_lt(eoff, sc, pow10(h));
    lemma_multiply_divide_lt(noff, sc, pow10(h));
    let de = digits_seq(eoff / sc, h);
    let dn = digits_seq(noff / sc, h);
    lemma_digits_seq_wf(eoff / sc, h);
    lemma_digits_seq_wf(noff / sc, h);
    let off = offsets_spec(g);
    if k < h {
        assert(off[k] == de[k]);
        lemma_digit_not_ws(de[k]);
    } else if k < 2 * h {
        assert(off[k] == dn[k - h]);
        lemma_digit_not_ws(dn[k - h]);
    } else {
        assert(p is Km2 && k == 2);
        lemma_mod_bound(eoff, 10_000);
        lemma_mod_bound(noff, 10_000);
        lemma_multiply_divide_lt(eoff % 10_000, 2_000, 5);
        lemma_multiply_divide_lt(noff % 10_000, 2_000, 5);
        lemma_tetrad_class(tetrad_of(eoff, noff));
        assert(off[k] == tetrad_at(tetrad_of(eoff, noff)));
    }
}

/// A one-digit run is the single character of its value.
proof fn lemma_digits_seq_one(v: int)
    requires
        0 <= v < 10,
    ensures
        digits_seq(v, 1) =~= seq![digit_char(v)],
{
    lemma_fundamental_div_mod(v, 10);
    vstd::arithmetic::div_mod::lemma_basic_div(v, 10);
    assert(v % 10 == v);
    assert(digits_seq(v / 10, 0nat) =~= Seq::<char>::empty());
}

/// Parsing the offset part of a canonical string recovers the reference,
/// given the origin of its 100 km square.
proof fn lemma_offsets_round_trip(g: GridReference, oe: int, on: int)
    requires
        g.wf(),
        oe == g.easting as int - g.easting as int % 100_000,
        on == g.northing as int - g.northing as int % 100_000,
    ensures
        parse_offsets(offsets_spec(g), oe, on, g.system) == Ok::<GridReference, GridError>(g),
{
    let e = g.easting as int;
    let n = g.northing as int;
    let eoff = e % 100_000;
    let noff = n % 100_000;
    let p = g.precision;
    let m = p.spec_metres() as int;
    let h = half_width(p);
    let sc = digit_scale(p);
    lemma_pow10_values();
    lemma_mod_bound(e, 100_000);
    lemma_mod_bound(n, 100_000);
    let ve = eoff / sc;
    let vn = noff / sc;
    assert(sc * pow10(h) == 100_000);
    lemma_multiply_divide_lt(eoff, sc, pow10(h));
    lemma_multiply_divide_lt(noff, sc, pow10(h));
    let de = digits_seq(ve, h);
    let dn = digits_seq(vn, h);
    lemma_digits_seq_wf(ve, h);
    lemma_digits_seq_wf(vn, h);
    // the scaled easting half reconstructs the easting offset
    lemma_fundamental_div_mod(eoff, sc);
    lemma_fundamental_div_mod(noff, sc);
    assert(100_000 == sc * (100_000int / sc));
    lemma_mod_mod(e, sc, 100_000int / sc);
    lemma_mod_mod(n, sc, 100_000int / sc);
    if !(p is Km2) {
        assert(sc == m);
        assert(eoff % sc == 0);
        assert(sc * ve == eoff);
        lemma_mul_is_commutative(ve, sc);
        lemma_mul_is_commutative(vn, sc);
        let r = offsets_spec(g);
        assert(r == de + dn);
        assert(all_digits(r)) by {
            assert forall|k: int| 0 <= k < r.len() implies is_digit_char(#[trigger] r[k]) by {
                if k < h {
                    assert(r[k] == de[k]);
                } else {
                    assert(r[k] == dn[k - h]);
                }
            }
        }
        assert(r.len() == 2 * h);
        assert(r.len() % 2 == 0 && r.len() <= 10);
        assert((r.len() / 2) as int == h as int);
        assert(r.take(h as int) =~= de);
        assert(r.skip(h as int) =~= dn);
        lemma_digits_round_trip(ve, h);
        lemma_digits_round_trip(vn, h);
        assert(precision_of_half_width(h as int) == p);
        assert(oe + digits_val(r.take(h as int)) * sc == e);
        assert(on + digits_val(r.skip(h as int)) * sc == n);
    } else {
        let v1 = eoff / 10_000;
        let v2 = noff / 10_000;
        lemma_digits_seq_one(v1);
        lemma_digits_seq_one(v2);
        let te = (eoff % 10_000) / 2_000;
        let tn = (noff % 10_000) / 2_000;
        lemma_mod_bound(eoff, 10_000);
        lemma_mod_bound(noff, 10_000);
        lemma_multiply_divide_lt(eoff % 10_000, 2_000, 5);
        lemma_multiply_divide_lt(noff % 10_000, 2_000, 5);
        let ti = tetrad_of(eoff, noff);
        assert(ti == te + 5 * tn);
        assert(0 <= ti < 25);
        let r = offsets_spec(g);
        assert(r == de + dn + seq![tetrad_at(ti)]);
        assert(r.len() == 3);
        assert(r[0] == digit_char(v1) && r[1] == digit_char(v2) && r[2] == tetrad_at(ti));
        lemma_digit_char_val(v1);
        lemma_digit_char_val(v2);
        lemma_tetrad_class(ti);
        assert(!all_digits(r)) by {
            assert(!is_digit_char(r[2]));
        }
        lemma_tetrad_round_trip(ti);
        lemma_fundamental_div_mod_converse_mod(ti, 5, tn, te);
        lemma_fundamental_div_mod_converse_div(ti, 5, tn, te);
        // reconstruct the easting from its three graded parts
        lemma_fundamental_div_mod(eoff % 10_000, 2_000);
        lemma_fundamental_div_mod(noff % 10_000, 2_000);
        lemma_mod_mod(eoff, 2_000, 5);
        lemma_mod_mod(noff, 2_000, 5);
        lemma_mod_mod(e, 2_000, 50);
        lemma_mod_mod(n, 2_000, 50);
        assert(eoff % 2_000 == 0 && noff % 2_000 == 0);
        assert(oe + digit_val(r[0]) * 10_000 + (ti % 5) * 2_000 == e);
        assert(on + digit_val(r[1]) * 10_000 + (ti / 5) * 2_000 == n);
    }
}

/// No character of a canonical string is whitespace.
proof fn lemma_format_no_ws(g: GridReference)
    requires
        g.wf(),
    ensures
        forall|k: int| 0 <= k < format_spec(g).len() ==> !is_ws(#[trigger] format_spec(g)[k]),
{
    let e = g.easting as int;
    let n = g.northing as int;
    let s = format_spec(g);
    let off = offsets_spec(g);
    match g.system {
        System::Osgb => {
            lemma_multiply_divide_lt(e + 1_000_000, 500_000, 5);
            lemma_multiply_divide_lt(n + 500_000, 500_000, 5);
            lemma_mod_bound(e, 500_000);
            lemma_mod_bound(n, 500_000);
            lemma_multiply_divide_lt(e % 500_000, 100_000, 5);
            lemma_multiply_divide_lt(n % 500_000, 100_000, 5);
            let i = osgb_first_index(e, n);
            let j = osgb_second_index(e, n);
            lemma_letter_class(i);
            lemma_letter_class(j);
            assert(s[0] == letter_at(i) && s[1] == letter_at(j));
            assert forall|k: int| 0 <= k < s.len() implies !is_ws(#[trigger] s[k]) by {
                if k >= 2 {
                    assert(s[k] == off[k - 2]);
                    lemma_offsets_not_ws(g, k - 2);
                }
            }
        },
        System::Osi => {
            lemma_multiply_divide_lt(e, 100_000, 5);
            lemma_multiply_divide_lt(n, 100_000, 5);
            let i = osi_index(e, n);
            lemma_letter_class(i);
            assert(s[0] == letter_at(i));
            assert forall|k: int| 0 <= k < s.len() implies !is_ws(#[trigger] s[k]) by {
                if k >= 1 {
                    assert(s[k] == off[k - 1]);
                    lemma_offsets_not_ws(g, k - 1);
                }
            }
        },
    }
}

/// Round trip: parsing the canonical string of any well-formed reference in
/// its own system yields that reference back, exactly.
/// The OSGB half of the round-trip argument, on the stripped string.
#[verifier::rlimit(100)]
proof fn lemma_round_trip_osgb(g: GridReference)
    requires
        g.wf(),
        g.system == System::Osgb,
    ensures
        parse_stripped(format_spec(g), g.system) == Ok::<GridReference, GridError>(g),
{
    let e = g.easting as int;
    let n = g.northing as int;
    let s = format_spec(g);
    let off = offsets_spec(g);
    let p = g.precision;
    let h = half_width(p);
    let sc = digit_scale(p);
    lemma_pow10_values();
    lemma_mod_bound(e, 100_000);
    lemma_mod_bound(n, 100_000);
    let eoff = e % 100_000;
    let noff = n % 100_000;
    assert(sc * pow10(h) == 100_000);
    lemma_multiply_divide_lt(eoff, sc, pow10(h));
    lemma_multiply_divide_lt(noff, sc, pow10(h));
    lemma_digits_seq_wf(eoff / sc, h);
    lemma_digits_seq_wf(noff / sc, h);
    lemma_multiply_divide_lt(e + 1_000_000, 500_000, 5);
    vstd::arithmetic::div_mod::lemma_div_is_ordered(1_000_000, e + 1_000_000, 500_000);
    lemma_multiply_divide_lt(n + 500_000, 500_000, 5);
    vstd::arithmetic::div_mod::lemma_div_is_ordered(500_000, n + 500_000, 500_000);
    lemma_mod_bound(e, 500_000);
    lemma_mod_bound(n, 500_000);
    lemma_multiply_divide_lt(e % 500_000, 100_000, 5);
    lemma_multiply_divide_lt(n % 500_000, 100_000, 5);
    let c1 = (e + 1_000_000) / 500_000;
    let r1 = (n + 500_000) / 500_000;
    let c2 = (e % 500_000) / 100_000;
    let r2 = (n % 500_000) / 100_000;
    let i = osgb_first_index(e, n);
    let j = osgb_second_index(e, n);
    assert(0 <= i < 25 && 0 <= j < 25);
    lemma_letter_class(i);
    lemma_letter_class(j);
    assert(s[0] == letter_at(i) && s[1] == letter_at(j));
    assert(s.len() == 2 + off.len());
    lemma_letter_round_trip(i);
    lemma_letter_round_trip(j);
    lemma_fundamental_div_mod_converse_mod(i, 5, r1, c1);
    lemma_fundamental_div_mod_converse_div(i, 5, r1, c1);
    lemma_fundamental_div_mod_converse_mod(j, 5, r2, c2);
    lemma_fundamental_div_mod_converse_div(j, 5, r2, c2);
    // the two letters decompose the coordinates down to 100 km
    lemma_fundamental_div_mod(e + 1_000_000, 500_000);
    lemma_fundamental_div_mod(n + 500_000, 500_000);
    lemma_mod_multiples_vanish(2, e, 500_000);
    lemma_mod_multiples_vanish(1, n, 500_000);
    lemma_fundamental_div_mod(e % 500_000, 100_000);
    lemma_fundamental_div_mod(n % 500_000, 100_000);
    lemma_mod_mod(e, 100_000, 5);
    lemma_mod_mod(n, 100_000, 5);
    let oe = (i % 5 - 2) * 500_000 + (j % 5) * 100_000;
    let on = (i / 5 - 1) * 500_000 + (j / 5) * 100_000;
    assert(oe == e - eoff);
    assert(on == n - noff);
    assert(s.skip(2) =~= off);
    lemma_offsets_round_trip(g, oe, on);
}

/// The OSI half of the round-trip argument, on the stripped string.
#[verifier::rlimit(100)]
proof fn lemma_round_trip_osi(g: GridReference)
    requires
        g.wf(),
        g.system == System::Osi,
    ensures
        parse_stripped(format_spec(g), g.system) == Ok::<GridReference, GridError>(g),
{
    let e = g.easting as int;
    let n = g.northing as int;
    let s = format_spec(g);
    let off = offsets_spec(g);
    let p = g.precision;
    let h = half_width(p);
    let sc = digit_scale(p);
    lemma_pow10_values();
    lemma_mod_bound(e, 100_000);
    lemma_mod_bound(n, 100_000);
    let eoff = e % 100_000;
    let noff = n % 100_000;
    assert(sc * pow10(h) == 100_000);
    lemma_multiply_divide_lt(eoff, sc, pow10(h));
    lemma_multiply_divide_lt(noff, sc, pow10(h));
    lemma_digits_seq_wf(eoff / sc, h);
    lemma_digits_seq_wf(noff / sc, h);
    lemma_multiply_divide_lt(e, 100_000, 5);
    lemma_multiply_divide_lt(n, 100_000, 5);
    let c1 = e / 100_000;
    let r1 = n / 100_000;
    let i = osi_index(e, n);
    assert(0 <= i < 25);
    lemma_letter_class(i);
    assert(s[0] == letter_at(i));
    assert(s.len() == 1 + off.len());
    lemma_letter_round_trip(i);
    lemma_fundamental_div_mod_converse_mod(i, 5, r1, c1);
    lemma_fundamental_div_mod_converse_div(i, 5, r1, c1);
    lemma_fundamental_div_mod(e, 100_000);
    lemma_fundamental_div_mod(n, 100_000);
    let oe = (i % 5) * 100_000;
    let on = (i / 5) * 100_000;
    assert(oe == e - eoff);
    assert(on == n - noff);
    assert(s.skip(1) =~= off);
    lemma_offsets_round_trip(g, oe, on);
}

/// Round trip: parsing the canonical string of any well-formed reference in
/// its own system yields that reference back, exactly.
pub proof fn lemma_format_parse_round_trip(g: GridReference)
    requires
        g.wf(),
    ensures
        parse_spec(format_spec(g), g.system) == Ok::<GridReference, GridError>(g),
{
    lemma_format_no_ws(g);
    lemma_strip_ws_id(format_spec(g));
    match g.system {
        System::Osgb => lemma_round_trip_osgb(g),
        System::Osi => lemma_round_trip_osi(g),
    }
}

/// Round trip, stated on parsing: any reference a parse produced formats
/// back to a string that parses to the very same reference.
pub proof fn lemma_parse_format_round_trip(s: Seq<char>, sys: System)
    requires
        parse_spec(s, sys) is Ok,
    ensures
        parse_spec(format_spec(parse_spec(s, sys).unwrap()), sys) == parse_spec(s, sys),
{
    crate::reference::lemma_parse_spec_wf(s, sys);
    lemma_format_parse_round_trip(parse_spec(s, sys).unwrap());
}

/// Precision-identity: recalculating a reference to its own precision is
/// the identity, exactly.
pub proof fn lemma_recalculate_identity(g: GridReference)
    requires
        g.wf(),
    ensures
        recalc_spec(g, g.precision) == g,
{
}

/// Flooring to a coarse granularity absorbs an earlier floor to any finer
/// granularity that divides it.
proof fn lemma_floor_floor(x: int, a: int, b: int)
    requires
        x >= 0,
        a > 0,
        b > 0,
        b % a == 0,
    ensures
        (x - x % a) - (x - x % a) % b == x - x % b,
{
    let q = x / b;
    let r = x % b;
    lemma_mod_bound(x, b);
    lemma_fundamental_div_mod(x, b);
    let k = b / a;
    lemma_fundamental_div_mod(b, a);
    assert(b == a * k);
    assert(b * q == a * (k * q)) by {
        lemma_mul_is_associative(a, k, q);
    }
    lemma_mod_multiples_vanish(k * q, r, a);
    assert(x % a == r % a);
    lemma_mod_bound(r, a);
    assert(r % a <= r) by {
        if r < a {
            lemma_small_mod(r as nat, a as nat);
        }
    }
    let fl = x - x % a;
    assert(fl == b * q + (r - r % a));
    lemma_mod_multiples_vanish(q, r - r % a, b);
    lemma_small_mod((r - r % a) as nat, b as nat);
    assert(fl % b == r - r % a);
}

/// Every supported granularity divides every coarser supported granularity.
proof fn lemma_supported_divides(a: int, b: int)
    requires
        a == 1 || a == 10 || a == 100 || a == 1_000 || a == 2_000 || a == 10_000 || a == 100_000,
        b == 1 || b == 10 || b == 100 || b == 1_000 || b == 2_000 || b == 10_000 || b == 100_000,
        a < b,
    ensures
        b % a == 0,
{
    if a == 1 {
        vstd::arithmetic::div_mod::lemma_mod_multiples_basic(b, 1);
    } else if a == 10 {
        if b == 100 {
            assert(100int % 10 == 0);
        } else if b == 1_000 {
            assert(1_000int % 10 == 0);
        } else if b == 2_000 {
            assert(2_000int % 10 == 0);
        } else if b == 10_000 {
            assert(10_000int % 10 == 0);
        } else {
            assert(100_000int % 10 == 0);
        }
    } else if a == 100 {
        if b == 1_000 {
            assert(1_000int % 100 == 0);
        } else if b == 2_000 {
            assert(2_000int % 100 == 0);
        } else if b == 10_000 {
            assert(10_000int % 100 == 0);
        } else {
            assert(100_000int % 100 == 0);
        }
    } else if a == 1_000 {
        if b == 2_000 {
            assert(2_000int % 1_000 == 0);
        } else if b == 10_000 {
            assert(10_000int % 1_000 == 0);
        } else {
            assert(100_000int % 1_000 == 0);
        }
    } else if a == 2_000 {
        if b == 10_000 {
            assert(10_000int % 2_000 == 0);
        } else {
            assert(100_000int % 2_000 == 0);
        }
    } else {
        assert(100_000int % 10_000 == 0);
    }
}

/// Coarsening composes: recalculating first to a finer granularity and then
/// to a coarser one lands exactly where direct recalculation to the coarse
/// granularity does. Every supported finer granularity divides every
/// coarser one, so the intermediate step never shifts a boundary.
pub proof fn lemma_recalculate_compose(g: GridReference, q: Precision, p: Precision)
    requires
        g.wf(),
        q.spec_metres() <= p.spec_metres(),
    ensures
        recalc_spec(recalc_spec(g, q), p) == recalc_spec(g, p),
{
    let m0 = g.precision.spec_metres() as int;
    let mq = q.spec_metres() as int;
    let mp = p.spec_metres() as int;
    let e = g.easting as int;
    let n = g.northing as int;
    crate::reference::lemma_recalc_wf(g, q);
    if mq <= m0 {
        // the inner step is the identity
    } else {
        let g1 = recalc_spec(g, q);
        assert(g1.precision == q);
        if mp == mq {
            assert(p == q);
        } else {
            assert(mq == 1 || mq == 10 || mq == 100 || mq == 1_000 || mq == 2_000 || mq == 10_000
                || mq == 100_000);
            assert(mp == 1 || mp == 10 || mp == 100 || mp == 1_000 || mp == 2_000 || mp == 10_000
                || mp == 100_000);
            lemma_supported_divides(mq, mp);
            assert(mp % mq == 0);
            lemma_mod_bound(e, mq);
            lemma_mod_bound(n, mq);
            lemma_mod_bound(e, mp);
            lemma_mod_bound(n, mp);
            assert(e % mq <= e) by {
                if e < mq {
                    lemma_small_mod(e as nat, mq as nat);
                }
            }
            assert(n % mq <= n) by {
                if n < mq {
                    lemma_small_mod(n as nat, mq as nat);
                }
            }
            assert(g1.easting as int == e - e % mq);
            assert(g1.northing as int == n - n % mq);
            assert(e % mp <= e) by {
                if e < mp {
                    lemma_small_mod(e as nat, mp as nat);
                }
            }
            assert(n % mp <= n) by {
                if n < mp {
                    lemma_small_mod(n as nat, mp as nat);
                }
            }
            lemma_floor_floor(e, mq, mp);
            lemma_floor_floor(n, mq, mp);
            assert(recalc_spec(g1, p).easting as int == e - e % mp);
            assert(recalc_spec(g1, p).northing as int == n - n % mp);
        }
    }
}

} // verus!
