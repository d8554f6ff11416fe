//! Character-level helpers: whitespace stripping and decimal digit runs.

use vstd::prelude::*;

verus! {

/// Whether a character counts as whitespace for the parser.
pub open spec fn is_ws(c: char) -> bool {
    c == ' ' || c == '\t' || c == '\n' || c == '\r'
}

/// Whether a character is a decimal digit.
pub open spec fn is_digit_char(c: char) -> bool {
    48 <= c as u32 <= 57
}

/// The numeric value of a decimal digit character.
pub open spec fn digit_val(c: char) -> int {
    c as u32 - 48
}

/// The character for a single decimal digit.
pub open spec fn digit_char(d: int) -> char {
    if d == 0 {
        '0'
    } else if d == 1 {
        '1'
    } else if d == 2 {
        '2'
    } else if d == 3 {
        '3'
    } else if d == 4 {
        '4'
    } else if d == 5 {
        '5'
    } else if d == 6 {
        '6'
    } else if d == 7 {
        '7'
    } else if d == 8 {
        '8'
    } else {
        '9'
    }
}

/// Whether every character of a sequence is a decimal digit.
pub open spec fn all_digits(s: Seq<char>) -> bool {
    forall|i: int| 0 <= i < s.len() ==> is_digit_char(#[trigger] s[i])
}

/// The value of a digit run read as a decimal number.
pub open spec fn digits_val(s: Seq<char>) -> int
    decreases s.len(),
{
    if s.len() == 0 {
        0
    } else {
        digits_val(s.drop_last()) * 10 + digit_val(s.last())
    }
}

/// The canonical digit run of width `w` for a value, zero-padded.
pub open spec fn digits_seq(n: int, w: nat) -> Seq<char>
    decreases w,
{
    if w == 0 {
        Seq::empty()
    } else {
        digits_seq(n / 10, (w - 1) as nat) + seq![digit_char(n % 10)]
    }
}

/// Ten to the power of `w`.
pub open spec fn pow10(w: nat) -> int
    decreases w,
{
    if w == 0 {
        1
    } else {
        10 * pow10((w - 1) as nat)
    }
}

/// The concrete powers of ten that digit-run widths use.
pub proof fn lemma_pow10_values()
    ensures
        pow10(0) == 1,
        pow10(1) == 10,
        pow10(2) == 100,
        pow10(3) == 1_000,
        pow10(4) == 10_000,
        pow10(5) == 100_000,
{
    assert(pow10(1) == 10 * pow10(0));
    assert(pow10(2) == 10 * pow10(1));
    assert(pow10(3) == 10 * pow10(2));
    assert(pow10(4) == 10 * pow10(3));
    assert(pow10(5) == 10 * pow10(4));
}

/// Digit characters carry their own value.
pub proof fn lemma_digit_char_val(d: int)
    requires
        0 <= d < 10,
    ensures
        is_digit_char(digit_char(d)),
        digit_val(digit_char(d)) == d,
{
}

/// A canonical digit run has its stated width and holds digits only.
pub proof fn lemma_digits_seq_wf(n: int, w: nat)
    requires
        n >= 0,
    ensures
        digits_seq(n, w).len() == w,
        all_digits(digits_seq(n, w)),
    decreases w,
{
    if w > 0 {
        lemma_digits_seq_wf(n / 10, (w - 1) as nat);
        lemma_digit_char_val(n % 10);
        assert forall|i: int| 0 <= i < digits_seq(n, w).len() implies is_digit_char(
            #[trigger] digits_seq(n, w)[i],
        ) by {
            if i < w - 1 {
                assert(digits_seq(n, w)[i] == digits_seq(n / 10, (w - 1) as nat)[i]);
            } else {
                assert(digits_seq(n, w)[i] == digit_char(n % 10));
            }
        }
    }
}

/// Reading a canonical digit run back yields the value it was built from.
pub proof fn lemma_digits_round_trip(n: int, w: nat)
    requires
        0 <= n < pow10(w),
    ensures
        digits_val(digits_seq(n, w)) == n,
    decreases w,
{
    if w == 0 {
        assert(digits_seq(n, w) == Seq::<char>::empty());
    } else {
        let prefix = digits_seq(n / 10, (w - 1) as nat);
        let s = digits_seq(n, w);
        lemma_digits_seq_wf(n / 10, (w - 1) as nat);
        assert(s.drop_last() =~= prefix);
        assert(s.last() == digit_char(n % 10));
        lemma_digit_char_val(n % 10);
        lemma_digits_round_trip(n / 10, (w - 1) as nat);
    }
}

/// A digit run's value is bounded by the power of ten of its length.
pub proof fn lemma_digits_val_bound(s: Seq<char>)
    requires
        all_digits(s),
    ensures
        0 <= digits_val(s) < pow10(s.len()),
    decreases s.len(),
{
    if s.len() > 0 {
        assert(all_digits(s.drop_last()));
        lemma_digits_val_bound(s.drop_last());
        assert(is_digit_char(s.last()));
    }
}

/// The sequence with every whitespace character removed.
pub open spec fn strip_ws(s: Seq<char>) -> Seq<char> {
    s.filter(|c: char| !is_ws(c))
}

/// Stripping distributes over appending one character.
pub proof fn lemma_strip_ws_push(s: Seq<char>, c: char)
    ensures
        strip_ws(s.push(c)) == if is_ws(c) {
            strip_ws(s)
        } else {
            strip_ws(s).push(c)
        },
{
    reveal(Seq::filter);
    assert(s.push(c).drop_last() =~= s);
    assert(s.push(c).last() == c);
}

/// A sequence without whitespace strips to itself.
pub proof fn lemma_strip_ws_id(s: Seq<char>)
    requires
        forall|i: int| 0 <= i < s.len() ==> !is_ws(#[trigger] s[i]),
    ensures
        strip_ws(s) == s,
    decreases s.len(),
{
    reveal(Seq::filter);
    if s.len() > 0 {
        assert(forall|i: int|
            0 <= i < s.drop_last().len() ==> !is_ws(#[trigger] s.drop_last()[i]));
        lemma_strip_ws_id(s.drop_last());
        assert(!is_ws(s.last()));
        assert(strip_ws(s) == strip_ws(s.drop_last()).push(s.last()));
        assert(s.drop_last().push(s.last()) =~= s);
    }
}

/// Whether a character is whitespace that the parser strips.
pub fn is_ws_char(c: char) -> (r: bool)
    ensures
        r == is_ws(c),
{
    c == ' ' || c == '\t' || c == '\n' || c == '\r'
}

/// Relies on `core::iter::Iterator::collect`: collecting an iterator of
/// characters into a `String` concatenates exactly those characters.
#[verifier::external_body]
pub fn chars_to_string(v: &Vec<char>) -> (r: String)
    ensures
        r@ == v@,
{
    v.iter().collect()
}

} // verus!
