//! The letter-square tables.
//!
//! Both grid systems name squares with letters drawn from a 5x5 grid whose
//! origin is the bottom-left square and whose index is `column + 5 * row`.
//! The main table excludes the letter I; the tetrad table (used by the 2 km
//! granularity) excludes the letter O and runs column-first from the
//! bottom-left.

use vstd::prelude::*;

verus! {

/// The main 5x5 letter grid, bottom row `V W X Y Z`, top row `A B C D E`.
pub open spec fn letter_at(i: int) -> char {
    if i == 0 {
        'V'
    } else if i == 1 {
        'W'
    } else if i == 2 {
        'X'
    } else if i == 3 {
        'Y'
    } else if i == 4 {
        'Z'
    } else if i == 5 {
        'Q'
    } else if i == 6 {
        'R'
    } else if i == 7 {
        'S'
    } else if i == 8 {
        'T'
    } else if i == 9 {
        'U'
    } else if i == 10 {
        'L'
    } else if i == 11 {
        'M'
    } else if i == 12 {
        'N'
    } else if i == 13 {
        'O'
    } else if i == 14 {
        'P'
    } else if i == 15 {
        'F'
    } else if i == 16 {
        'G'
    } else if i == 17 {
        'H'
    } else if i == 18 {
        'J'
    } else if i == 19 {
        'K'
    } else if i == 20 {
        'A'
    } else if i == 21 {
        'B'
    } else if i == 22 {
        'C'
    } else if i == 23 {
        'D'
    } else {
        'E'
    }
}

/// The inverse of [`letter_at`], case-insensitive; letters outside the table
/// (among them I) have no index.
pub open spec fn letter_index(c: char) -> Option<int> {
    if c == 'V' || c == 'v' {
        Some(0int)
    } else if c == 'W' || c == 'w' {
        Some(1int)
    } else if c == 'X' || c == 'x' {
        Some(2int)
    } else if c == 'Y' || c == 'y' {
        Some(3int)
    } else if c == 'Z' || c == 'z' {
        Some(4int)
    } else if c == 'Q' || c == 'q' {
        Some(5int)
    } else if c == 'R' || c == 'r' {
        Some(6int)
    } else if c == 'S' || c == 's' {
        Some(7int)
    } else if c == 'T' || c == 't' {
        Some(8int)
    } else if c == 'U' || c == 'u' {
        Some(9int)
    } else if c == 'L' || c == 'l' {
        Some(10int)
    } else if c == 'M' || c == 'm' {
        Some(11int)
    } else if c == 'N' || c == 'n' {
        Some(12int)
    } else if c == 'O' || c == 'o' {
        Some(13int)
    } else if c == 'P' || c == 'p' {
        Some(14int)
    } else if c == 'F' || c == 'f' {
        Some(15int)
    } else if c == 'G' || c == 'g' {
        Some(16int)
    } else if c == 'H' || c == 'h' {
        Some(17int)
    } else if c == 'J' || c == 'j' {
        Some(18int)
    } else if c == 'K' || c == 'k' {
        Some(19int)
    } else if c == 'A' || c == 'a' {
        Some(20int)
    } else if c == 'B' || c == 'b' {
        Some(21int)
    } else if c == 'C' || c == 'c' {
        Some(22int)
    } else if c == 'D' || c == 'd' {
        Some(23int)
    } else if c == 'E' || c == 'e' {
        Some(24int)
    } else {
        None
    }
}

/// The tetrad 5x5 letter grid, bottom row `A F K Q V`, right column `V W X Y Z`.
pub open spec fn tetrad_at(i: int) -> char {
    if i == 0 {
        'A'
    } else if i == 1 {
        'F'
    } else if i == 2 {
        'K'
    } else if i == 3 {
        'Q'
    } else if i == 4 {
        'V'
    } else if i == 5 {
        'B'
    } else if i == 6 {
        'G'
    } else if i == 7 {
        'L'
    } else if i == 8 {
        'R'
    } else if i == 9 {
        'W'
    } else if i == 10 {
        'C'
    } else if i == 11 {
        'H'
    } else if i == 12 {
        'M'
    } else if i == 13 {
        'S'
    } else if i == 14 {
        'X'
    } else if i == 15 {
        'D'
    } else if i == 16 {
        'I'
    } else if i == 17 {
        'N'
    } else if i == 18 {
        'T'
    } else if i == 19 {
        'Y'
    } else if i == 20 {
        'E'
    } else if i == 21 {
        'J'
    } else if i == 22 {
        'P'
    } else if i == 23 {
        'U'
    } else {
        'Z'
    }
}

/// The inverse of [`tetrad_at`], case-insensitive; letters outside the table
/// (among them O) have no index.
pub open spec fn tetrad_index(c: char) -> Option<int> {
    if c == 'A' || c == 'a' {
        Some(0int)
    } else if c == 'F' || c == 'f' {
        Some(1int)
    } else if c == 'K' || c == 'k' {
        Some(2int)
    } else if c == 'Q' || c == 'q' {
        Some(3int)
    } else if c == 'V' || c == 'v' {
        Some(4int)
    } else if c == 'B' || c == 'b' {
        Some(5int)
    } else if c == 'G' || c == 'g' {
        Some(6int)
    } else if c == 'L' || c == 'l' {
        Some(7int)
    } else if c == 'R' || c == 'r' {
        Some(8int)
    } else if c == 'W' || c == 'w' {
        Some(9int)
    } else if c == 'C' || c == 'c' {
        Some(10int)
    } else if c == 'H' || c == 'h' {
        Some(11int)
    } else if c == 'M' || c == 'm' {
        Some(12int)
    } else if c == 'S' || c == 's' {
        Some(13int)
    } else if c == 'X' || c == 'x' {
        Some(14int)
    } else if c == 'D' || c == 'd' {
        Some(15int)
    } else if c == 'I' || c == 'i' {
        Some(16int)
    } else if c == 'N' || c == 'n' {
        Some(17int)
    } else if c == 'T' || c == 't' {
        Some(18int)
    } else if c == 'Y' || c == 'y' {
        Some(19int)
    } else if c == 'E' || c == 'e' {
        Some(20int)
    } else if c == 'J' || c == 'j' {
        Some(21int)
    } else if c == 'P' || c == 'p' {
        Some(22int)
    } else if c == 'U' || c == 'u' {
        Some(23int)
    } else if c == 'Z' || c == 'z' {
        Some(24int)
    } else {
        None
    }
}

/// Every table letter reads back as its own index.
pub proof fn lemma_letter_round_trip(i: int)
    requires
        0 <= i < 25,
    ensures
        letter_index(letter_at(i)) == Some(i),
{
}

/// Every tetrad letter reads back as its own index.
pub proof fn lemma_tetrad_round_trip(i: int)
    requires
        0 <= i < 25,
    ensures
        tetrad_index(tetrad_at(i)) == Some(i),
{
}

/// A main-table index, when there is one, lies in the table.
pub proof fn lemma_letter_index_range(c: char)
    ensures
        letter_index(c) is Some ==> 0 <= letter_index(c).unwrap() < 25,
{
}

/// A tetrad-table index, when there is one, lies in the table.
pub proof fn lemma_tetrad_index_range(c: char)
    ensures
        tetrad_index(c) is Some ==> 0 <= tetrad_index(c).unwrap() < 25,
{
}

/// Looks a main-table index up.
pub fn letter_char(i: u8) -> (c: char)
    requires
        i < 25,
    ensures
        c == letter_at(i as int),
{
    match i {
        0 => 'V',
        1 => 'W',
        2 => 'X',
        3 => 'Y',
        4 => 'Z',
        5 => 'Q',
        6 => 'R',
        7 => 'S',
        8 => 'T',
        9 => 'U',
        10 => 'L',
        11 => 'M',
        12 => 'N',
        13 => 'O',
        14 => 'P',
        15 => 'F',
        16 => 'G',
        17 => 'H',
        18 => 'J',
        19 => 'K',
        20 => 'A',
        21 => 'B',
        22 => 'C',
        23 => 'D',
        _ => 'E',
    }
}

/// Looks a letter up in the main table, case-insensitively.
pub fn letter_lookup(c: char) -> (r: Option<u8>)
    ensures
        r is Some <==> letter_index(c) is Some,
        r is Some ==> letter_index(c) == Some(r.unwrap() as int) && r.unwrap() < 25,
{
    match c {
        'V' | 'v' => Some(0),
        'W' | 'w' => Some(1),
        'X' | 'x' => Some(2),
        'Y' | 'y' => Some(3),
        'Z' | 'z' => Some(4),
        'Q' | 'q' => Some(5),
        'R' | 'r' => Some(6),
        'S' | 's' => Some(7),
        'T' | 't' => Some(8),
        'U' | 'u' => Some(9),
        'L' | 'l' => Some(10),
        'M' | 'm' => Some(11),
        'N' | 'n' => Some(12),
        'O' | 'o' => Some(13),
        'P' | 'p' => Some(14),
        'F' | 'f' => Some(15),
        'G' | 'g' => Some(16),
        'H' | 'h' => Some(17),
        'J' | 'j' => Some(18),
        'K' | 'k' => Some(19),
        'A' | 'a' => Some(20),
        'B' | 'b' => Some(21),
        'C' | 'c' => Some(22),
        'D' | 'd' => Some(23),
        'E' | 'e' => Some(24),
        _ => None,
    }
}

/// Looks a tetrad-table index up.
pub fn tetrad_char(i: u8) -> (c: char)
    requires
        i < 25,
    ensures
        c == tetrad_at(i as int),
{
    match i {
        0 => 'A',
        1 => 'F',
        2 => 'K',
        3 => 'Q',
        4 => 'V',
        5 => 'B',
        6 => 'G',
        7 => 'L',
        8 => 'R',
        9 => 'W',
        10 => 'C',
        11 => 'H',
        12 => 'M',
        13 => 'S',
        14 => 'X',
        15 => 'D',
        16 => 'I',
        17 => 'N',
        18 => 'T',
        19 => 'Y',
        20 => 'E',
        21 => 'J',
        22 => 'P',
        23 => 'U',
        _ => 'Z',
    }
}

/// Looks a letter up in the tetrad table, case-insensitively.
pub fn tetrad_lookup(c: char) -> (r: Option<u8>)
    ensures
        r is Some <==> tetrad_index(c) is Some,
        r is Some ==> tetrad_index(c) == Some(r.unwrap() as int) && r.unwrap() < 25,
{
    match c {
        'A' | 'a' => Some(0),
        'F' | 'f' => Some(1),
        'K' | 'k' => Some(2),
        'Q' | 'q' => Some(3),
        'V' | 'v' => Some(4),
        'B' | 'b' => Some(5),
        'G' | 'g' => Some(6),
        'L' | 'l' => Some(7),
        'R' | 'r' => Some(8),
        'W' | 'w' => Some(9),
        'C' | 'c' => Some(10),
        'H' | 'h' => Some(11),
        'M' | 'm' => Some(12),
        'S' | 's' => Some(13),
        'X' | 'x' => Some(14),
        'D' | 'd' => Some(15),
        'I' | 'i' => Some(16),
        'N' | 'n' => Some(17),
        'T' | 't' => Some(18),
        'Y' | 'y' => Some(19),
        'E' | 'e' => Some(20),
        'J' | 'j' => Some(21),
        'P' | 'p' => Some(22),
        'U' | 'u' => Some(23),
        'Z' | 'z' => Some(24),
        _ => None,
    }
}

} // verus!
