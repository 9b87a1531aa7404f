//! Recognition of decimal number text.
//!
//! A number is written as an optional sign, digits with at most one point
//! among them, and an optional exponent; the words `inf`, `infinity` and
//! `nan`, in either case, are numbers too. Besides saying whether a text is a
//! number, the scan reports how many digits stand before the point and how
//! many after it.

use crate::text::{is_digit, is_digit_char, is_sign};
use vstd::prelude::*;

verus! {

/// How many digits stand in a row in `s`, starting at `from`.
pub open spec fn digit_run(s: Seq<char>, from: int) -> nat
    decreases s.len() - from,
{
    if 0 <= from < s.len() && is_digit(s[from]) {
        1 + digit_run(s, from + 1)
    } else {
        0
    }
}

/// Whether `c` is the lower-case letter `letter`, or its upper-case form.
pub open spec fn is_letter(c: char, letter: char) -> bool {
    c == letter || c as u32 + 32 == letter as u32
}

/// Whether `s`, from `from` to its end, spells `word` in either case.
pub open spec fn spells(s: Seq<char>, from: int, word: Seq<char>) -> bool {
    &&& s.len() - from == word.len()
    &&& forall|i: int| 0 <= i < word.len() ==> is_letter(#[trigger] s[from + i], word[i])
}

/// The short word for infinity.
pub open spec fn word_inf() -> Seq<char> {
    seq!['i', 'n', 'f']
}

/// The long word for infinity.
pub open spec fn word_infinity() -> Seq<char> {
    seq!['i', 'n', 'f', 'i', 'n', 'i', 't', 'y']
}

/// The word for a value that is not a number.
pub open spec fn word_nan() -> Seq<char> {
    seq!['n', 'a', 'n']
}

/// Whether `s`, from `from` on, is one of the words for a value that is not
/// a finite number.
pub open spec fn is_special(s: Seq<char>, from: int) -> bool {
    spells(s, from, word_inf()) || spells(s, from, word_infinity()) || spells(s, from, word_nan())
}

/// Where the body of `s` begins: behind its sign, if it has one.
pub open spec fn body_start(s: Seq<char>) -> int {
    if s.len() > 0 && is_sign(s[0]) {
        1
    } else {
        0
    }
}

/// Whether `s`, from `at` to its end, is an exponent: the letter `e`, an
/// optional sign and at least one digit.
pub open spec fn is_exponent(s: Seq<char>, at: int) -> bool {
    let digits = if at + 1 < s.len() && is_sign(s[at + 1]) {
        at + 2
    } else {
        at + 1
    };
    &&& 0 <= at < s.len()
    &&& is_letter(s[at], 'e')
    &&& digit_run(s, digits) > 0
    &&& digits + digit_run(s, digits) == s.len()
}

/// The digits before and after the point of the number that `s` spells out
/// in digits; `None` when `s` is no such number.
pub open spec fn number_shape(s: Seq<char>) -> Option<(nat, nat)> {
    let start = body_start(s);
    let whole = digit_run(s, start);
    let point = start + whole;
    let has_point = point < s.len() && s[point] == '.';
    let fraction = if has_point {
        digit_run(s, point + 1)
    } else {
        0
    };
    let end = if has_point {
        point + 1 + fraction
    } else {
        point
    };
    if whole + fraction == 0 {
        None
    } else if end == s.len() || is_exponent(s, end) {
        Some((whole, fraction))
    } else {
        None
    }
}

/// The digits before and after the point of the number that `s` denotes;
/// `None` when `s` is not a number. The words for infinity and for
/// not-a-number have no digits.
pub open spec fn decimal_digits(s: Seq<char>) -> Option<(nat, nat)> {
    if number_shape(s) is Some {
        number_shape(s)
    } else if is_special(s, body_start(s)) {
        Some((0, 0))
    } else {
        None
    }
}

/// Whether `s` is accepted as a number.
pub open spec fn is_decimal_text(s: Seq<char>) -> bool {
    decimal_digits(s) is Some
}

/// Counts the digits that stand in a row from `from` on.
pub(crate) fn count_digits(s: &Vec<char>, from: usize) -> (n: usize)
    requires
        from <= s.len(),
    ensures
        n == digit_run(s@, from as int),
        from + n <= s.len(),
{
    let mut i: usize = from;
    while i < s.len() && is_digit_char(s[i])
        invariant
            from <= i <= s.len(),
            digit_run(s@, from as int) == (i - from) + digit_run(s@, i as int),
        decreases s.len() - i,
    {
        i = i + 1;
    }
    i - from
}

/// Whether `c` is the given lower-case letter or its upper-case form.
fn letter_matches(c: char, letter: char) -> (b: bool)
    requires
        'a' <= letter <= 'z',
    ensures
        b == is_letter(c, letter),
{
    c == letter || c as u32 + 32 == letter as u32
}

/// Whether `s`, from `from` to its end, spells `word` in either case.
fn spells_word(s: &Vec<char>, from: usize, word: &[char]) -> (b: bool)
    requires
        from <= s.len(),
        forall|i: int| 0 <= i < word.len() ==> 'a' <= #[trigger] word[i] <= 'z',
    ensures
        b == spells(s@, from as int, word@),
{
    if s.len() - from != word.len() {
        return false;
    }
    let mut i: usize = 0;
    while i < word.len()
        invariant
            from <= s.len(),
            s.len() - from == word.len(),
            0 <= i <= word.len(),
            forall|j: int| 0 <= j < word.len() ==> 'a' <= #[trigger] word[j] <= 'z',
            forall|j: int| 0 <= j < i ==> is_letter(#[trigger] s@[from + j], word[j]),
        decreases word.len() - i,
    {
        if !letter_matches(s[from + i], word[i]) {
            return false;
        }
        i = i + 1;
    }
    true
}

/// Whether `s`, from `from` on, is a word for infinity or for not a number.
fn is_special_word(s: &Vec<char>, from: usize) -> (b: bool)
    requires
        from <= s.len(),
    ensures
        b == is_special(s@, from as int),
{
    let inf: [char; 3] = ['i', 'n', 'f'];
    let infinity: [char; 8] = ['i', 'n', 'f', 'i', 'n', 'i', 't', 'y'];
    let nan: [char; 3] = ['n', 'a', 'n'];
    assert(inf@ =~= word_inf());
    assert(infinity@ =~= word_infinity());
    assert(nan@ =~= word_nan());
    spells_word(s, from, inf.as_slice()) || spells_word(s, from, infinity.as_slice())
        || spells_word(s, from, nan.as_slice())
}

/// Whether `s`, from `at` to its end, is an exponent.
fn is_exponent_at(s: &Vec<char>, at: usize) -> (b: bool)
    requires
        at < s.len(),
    ensures
        b == is_exponent(s@, at as int),
{
    if !letter_matches(s[at], 'e') {
        return false;
    }
    let digits: usize = if at + 1 < s.len() && (s[at + 1] == '+' || s[at + 1] == '-') {
        at + 2
    } else {
        at + 1
    };
    let n = count_digits(s, digits);
    n > 0 && digits + n == s.len()
}

/// Scans `s` as a number and counts the digits on either side of its point.
pub fn scan_decimal(s: &Vec<char>) -> (r: Option<(usize, usize)>)
    ensures
        r matches Some((whole, fraction)) ==> decimal_digits(s@) == Some(
            (whole as nat, fraction as nat),
        ),
        r is None ==> decimal_digits(s@) is None,
{
    let start: usize = if s.len() > 0 && (s[0] == '+' || s[0] == '-') {
        1
    } else {
        0
    };
    let whole = count_digits(s, start);
    let point = start + whole;
    let has_point = point < s.len() && s[point] == '.';
    let fraction = if has_point {
        count_digits(s, point + 1)
    } else {
        0
    };
    let end = if has_point {
        point + 1 + fraction
    } else {
        point
    };
    if (whole != 0 || fraction != 0) && (end == s.len() || is_exponent_at(s, end)) {
        Some((whole, fraction))
    } else if is_special_word(s, start) {
        Some((0, 0))
    } else {
        None
    }
}

} // verus!
