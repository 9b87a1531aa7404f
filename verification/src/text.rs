//! Character-level reading of text: decimal integers, surrounding white
//! space, and the place of a character.
//!
//! The validation engine and the credential check both need to know whether a
//! piece of text denotes an integer of a given width. The accepted notation is
//! the usual one: an optional sign followed by one or more ASCII digits, with
//! nothing before or after.

use vstd::prelude::*;

verus! {

/// The characters of `s`, in order.
pub fn chars_of(s: &str) -> (v: Vec<char>)
    ensures
        v@ == s@,
{
    let mut v: Vec<char> = Vec::new();
    for c in it: s.chars()
        invariant
            v@ == it.seq().take(it.index() as int),
            it.seq() == s@,
    {
        v.push(c);
    }
    v
}

/// Whether `c` is one of the ten ASCII digits.
pub open spec fn is_digit(c: char) -> bool {
    '0' <= c && c <= '9'
}

/// Whether `c` is a plus or a minus sign.
pub open spec fn is_sign(c: char) -> bool {
    c == '+' || c == '-'
}

/// The value of one decimal digit; zero for any other character.
pub open spec fn digit_value(c: char) -> nat {
    if is_digit(c) {
        (c as u32 - '0' as u32) as nat
    } else {
        0
    }
}

/// Whether `s` holds digits only.
pub open spec fn all_digits(s: Seq<char>) -> bool {
    forall|i: int| 0 <= i < s.len() ==> is_digit(#[trigger] s[i])
}

/// The number that a run of digits denotes, most significant digit first.
pub open spec fn digits_value(s: Seq<char>) -> nat
    decreases s.len(),
{
    if s.len() == 0 {
        0
    } else {
        digits_value(s.drop_last()) * 10 + digit_value(s.last())
    }
}

/// The number that `s` denotes when it is a non-empty run of digits whose
/// value does not exceed `limit`.
pub open spec fn magnitude(s: Seq<char>, limit: nat) -> Option<nat> {
    if s.len() > 0 && all_digits(s) && digits_value(s) <= limit {
        Some(digits_value(s))
    } else {
        None
    }
}

/// The integer that `s` denotes: an optional sign and at least one digit.
pub open spec fn signed_value(s: Seq<char>) -> Option<int> {
    if s.len() > 0 && is_sign(s[0]) {
        let body = s.skip(1);
        if body.len() > 0 && all_digits(body) {
            Some(
                if s[0] == '-' {
                    -(digits_value(body) as int)
                } else {
                    digits_value(body) as int
                },
            )
        } else {
            None
        }
    } else if s.len() > 0 && all_digits(s) {
        Some(digits_value(s) as int)
    } else {
        None
    }
}

/// Whether `s` denotes an integer between `low` and `high`, both included.
pub open spec fn denotes_integer_within(s: Seq<char>, low: int, high: int) -> bool {
    signed_value(s) matches Some(v) && low <= v <= high
}

/// The number that `s` denotes when it is written without a minus sign and
/// does not exceed `limit`.
pub open spec fn unsigned_value(s: Seq<char>, limit: nat) -> Option<nat> {
    if s.len() > 0 && s[0] == '+' {
        magnitude(s.skip(1), limit)
    } else {
        magnitude(s, limit)
    }
}

/// Whether `c` is one of the ten ASCII digits.
pub fn is_digit_char(c: char) -> (b: bool)
    ensures
        b == is_digit(c),
{
    c >= '0' && c <= '9'
}

/// A longer run of digits never denotes a smaller number than its prefix.
proof fn lemma_digits_value_grows(s: Seq<char>, k: int)
    requires
        0 <= k <= s.len(),
    ensures
        digits_value(s.take(k)) <= digits_value(s),
    decreases s.len(),
{
    if k == s.len() {
        assert(s.take(k) =~= s);
    } else {
        lemma_digits_value_grows(s.drop_last(), k);
        assert(s.drop_last().take(k) =~= s.take(k));
    }
}

/// Reads the digits of `s` between `from` and `to`.
pub(crate) fn parse_magnitude(s: &Vec<char>, from: usize, to: usize, limit: u64) -> (r: Option<u64>)
    requires
        from <= to <= s.len(),
        limit <= 0x0fff_ffff_ffff_ffff,
    ensures
        r matches Some(v) ==> magnitude(s@.subrange(from as int, to as int), limit as nat) == Some(
            v as nat,
        ),
        r is None ==> magnitude(s@.subrange(from as int, to as int), limit as nat) is None,
{
    let ghost whole = s@.subrange(from as int, to as int);
    if from == to {
        return None;
    }
    let mut acc: u64 = 0;
    let mut i: usize = from;
    while i < to
        invariant
            from <= i <= to <= s.len(),
            whole == s@.subrange(from as int, to as int),
            limit <= 0x0fff_ffff_ffff_ffff,
            acc <= limit,
            acc as nat == digits_value(whole.take(i - from)),
            all_digits(whole.take(i - from)),
        decreases to - i,
    {
        let c = s[i];
        proof {
            assert(whole.take(i - from + 1).drop_last() =~= whole.take(i - from));
            assert(whole.take(i - from + 1).last() == c);
        }
        if !is_digit_char(c) {
            proof {
                assert(whole[i - from] == c);
            }
            return None;
        }
        let d: u64 = (c as u32 - '0' as u32) as u64;
        let next: u64 = acc * 10 + d;
        if next > limit {
            proof {
                lemma_digits_value_grows(whole, i - from + 1);
            }
            return None;
        }
        acc = next;
        i = i + 1;
    }
    proof {
        assert(whole.take(to - from) =~= whole);
    }
    Some(acc)
}

/// Reads an integer written without a minus sign between `from` and `to`.
pub(crate) fn parse_unsigned(s: &Vec<char>, from: usize, to: usize, limit: u64) -> (r: Option<u64>)
    requires
        from <= to <= s.len(),
        limit <= 0x0fff_ffff_ffff_ffff,
    ensures
        r matches Some(v) ==> unsigned_value(s@.subrange(from as int, to as int), limit as nat)
            == Some(v as nat),
        r is None ==> unsigned_value(s@.subrange(from as int, to as int), limit as nat) is None,
{
    let ghost whole = s@.subrange(from as int, to as int);
    if from < to && s[from] == '+' {
        proof {
            assert(whole[0] == s@[from as int]);
            assert(whole.skip(1) =~= s@.subrange(from + 1, to as int));
        }
        parse_magnitude(s, from + 1, to, limit)
    } else {
        proof {
            if from < to {
                assert(whole[0] == s@[from as int]);
            }
        }
        parse_magnitude(s, from, to, limit)
    }
}

/// Decides whether the whole of `s` denotes an integer between `-(bound + 1)`
/// and `bound`, the range of a two's-complement type.
pub(crate) fn denotes_signed(s: &Vec<char>, bound: u64) -> (b: bool)
    requires
        bound < 0x0fff_ffff_ffff_ffff,
    ensures
        b == denotes_integer_within(s@, -(bound as int) - 1, bound as int),
{
    let n = s.len();
    proof {
        assert(s@.subrange(0, n as int) =~= s@);
    }
    if n > 0 && (s[0] == '+' || s[0] == '-') {
        let negative = s[0] == '-';
        let limit: u64 = if negative {
            bound + 1
        } else {
            bound
        };
        proof {
            assert(s@.skip(1) =~= s@.subrange(1, n as int));
        }
        parse_magnitude(s, 1, n, limit).is_some()
    } else {
        parse_magnitude(s, 0, n, bound).is_some()
    }
}

/// Whether `c` is white space, as Unicode defines it.
pub open spec fn is_space(c: char) -> bool {
    let n = c as u32;
    ||| 0x09 <= n <= 0x0d
    ||| n == 0x20
    ||| n == 0x85
    ||| n == 0xa0
    ||| n == 0x1680
    ||| 0x2000 <= n <= 0x200a
    ||| n == 0x2028
    ||| n == 0x2029
    ||| n == 0x202f
    ||| n == 0x205f
    ||| n == 0x3000
}

/// Whether `c` is white space, as Unicode defines it.
pub fn is_space_char(c: char) -> (b: bool)
    ensures
        b == is_space(c),
{
    let n: u32 = c as u32;
    (0x09 <= n && n <= 0x0d) || n == 0x20 || n == 0x85 || n == 0xa0 || n == 0x1680 || (0x2000 <= n
        && n <= 0x200a) || n == 0x2028 || n == 0x2029 || n == 0x202f || n == 0x205f || n == 0x3000
}

/// How many white-space characters stand in a row in `s`, from `from` on.
pub open spec fn space_run(s: Seq<char>, from: int) -> nat
    decreases s.len() - from,
{
    if 0 <= from < s.len() && is_space(s[from]) {
        1 + space_run(s, from + 1)
    } else {
        0
    }
}

/// How many white-space characters stand in a row in `s`, right before `to`.
pub open spec fn space_run_back(s: Seq<char>, to: int) -> nat
    decreases to,
{
    if 0 < to <= s.len() && is_space(s[to - 1]) {
        1 + space_run_back(s, to - 1)
    } else {
        0
    }
}

/// `s` without the white space at its two ends.
pub open spec fn trimmed(s: Seq<char>) -> Seq<char> {
    let a = space_run(s, 0) as int;
    let b = s.len() - space_run_back(s, s.len() as int);
    if a < b {
        s.subrange(a, b)
    } else {
        Seq::empty()
    }
}

/// The bounds of `s` without the white space at its two ends.
pub fn trim_bounds(s: &Vec<char>) -> (r: (usize, usize))
    ensures
        r.0 <= r.1 <= s.len(),
        s@.subrange(r.0 as int, r.1 as int) == trimmed(s@),
{
    let mut a: usize = 0;
    while a < s.len() && is_space_char(s[a])
        invariant
            a <= s.len(),
            space_run(s@, 0) == a + space_run(s@, a as int),
        decreases s.len() - a,
    {
        a = a + 1;
    }
    let mut b: usize = s.len();
    while b > 0 && is_space_char(s[b - 1])
        invariant
            b <= s.len(),
            space_run_back(s@, s.len() as int) == (s.len() - b) + space_run_back(s@, b as int),
        decreases b,
    {
        b = b - 1;
    }
    if a < b {
        (a, b)
    } else {
        proof {
            assert(s@.subrange(0, 0) =~= Seq::<char>::empty());
        }
        (0, 0)
    }
}

/// The place of the first `c` in `s`, or the length of `s` if it holds none.
pub open spec fn index_of(s: Seq<char>, c: char) -> int
    decreases s.len(),
{
    if s.len() == 0 || s[0] == c {
        0
    } else {
        1 + index_of(s.drop_first(), c)
    }
}

/// `index_of` gives the least place of `c`.
pub proof fn lemma_index_of(s: Seq<char>, c: char)
    ensures
        0 <= index_of(s, c) <= s.len(),
        forall|j: int| 0 <= j < index_of(s, c) ==> s[j] != c,
        index_of(s, c) < s.len() ==> s[index_of(s, c)] == c,
    decreases s.len(),
{
    if s.len() == 0 || s[0] == c {
    } else {
        lemma_index_of(s.drop_first(), c);
        assert forall|j: int| 0 <= j < index_of(s, c) implies s[j] != c by {
            if j > 0 {
                assert(s.drop_first()[j - 1] == s[j]);
            }
        }
    }
}

/// Finds the first `c` in `s` between `from` and `to`; `to` if there is none.
pub(crate) fn find_char(s: &Vec<char>, from: usize, to: usize, c: char) -> (k: usize)
    requires
        from <= to <= s.len(),
    ensures
        from <= k <= to,
        k - from == index_of(s@.subrange(from as int, to as int), c),
{
    let ghost whole = s@.subrange(from as int, to as int);
    let mut k: usize = from;
    proof {
        assert(whole.skip(0) =~= whole);
    }
    while k < to && s[k] != c
        invariant
            from <= k <= to <= s.len(),
            whole == s@.subrange(from as int, to as int),
            index_of(whole, c) == (k - from) + index_of(whole.skip(k - from), c),
        decreases to - k,
    {
        proof {
            let rest = whole.skip(k - from);
            assert(rest[0] == s@[k as int]);
            assert(rest.drop_first() =~= whole.skip(k - from + 1));
        }
        k = k + 1;
    }
    proof {
        let rest = whole.skip(k - from);
        if k < to {
            assert(rest[0] == s@[k as int]);
        }
    }
    k
}

} // verus!
