//! The mathematical model of numerals: which characters are digits, what a
//! digit string is worth in a base, and the canonical digit string of a number.
use vstd::prelude::*;

verus! {

/// Smallest base a numeral may be written in.
pub const MIN_BASE: u32 = 2;

/// Largest base a numeral may be written in (digits 0-9, then A-Z).
pub const MAX_BASE: u32 = 36;

/// A base is valid when its digits can all be written with 0-9 and A-Z.
pub open spec fn valid_base(b: nat) -> bool {
    MIN_BASE <= b <= MAX_BASE
}

/// The character that writes digit value `d`: `0`-`9` for 0 to 9, `A`-`Z` for 10 to 35.
pub open spec fn digit_char(d: nat) -> char {
    if d < 10 {
        ((d + 48) as u8) as char
    } else {
        ((d + 55) as u8) as char
    }
}

/// The value of a digit character, read without regard to case, or `None`
/// for a character that is no digit in any base up to 36.
pub open spec fn digit_value(c: char) -> Option<nat> {
    if '0' <= c && c <= '9' {
        Some((c as nat - 48) as nat)
    } else if 'a' <= c && c <= 'z' {
        Some((c as nat - 87) as nat)
    } else if 'A' <= c && c <= 'Z' {
        Some((c as nat - 55) as nat)
    } else {
        None
    }
}

/// `c` is a digit of base `b`.
pub open spec fn is_digit_of(c: char, b: nat) -> bool {
    match digit_value(c) {
        Some(v) => v < b,
        None => false,
    }
}

/// Every character of `s` is a digit of base `b`.
pub open spec fn all_digits(s: Seq<char>, b: nat) -> bool {
    forall|i: int| 0 <= i < s.len() ==> #[trigger] is_digit_of(s[i], b)
}

/// The number that the digits `s` (most significant first) stand for in base `b`.
pub open spec fn numeral_value(s: Seq<char>, b: nat) -> nat
    decreases s.len(),
{
    if s.len() == 0 {
        0
    } else {
        numeral_value(s.drop_last(), b) * b + digit_value(s.last()).unwrap_or(0)
    }
}

/// The canonical digit string of `n` in base `b`: uppercase, most significant
/// digit first, without leading zeros, and `"0"` for zero.
pub open spec fn to_digits(n: nat, b: nat) -> Seq<char>
    decreases n,
    via to_digits_decreases
{
    if b < 2 || n < b {
        seq![digit_char(n)]
    } else {
        to_digits(n / b, b).push(digit_char(n % b))
    }
}

#[via_fn]
proof fn to_digits_decreases(n: nat, b: nat) {
    if !(b < 2 || n < b) {
        assert(n / b < n) by (nonlinear_arith)
            requires
                n >= b,
                b >= 2,
        ;
    }
}

/// `c` is one of `0`-`9` or `A`-`Z` and a digit of base `b`.
pub open spec fn is_upper_digit_of(c: char, b: nat) -> bool {
    &&& ('0' <= c <= '9' || 'A' <= c <= 'Z')
    &&& is_digit_of(c, b)
}

/// Digit characters read back as the value they were written for.
pub proof fn lemma_digit_char_value(d: nat)
    requires
        d < 36,
    ensures
        digit_value(digit_char(d)) == Some(d),
        '0' <= digit_char(d) <= '9' || 'A' <= digit_char(d) <= 'Z',
        digit_char(d) == '0' <==> d == 0,
{
}

/// The canonical digit string reads back as the number it was made from,
/// and each of its characters is a digit of the base.
pub proof fn lemma_to_digits_value(n: nat, b: nat)
    requires
        valid_base(b),
    ensures
        numeral_value(to_digits(n, b), b) == n,
        all_digits(to_digits(n, b), b),
        forall|i: int|
            0 <= i < to_digits(n, b).len() ==> #[trigger] is_upper_digit_of(to_digits(n, b)[i], b),
        to_digits(n, b).len() >= 1,
    decreases n,
{
    if n < b {
        lemma_digit_char_value(n);
        let s = to_digits(n, b);
        assert(s.drop_last() =~= Seq::<char>::empty());
        assert(numeral_value(s.drop_last(), b) == 0);
        assert(numeral_value(s, b) == 0 * b + n);
    } else {
        let q = n / b;
        let r = n % b;
        assert(q < n) by (nonlinear_arith)
            requires
                n >= b,
                b >= 2,
                q == n / b,
        ;
        lemma_to_digits_value(q, b);
        lemma_digit_char_value(r);
        let s = to_digits(n, b);
        assert(s.drop_last() =~= to_digits(q, b));
        assert(n == q * b + r) by (nonlinear_arith)
            requires
                q == n / b,
                r == n % b,
                b >= 2,
        ;
        assert(s.last() == digit_char(r));
        assert(numeral_value(s, b) == numeral_value(s.drop_last(), b) * b + r);
        assert forall|i: int| 0 <= i < s.len() implies #[trigger] is_upper_digit_of(s[i], b) by {
            if i < s.len() - 1 {
                assert(s[i] == to_digits(q, b)[i]);
                assert(is_upper_digit_of(to_digits(q, b)[i], b));
            }
        }
        assert forall|i: int| 0 <= i < s.len() implies #[trigger] is_digit_of(s[i], b) by {
            assert(is_upper_digit_of(s[i], b));
        }
    }
}

/// The canonical digit string of zero is `"0"`.
pub proof fn lemma_to_digits_zero(b: nat)
    requires
        valid_base(b),
    ensures
        to_digits(0, b) == seq!['0'],
{
}

/// The canonical digit string starts with `0` only when it is `"0"` itself,
/// which is the string of zero.
pub proof fn lemma_to_digits_no_leading_zero(n: nat, b: nat)
    requires
        valid_base(b),
    ensures
        to_digits(n, b)[0] == '0' ==> to_digits(n, b) == seq!['0'],
        to_digits(n, b) == seq!['0'] <==> n == 0,
    decreases n,
{
    if n < b {
        lemma_digit_char_value(n);
    } else {
        let q = n / b;
        assert(0 < q < n) by (nonlinear_arith)
            requires
                n >= b,
                b >= 2,
                q == n / b,
        ;
        lemma_to_digits_no_leading_zero(q, b);
        lemma_to_digits_value(q, b);
        let s = to_digits(n, b);
        assert(s[0] == to_digits(q, b)[0]);
        assert(s.len() >= 2);
    }
}

/// The canonical digit string holds only the characters `0`-`9` and `A`-`Z`,
/// and no digit in it is worth `b` or more.
pub proof fn lemma_to_digits_charset(n: nat, b: nat)
    requires
        valid_base(b),
    ensures
        forall|i: int|
            0 <= i < to_digits(n, b).len() ==> {
                let c = #[trigger] to_digits(n, b)[i];
                &&& ('0' <= c <= '9' || 'A' <= c <= 'Z')
                &&& digit_value(c) is Some
                &&& digit_value(c)->0 < b
            },
{
    lemma_to_digits_value(n, b);
    assert forall|i: int| 0 <= i < to_digits(n, b).len() implies {
        let c = #[trigger] to_digits(n, b)[i];
        &&& ('0' <= c <= '9' || 'A' <= c <= 'Z')
        &&& digit_value(c) is Some
        &&& digit_value(c)->0 < b
    } by {
        assert(is_upper_digit_of(to_digits(n, b)[i], b));
    }
}

} // verus!
