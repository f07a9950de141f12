//! Writing a number in a base, and reading a numeral back into a number.
use vstd::prelude::*;

use crate::digits::{
    all_digits, digit_char, digit_value, is_digit_of, is_upper_digit_of,
    lemma_to_digits_charset, lemma_to_digits_no_leading_zero, lemma_to_digits_value,
    lemma_to_digits_zero, numeral_value, to_digits, valid_base, MAX_BASE, MIN_BASE,
};
use crate::error::ErrorCode;
use crate::text::{push_char, string_of_chars};

verus! {

/// `s` with every occurrence of `c` taken out.
pub open spec fn without(s: Seq<char>, c: char) -> Seq<char>
    decreases s.len(),
{
    if s.len() == 0 {
        s
    } else if s.last() == c {
        without(s.drop_last(), c)
    } else {
        without(s.drop_last(), c).push(s.last())
    }
}

/// The digits of an unsigned numeral: the text after an optional leading `+`.
pub open spec fn unsigned_digits(s: Seq<char>) -> Seq<char> {
    if s.len() > 0 && s[0] == '+' {
        s.drop_first()
    } else {
        s
    }
}

/// The number an unsigned numeral of base `b` stands for: an optional `+`,
/// then one or more digits of the base in either case. `None` for any other text.
pub open spec fn numeral_of(s: Seq<char>, b: nat) -> Option<nat> {
    let d = unsigned_digits(s);
    if d.len() > 0 && all_digits(d, b) {
        Some(numeral_value(d, b))
    } else {
        None
    }
}

/// The number `s` stands for in base `b`, when it is a numeral whose value fits in a `u128`.
pub open spec fn u128_of(s: Seq<char>, b: nat) -> Option<u128> {
    match numeral_of(s, b) {
        Some(v) => if v <= u128::MAX {
            Some(v as u128)
        } else {
            None
        },
        None => None,
    }
}

/// What reading the source number `from_num` in base `b` gives, once every
/// separator `sep` has been taken out of it.
pub open spec fn base_10_of(from_num: Option<Seq<char>>, b: nat, sep: char) -> Result<
    u128,
    ErrorCode,
> {
    match from_num {
        None => Err(ErrorCode::InputBaseErr),
        Some(s) => if !valid_base(b) {
            Err(ErrorCode::InvalidBase)
        } else {
            match u128_of(without(s, sep), b) {
                Some(v) => Ok(v),
                None => Err(ErrorCode::BaseConversionErr),
            }
        },
    }
}

/// What writing `num` in base `b` gives.
pub open spec fn string_base_of(num: nat, b: nat) -> Result<Seq<char>, ErrorCode> {
    if valid_base(b) {
        Ok(to_digits(num, b))
    } else {
        Err(ErrorCode::InvalidBase)
    }
}

/// The character for digit value `d`.
fn digit_to_char(d: u32) -> (c: char)
    requires
        d < 36,
    ensures
        c == digit_char(d as nat),
{
    let b: u8 = d as u8;
    if b < 10 {
        (b + 48) as char
    } else {
        (b + 55) as char
    }
}

/// The value of digit character `c`, in either case.
fn char_to_digit(c: char) -> (r: Option<u32>)
    ensures
        r matches Some(v) ==> digit_value(c) == Some(v as nat),
        r is None ==> digit_value(c) is None,
{
    if '0' <= c && c <= '9' {
        Some((c as u32) - 48)
    } else if 'a' <= c && c <= 'z' {
        Some((c as u32) - 87)
    } else if 'A' <= c && c <= 'Z' {
        Some((c as u32) - 55)
    } else {
        None
    }
}

/// `num` written in base `base`: its canonical digit string, uppercase, most
/// significant digit first, `"0"` for zero. Fails with `InvalidBase` outside 2 to 36.
pub fn as_string_base(num: &u128, base: u32) -> (r: Result<String, ErrorCode>)
    ensures
        match r {
            Ok(s) => string_base_of(*num as nat, base as nat) == Ok::<Seq<char>, ErrorCode>(s@),
            Err(e) => string_base_of(*num as nat, base as nat) == Err::<Seq<char>, ErrorCode>(e),
        },
{
    if base < MIN_BASE || base > MAX_BASE {
        return Err(ErrorCode::InvalidBase);
    }
    let b: u128 = base as u128;
    let mut tmp: u128 = *num;
    let mut out: Vec<char> = Vec::new();
    while tmp >= b
        invariant
            valid_base(base as nat),
            b == base as u128,
            to_digits(*num as nat, b as nat) == to_digits(tmp as nat, b as nat) + out@,
        decreases tmp,
    {
        let d: u128 = tmp % b;
        let ch = digit_to_char(d as u32);
        let ghost old_out = out@;
        out.insert(0, ch);
        let q: u128 = tmp / b;
        assert(to_digits(tmp as nat, b as nat) == to_digits(q as nat, b as nat).push(ch));
        assert(to_digits(q as nat, b as nat).push(ch) + old_out =~= to_digits(q as nat, b as nat)
            + out@);
        tmp = q;
    }
    let ch = digit_to_char(tmp as u32);
    let ghost old_out = out@;
    out.insert(0, ch);
    assert(to_digits(tmp as nat, b as nat) + old_out =~= out@);
    Ok(string_of_chars(&out))
}

/// Reading a longer numeral never gives a smaller value than reading its start.
proof fn lemma_numeral_value_prefix(s: Seq<char>, b: nat, k: int)
    requires
        b >= 1,
        0 <= k <= s.len(),
    ensures
        numeral_value(s.take(k), b) <= numeral_value(s, b),
    decreases s.len(),
{
    if k < s.len() {
        lemma_numeral_value_prefix(s.drop_last(), b, k);
        assert(s.drop_last().take(k) =~= s.take(k));
        let p = numeral_value(s.drop_last(), b);
        assert(p <= p * b) by (nonlinear_arith)
            requires
                b >= 1,
        ;
    } else {
        assert(s.take(k) =~= s);
    }
}

/// The text `s` read as an unsigned numeral of base `radix`, with an optional
/// leading `+`; `None` when it is no numeral of the base or its value exceeds `u128::MAX`.
pub fn parse_radix(s: &str, radix: u32) -> (r: Option<u128>)
    requires
        valid_base(radix as nat),
    ensures
        r == u128_of(s@, radix as nat),
{
    let len = s.unicode_len();
    let start: usize = if len > 0 && s.get_char(0) == '+' {
        1
    } else {
        0
    };
    let ghost d = unsigned_digits(s@);
    assert(d =~= s@.subrange(start as int, len as int));
    if start == len {
        return None;
    }
    let b: u128 = radix as u128;
    let mut acc: u128 = 0;
    let mut i: usize = start;
    while i < len
        invariant
            start <= i <= len,
            len == s@.len(),
            d == s@.subrange(start as int, len as int),
            d == unsigned_digits(s@),
            b == radix as u128,
            valid_base(b as nat),
            all_digits(d.take(i - start), b as nat),
            acc as nat == numeral_value(d.take(i - start), b as nat),
        decreases len - i,
    {
        let c = s.get_char(i);
        let ghost k: int = i - start;
        assert(d[k] == c);
        let v = match char_to_digit(c) {
            Some(v) => v,
            None => {
                assert(!is_digit_of(d[k], b as nat));
                assert(!all_digits(d, b as nat));
                return None;
            },
        };
        if v >= radix {
            assert(!is_digit_of(d[k], b as nat));
            assert(!all_digits(d, b as nat));
            return None;
        }
        assert(d.take(k + 1).drop_last() =~= d.take(k));
        assert(numeral_value(d.take(k + 1), b as nat) == acc as nat * (b as nat) + v as nat);
        let next = match acc.checked_mul(b) {
            Some(m) => m.checked_add(v as u128),
            None => None,
        };
        match next {
            Some(n) => {
                acc = n;
            },
            None => {
                proof {
                    lemma_numeral_value_prefix(d, b as nat, k + 1);
                    assert(acc as nat * (b as nat) + v as nat > u128::MAX) by (nonlinear_arith)
                        requires
                            acc as nat * (b as nat) > u128::MAX || acc as nat * (b as nat) + v as nat
                                > u128::MAX,
                    ;
                }
                return None;
            },
        }
        i = i + 1;
        assert forall|j: int| 0 <= j < d.take(i - start).len() implies #[trigger] is_digit_of(
            d.take(i - start)[j],
            b as nat,
        ) by {
            if j < k {
                assert(d.take(i - start)[j] == d.take(k)[j]);
            }
        }
    }
    assert(d.take(i - start) =~= d);
    Some(acc)
}

/// `s` with every `c` taken out.
pub fn strip_char(s: &str, c: char) -> (r: String)
    ensures
        r@ == without(s@, c),
{
    let len = s.unicode_len();
    let mut r = String::new();
    let mut i: usize = 0;
    while i < len
        invariant
            i <= len,
            len == s@.len(),
            r@ == without(s@.take(i as int), c),
        decreases len - i,
    {
        let x = s.get_char(i);
        assert(s@.take(i + 1).drop_last() =~= s@.take(i as int));
        if x != c {
            push_char(&mut r, x);
        }
        i = i + 1;
    }
    assert(s@.take(len as int) =~= s@);
    r
}

/// The source number `from_num`, written in base `from_base` with any number
/// of `sep_char` separators, read as a `u128`.
pub fn convert_to_base_10(from_num: Option<String>, from_base: u32, sep_char: char) -> (r: Result<
    u128,
    ErrorCode,
>)
    ensures
        r == base_10_of(
            match from_num {
                Some(s) => Some(s@),
                None => None,
            },
            from_base as nat,
            sep_char,
        ),
{
    let text = match from_num {
        Some(num) => num,
        None => {
            return Err(ErrorCode::InputBaseErr);
        },
    };
    if from_base < MIN_BASE || from_base > MAX_BASE {
        return Err(ErrorCode::InvalidBase);
    }
    let digits = strip_char(text.as_str(), sep_char);
    match parse_radix(digits.as_str(), from_base) {
        Some(v) => Ok(v),
        None => Err(ErrorCode::BaseConversionErr),
    }
}

/// Taking out a character that does not occur changes nothing.
pub proof fn lemma_without_absent(s: Seq<char>, c: char)
    requires
        !s.contains(c),
    ensures
        without(s, c) == s,
    decreases s.len(),
{
    if s.len() > 0 {
        let p = s.drop_last();
        if p.contains(c) {
            let i = choose|i: int| 0 <= i < p.len() && p[i] == c;
            assert(s[i] == c);
        }
        lemma_without_absent(p, c);
        assert(s.last() != c) by {
            if s.last() == c {
                assert(s[s.len() - 1] == c);
            }
        }
        assert(p.push(s.last()) =~= s);
    }
}

/// Writing a number in a valid base and reading the text back in that base
/// gives the number again, also after taking out every separator `sep`, as
/// long as `sep` is not one of the digits written.
pub proof fn lemma_round_trip(m: u128, b: nat, sep: char)
    requires
        valid_base(b),
        !to_digits(m as nat, b).contains(sep),
    ensures
        string_base_of(m as nat, b) == Ok::<Seq<char>, ErrorCode>(to_digits(m as nat, b)),
        base_10_of(Some(to_digits(m as nat, b)), b, sep) == Ok::<u128, ErrorCode>(m),
{
    let s = to_digits(m as nat, b);
    lemma_to_digits_value(m as nat, b);
    lemma_without_absent(s, sep);
    assert(is_upper_digit_of(s[0], b));
    assert(unsigned_digits(s) == s);
}

/// Zero is written `"0"` in every valid base.
pub proof fn lemma_zero_is_single_digit(b: nat)
    requires
        valid_base(b),
    ensures
        string_base_of(0, b) == Ok::<Seq<char>, ErrorCode>(seq!['0']),
{
    lemma_to_digits_zero(b);
}

/// A number written in a base starts with `0` only when the whole text is `"0"`.
pub proof fn lemma_no_leading_zero(m: nat, b: nat)
    requires
        valid_base(b),
    ensures
        string_base_of(m, b) matches Ok(s) && s.len() >= 1 && (s[0] == '0' ==> s == seq!['0']),
{
    lemma_to_digits_value(m, b);
    lemma_to_digits_no_leading_zero(m, b);
}

/// A number written in a base uses only `0`-`9` and `A`-`Z`, and no digit
/// worth the base or more.
pub proof fn lemma_digits_in_base(m: nat, b: nat)
    requires
        valid_base(b),
    ensures
        string_base_of(m, b) matches Ok(s) && forall|i: int|
            0 <= i < s.len() ==> {
                let c = #[trigger] s[i];
                &&& ('0' <= c <= '9' || 'A' <= c <= 'Z')
                &&& digit_value(c) is Some
                &&& digit_value(c)->0 < b
            },
{
    lemma_to_digits_charset(m, b);
}

/// A base outside 2 to 36 gives `InvalidBase`, both for writing a number and
/// for reading a given source number.
pub proof fn lemma_invalid_base(m: nat, b: nat, s: Seq<char>, sep: char)
    requires
        !valid_base(b),
    ensures
        string_base_of(m, b) == Err::<Seq<char>, ErrorCode>(ErrorCode::InvalidBase),
        base_10_of(Some(s), b, sep) == Err::<u128, ErrorCode>(ErrorCode::InvalidBase),
{
}

} // verus!
