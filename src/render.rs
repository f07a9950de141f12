//! One output line per target base: the number in that base, grouped, with
//! its label.
use vstd::prelude::*;

use crate::digits::{digit_char, to_digits, valid_base};
use crate::error::ErrorCode;
use crate::radix::{as_string_base, parse_radix, u128_of};
use crate::resolve::Opt;
use crate::separator::{grouped, insert_separators};
use crate::text::push_char;

verus! {

/// The base a target token names: a decimal numeral whose value fits in a `u32`.
pub open spec fn target_base_of(token: Seq<char>) -> Option<u32> {
    match u128_of(token, 10) {
        Some(v) => if v <= u32::MAX {
            Some(v as u32)
        } else {
            None
        },
        None => None,
    }
}

/// The label in front of the digits of base `b`: `Base NN: `, with the base
/// written in two decimal digits.
pub open spec fn base_label(b: nat) -> Seq<char> {
    seq!['B', 'a', 's', 'e', ' ', digit_char(b / 10), digit_char(b % 10), ':', ' ']
}

/// The digits of `num` in base `b`, grouped as the options ask.
pub open spec fn grouped_digits(num: nat, b: nat, opt: Opt) -> Seq<char> {
    let d = to_digits(num, b);
    if opt.no_sep {
        d
    } else {
        grouped(d, opt.sep_char, opt.sep_length as nat)
    }
}

/// The output line for target token `token`, without its line break.
pub open spec fn line_for(num: nat, token: Seq<char>, opt: Opt) -> Result<Seq<char>, ErrorCode> {
    match target_base_of(token) {
        None => Err(ErrorCode::TargetBaseErr),
        Some(b) => if !valid_base(b as nat) {
            Err(ErrorCode::InvalidBase)
        } else if opt.bare {
            Ok(grouped_digits(num, b as nat, opt))
        } else {
            Ok(base_label(b as nat) + grouped_digits(num, b as nat, opt))
        },
    }
}

/// The base named by the target token `token`, which must be a decimal numeral.
pub fn target_base(token: &str) -> (r: Result<u32, ErrorCode>)
    ensures
        r == match target_base_of(token@) {
            Some(b) => Ok::<u32, ErrorCode>(b),
            None => Err(ErrorCode::TargetBaseErr),
        },
{
    match parse_radix(token, 10) {
        Some(v) => if v <= u32::MAX as u128 {
            Ok(v as u32)
        } else {
            Err(ErrorCode::TargetBaseErr)
        },
        None => Err(ErrorCode::TargetBaseErr),
    }
}

/// Writes the label of base `b` at the end of `s`.
fn push_label(s: &mut String, b: u32)
    requires
        b < 100,
    ensures
        final(s)@ == old(s)@ + base_label(b as nat),
{
    let tens: u8 = (b / 10) as u8;
    let ones: u8 = (b % 10) as u8;
    push_char(s, 'B');
    push_char(s, 'a');
    push_char(s, 's');
    push_char(s, 'e');
    push_char(s, ' ');
    push_char(s, (tens + 48) as char);
    push_char(s, (ones + 48) as char);
    push_char(s, ':');
    push_char(s, ' ');
    assert(final(s)@ =~= old(s)@ + base_label(b as nat));
}

/// Appends `t` to `s`.
fn push_all(s: &mut String, t: &str)
    ensures
        final(s)@ == old(s)@ + t@,
{
    let len = t.unicode_len();
    let mut i: usize = 0;
    while i < len
        invariant
            i <= len,
            len == t@.len(),
            s@ == old(s)@ + t@.take(i as int),
        decreases len - i,
    {
        push_char(s, t.get_char(i));
        i = i + 1;
        assert(s@ =~= old(s)@ + t@.take(i as int));
    }
    assert(t@.take(len as int) =~= t@);
}

/// The output line for the target token `target`: `num` in that base, grouped
/// as `opt` asks, behind its `Base NN: ` label unless `opt.bare` is set.
pub fn format_target(num: &u128, target: &str, opt: &Opt) -> (r: Result<String, ErrorCode>)
    ensures
        match r {
            Ok(s) => line_for(*num as nat, target@, *opt) == Ok::<Seq<char>, ErrorCode>(s@),
            Err(e) => line_for(*num as nat, target@, *opt) == Err::<Seq<char>, ErrorCode>(e),
        },
{
    let b = match target_base(target) {
        Ok(b) => b,
        Err(e) => {
            return Err(e);
        },
    };
    let digits = match as_string_base(num, b) {
        Ok(d) => d,
        Err(e) => {
            return Err(e);
        },
    };
    let body = if opt.no_sep {
        digits
    } else {
        insert_separators(digits.as_str(), opt.sep_char, opt.sep_length)
    };
    if opt.bare {
        Ok(body)
    } else {
        let mut line = String::new();
        push_label(&mut line, b);
        push_all(&mut line, body.as_str());
        Ok(line)
    }
}

/// A target token that names a base outside 2 to 36 gives `InvalidBase`.
pub proof fn lemma_invalid_target_base(num: nat, token: Seq<char>, opt: Opt)
    requires
        target_base_of(token) matches Some(b) && !valid_base(b as nat),
    ensures
        line_for(num, token, opt) == Err::<Seq<char>, ErrorCode>(ErrorCode::InvalidBase),
{
}

} // verus!
