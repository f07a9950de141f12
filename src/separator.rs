//! Grouping the digits of a numeral with a separator, counted from the right.
use vstd::prelude::*;

use crate::radix::{lemma_without_absent, without};
use crate::text::push_char;

verus! {

/// The first `k` characters of `s`, each preceded by `c` when its distance from
/// the end of `s` is a multiple of `n` and it is not the first character.
pub open spec fn grouped_upto(s: Seq<char>, c: char, n: nat, k: nat) -> Seq<char>
    decreases k,
{
    if k == 0 {
        Seq::empty()
    } else {
        let j = (k - 1) as nat;
        let prev = grouped_upto(s, c, n, j);
        let with_sep = if j > 0 && (s.len() - j) % (n as int) == 0 {
            prev.push(c)
        } else {
            prev
        };
        with_sep.push(s[j as int])
    }
}

/// `s` with `c` inserted every `n` characters counting from the right, never
/// first or last; `s` itself when `n` is zero.
pub open spec fn grouped(s: Seq<char>, c: char, n: nat) -> Seq<char> {
    if n == 0 {
        s
    } else {
        grouped_upto(s, c, n, s.len())
    }
}

/// `digits` with `sep_char` inserted every `sep_length` characters counting
/// from the right; unchanged when `sep_length` is zero.
pub fn insert_separators(digits: &str, sep_char: char, sep_length: u32) -> (r: String)
    ensures
        r@ == grouped(digits@, sep_char, sep_length as nat),
{
    let len = digits.unicode_len();
    let mut r = String::new();
    let mut i: usize = 0;
    while i < len
        invariant
            i <= len,
            len == digits@.len(),
            sep_length == 0 ==> r@ == digits@.take(i as int),
            sep_length > 0 ==> r@ == grouped_upto(digits@, sep_char, sep_length as nat, i as nat),
        decreases len - i,
    {
        if sep_length > 0 && i > 0 && (len - i) % (sep_length as usize) == 0 {
            push_char(&mut r, sep_char);
        }
        push_char(&mut r, digits.get_char(i));
        i = i + 1;
        assert(sep_length == 0 ==> r@ =~= digits@.take(i as int));
    }
    assert(digits@.take(len as int) =~= digits@);
    r
}

/// Taking the separators out of a grouping of the first `k` characters gives
/// those characters back.
proof fn lemma_without_grouped_upto(s: Seq<char>, c: char, n: nat, k: nat)
    requires
        n > 0,
        k <= s.len(),
        !s.contains(c),
    ensures
        without(grouped_upto(s, c, n, k), c) == s.take(k as int),
    decreases k,
{
    if k == 0 {
        assert(s.take(0) =~= Seq::<char>::empty());
    } else {
        let j = (k - 1) as nat;
        lemma_without_grouped_upto(s, c, n, j);
        let prev = grouped_upto(s, c, n, j);
        if s[j as int] == c {
            assert(s.contains(c));
        }
        assert(prev.push(c).drop_last() =~= prev);
        assert(without(prev.push(c), c) == without(prev, c));
        let with_sep = if j > 0 && (s.len() - j) % (n as int) == 0 {
            prev.push(c)
        } else {
            prev
        };
        assert(with_sep.push(s[j as int]).drop_last() =~= with_sep);
        assert(s.take(j as int).push(s[j as int]) =~= s.take(k as int));
    }
}

/// Stripping the separator from grouped digits and grouping them again with
/// the same length gives the same text; the stripped text is the digits
/// themselves. Both hold when the separator is not among the digits.
pub proof fn lemma_regroup_after_strip(s: Seq<char>, c: char, n: nat)
    requires
        !s.contains(c),
    ensures
        without(grouped(s, c, n), c) == s,
        grouped(without(grouped(s, c, n), c), c, n) == grouped(s, c, n),
{
    if n > 0 {
        lemma_without_grouped_upto(s, c, n, s.len());
        assert(s.take(s.len() as int) =~= s);
    } else {
        lemma_without_absent(s, c);
    }
}

} // verus!
