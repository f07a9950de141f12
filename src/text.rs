//! Building strings character by character.
use vstd::prelude::*;

verus! {

/// Relies on `String::push`: the character is appended at the end.
#[verifier::external_body]
pub(crate) fn push_char(s: &mut String, c: char)
    ensures
        final(s)@ == old(s)@.push(c),
{
    s.push(c);
}

/// The string holding the characters of `v` in order.
pub fn string_of_chars(v: &Vec<char>) -> (r: String)
    ensures
        r@ == v@,
{
    let mut r = String::new();
    let mut i: usize = 0;
    while i < v.len()
        invariant
            i <= v.len(),
            r@ == v@.take(i as int),
        decreases v.len() - i,
    {
        push_char(&mut r, v[i]);
        i = i + 1;
        assert(r@ =~= v@.take(i as int));
    }
    assert(v@.take(i as int) =~= v@);
    r
}

} // verus!
