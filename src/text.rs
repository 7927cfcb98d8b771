//! Text reversed character by character.
use vstd::prelude::*;

verus! {

/// The characters of `chars` in the opposite order.
pub fn reverse_chars(chars: &Vec<char>) -> (r: Vec<char>)
    ensures
        r@ =~= chars@.reverse(),
{
    let mut r: Vec<char> = Vec::with_capacity(chars.len());
    let mut i: usize = chars.len();
    while i > 0
        invariant
            i <= chars@.len(),
            r@ =~= chars@.subrange(i as int, chars@.len() as int).reverse(),
        decreases i,
    {
        i = i - 1;
        r.push(chars[i]);
        assert(r@ =~= chars@.subrange(i as int, chars@.len() as int).reverse());
    }
    r
}

} // verus!
