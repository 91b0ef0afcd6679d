//! Text, compared.

use vstd::prelude::*;
use vstd::utf8::{encode_utf8, encode_utf8_decode_utf8};

verus! {

/// Whether two texts are the same.
pub fn same_text(a: &str, b: &str) -> (r: bool)
    ensures
        r == (a@ == b@),
{
    let left = a.as_bytes();
    let right = b.as_bytes();
    proof {
        encode_utf8_decode_utf8(a@);
        encode_utf8_decode_utf8(b@);
    }
    if left.len() != right.len() {
        return false;
    }
    let mut i: usize = 0;
    while i < left.len()
        invariant
            i <= left@.len(),
            left@.len() == right@.len(),
            left@ == encode_utf8(a@),
            right@ == encode_utf8(b@),
            left@.subrange(0, i as int) == right@.subrange(0, i as int),
        decreases left@.len() - i,
    {
        if left[i] != right[i] {
            return false;
        }
        proof {
            assert(left@.subrange(0, i + 1) =~= left@.subrange(0, i as int).push(left@[i as int]));
            assert(right@.subrange(0, i + 1) =~= right@.subrange(0, i as int).push(
                right@[i as int],
            ));
        }
        i = i + 1;
    }
    proof {
        assert(left@ =~= left@.subrange(0, i as int));
        assert(right@ =~= right@.subrange(0, i as int));
    }
    true
}

} // verus!
