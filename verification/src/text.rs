//! Comparing texts in executable code.

use vstd::prelude::*;
use vstd::string::*;
use vstd::utf8::*;

verus! {

/// Two texts with the same UTF-8 encoding are the same text.
pub proof fn encoding_is_injective(a: Seq<char>, b: Seq<char>)
    requires
        encode_utf8(a) == encode_utf8(b),
    ensures
        a == b,
{
    encode_utf8_decode_utf8(a);
    encode_utf8_decode_utf8(b);
}

/// Whether `a` and `b` hold the same characters.
pub fn same_text(a: &str, b: &str) -> (same: bool)
    ensures
        same == (a@ == b@),
{
    let left = a.as_bytes();
    let right = b.as_bytes();
    if left.len() != right.len() {
        return false;
    }
    let mut i: usize = 0;
    while i < left.len()
        invariant
            left@ == a.spec_bytes(),
            right@ == b.spec_bytes(),
            left@.len() == right@.len(),
            i <= left@.len(),
            forall|k: int| 0 <= k < i ==> left@[k] == right@[k],
        decreases left@.len() - i,
    {
        if left[i] != right[i] {
            return false;
        }
        i += 1;
    }
    proof {
        assert(left@ =~= right@);
        encoding_is_injective(a@, b@);
    }
    true
}

} // verus!
