//! Readiness detection on a byte stream.
//!
//! The evaluated store is supervised by polling its output one byte at a
//! time until an expected phrase has appeared. The decision — whether the
//! bytes read so far end with the phrase — is made here; the reading loop
//! stays with the caller.

use vstd::prelude::*;

verus! {

/// The buffer ends with the phrase.
pub open spec fn has_suffix(buffer: Seq<u8>, phrase: Seq<u8>) -> bool {
    &&& buffer.len() >= phrase.len()
    &&& buffer.skip(buffer.len() - phrase.len()) == phrase
}

/// Whether the bytes read so far end with the expected phrase.
pub fn ends_with(buffer: &Vec<u8>, phrase: &Vec<u8>) -> (r: bool)
    ensures
        r == has_suffix(buffer@, phrase@),
{
    let m = phrase.len();
    let n = buffer.len();
    if n < m {
        proof {
            assert(!has_suffix(buffer@, phrase@));
        }
        return false;
    }
    let start = n - m;
    for k in 0..m
        invariant
            m == phrase@.len(),
            n == buffer@.len(),
            start == n - m,
            forall|j: int| 0 <= j < k ==> buffer@[start + j] == phrase@[j],
    {
        if buffer[start + k] != phrase[k] {
            proof {
                assert(buffer@.skip(start as int)[k as int] != phrase@[k as int]);
            }
            return false;
        }
    }
    proof {
        assert(buffer@.skip(start as int) =~= phrase@);
    }
    true
}

} // verus!
