//! Validation of the byte buffers handed to the kernel: each must be
//! nul-terminated and must not contain a nul byte anywhere before the end.

use vstd::prelude::*;

verus! {

/// Why a byte buffer was rejected as a kernel string.
#[derive(Debug, Clone, Copy, PartialEq, Eq, Structural)]
pub enum NulError {
    /// A nul byte occurs before the final position; the index of the
    /// first nul byte is given.
    InteriorNul { position: usize },
    /// The buffer is empty or its last byte is not nul.
    NotNulTerminated,
}

/// A buffer the kernel interface accepts: non-empty, its last byte is nul,
/// and no byte before the last is nul.
pub open spec fn nul_terminated(s: Seq<u8>) -> bool {
    &&& s.len() >= 1
    &&& s[s.len() - 1] == 0
    &&& forall|i: int| 0 <= i < s.len() - 1 ==> s[i] != 0
}

/// The buffer without its terminator: the content the kernel reads.
pub open spec fn content(s: Seq<u8>) -> Seq<u8> {
    s.take(s.len() - 1)
}

/// The index of the first nul byte of `s` (meaningful only when one exists).
pub open spec fn first_nul_index(s: Seq<u8>) -> int {
    choose|i: int|
        0 <= i < s.len() && s[i] == 0 && (forall|k: int| 0 <= k < i ==> s[k] != 0)
}

/// The exact outcome of checking a buffer: accepted, rejected for an
/// interior nul at the first such position, or rejected because no nul
/// terminates it.
pub open spec fn nul_check(s: Seq<u8>) -> Result<(), NulError> {
    if nul_terminated(s) {
        Ok(())
    } else if forall|i: int| 0 <= i < s.len() ==> s[i] != 0 {
        Err(NulError::NotNulTerminated)
    } else {
        Err(NulError::InteriorNul { position: first_nul_index(s) as usize })
    }
}

/// The content of a validated nul-terminated buffer: everything before
/// the terminator.
pub fn take_content(s: &[u8]) -> (r: &[u8])
    requires
        s@.len() >= 1,
    ensures
        r@ == content(s@),
{
    vstd::slice::slice_subrange(s, 0, s.len() - 1)
}

/// Checks that `bytes` is a well-formed nul-terminated buffer, reporting
/// the first interior nul or the missing terminator exactly.
pub fn check_terminated(bytes: &[u8]) -> (r: Result<(), NulError>)
    ensures
        r == nul_check(bytes@),
        r is Ok <==> nul_terminated(bytes@),
{
    let n = bytes.len();
    let mut i: usize = 0;
    while i < n
        invariant
            n == bytes@.len(),
            0 <= i <= n,
            forall|k: int| 0 <= k < i ==> bytes@[k] != 0,
        decreases n - i,
    {
        if bytes[i] == 0 {
            if i + 1 == n {
                return Ok(());
            }
            proof {
                assert(bytes@[i as int] == 0 && (forall|k: int| 0 <= k < i ==> bytes@[k] != 0));
                assert(!nul_terminated(bytes@));
                let j = first_nul_index(bytes@);
                if j < i {
                    assert(bytes@[j] != 0);
                }
                if j > i {
                    assert(bytes@[i as int] != 0);
                }
                assert(j == i);
            }
            return Err(NulError::InteriorNul { position: i });
        }
        i += 1;
    }
    proof {
        if nul_terminated(bytes@) {
            assert(bytes@[n - 1] == 0);
        }
    }
    Err(NulError::NotNulTerminated)
}

} // verus!
