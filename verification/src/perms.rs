//! Access-permission strings for the filesystem-exposure call: a short
//! string of flag characters (read, write, execute, create), parsed into a
//! flag set and ordered by inclusion, since the kernel lets an exposed
//! path's permissions only ever narrow.

use vstd::prelude::*;

verus! {

/// The access mode granted for one exposed path.
#[derive(Debug, Clone, Copy, PartialEq, Eq, Structural)]
pub struct Perms {
    pub read: bool,
    pub write: bool,
    pub execute: bool,
    pub create: bool,
}

/// Whether `b` is one of the four accepted flag characters.
pub open spec fn perm_byte(b: u8) -> bool {
    b == 114 || b == 119 || b == 120 || b == 99
}

/// Whether every byte of a permission string is an accepted flag character.
pub open spec fn all_perm_bytes(s: Seq<u8>) -> bool {
    forall|i: int| 0 <= i < s.len() ==> perm_byte(s[i])
}

/// The flag set a well-formed permission string denotes.
pub open spec fn perms_of(s: Seq<u8>) -> Perms {
    Perms {
        read: s.contains(114),
        write: s.contains(119),
        execute: s.contains(120),
        create: s.contains(99),
    }
}

/// Inclusion of access modes: `a` grants nothing that `b` does not.
pub open spec fn perms_subset(a: Perms, b: Perms) -> bool {
    &&& a.read ==> b.read
    &&& a.write ==> b.write
    &&& a.execute ==> b.execute
    &&& a.create ==> b.create
}

impl Perms {
    /// The empty access mode.
    pub fn none() -> (r: Perms)
        ensures
            r == (Perms { read: false, write: false, execute: false, create: false }),
    {
        Perms { read: false, write: false, execute: false, create: false }
    }

    /// Whether `self` grants nothing that `other` does not.
    pub fn is_subset_of(&self, other: &Perms) -> (r: bool)
        ensures
            r == perms_subset(*self, *other),
    {
        (!self.read || other.read) && (!self.write || other.write)
            && (!self.execute || other.execute) && (!self.create || other.create)
    }
}

/// Parses the content of a permission string (terminator already removed):
/// the flag set it denotes, or nothing if some byte is not a flag character.
pub fn parse_perms(bytes: &[u8]) -> (r: Option<Perms>)
    ensures
        r is Some <==> all_perm_bytes(bytes@),
        all_perm_bytes(bytes@) ==> r == Some(perms_of(bytes@)),
{
    let mut p = Perms::none();
    let n = bytes.len();
    let mut i: usize = 0;
    while i < n
        invariant
            n == bytes@.len(),
            0 <= i <= n,
            forall|k: int| 0 <= k < i ==> perm_byte(bytes@[k]),
            p.read <==> (exists|k: int| 0 <= k < i && #[trigger] bytes@[k] == 114),
            p.write <==> (exists|k: int| 0 <= k < i && #[trigger] bytes@[k] == 119),
            p.execute <==> (exists|k: int| 0 <= k < i && #[trigger] bytes@[k] == 120),
            p.create <==> (exists|k: int| 0 <= k < i && #[trigger] bytes@[k] == 99),
        decreases n - i,
    {
        let b = bytes[i];
        if b == 114 {
            p.read = true;
        } else if b == 119 {
            p.write = true;
        } else if b == 120 {
            p.execute = true;
        } else if b == 99 {
            p.create = true;
        } else {
            proof {
                assert(!perm_byte(bytes@[i as int]));
            }
            return None;
        }
        proof {
            assert(bytes@[i as int] == b);
        }
        i += 1;
    }
    proof {
        assert forall|v: u8| bytes@.contains(v)
            implies exists|k: int| 0 <= k < n && #[trigger] bytes@[k] == v by {
            let j = choose|j: int| 0 <= j < bytes@.len() && #[trigger] bytes@[j] == v;
            assert(bytes@[j] == v);
        }
        assert forall|v: u8| (exists|k: int| 0 <= k < n && #[trigger] bytes@[k] == v)
            implies bytes@.contains(v) by {
            let j = choose|j: int| 0 <= j < n && #[trigger] bytes@[j] == v;
            assert(bytes@[j] == v);
        }
    }
    Some(p)
}

} // verus!
