//! The filesystem-exposure component: validation and error taxonomy for
//! the kernel call that restricts a process's filesystem view to an
//! explicit allow-list of paths, each with its own access mode, and a
//! verified model of the kernel-held allow-list.
//!
//! The kernel-held state moves from unrestricted through exposing to
//! locked: exposures accumulate, an already exposed path's mode may only
//! ever narrow, and once the list is locked no further exposure can
//! succeed for the life of the process.  The live kernel call is issued
//! outside this crate; `ExposeState` reproduces the documented semantics
//! exactly, so the laws can be proved and exercised without entering the
//! kernel.  Failures that depend on the live filesystem (a missing or
//! inaccessible path) come only from the real kernel, through the
//! error-number mapping: the model holds no filesystem and never reports
//! them.

use vstd::prelude::*;

use crate::encoding::NulError;
use crate::encoding::check_terminated;
use crate::encoding::content;
use crate::encoding::nul_check;
use crate::encoding::nul_terminated;
use crate::encoding::take_content;
use crate::perms::Perms;
use crate::perms::all_perm_bytes;
use crate::perms::parse_perms;
use crate::perms::perms_of;
use crate::perms::perms_subset;
use crate::promises::bytes_eq;

verus! {

/// Failure of a filesystem-exposure request.
#[derive(Debug, Clone, Copy, PartialEq, Eq, Structural)]
pub enum Error {
    /// The supplied buffer is not a well-formed nul-terminated string;
    /// detected before any kernel call.
    Nul(NulError),
    /// The request would increase permissions, the path was not
    /// accessible, or exposure was requested after locking.
    EPERM,
    /// A directory in the path does not exist.
    ENOENT,
    /// The addition would exceed the per-process limit on exposed paths.
    E2BIG,
    /// The permission string holds an invalid flag character.
    EINVAL,
}

impl Error {
    /// A short description of the failure, in the place of a formatter.
    pub fn message(&self) -> (m: &'static str)
        ensures
            m@ == self.message_spec(),
    {
        match self {
            Error::Nul(NulError::InteriorNul { .. }) => "path or permissions contains an interior nul byte.",
            Error::Nul(NulError::NotNulTerminated) => "path or permissions is not nul-terminated.",
            Error::EPERM => "An attempt to increase permissions was made, or the path was not accessible, or unveil() was called after locking.",
            Error::ENOENT => "A directory in path did not exist.",
            Error::E2BIG => "The addition of path would exceed the per-process limit for unveiled paths.",
            Error::EINVAL => "An invalid value of permissions was used.",
        }
    }

    pub open spec fn message_spec(&self) -> Seq<char> {
        match self {
            Error::Nul(NulError::InteriorNul { .. }) => "path or permissions contains an interior nul byte."@,
            Error::Nul(NulError::NotNulTerminated) => "path or permissions is not nul-terminated."@,
            Error::EPERM => "An attempt to increase permissions was made, or the path was not accessible, or unveil() was called after locking."@,
            Error::ENOENT => "A directory in path did not exist."@,
            Error::E2BIG => "The addition of path would exceed the per-process limit for unveiled paths."@,
            Error::EINVAL => "An invalid value of permissions was used."@,
        }
    }
}

impl From<NulError> for Error {
    fn from(error: NulError) -> (r: Self)
        ensures
            r == Error::Nul(error),
    {
        Error::Nul(error)
    }
}

impl vstd::std_specs::convert::FromSpecImpl<NulError> for Error {
    open spec fn obeys_from_spec() -> bool {
        true
    }

    open spec fn from_spec(error: NulError) -> Self {
        Error::Nul(error)
    }
}

/// The typed error for a raw error number the exposure call reports, or
/// nothing for a number outside its documented set, which a caller must
/// treat as fatal rather than map.
pub fn error_from_errno(errno: i32) -> (r: Option<Error>)
    ensures
        r == (if errno == 1 {
            Some(Error::EPERM)
        } else if errno == 2 {
            Some(Error::ENOENT)
        } else if errno == 7 {
            Some(Error::E2BIG)
        } else if errno == 22 {
            Some(Error::EINVAL)
        } else {
            None::<Error>
        }),
{
    if errno == 1 {
        Some(Error::EPERM)
    } else if errno == 2 {
        Some(Error::ENOENT)
    } else if errno == 7 {
        Some(Error::E2BIG)
    } else if errno == 22 {
        Some(Error::EINVAL)
    } else {
        None
    }
}

/// Checks that a path or permission buffer is a well-formed
/// nul-terminated string; the check every exposure request makes before
/// the kernel is asked.
pub fn check_buffer(bytes: &[u8]) -> (r: Result<(), Error>)
    ensures
        r is Ok <==> nul_terminated(bytes@),
        r == (match nul_check(bytes@) {
            Ok(()) => Ok::<(), Error>(()),
            Err(e) => Err(Error::Nul(e)),
        }),
{
    match check_terminated(bytes) {
        Ok(()) => Ok(()),
        Err(e) => Err(Error::Nul(e)),
    }
}

/// The allow-list an entry sequence denotes: each path mapped to the most
/// recently granted access mode.
pub open spec fn entries_map(s: Seq<(Vec<u8>, Perms)>) -> Map<Seq<u8>, Perms>
    decreases s.len(),
{
    if s.len() == 0 {
        Map::empty()
    } else {
        entries_map(s.drop_last()).insert(s.last().0@, s.last().1)
    }
}

/// No path occurs twice in an entry sequence.
pub open spec fn paths_unique(s: Seq<(Vec<u8>, Perms)>) -> bool {
    forall|i: int, j: int|
        0 <= i < j < s.len() ==> (#[trigger] s[i]).0@ != (#[trigger] s[j]).0@
}

proof fn lemma_entries_map_dom(s: Seq<(Vec<u8>, Perms)>, p: Seq<u8>)
    ensures
        entries_map(s).dom().contains(p) <==> (exists|i: int|
            0 <= i < s.len() && (#[trigger] s[i]).0@ == p),
    decreases s.len(),
{
    if s.len() > 0 {
        lemma_entries_map_dom(s.drop_last(), p);
        if entries_map(s).dom().contains(p) {
            if s.last().0@ == p {
                assert(s[s.len() - 1].0@ == p);
            } else {
                let i = choose|i: int|
                    0 <= i < s.drop_last().len() && (#[trigger] s.drop_last()[i]).0@ == p;
                assert(s[i].0@ == p);
            }
        }
        if exists|i: int| 0 <= i < s.len() && (#[trigger] s[i]).0@ == p {
            let i = choose|i: int| 0 <= i < s.len() && (#[trigger] s[i]).0@ == p;
            if i < s.len() - 1 {
                assert(s.drop_last()[i].0@ == p);
            }
        }
    }
}

proof fn lemma_entries_map_value(s: Seq<(Vec<u8>, Perms)>, i: int)
    requires
        paths_unique(s),
        0 <= i < s.len(),
    ensures
        entries_map(s).dom().contains(s[i].0@),
        entries_map(s)[s[i].0@] == s[i].1,
    decreases s.len(),
{
    if i == s.len() - 1 {
    } else {
        assert(paths_unique(s.drop_last()));
        lemma_entries_map_value(s.drop_last(), i);
        assert(s.drop_last()[i] == s[i]);
        assert(s[i].0@ != s.last().0@);
    }
}

proof fn lemma_entries_map_len(s: Seq<(Vec<u8>, Perms)>)
    requires
        paths_unique(s),
    ensures
        entries_map(s).dom().finite(),
        entries_map(s).dom().len() == s.len(),
    decreases s.len(),
{
    if s.len() == 0 {
        assert(entries_map(s).dom() =~= Set::<Seq<u8>>::empty());
    } else {
        assert(paths_unique(s.drop_last()));
        lemma_entries_map_len(s.drop_last());
        lemma_entries_map_dom(s.drop_last(), s.last().0@);
        assert(forall|i: int|
            0 <= i < s.len() - 1 ==> (#[trigger] s.drop_last()[i]).0@ == s[i].0@);
        assert(!entries_map(s.drop_last()).dom().contains(s.last().0@));
        assert(entries_map(s).dom() =~= entries_map(s.drop_last()).dom().insert(s.last().0@));
        vstd::set::axiom_set_insert_len(entries_map(s.drop_last()).dom(), s.last().0@);
    }
}

proof fn lemma_entries_map_update(s: Seq<(Vec<u8>, Perms)>, i: int, e: (Vec<u8>, Perms))
    requires
        paths_unique(s),
        0 <= i < s.len(),
        e.0@ == s[i].0@,
    ensures
        entries_map(s.update(i, e)) == entries_map(s).insert(e.0@, e.1),
        paths_unique(s.update(i, e)),
    decreases s.len(),
{
    let su = s.update(i, e);
    assert(paths_unique(su));
    if i == s.len() - 1 {
        assert(su.drop_last() =~= s.drop_last());
        assert(su.last() == e);
        assert(entries_map(s).insert(e.0@, e.1)
            =~= entries_map(s.drop_last()).insert(e.0@, e.1));
    } else {
        assert(paths_unique(s.drop_last()));
        assert(s.drop_last()[i] == s[i]);
        lemma_entries_map_update(s.drop_last(), i, e);
        assert(su.drop_last() =~= s.drop_last().update(i, e));
        assert(su.last() == s.last());
        assert(e.0@ != s.last().0@);
        assert(entries_map(su)
            =~= entries_map(s.drop_last().update(i, e)).insert(s.last().0@, s.last().1));
        assert(entries_map(s.drop_last()).insert(e.0@, e.1).insert(s.last().0@, s.last().1)
            =~= entries_map(s.drop_last()).insert(s.last().0@, s.last().1).insert(e.0@, e.1));
    }
}

/// The kernel-held exposure state, as the exposure call's documentation
/// describes it: the allow-list built so far, whether it has been locked,
/// and the per-process limit on distinct exposed paths.
pub ghost struct ExposeView {
    pub entries: Map<Seq<u8>, Perms>,
    pub locked: bool,
    pub limit: nat,
    pub calls: nat,
}

/// The result the kernel reports for an exposure request of `path` with
/// permission string `perms` (both without their terminators): a locked
/// list denies everything; an invalid flag character is rejected; an
/// already exposed path may only narrow; a new path needs room under the
/// limit.
pub open spec fn expose_result(v: ExposeView, path: Seq<u8>, perms: Seq<u8>) -> Result<
    (),
    Error,
> {
    if v.locked {
        Err(Error::EPERM)
    } else if !all_perm_bytes(perms) {
        Err(Error::EINVAL)
    } else if v.entries.dom().contains(path) {
        if perms_subset(perms_of(perms), v.entries[path]) {
            Ok(())
        } else {
            Err(Error::EPERM)
        }
    } else if v.entries.dom().len() >= v.limit {
        Err(Error::E2BIG)
    } else {
        Ok(())
    }
}

/// The allow-list after an exposure request: the path is bound to the
/// requested mode exactly when the request is allowed; nothing else ever
/// changes.
pub open spec fn entries_next(v: ExposeView, path: Seq<u8>, perms: Seq<u8>) -> Map<
    Seq<u8>,
    Perms,
> {
    if expose_result(v, path, perms) is Ok {
        v.entries.insert(path, perms_of(perms))
    } else {
        v.entries
    }
}

/// A model of the kernel's exposure state: the same
/// validate-then-request sequence the live wrapper performs, with a
/// modelled kernel in the place of the real one.  `calls` counts how
/// often the modelled kernel was reached, so that a caller can observe
/// that rejected encodings never reach it.
pub struct ExposeState {
    entries: Vec<(Vec<u8>, Perms)>,
    locked: bool,
    limit: usize,
    calls: u64,
}

impl View for ExposeState {
    type V = ExposeView;

    closed spec fn view(&self) -> ExposeView {
        ExposeView {
            entries: entries_map(self.entries@),
            locked: self.locked,
            limit: self.limit as nat,
            calls: self.calls as nat,
        }
    }
}

impl ExposeState {
    /// The entry sequence never names a path twice, so the allow-list map
    /// describes it exactly.
    pub closed spec fn wf(&self) -> bool {
        paths_unique(self.entries@)
    }

    /// A process that has not exposed anything: an empty allow-list,
    /// unlocked, with the given per-process limit on distinct paths.
    pub fn new(limit: usize) -> (r: ExposeState)
        ensures
            r.wf(),
            r@.entries == Map::<Seq<u8>, Perms>::empty(),
            !r@.locked,
            r@.limit == limit as nat,
            r@.calls == 0,
    {
        ExposeState { entries: Vec::new(), locked: false, limit, calls: 0 }
    }

    /// How often the modelled kernel has been reached.
    pub fn call_count(&self) -> (n: u64)
        ensures
            n as nat == self@.calls,
    {
        self.calls
    }

    /// Whether the allow-list has been locked.
    pub fn is_locked(&self) -> (b: bool)
        ensures
            b == self@.locked,
    {
        self.locked
    }

    /// The index of `path` in the entry sequence, if it is exposed.
    fn find_path(&self, path: &[u8]) -> (r: Option<usize>)
        ensures
            (match r {
                Some(i) => i < self.entries@.len() && self.entries@[i as int].0@ == path@,
                None => forall|k: int|
                    0 <= k < self.entries@.len()
                        ==> (#[trigger] self.entries@[k]).0@ != path@,
            }),
    {
        let n = self.entries.len();
        let mut i: usize = 0;
        while i < n
            invariant
                n == self.entries@.len(),
                0 <= i <= n,
                forall|k: int| 0 <= k < i ==> (#[trigger] self.entries@[k]).0@ != path@,
            decreases n - i,
        {
            if bytes_eq(self.entries[i].0.as_slice(), path) {
                return Some(i);
            }
            i += 1;
        }
        None
    }

    /// The access mode currently granted for `path` (given without its
    /// terminator), if it is exposed.
    pub fn granted(&self, path: &[u8]) -> (r: Option<Perms>)
        requires
            self.wf(),
        ensures
            r == (if self@.entries.dom().contains(path@) {
                Some(self@.entries[path@])
            } else {
                None::<Perms>
            }),
    {
        let found = self.find_path(path);
        proof {
            lemma_entries_map_dom(self.entries@, path@);
        }
        match found {
            Some(i) => {
                proof {
                    lemma_entries_map_value(self.entries@, i as int);
                }
                Some(self.entries[i].1)
            },
            None => None,
        }
    }

    /// Requests that `path` be exposed with the mode `permissions`
    /// denotes: on success the allow-list binds the path to exactly that
    /// mode; a locked list, a widening of an exposed path, or a full list
    /// is denied and changes nothing; a malformed buffer is rejected
    /// before the kernel is reached.
    pub fn expose(&mut self, path: &[u8], permissions: &[u8]) -> (r: Result<(), Error>)
        requires
            old(self).wf(),
            old(self)@.calls < u64::MAX,
        ensures
            final(self).wf(),
            (if !nul_terminated(path@) {
                r == Err::<(), Error>(Error::Nul(nul_check(path@)->Err_0))
                    && final(self)@ == old(self)@
            } else if !nul_terminated(permissions@) {
                r == Err::<(), Error>(Error::Nul(nul_check(permissions@)->Err_0))
                    && final(self)@ == old(self)@
            } else {
                let p = content(path@);
                let x = content(permissions@);
                r == expose_result(old(self)@, p, x)
                    && final(self)@.entries == entries_next(old(self)@, p, x)
                    && final(self)@.locked == old(self)@.locked
                    && final(self)@.limit == old(self)@.limit
                    && final(self)@.calls == old(self)@.calls + 1
            }),
    {
        if let Err(e) = check_terminated(path) {
            return Err(Error::Nul(e));
        }
        if let Err(e) = check_terminated(permissions) {
            return Err(Error::Nul(e));
        }
        self.calls = self.calls + 1;
        if self.locked {
            return Err(Error::EPERM);
        }
        let pbytes = take_content(path);
        let perm = match parse_perms(take_content(permissions)) {
            Some(p) => p,
            None => {
                return Err(Error::EINVAL);
            },
        };
        proof {
            lemma_entries_map_dom(self.entries@, content(path@));
        }
        match self.find_path(pbytes) {
            Some(i) => {
                proof {
                    lemma_entries_map_value(self.entries@, i as int);
                }
                let held = self.entries[i].1;
                if perm.is_subset_of(&held) {
                    let entry = self.entries.remove(i);
                    let ghost removed = self.entries@;
                    self.entries.insert(i, (entry.0, perm));
                    proof {
                        assert(self.entries@ =~= old(self).entries@.update(
                            i as int,
                            (entry.0, perm),
                        ));
                        lemma_entries_map_update(
                            old(self).entries@,
                            i as int,
                            (entry.0, perm),
                        );
                    }
                    Ok(())
                } else {
                    Err(Error::EPERM)
                }
            },
            None => {
                proof {
                    lemma_entries_map_len(self.entries@);
                }
                if self.entries.len() >= self.limit {
                    Err(Error::E2BIG)
                } else {
                    let owned_path = vstd::slice::slice_to_vec(pbytes);
                    let ghost before = self.entries@;
                    self.entries.push((owned_path, perm));
                    proof {
                        assert(self.entries@.drop_last() =~= before);
                        assert(paths_unique(self.entries@));
                        assert(entries_map(self.entries@)
                            == entries_map(before).insert(content(path@), perm));
                    }
                    Ok(())
                }
            },
        }
    }

    /// Permanently disables all future exposure requests: the allow-list
    /// is frozen as it stands.  The kernel defines this request to always
    /// succeed.
    pub fn lock(&mut self)
        requires
            old(self).wf(),
            old(self)@.calls < u64::MAX,
        ensures
            final(self).wf(),
            final(self)@.locked,
            final(self)@.entries == old(self)@.entries,
            final(self)@.limit == old(self)@.limit,
            final(self)@.calls == old(self)@.calls + 1,
    {
        self.calls = self.calls + 1;
        self.locked = true;
    }
}

/// Once the allow-list is locked, every exposure request is denied with a
/// permission error and the list never changes again, for every path and
/// permission value.
pub proof fn lemma_locked_denies_expose(v: ExposeView, path: Seq<u8>, perms: Seq<u8>)
    requires
        v.locked,
    ensures
        expose_result(v, path, perms) == Err::<(), Error>(Error::EPERM),
        entries_next(v, path, perms) == v.entries,
{
}

/// Exposure is monotone: whatever request is made, every path exposed
/// before is still exposed after, with a mode that grants no more than it
/// did — an entry is never removed and never widened.
pub proof fn lemma_expose_monotone(v: ExposeView, path: Seq<u8>, perms: Seq<u8>)
    ensures
        forall|q: Seq<u8>|
            v.entries.dom().contains(q) ==> entries_next(v, path, perms).dom().contains(q),
        forall|q: Seq<u8>|
            v.entries.dom().contains(q) ==> perms_subset(
                #[trigger] entries_next(v, path, perms)[q],
                v.entries[q],
            ),
{
}

/// An exposed path's mode may only narrow: re-exposing it with a mode
/// included in the one held succeeds and binds exactly the narrower mode,
/// while a mode granting anything beyond what is held is denied and
/// changes nothing.
pub proof fn lemma_expose_narrowing_only(v: ExposeView, path: Seq<u8>, perms: Seq<u8>)
    requires
        !v.locked,
        all_perm_bytes(perms),
        v.entries.dom().contains(path),
    ensures
        perms_subset(perms_of(perms), v.entries[path]) ==> expose_result(v, path, perms)
            == Ok::<(), Error>(()) && entries_next(v, path, perms) == v.entries.insert(
            path,
            perms_of(perms),
        ),
        !perms_subset(perms_of(perms), v.entries[path]) ==> expose_result(v, path, perms)
            == Err::<(), Error>(Error::EPERM) && entries_next(v, path, perms) == v.entries,
{
}

} // verus!
