//! The capability-restriction component: validation and error taxonomy for
//! the kernel call that narrows which operation categories a process may
//! perform, and a verified model of the kernel-held capability state.
//!
//! The kernel holds, per process, a current capability set and a set that
//! will apply after an exec; either starts unrestricted.  A restriction
//! call may only narrow an axis: requesting a keyword not already held is
//! an escalation and fails, leaving the state unchanged.  The live kernel
//! call is issued outside this crate; `CapState` reproduces the documented
//! semantics exactly, so the narrowing laws can be proved and exercised
//! without entering the kernel.

use vstd::prelude::*;

use crate::encoding::NulError;
use crate::encoding::check_terminated;
use crate::encoding::content;
use crate::encoding::nul_check;
use crate::encoding::nul_terminated;
use crate::encoding::take_content;
use crate::promises::keyword_set;
use crate::promises::keywords_of;
use crate::promises::keywords_subset;
use crate::promises::split_keywords;

verus! {

/// Failure of a capability-restriction request.
#[derive(Debug, Clone, Copy, PartialEq, Eq, Structural)]
pub enum Error {
    /// The supplied buffer is not a well-formed nul-terminated string;
    /// detected before any kernel call.
    Nul(NulError),
    /// The request would increase permissions.
    EPERM,
    /// An argument buffer lies outside accessible memory.
    EFAULT,
    /// The promise string is malformed or holds an unrecognized keyword.
    EINVAL,
}

impl Error {
    /// A short description of the failure, in the place of a formatter.
    pub fn message(&self) -> (m: &'static str)
        ensures
            m@ == self.message_spec(),
    {
        match self {
            Error::Nul(NulError::InteriorNul { .. }) => "promises or execpromises contains an interior nul byte.",
            Error::Nul(NulError::NotNulTerminated) => "promises or execpromises is not nul-terminated.",
            Error::EPERM => "This process is attempting to increase permissions.",
            Error::EFAULT => "promises or execpromises points outside the process's allocated address space.",
            Error::EINVAL => "promises is malformed or contains invalid keywords.",
        }
    }

    pub open spec fn message_spec(&self) -> Seq<char> {
        match self {
            Error::Nul(NulError::InteriorNul { .. }) => "promises or execpromises contains an interior nul byte."@,
            Error::Nul(NulError::NotNulTerminated) => "promises or execpromises is not nul-terminated."@,
            Error::EPERM => "This process is attempting to increase permissions."@,
            Error::EFAULT => "promises or execpromises points outside the process's allocated address space."@,
            Error::EINVAL => "promises is malformed or contains invalid keywords."@,
        }
    }
}

impl From<NulError> for Error {
    fn from(error: NulError) -> (r: Self)
        ensures
            r == Error::Nul(error),
    {
        Error::Nul(error)
    }
}

impl vstd::std_specs::convert::FromSpecImpl<NulError> for Error {
    open spec fn obeys_from_spec() -> bool {
        true
    }

    open spec fn from_spec(error: NulError) -> Self {
        Error::Nul(error)
    }
}

/// The typed error for a raw error number the restriction call reports,
/// or nothing for a number outside its documented set, which a caller
/// must treat as fatal rather than map.
pub fn error_from_errno(errno: i32) -> (r: Option<Error>)
    ensures
        r == (if errno == 1 {
            Some(Error::EPERM)
        } else if errno == 14 {
            Some(Error::EFAULT)
        } else if errno == 22 {
            Some(Error::EINVAL)
        } else {
            None::<Error>
        }),
{
    if errno == 1 {
        Some(Error::EPERM)
    } else if errno == 14 {
        Some(Error::EFAULT)
    } else if errno == 22 {
        Some(Error::EINVAL)
    } else {
        None
    }
}

/// Checks that a promise buffer is a well-formed nul-terminated string;
/// the check every restriction request makes before the kernel is asked.
pub fn check_promises(promises: &[u8]) -> (r: Result<(), Error>)
    ensures
        r is Ok <==> nul_terminated(promises@),
        r == (match nul_check(promises@) {
            Ok(()) => Ok::<(), Error>(()),
            Err(e) => Err(Error::Nul(e)),
        }),
{
    match check_terminated(promises) {
        Ok(()) => Ok(()),
        Err(e) => Err(Error::Nul(e)),
    }
}

/// One axis of the kernel capability state: unrestricted, or restricted to
/// a set of keywords.
pub ghost enum CapAxis {
    Unrestricted,
    Held(Set<Seq<u8>>),
}

/// Whether restricting this axis to the keyword set `p` is allowed: an
/// unrestricted axis accepts anything; a restricted one only subsets of
/// what it holds.
pub open spec fn axis_allows(a: CapAxis, p: Set<Seq<u8>>) -> bool {
    match a {
        CapAxis::Unrestricted => true,
        CapAxis::Held(c) => p.subset_of(c),
    }
}

/// The axis after a request to restrict it to `p`: exactly `p` when the
/// request is allowed, unchanged otherwise.
pub open spec fn axis_next(a: CapAxis, p: Set<Seq<u8>>) -> CapAxis {
    if axis_allows(a, p) {
        CapAxis::Held(p)
    } else {
        a
    }
}

/// The result the kernel reports for a request to restrict one axis.
pub open spec fn axis_result(a: CapAxis, p: Set<Seq<u8>>) -> Result<(), Error> {
    if axis_allows(a, p) {
        Ok(())
    } else {
        Err(Error::EPERM)
    }
}

/// The keyword set a validated promise buffer denotes.
pub open spec fn promise_set(s: Seq<u8>) -> Set<Seq<u8>> {
    keyword_set(keywords_of(content(s)))
}

/// The kernel-held capability state, as the restriction call's
/// documentation describes it.
pub ghost struct CapView {
    pub current: CapAxis,
    pub after_exec: CapAxis,
    pub calls: nat,
}

/// A model of the kernel's capability state: the same
/// validate-then-request sequence the live wrapper performs, with a
/// modelled kernel in the place of the real one.  `calls` counts how
/// often the modelled kernel was reached, so that a caller can observe
/// that rejected encodings never reach it.
pub struct CapState {
    current: Option<Vec<Vec<u8>>>,
    after_exec: Option<Vec<Vec<u8>>>,
    calls: u64,
}

impl View for CapState {
    type V = CapView;

    closed spec fn view(&self) -> CapView {
        CapView {
            current: match self.current {
                Option::None => CapAxis::Unrestricted,
                Option::Some(v) => CapAxis::Held(keyword_set(v.deep_view())),
            },
            after_exec: match self.after_exec {
                Option::None => CapAxis::Unrestricted,
                Option::Some(v) => CapAxis::Held(keyword_set(v.deep_view())),
            },
            calls: self.calls as nat,
        }
    }
}

impl CapState {
    /// A process that has not restricted either axis yet.
    pub fn new() -> (r: CapState)
        ensures
            r@.current == CapAxis::Unrestricted,
            r@.after_exec == CapAxis::Unrestricted,
            r@.calls == 0,
    {
        CapState { current: None, after_exec: None, calls: 0 }
    }

    /// How often the modelled kernel has been reached.
    pub fn call_count(&self) -> (n: u64)
        ensures
            n as nat == self@.calls,
    {
        self.calls
    }

    /// Whether one axis of the model would allow restriction to the
    /// keywords `toks`.
    fn axis_check(axis: &Option<Vec<Vec<u8>>>, toks: &Vec<Vec<u8>>) -> (r: bool)
        ensures
            r == axis_allows(
                match *axis {
                    Option::None => CapAxis::Unrestricted,
                    Option::Some(v) => CapAxis::Held(keyword_set(v.deep_view())),
                },
                keyword_set(toks.deep_view()),
            ),
    {
        match axis {
            None => true,
            Some(held) => keywords_subset(toks, held),
        }
    }

    /// Requests that the current capability set be restricted to the
    /// keywords of `promises`: on success the held set becomes exactly the
    /// requested one; an escalation fails and changes nothing; a
    /// malformed buffer is rejected before the kernel is reached.
    pub fn restrict_current(&mut self, promises: &[u8]) -> (r: Result<(), Error>)
        requires
            old(self)@.calls < u64::MAX,
        ensures
            (if !nul_terminated(promises@) {
                r == Err::<(), Error>(Error::Nul(nul_check(promises@)->Err_0))
                    && final(self)@ == old(self)@
            } else {
                let p = promise_set(promises@);
                r == axis_result(old(self)@.current, p)
                    && final(self)@.current == axis_next(old(self)@.current, p)
                    && final(self)@.after_exec == old(self)@.after_exec
                    && final(self)@.calls == old(self)@.calls + 1
            }),
    {
        if let Err(e) = check_terminated(promises) {
            return Err(Error::Nul(e));
        }
        self.calls = self.calls + 1;
        let toks = split_keywords(take_content(promises));
        if Self::axis_check(&self.current, &toks) {
            self.current = Some(toks);
            Ok(())
        } else {
            Err(Error::EPERM)
        }
    }

    /// Requests that the capability set applying after an exec be
    /// restricted to the keywords of `execpromises`; the same contract as
    /// `restrict_current`, on the other axis.
    pub fn restrict_exec(&mut self, execpromises: &[u8]) -> (r: Result<(), Error>)
        requires
            old(self)@.calls < u64::MAX,
        ensures
            (if !nul_terminated(execpromises@) {
                r == Err::<(), Error>(Error::Nul(nul_check(execpromises@)->Err_0))
                    && final(self)@ == old(self)@
            } else {
                let p = promise_set(execpromises@);
                r == axis_result(old(self)@.after_exec, p)
                    && final(self)@.after_exec == axis_next(old(self)@.after_exec, p)
                    && final(self)@.current == old(self)@.current
                    && final(self)@.calls == old(self)@.calls + 1
            }),
    {
        if let Err(e) = check_terminated(execpromises) {
            return Err(Error::Nul(e));
        }
        self.calls = self.calls + 1;
        let toks = split_keywords(take_content(execpromises));
        if Self::axis_check(&self.after_exec, &toks) {
            self.after_exec = Some(toks);
            Ok(())
        } else {
            Err(Error::EPERM)
        }
    }

    /// Requests that both axes be restricted in one kernel call:
    /// all-or-nothing, so if either axis would escalate, the whole request
    /// fails and neither axis changes.  `promises` is validated before
    /// `execpromises`, and neither validation reaches the kernel.
    pub fn restrict_both(&mut self, promises: &[u8], execpromises: &[u8]) -> (r: Result<
        (),
        Error,
    >)
        requires
            old(self)@.calls < u64::MAX,
        ensures
            (if !nul_terminated(promises@) {
                r == Err::<(), Error>(Error::Nul(nul_check(promises@)->Err_0))
                    && final(self)@ == old(self)@
            } else if !nul_terminated(execpromises@) {
                r == Err::<(), Error>(Error::Nul(nul_check(execpromises@)->Err_0))
                    && final(self)@ == old(self)@
            } else {
                let p = promise_set(promises@);
                let e = promise_set(execpromises@);
                let allowed = axis_allows(old(self)@.current, p)
                    && axis_allows(old(self)@.after_exec, e);
                (if allowed {
                    r == Ok::<(), Error>(())
                        && final(self)@.current == CapAxis::Held(p)
                        && final(self)@.after_exec == CapAxis::Held(e)
                } else {
                    r == Err::<(), Error>(Error::EPERM)
                        && final(self)@.current == old(self)@.current
                        && final(self)@.after_exec == old(self)@.after_exec
                }) && final(self)@.calls == old(self)@.calls + 1
            }),
    {
        if let Err(e) = check_terminated(promises) {
            return Err(Error::Nul(e));
        }
        if let Err(e) = check_terminated(execpromises) {
            return Err(Error::Nul(e));
        }
        self.calls = self.calls + 1;
        let toks = split_keywords(take_content(promises));
        let etoks = split_keywords(take_content(execpromises));
        if Self::axis_check(&self.current, &toks) && Self::axis_check(&self.after_exec, &etoks) {
            self.current = Some(toks);
            self.after_exec = Some(etoks);
            Ok(())
        } else {
            Err(Error::EPERM)
        }
    }
}

/// Narrowing to a subset of what is held always succeeds, the held set
/// becomes exactly the requested one, and any set not below it can never
/// be restricted to afterwards: what was given up cannot be regained.
pub proof fn lemma_restrict_to_subset(a: CapAxis, p: Set<Seq<u8>>)
    requires
        axis_allows(a, p),
    ensures
        axis_result(a, p) == Ok::<(), Error>(()),
        axis_next(a, p) == CapAxis::Held(p),
        forall|q: Set<Seq<u8>>|
            !q.subset_of(p) ==> axis_result(axis_next(a, p), q) == Err::<(), Error>(Error::EPERM),
{
}

/// On a restricted axis, a successful restriction leaves the intersection
/// of the prior set and the requested one: since only subsets are allowed,
/// that intersection is exactly the requested set.
pub proof fn lemma_restrict_is_intersection(c: Set<Seq<u8>>, p: Set<Seq<u8>>)
    requires
        axis_allows(CapAxis::Held(c), p),
    ensures
        axis_next(CapAxis::Held(c), p) == CapAxis::Held(c.intersect(p)),
{
    assert(c.intersect(p) =~= p);
}

/// Requesting a set holding a keyword not currently held is an
/// escalation: it fails with a permission error and the held set is
/// unchanged.
pub proof fn lemma_restrict_escalation_fails(c: Set<Seq<u8>>, p: Set<Seq<u8>>)
    requires
        !p.subset_of(c),
    ensures
        axis_result(CapAxis::Held(c), p) == Err::<(), Error>(Error::EPERM),
        axis_next(CapAxis::Held(c), p) == CapAxis::Held(c),
{
}

/// Restriction is monotone: whatever request is made of an already
/// restricted axis, what is held afterwards is a subset of what was held
/// before — privileges only ever narrow.
pub proof fn lemma_restrict_monotone(c: Set<Seq<u8>>, p: Set<Seq<u8>>)
    ensures
        ({
            let a = axis_next(CapAxis::Held(c), p);
            a matches CapAxis::Held(c2) && c2.subset_of(c)
        }),
{
}

/// Restricting twice to the same allowed set succeeds both times and
/// leaves the same state as a single call.
pub proof fn lemma_restrict_idempotent(a: CapAxis, p: Set<Seq<u8>>)
    requires
        axis_allows(a, p),
    ensures
        axis_result(a, p) == Ok::<(), Error>(()),
        axis_result(axis_next(a, p), p) == Ok::<(), Error>(()),
        axis_next(axis_next(a, p), p) == axis_next(a, p),
{
}

} // verus!
