use pledge_unveil::encoding::NulError;
use pledge_unveil::pledge::CapState;
use pledge_unveil::pledge::Error;

#[test]
fn restricting_to_subset_succeeds() {
    let mut k = CapState::new();
    assert!(k.restrict_current(b"stdio rpath wpath\0").is_ok());
    assert!(k.restrict_current(b"stdio rpath\0").is_ok());
    assert!(k.restrict_current(b"stdio\0").is_ok());
}

#[test]
fn keyword_order_and_repetition_are_irrelevant() {
    let mut k = CapState::new();
    assert!(k.restrict_current(b"stdio rpath\0").is_ok());
    assert!(k.restrict_current(b"rpath stdio rpath\0").is_ok());
    assert!(k.restrict_current(b"rpath  stdio\0").is_ok());
}

#[test]
fn escalation_fails_and_leaves_state_unchanged() {
    let mut k = CapState::new();
    assert!(k.restrict_current(b"stdio\0").is_ok());
    assert_eq!(k.restrict_current(b"stdio rpath\0"), Err(Error::EPERM));
    // the held set is unchanged: the held keyword still works, others still fail
    assert!(k.restrict_current(b"stdio\0").is_ok());
    assert_eq!(k.restrict_current(b"rpath\0"), Err(Error::EPERM));
}

#[test]
fn dropped_keywords_cannot_be_regained() {
    let mut k = CapState::new();
    assert!(k.restrict_current(b"stdio rpath\0").is_ok());
    assert!(k.restrict_current(b"stdio\0").is_ok());
    assert_eq!(k.restrict_current(b"stdio rpath\0"), Err(Error::EPERM));
}

#[test]
fn restricting_twice_with_same_set_is_idempotent() {
    let mut k = CapState::new();
    assert!(k.restrict_current(b"stdio rpath\0").is_ok());
    assert!(k.restrict_current(b"stdio rpath\0").is_ok());
    // the effective set is that of a single call: its subsets pass, others fail
    assert_eq!(k.restrict_current(b"unix\0"), Err(Error::EPERM));
    assert!(k.restrict_current(b"rpath\0").is_ok());
}

#[test]
fn malformed_promises_never_reach_the_kernel() {
    let mut k = CapState::new();
    assert_eq!(k.call_count(), 0);
    assert_eq!(
        k.restrict_current(b"std\0io\0"),
        Err(Error::Nul(NulError::InteriorNul { position: 3 }))
    );
    assert_eq!(k.call_count(), 0);
    assert_eq!(
        k.restrict_current(b"stdio"),
        Err(Error::Nul(NulError::NotNulTerminated))
    );
    assert_eq!(k.call_count(), 0);
    assert!(k.restrict_current(b"stdio\0").is_ok());
    assert_eq!(k.call_count(), 1);
    // a rejected request still reaches the kernel once
    assert_eq!(k.restrict_current(b"unix\0"), Err(Error::EPERM));
    assert_eq!(k.call_count(), 2);
}

#[test]
fn exec_axis_is_independent_of_current_axis() {
    let mut k = CapState::new();
    assert!(k.restrict_exec(b"stdio\0").is_ok());
    // the current axis is still unrestricted
    assert!(k.restrict_current(b"unix rpath\0").is_ok());
    // the exec axis only narrows
    assert_eq!(k.restrict_exec(b"stdio rpath\0"), Err(Error::EPERM));
}

#[test]
fn restricting_both_axes_is_all_or_nothing() {
    let mut k = CapState::new();
    assert!(k.restrict_both(b"stdio rpath\0", b"stdio\0").is_ok());
    // the exec half escalates, so neither axis changes
    assert_eq!(
        k.restrict_both(b"stdio\0", b"stdio rpath\0"),
        Err(Error::EPERM)
    );
    assert!(k.restrict_current(b"stdio rpath\0").is_ok());
    assert!(k.restrict_exec(b"stdio\0").is_ok());
}

#[test]
fn restrict_both_validates_promises_before_execpromises() {
    let mut k = CapState::new();
    assert_eq!(
        k.restrict_both(b"stdio", b"also bad"),
        Err(Error::Nul(NulError::NotNulTerminated))
    );
    assert_eq!(
        k.restrict_both(b"stdio\0", b"b\0ad\0"),
        Err(Error::Nul(NulError::InteriorNul { position: 1 }))
    );
    assert_eq!(k.call_count(), 0);
}
