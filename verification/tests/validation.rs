use pledge_unveil::encoding::check_terminated;
use pledge_unveil::encoding::NulError;
use pledge_unveil::perms::parse_perms;
use pledge_unveil::perms::Perms;
use pledge_unveil::pledge;
use pledge_unveil::unveil;

#[test]
fn well_terminated_buffer_accepted() {
    assert!(check_terminated(b"stdio\0").is_ok());
    assert!(check_terminated(b"\0").is_ok());
}

#[test]
fn interior_nul_reported_at_first_position() {
    assert_eq!(
        check_terminated(b"std\0io\0"),
        Err(NulError::InteriorNul { position: 3 })
    );
    assert_eq!(
        check_terminated(b"\0\0"),
        Err(NulError::InteriorNul { position: 0 })
    );
}

#[test]
fn missing_terminator_reported() {
    assert_eq!(check_terminated(b"stdio"), Err(NulError::NotNulTerminated));
    assert_eq!(check_terminated(b""), Err(NulError::NotNulTerminated));
}

#[test]
fn pledge_errno_mapping_is_exact() {
    assert_eq!(pledge::error_from_errno(1), Some(pledge::Error::EPERM));
    assert_eq!(pledge::error_from_errno(14), Some(pledge::Error::EFAULT));
    assert_eq!(pledge::error_from_errno(22), Some(pledge::Error::EINVAL));
    assert_eq!(pledge::error_from_errno(0), None);
    assert_eq!(pledge::error_from_errno(2), None);
    assert_eq!(pledge::error_from_errno(-1), None);
}

#[test]
fn unveil_errno_mapping_is_exact() {
    assert_eq!(unveil::error_from_errno(1), Some(unveil::Error::EPERM));
    assert_eq!(unveil::error_from_errno(2), Some(unveil::Error::ENOENT));
    assert_eq!(unveil::error_from_errno(7), Some(unveil::Error::E2BIG));
    assert_eq!(unveil::error_from_errno(22), Some(unveil::Error::EINVAL));
    assert_eq!(unveil::error_from_errno(14), None);
    assert_eq!(unveil::error_from_errno(0), None);
}

#[test]
fn check_promises_mirrors_nul_check() {
    assert!(pledge::check_promises(b"stdio rpath\0").is_ok());
    assert_eq!(
        pledge::check_promises(b"stdio"),
        Err(pledge::Error::Nul(NulError::NotNulTerminated))
    );
    assert_eq!(
        pledge::check_promises(b"a\0b\0"),
        Err(pledge::Error::Nul(NulError::InteriorNul { position: 1 }))
    );
}

#[test]
fn check_buffer_mirrors_nul_check() {
    assert!(unveil::check_buffer(b"/tmp\0").is_ok());
    assert_eq!(
        unveil::check_buffer(b"/tmp"),
        Err(unveil::Error::Nul(NulError::NotNulTerminated))
    );
}

#[test]
fn perm_strings_parse_to_flag_sets() {
    let p = parse_perms(b"rwxc").unwrap();
    assert!(p.read && p.write && p.execute && p.create);
    let p = parse_perms(b"r").unwrap();
    assert!(p.read && !p.write && !p.execute && !p.create);
    let p = parse_perms(b"").unwrap();
    assert!(!p.read && !p.write && !p.execute && !p.create);
    let p = parse_perms(b"rr").unwrap();
    assert!(p.read && !p.write);
    assert!(parse_perms(b"rz").is_none());
    assert!(parse_perms(b" r").is_none());
}

#[test]
fn perm_inclusion_is_per_flag() {
    let r = parse_perms(b"r").unwrap();
    let rw = parse_perms(b"rw").unwrap();
    let none = Perms::none();
    assert!(r.is_subset_of(&rw));
    assert!(!rw.is_subset_of(&r));
    assert!(none.is_subset_of(&r));
    assert!(r.is_subset_of(&r));
}

#[test]
fn nul_errors_convert_into_component_errors() {
    let e = NulError::NotNulTerminated;
    assert_eq!(
        pledge::Error::from(e),
        pledge::Error::Nul(NulError::NotNulTerminated)
    );
    assert_eq!(
        unveil::Error::from(e),
        unveil::Error::Nul(NulError::NotNulTerminated)
    );
    let e = NulError::InteriorNul { position: 4 };
    assert_eq!(
        pledge::Error::from(e),
        pledge::Error::Nul(NulError::InteriorNul { position: 4 })
    );
}

#[test]
fn error_messages_name_the_cause() {
    assert_eq!(
        pledge::Error::EPERM.message(),
        "This process is attempting to increase permissions."
    );
    assert_eq!(
        pledge::Error::EINVAL.message(),
        "promises is malformed or contains invalid keywords."
    );
    assert_eq!(
        unveil::Error::ENOENT.message(),
        "A directory in path did not exist."
    );
    assert_eq!(
        unveil::Error::E2BIG.message(),
        "The addition of path would exceed the per-process limit for unveiled paths."
    );
}
