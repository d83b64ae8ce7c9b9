//! Safe validation and modelling layer for two process-sandboxing
//! primitives: a capability-restriction call that narrows which operation
//! categories a process may perform, and a filesystem-exposure call that
//! narrows which paths it may see.
//!
//! Both kernel primitives take nul-terminated byte buffers and are
//! irreversible by relaxation: privileges can only ever be narrowed.  This
//! crate holds everything that can be checked without entering the kernel:
//! exact validation of the byte encodings, the mapping of raw error numbers
//! to typed errors, and a verified model of the kernel-held, monotonically
//! narrowing sandbox state against which the narrowing laws are proved.
//! The raw system calls themselves live outside this crate.

pub mod encoding;
pub mod perms;
pub mod pledge;
pub mod promises;
pub mod unveil;
