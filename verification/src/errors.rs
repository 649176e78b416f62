//! Domain errors of the engine and their translation to kernel error codes.
//!
//! Internally every failure is a variant of [`FsError`]; the translation to
//! the numeric kernel error domain happens exactly once, through
//! [`kernel_code`], at the callback edge.

use vstd::prelude::*;

verus! {

/// The kernel error numbers the engine reports, as defined by the
/// platform error table.
pub const CODE_NOT_FOUND: i32 = 2;

pub const CODE_IO: i32 = 5;

pub const CODE_PERMISSION_DENIED: i32 = 13;

pub const CODE_ALREADY_EXISTS: i32 = 17;

pub const CODE_NOT_A_DIRECTORY: i32 = 20;

pub const CODE_INVALID_ARGUMENT: i32 = 22;

/// A domain error, produced while serving a filesystem request.
#[derive(Clone, Copy, Debug, PartialEq, Eq, Structural)]
pub enum FsError {
    /// An inode is not in the registry, a remote stat failed, or a path
    /// is missing on the remote side.
    NotFound,
    /// The parent in a lookup is not a directory.
    NotADirectory,
    /// An unknown handle was passed to read, write, flush or release.
    InvalidArgument,
    /// A write was attempted on a handle whose effective mode is read-only.
    PermissionDenied,
    /// A transport or local-filesystem failure after resolution succeeded.
    Io,
    /// Reserved: the engine performs no creation operations.
    AlreadyExists,
}

/// The kernel error code a domain error maps to.
pub open spec fn spec_kernel_code(e: FsError) -> i32 {
    match e {
        FsError::NotFound => CODE_NOT_FOUND,
        FsError::NotADirectory => CODE_NOT_A_DIRECTORY,
        FsError::InvalidArgument => CODE_INVALID_ARGUMENT,
        FsError::PermissionDenied => CODE_PERMISSION_DENIED,
        FsError::Io => CODE_IO,
        FsError::AlreadyExists => CODE_ALREADY_EXISTS,
    }
}

/// Translates a domain error into its numeric kernel error code.
pub fn kernel_code(e: FsError) -> (r: i32)
    ensures
        r == spec_kernel_code(e),
{
    match e {
        FsError::NotFound => CODE_NOT_FOUND,
        FsError::NotADirectory => CODE_NOT_A_DIRECTORY,
        FsError::InvalidArgument => CODE_INVALID_ARGUMENT,
        FsError::PermissionDenied => CODE_PERMISSION_DENIED,
        FsError::Io => CODE_IO,
        FsError::AlreadyExists => CODE_ALREADY_EXISTS,
    }
}

} // verus!
