//! The structured failure taxonomy of the session, partition and mount
//! management layer, and the fixed errno message table used to render
//! primitive failure codes.

use vstd::prelude::*;
use vstd::string::StringExecFns;

use crate::text::{i64_to_string, spec_dec, spec_dec_signed, u64_to_string};

verus! {

// The errno values the modeled driver primitives report, negated, as their
// result codes.
pub const EPERM: i32 = 1;

pub const ENOENT: i32 = 2;

pub const EIO: i32 = 5;

pub const EBADF: i32 = 9;

pub const EACCES: i32 = 13;

pub const EBUSY: i32 = 16;

pub const EEXIST: i32 = 17;

pub const ENODEV: i32 = 19;

pub const EINVAL: i32 = 22;

pub const EMFILE: i32 = 24;

pub const ENOSPC: i32 = 28;

pub const ENOTEMPTY: i32 = 39;

/// A failure of the management layer: every error this library reports is one
/// of these values, never a process abort.
#[derive(Debug, PartialEq)]
pub enum HddError {
    /// A session is already open in this process.
    AlreadySingletonActive,
    /// The device path does not name an existing regular file.
    PathNotFound { path: String },
    /// The device path's encoded byte length exceeds the primitive's
    /// fixed buffer, one byte of which is reserved for a terminator.
    PathTooLong { length: usize },
    /// A path or partition name is not representable in the primitive's
    /// expected text encoding.
    NameEncodingInvalid,
    /// A requested partition size in mebibytes is not a power of two.
    InvalidPartitionSize,
    /// An on-disk partition type code is not a recognised kind.
    InvalidPartitionKind { code: u32 },
    /// A partition kind for which no driver exists cannot be formatted.
    NotFormattableKind,
    /// The session already holds a mount of this file-system type.
    AlreadyMounted { filesystem: String },
    /// The session holds no mount of this file-system type.
    NotMounted { filesystem: String },
    /// A primitive driver call reported a nonzero result code.
    DriverFailure { context: String, code: i32 },
    /// A raw directory entry's name is not valid text.
    DirectoryEntryDecodeFailure,
    /// The operation is declared but deliberately left unimplemented.
    UnsupportedOperation,
}

/// The message of the fixed errno table for a negative primitive result code,
/// mirroring the platform error-string table for the codes the driver yields.
pub open spec fn spec_errno_message(result: i32) -> Seq<char> {
    let e = -(result as int);
    if e == EPERM as int {
        "Operation not permitted"@
    } else if e == ENOENT as int {
        "No such file or directory"@
    } else if e == EIO as int {
        "Input/output error"@
    } else if e == EBADF as int {
        "Bad file descriptor"@
    } else if e == EACCES as int {
        "Permission denied"@
    } else if e == EBUSY as int {
        "Resource busy"@
    } else if e == EEXIST as int {
        "File exists"@
    } else if e == ENODEV as int {
        "No such device"@
    } else if e == EINVAL as int {
        "Invalid argument"@
    } else if e == EMFILE as int {
        "Too many open files"@
    } else if e == ENOSPC as int {
        "No space left on device"@
    } else if e == ENOTEMPTY as int {
        "Directory not empty"@
    } else {
        "Unknown error "@ + spec_dec_signed(e)
    }
}

/// Renders a negative primitive result code through the fixed errno table.
pub fn errno_message(result: i32) -> (r: String)
    ensures
        r@ == spec_errno_message(result),
{
    let e: i64 = -(result as i64);
    if e == EPERM as i64 {
        proof { reveal_strlit("Operation not permitted"); }
        "Operation not permitted".to_owned()
    } else if e == ENOENT as i64 {
        proof { reveal_strlit("No such file or directory"); }
        "No such file or directory".to_owned()
    } else if e == EIO as i64 {
        proof { reveal_strlit("Input/output error"); }
        "Input/output error".to_owned()
    } else if e == EBADF as i64 {
        proof { reveal_strlit("Bad file descriptor"); }
        "Bad file descriptor".to_owned()
    } else if e == EACCES as i64 {
        proof { reveal_strlit("Permission denied"); }
        "Permission denied".to_owned()
    } else if e == EBUSY as i64 {
        proof { reveal_strlit("Resource busy"); }
        "Resource busy".to_owned()
    } else if e == EEXIST as i64 {
        proof { reveal_strlit("File exists"); }
        "File exists".to_owned()
    } else if e == ENODEV as i64 {
        proof { reveal_strlit("No such device"); }
        "No such device".to_owned()
    } else if e == EINVAL as i64 {
        proof { reveal_strlit("Invalid argument"); }
        "Invalid argument".to_owned()
    } else if e == EMFILE as i64 {
        proof { reveal_strlit("Too many open files"); }
        "Too many open files".to_owned()
    } else if e == ENOSPC as i64 {
        proof { reveal_strlit("No space left on device"); }
        "No space left on device".to_owned()
    } else if e == ENOTEMPTY as i64 {
        proof { reveal_strlit("Directory not empty"); }
        "Directory not empty".to_owned()
    } else {
        let r = "Unknown error ".to_owned().concat(i64_to_string(e).as_str());
        proof {
            reveal_strlit("Unknown error ");
        }
        r
    }
}

impl HddError {
    /// The human-readable message of this failure.
    pub open spec fn spec_message(&self) -> Seq<char> {
        match self {
            HddError::AlreadySingletonActive => "Only one PS2HDD instance may be mounted at a time"@,
            HddError::PathNotFound { path } => path@ + ": No such file"@,
            HddError::PathTooLong { length } => "Path of length "@ + spec_dec(*length as nat)
                + " is too long to be null-terminated"@,
            HddError::NameEncodingInvalid => "Path could not be converted to a C String"@,
            HddError::InvalidPartitionSize => "Partition size must be a power of 2"@,
            HddError::InvalidPartitionKind { .. } => "Not a valid partition kind value"@,
            HddError::NotFormattableKind => "Not a formattable partition kind"@,
            HddError::AlreadyMounted { filesystem } => "A "@ + filesystem@ + " partition is already mounted"@,
            HddError::NotMounted { filesystem } => "No "@ + filesystem@
                + " partition is mounted; nothing to unmount"@,
            HddError::DriverFailure { context, code } => context@ + ": "@ + spec_dec_signed(*code as int)
                + ", "@ + spec_errno_message(*code),
            HddError::DirectoryEntryDecodeFailure => "could not convert the directory entry name"@,
            HddError::UnsupportedOperation => "operation is not implemented"@,
        }
    }

    /// Renders this failure as its human-readable message.
    pub fn message(&self) -> (r: String)
        ensures
            r@ == self.spec_message(),
    {
        match self {
            HddError::AlreadySingletonActive => {
                proof { reveal_strlit("Only one PS2HDD instance may be mounted at a time"); }
                "Only one PS2HDD instance may be mounted at a time".to_owned()
            },
            HddError::PathNotFound { path } => {
                proof { reveal_strlit(": No such file"); }
                path.clone().concat(": No such file")
            },
            HddError::PathTooLong { length } => {
                proof {
                    reveal_strlit("Path of length ");
                    reveal_strlit(" is too long to be null-terminated");
                }
                "Path of length ".to_owned().concat(u64_to_string(*length as u64).as_str()).concat(
                    " is too long to be null-terminated",
                )
            },
            HddError::NameEncodingInvalid => {
                proof { reveal_strlit("Path could not be converted to a C String"); }
                "Path could not be converted to a C String".to_owned()
            },
            HddError::InvalidPartitionSize => {
                proof { reveal_strlit("Partition size must be a power of 2"); }
                "Partition size must be a power of 2".to_owned()
            },
            HddError::InvalidPartitionKind { .. } => {
                proof { reveal_strlit("Not a valid partition kind value"); }
                "Not a valid partition kind value".to_owned()
            },
            HddError::NotFormattableKind => {
                proof { reveal_strlit("Not a formattable partition kind"); }
                "Not a formattable partition kind".to_owned()
            },
            HddError::AlreadyMounted { filesystem } => {
                proof {
                    reveal_strlit("A ");
                    reveal_strlit(" partition is already mounted");
                }
                "A ".to_owned().concat(filesystem.as_str()).concat(" partition is already mounted")
            },
            HddError::NotMounted { filesystem } => {
                proof {
                    reveal_strlit("No ");
                    reveal_strlit(" partition is mounted; nothing to unmount");
                }
                "No ".to_owned().concat(filesystem.as_str()).concat(
                    " partition is mounted; nothing to unmount",
                )
            },
            HddError::DriverFailure { context, code } => {
                proof {
                    reveal_strlit(": ");
                    reveal_strlit(", ");
                }
                context.clone().concat(": ").concat(i64_to_string(*code as i64).as_str()).concat(
                    ", ",
                ).concat(errno_message(*code).as_str())
            },
            HddError::DirectoryEntryDecodeFailure => {
                proof { reveal_strlit("could not convert the directory entry name"); }
                "could not convert the directory entry name".to_owned()
            },
            HddError::UnsupportedOperation => {
                proof { reveal_strlit("operation is not implemented"); }
                "operation is not implemented".to_owned()
            },
        }
    }
}

} // verus!
