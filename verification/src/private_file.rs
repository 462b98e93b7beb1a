//! Which files may hold a secret: regular files that their owner keeps private.

use vstd::prelude::*;

use crate::push_error::PushSecurityError;

verus! {

/// A secret file that was refused. It tells nothing of the path or the content.
#[derive(Clone, Copy, Debug, PartialEq, Eq, Structural)]
pub struct PrivateFileError;

impl PrivateFileError {
    /// The text that the error is shown with.
    pub fn message(self) -> (r: &'static str)
        ensures
            r@ == "private file rejected"@,
    {
        "private file rejected"
    }
}

/// What the descriptor of an opened file says of it.
#[derive(Clone, Copy, Debug, PartialEq, Eq, Structural)]
pub struct FileFacts {
    pub regular: bool,
    pub owner: u32,
    pub mode: u32,
    pub length: u64,
}

/// Whether a file is a regular one that belongs to a user and that nobody else can
/// read, write or run.
pub open spec fn owner_private(f: FileFacts, user: u32) -> bool {
    f.regular && f.owner == user && f.mode % 64 == 0
}

fn is_owner_private(f: &FileFacts, user: u32) -> (r: bool)
    ensures
        r == owner_private(*f, user),
{
    let mode: u32 = f.mode;
    assert(mode & 63u32 == mode % 64u32) by (bit_vector);
    f.regular && f.owner == user && (mode & 63) == 0
}

/// Whether a path is absolute.
fn is_absolute_path(path: &[u8]) -> (r: bool)
    ensures
        r == (path@.len() > 0 && path@[0] == 47),
{
    path.len() > 0 && path[0] == 47
}

/// Whether a path may be opened.
pub fn check_private_path(path: &[u8]) -> (r: Result<(), PrivateFileError>)
    ensures
        r == (if path@.len() > 0 && path@[0] == 47 {
            Ok::<(), PrivateFileError>(())
        } else {
            Err(PrivateFileError)
        }),
{
    if is_absolute_path(path) {
        Ok(())
    } else {
        Err(PrivateFileError)
    }
}

/// How many bytes are read of a file that must hold exactly `exact` bytes: one more,
/// so that a longer file shows.
pub fn exact_read_limit(f: &FileFacts, user: u32, exact: usize) -> (r: Result<u64, PrivateFileError>)
    ensures
        r == (if owner_private(*f, user) && exact < usize::MAX {
            Ok::<u64, PrivateFileError>((exact + 1) as u64)
        } else {
            Err(PrivateFileError)
        }),
{
    if !is_owner_private(f, user) {
        return Err(PrivateFileError);
    }
    match exact.checked_add(1) {
        Some(limit) => Ok(limit as u64),
        None => Err(PrivateFileError),
    }
}

/// Takes the bytes of a secret file of exactly `exact` bytes.
pub fn read_owner_private_exact(bytes: Vec<u8>, exact: usize) -> (r: Result<Vec<u8>, PrivateFileError>)
    ensures
        match r {
            Ok(value) => bytes@.len() == exact && value@ == bytes@,
            Err(_) => bytes@.len() != exact,
        },
{
    if bytes.len() != exact {
        return Err(PrivateFileError);
    }
    Ok(bytes)
}

/// Whether a path may be opened as a callback secret.
pub fn check_callback_path(path: &[u8]) -> (r: Result<(), PushSecurityError>)
    ensures
        r == (if path@.len() > 0 && path@[0] == 47 {
            Ok::<(), PushSecurityError>(())
        } else {
            Err(PushSecurityError::InvalidSecret)
        }),
{
    if is_absolute_path(path) {
        Ok(())
    } else {
        Err(PushSecurityError::InvalidSecret)
    }
}

/// How many bytes are read of a callback secret of at most `maximum` bytes: one more,
/// so that a file that grows shows.
pub fn bounded_read_limit(f: &FileFacts, user: u32, maximum: usize) -> (r: Result<u64, PushSecurityError>)
    requires
        maximum < usize::MAX,
    ensures
        r == (if owner_private(*f, user) && f.length <= maximum {
            Ok::<u64, PushSecurityError>((maximum + 1) as u64)
        } else {
            Err(PushSecurityError::InvalidSecret)
        }),
{
    if !is_owner_private(f, user) || f.length > maximum as u64 {
        return Err(PushSecurityError::InvalidSecret);
    }
    Ok((maximum + 1) as u64)
}

/// Takes the bytes of a callback secret of at most `maximum` bytes.
pub fn read_private_file(bytes: Vec<u8>, maximum: usize) -> (r: Result<Vec<u8>, PushSecurityError>)
    ensures
        match r {
            Ok(value) => bytes@.len() <= maximum && value@ == bytes@,
            Err(e) => e == PushSecurityError::InvalidSecret && bytes@.len() > maximum,
        },
{
    if bytes.len() > maximum {
        return Err(PushSecurityError::InvalidSecret);
    }
    Ok(bytes)
}

/// A private file gives no permission to its group or to others: none of the lowest six bits of its
/// mode is set. What its owner may do is up to them.
pub proof fn law_private_files_are_their_owners_alone(f: FileFacts, user: u32, mode: u32)
    requires
        f.mode == mode,
    ensures
        owner_private(f, user) <==> f.regular && f.owner == user && mode & 0o077 == 0,
        owner_private(f, user) ==> mode & 0o070 == 0 && mode & 0o007 == 0,
{
    assert(mode & 0o077 == mode % 64) by (bit_vector);
    assert(mode & 0o077 == 0 ==> mode & 0o070 == 0 && mode & 0o007 == 0) by (bit_vector);
}

} // verus!
