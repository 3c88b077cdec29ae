//! Errors reported by the dispatcher.

use vstd::prelude::*;
use vstd::std_specs::convert::FromSpecImpl;

verus! {

#[verifier::external_type_specification]
#[verifier::external_body]
pub struct ExIoError(std::io::Error);

/// The code sent to a peer for [`DbError::InvalidArgument`].
pub const INVALID_ARGUMENT: i32 = 22;

/// The code sent to a peer for an I/O failure that carries no code of its own.
pub const IO_FAILURE: i32 = 5;

/// What can go wrong while a request is routed.
#[derive(Debug)]
pub enum DbError {
    /// A transport or storage operation failed.
    Io(std::io::Error),
    /// A header was too short or a handle pointed outside its table.
    InvalidArgument,
}

pub type DbResult<T> = Result<T, DbError>;

/// The code for an I/O failure whose operating-system code, if any, is `os`.
pub open spec fn spec_io_code(os: Option<i32>) -> i32 {
    match os {
        Some(code) => code,
        None => IO_FAILURE,
    }
}

/// `std::io::Error::raw_os_error`: the operating system's code for the error,
/// if it has one. Nothing is claimed of the value.
#[verifier::external_body]
fn raw_os_error(e: &std::io::Error) -> (os: Option<i32>) {
    e.raw_os_error()
}

/// The code for an I/O failure whose operating-system code, if any, is `os`.
pub fn io_code(os: Option<i32>) -> (code: i32)
    ensures
        code == spec_io_code(os),
{
    match os {
        Some(code) => code,
        None => IO_FAILURE,
    }
}

impl DbError {
    /// The numeric code reported to the peer for this error: the
    /// invalid-argument code, or for an I/O failure the operating
    /// system's code where it has one.
    pub fn code(&self) -> (code: i32)
        ensures
            *self is InvalidArgument ==> code == INVALID_ARGUMENT,
    {
        match self {
            DbError::InvalidArgument => INVALID_ARGUMENT,
            DbError::Io(e) => io_code(raw_os_error(e)),
        }
    }
}

impl From<std::io::Error> for DbError {
    fn from(err: std::io::Error) -> (e: DbError) {
        DbError::Io(err)
    }
}

impl FromSpecImpl<std::io::Error> for DbError {
    open spec fn obeys_from_spec() -> bool {
        true
    }

    open spec fn from_spec(err: std::io::Error) -> DbError {
        DbError::Io(err)
    }
}

} // verus!
