//! Errors surfaced to callers and the mapping of host error records.

use vstd::prelude::*;
use vstd::string::*;

use crate::wire::{
    decode_host_error, host_error_bytes, lemma_host_error, parse_host_error, text_fits,
    HostErrorModel,
};

verus! {

/// SQLite's extended result code for a failed `CHECK` constraint.
pub const SQLITE_CONSTRAINT_CHECK: u32 = 275;

/// SQLite's extended result code for a failed foreign key constraint.
pub const SQLITE_CONSTRAINT_FOREIGNKEY: u32 = 787;

/// SQLite's extended result code for a failed `NOT NULL` constraint.
pub const SQLITE_CONSTRAINT_NOTNULL: u32 = 1299;

/// SQLite's extended result code for a failed primary key constraint.
pub const SQLITE_CONSTRAINT_PRIMARYKEY: u32 = 1555;

/// SQLite's extended result code for a failed `UNIQUE` constraint.
pub const SQLITE_CONSTRAINT_UNIQUE: u32 = 2067;

/// The category of a database-level error.
#[derive(PartialEq, Eq, Structural, Clone, Copy, Debug)]
pub enum DatabaseErrorKind {
    UniqueViolation,
    ForeignKeyViolation,
    NotNullViolation,
    CheckViolation,
    Unknown,
}

/// An error of the bridge.
///
/// `ProtocolDecode` says that the bridge is broken (the host sent bytes that
/// are not a valid payload); `Database` says that the database rejected the
/// statement; `Resource` says that a host call failed before any SQL-level
/// feedback existed; `AlreadyInTransaction` refuses to open a top-level
/// transaction inside an open one.
#[derive(PartialEq, Eq, Debug)]
pub enum Error {
    ProtocolDecode,
    Database { kind: DatabaseErrorKind, message: String },
    Resource,
    AlreadyInTransaction,
}

pub open spec fn kind_of_code(code: u32) -> DatabaseErrorKind {
    if code == SQLITE_CONSTRAINT_UNIQUE || code == SQLITE_CONSTRAINT_PRIMARYKEY {
        DatabaseErrorKind::UniqueViolation
    } else if code == SQLITE_CONSTRAINT_FOREIGNKEY {
        DatabaseErrorKind::ForeignKeyViolation
    } else if code == SQLITE_CONSTRAINT_NOTNULL {
        DatabaseErrorKind::NotNullViolation
    } else if code == SQLITE_CONSTRAINT_CHECK {
        DatabaseErrorKind::CheckViolation
    } else {
        DatabaseErrorKind::Unknown
    }
}

/// Maps a host result code to an error category.
pub fn error_kind(code: u32) -> (r: DatabaseErrorKind)
    ensures
        r == kind_of_code(code),
{
    if code == SQLITE_CONSTRAINT_UNIQUE || code == SQLITE_CONSTRAINT_PRIMARYKEY {
        DatabaseErrorKind::UniqueViolation
    } else if code == SQLITE_CONSTRAINT_FOREIGNKEY {
        DatabaseErrorKind::ForeignKeyViolation
    } else if code == SQLITE_CONSTRAINT_NOTNULL {
        DatabaseErrorKind::NotNullViolation
    } else if code == SQLITE_CONSTRAINT_CHECK {
        DatabaseErrorKind::CheckViolation
    } else {
        DatabaseErrorKind::Unknown
    }
}

/// The kind and message of the error that a connection's last-error payload
/// stands for: a decodable record with a code gives that code's category and
/// its message (or a generic one); anything else gives an unknown error.
pub open spec fn error_of_payload(s: Seq<u8>) -> (DatabaseErrorKind, Seq<char>) {
    match parse_host_error(s) {
        Some(HostErrorModel { code: Some(code), message }) => (
            kind_of_code(code),
            match message {
                Some(m) => m,
                None => "sqlite error"@,
            },
        ),
        _ => (DatabaseErrorKind::Unknown, "unknown error code"@),
    }
}

/// Turns the payload of a connection's last error into a database error.
pub fn last_error(payload: &[u8]) -> (r: Error)
    ensures
        r matches Error::Database { kind, message } && (kind, message@) == error_of_payload(
            payload@,
        ),
{
    match decode_host_error(payload) {
        Ok(e) => match e.code {
            Some(code) => {
                proof {
                    lemma_host_error(e@);
                }
                let message = match e.message {
                    Some(m) => m,
                    None => String::from_str("sqlite error"),
                };
                Error::Database { kind: error_kind(code), message }
            },
            None => {
                proof {
                    lemma_host_error(e@);
                }
                Error::Database {
                    kind: DatabaseErrorKind::Unknown,
                    message: String::from_str("unknown error code"),
                }
            },
        },
        Err(_) => Error::Database {
            kind: DatabaseErrorKind::Unknown,
            message: String::from_str("unknown error code"),
        },
    }
}

/// A host error record for a violated unique or primary-key constraint is
/// reported as a unique violation with the host's message.
pub proof fn lemma_unique_violation(code: u32, message: Seq<char>)
    requires
        code == SQLITE_CONSTRAINT_UNIQUE || code == SQLITE_CONSTRAINT_PRIMARYKEY,
        text_fits(message),
    ensures
        error_of_payload(host_error_bytes(HostErrorModel { code: Some(code), message: Some(message) }))
            == (DatabaseErrorKind::UniqueViolation, message),
{
    lemma_host_error(HostErrorModel { code: Some(code), message: Some(message) });
}

} // verus!
