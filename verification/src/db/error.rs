//! The errors of the storage layer and of the services above it.

use vstd::prelude::*;

use vstd::string::*;

use crate::utils::lineage_utils::DepthExceeded;
use crate::utils::text::{append_decimal, decimal, joined};

verus! {

/// Why a piece of data was rejected. The caller can mend each of these.
#[derive(Debug, PartialEq)]
pub enum InvalidData {
    /// A lineage longer than the configured limit.
    DepthExceeded(DepthExceeded),
    /// A role name that is none of the five known ones.
    UnknownRole(String),
    /// A permission name that is none of the three known ones.
    UnknownPermission(String),
    /// A content tag that is none of the six known ones.
    UnknownContentType(String),
    /// A payload or a row that could not be decoded, with the decoder's
    /// words.
    Malformed(String),
}

#[derive(Debug, PartialEq)]
pub enum DbError {
    /// The storage could not be reached.
    ConnectionError(String),
    /// The storage refused or failed a statement.
    QueryError(String),
    /// A value could not be written out for the storage.
    SerializationError(String),
    /// The message, branch or share that was asked for is not there.
    NotFound,
    /// A message or branch with the same key is there already.
    Conflict,
    InvalidData(InvalidData),
    /// The schema could not be brought up to date.
    MigrationError(String),
    /// Stored data contradicts what the library holds to be true of it.
    Internal(String),
}

impl DbError {
    /// Whether the caller can mend the request. The other errors are faults
    /// of the storage or of stored data.
    pub open spec fn caller_fixable(self) -> bool {
        self is NotFound || self is Conflict || self is InvalidData
    }

    pub fn is_caller_fixable(&self) -> (fixable: bool)
        ensures
            fixable == self.caller_fixable(),
    {
        match self {
            DbError::NotFound | DbError::Conflict | DbError::InvalidData(_) => true,
            _ => false,
        }
    }
}

/// The words for a lineage that is too deep.
pub open spec fn depth_exceeded_text(exceeded: DepthExceeded) -> Seq<char> {
    "Lineage depth "@ + decimal(exceeded.depth as nat) + " exceeds maximum allowed depth "@
        + decimal(exceeded.max_depth as nat)
}

/// The words for a piece of data that was rejected.
pub open spec fn invalid_data_text(reason: InvalidData) -> Seq<char> {
    match reason {
        InvalidData::DepthExceeded(exceeded) => depth_exceeded_text(exceeded),
        InvalidData::UnknownRole(name) => "Invalid role: "@ + name@,
        InvalidData::UnknownPermission(name) => "Invalid permission: "@ + name@,
        InvalidData::UnknownContentType(tag) => "Failed to deserialize content: Unknown content type: "@
            + tag@,
        InvalidData::Malformed(words) => words@,
    }
}

/// The words for an error of the storage layer.
pub open spec fn error_text(error: DbError) -> Seq<char> {
    match error {
        DbError::ConnectionError(words) => "Database connection error: "@ + words@,
        DbError::QueryError(words) => "Query error: "@ + words@,
        DbError::SerializationError(words) => "Serialization error: "@ + words@,
        DbError::NotFound => "Not found"@,
        DbError::Conflict => "Conflict"@,
        DbError::InvalidData(reason) => "Invalid data: "@ + invalid_data_text(reason),
        DbError::MigrationError(words) => "Migration error: "@ + words@,
        DbError::Internal(words) => "Internal error: "@ + words@,
    }
}

impl DepthExceeded {
    /// The words for this refusal.
    pub fn message(&self) -> (text: String)
        ensures
            text@ == depth_exceeded_text(*self),
    {
        let mut text = "Lineage depth ".to_owned();
        append_decimal(&mut text, self.depth);
        text.append(" exceeds maximum allowed depth ");
        append_decimal(&mut text, self.max_depth);
        text
    }
}

impl InvalidData {
    /// The words for this rejection.
    pub fn message(&self) -> (text: String)
        ensures
            text@ == invalid_data_text(*self),
    {
        match self {
            InvalidData::DepthExceeded(exceeded) => exceeded.message(),
            InvalidData::UnknownRole(name) => joined("Invalid role: ", name.as_str()),
            InvalidData::UnknownPermission(name) => joined("Invalid permission: ", name.as_str()),
            InvalidData::UnknownContentType(tag) => joined(
                "Failed to deserialize content: Unknown content type: ",
                tag.as_str(),
            ),
            InvalidData::Malformed(words) => words.clone(),
        }
    }
}

impl DbError {
    /// The words for this error.
    pub fn message(&self) -> (text: String)
        ensures
            text@ == error_text(*self),
    {
        match self {
            DbError::ConnectionError(words) => joined("Database connection error: ", words.as_str()),
            DbError::QueryError(words) => joined("Query error: ", words.as_str()),
            DbError::SerializationError(words) => joined("Serialization error: ", words.as_str()),
            DbError::NotFound => "Not found".to_owned(),
            DbError::Conflict => "Conflict".to_owned(),
            DbError::InvalidData(reason) => joined("Invalid data: ", reason.message().as_str()),
            DbError::MigrationError(words) => joined("Migration error: ", words.as_str()),
            DbError::Internal(words) => joined("Internal error: ", words.as_str()),
        }
    }
}

/// The error with which an append is refused for its depth.
pub open spec fn depth_exceeded(depth: nat, max_depth: usize) -> DbError {
    DbError::InvalidData(InvalidData::DepthExceeded(DepthExceeded { depth: depth as usize, max_depth }))
}

} // verus!
