//! The errors that the boundary shows to a client.

use vstd::prelude::*;

use crate::db::error::{error_text, invalid_data_text, DbError};
use crate::utils::text::joined;

verus! {

#[derive(Debug, PartialEq)]
pub enum ApiError {
    Database(DbError),
    NotFound(String),
    BadRequest(String),
    Unauthorized(String),
    Forbidden(String),
    Internal(String),
}

/// Whether `shown` is what a client sees of `error`: a missing resource and
/// rejected data are the client's to mend and are named as such, a conflict
/// and every fault of the storage are handed on as they are.
pub open spec fn shows_error(shown: ApiError, error: DbError) -> bool {
    match error {
        DbError::NotFound => shown matches ApiError::NotFound(words) && words@
            == "Resource not found"@,
        DbError::InvalidData(reason) => shown matches ApiError::BadRequest(words) && words@
            == invalid_data_text(reason),
        other => shown == ApiError::Database(other),
    }
}

/// The HTTP status of an error.
pub open spec fn status_of(error: ApiError) -> u16 {
    match error {
        ApiError::Database(_) => 500,
        ApiError::NotFound(_) => 404,
        ApiError::BadRequest(_) => 400,
        ApiError::Unauthorized(_) => 401,
        ApiError::Forbidden(_) => 403,
        ApiError::Internal(_) => 500,
    }
}

/// The words that a client is shown for an error.
pub open spec fn words_of(error: ApiError) -> Seq<char> {
    match error {
        ApiError::Database(e) => "Database error: "@ + error_text(e),
        ApiError::NotFound(words) => words@,
        ApiError::BadRequest(words) => words@,
        ApiError::Unauthorized(words) => words@,
        ApiError::Forbidden(words) => words@,
        ApiError::Internal(words) => words@,
    }
}

impl From<DbError> for ApiError {
    fn from(err: DbError) -> (shown: Self)
        ensures
            shows_error(shown, err),
    {
        match err {
            DbError::NotFound => ApiError::NotFound("Resource not found".to_owned()),
            DbError::InvalidData(reason) => ApiError::BadRequest(reason.message()),
            other => ApiError::Database(other),
        }
    }
}

/// The conversion is stated by `shows_error`: the words of a rejection are
/// built, so the result is given by its characters and not as a value.
impl vstd::std_specs::convert::FromSpecImpl<DbError> for ApiError {
    open spec fn obeys_from_spec() -> bool {
        false
    }

    open spec fn from_spec(err: DbError) -> Self {
        arbitrary()
    }
}

impl ApiError {
    /// The HTTP status under which this error is answered.
    pub fn status(&self) -> (status: u16)
        ensures
            status == status_of(*self),
    {
        match self {
            ApiError::Database(_) => 500,
            ApiError::NotFound(_) => 404,
            ApiError::BadRequest(_) => 400,
            ApiError::Unauthorized(_) => 401,
            ApiError::Forbidden(_) => 403,
            ApiError::Internal(_) => 500,
        }
    }

    /// The words with which this error is answered.
    pub fn message(&self) -> (words: String)
        ensures
            words@ == words_of(*self),
    {
        match self {
            ApiError::Database(e) => joined("Database error: ", e.message().as_str()),
            ApiError::NotFound(words) => words.clone(),
            ApiError::BadRequest(words) => words.clone(),
            ApiError::Unauthorized(words) => words.clone(),
            ApiError::Forbidden(words) => words.clone(),
            ApiError::Internal(words) => words.clone(),
        }
    }
}

} // verus!
