//! Stored entities: how rows become entities, how database failures are classified,
//! and what the answers of the database mean.
pub mod albums_repo;
pub mod artists_repo;
pub mod tracks_repo;

use vstd::prelude::*;
use crate::domain::{Id, UploadedParseError};
use crate::utils::ids::{parsed_uuid, uuid_from_text};
use crate::utils::numbers::{i64_text, signed_decimal};
use crate::utils::text::same_text;
use albums_repo::AlbumConversionError;
use artists_repo::ArtistConversionError;
use tracks_repo::TrackConversionError;

pub use albums_repo::SqliteAlbumsRepository;
pub use artists_repo::SqliteArtistsRepository;
pub use tracks_repo::SqliteTracksRepository;

verus! {

/// Why an operation on the stored library failed.
#[derive(Debug)]
pub enum RepositoryError {
    InvalidPathEncoding(String),
    IdNotFound(Id),
    UnknownError(String),
    InvalidUuidLength(usize),
    IntConversion(std::num::TryFromIntError),
    UuidConversion(uuid::Error),
    ArtistDataMapping(ArtistConversionError),
    AlbumDataMapping(AlbumConversionError),
    TrackDataMapping(TrackConversionError),
    UploadedConversion(UploadedParseError),
    RowNotFound,
    ConnectionError(String),
    GenericDatabaseError(String),
    ConstraintViolation { description: String },
    RowDecodingError(String),
    ColumnGetError,
}

/// The kinds of database driver failure that the library tells apart.
#[derive(Debug, Clone, Copy, PartialEq, Eq, Structural)]
pub enum SqlxErrorKind {
    RowNotFound,
    PoolTimedOut,
    Io,
    Tls,
    Decode,
    Database,
    Other,
}

/// What the library reads of a database driver failure: its kind, its own text,
/// the text of the decoding failure or the database's message, and the database's
/// error code.
#[derive(Debug, Clone)]
pub struct SqlxErrorInfo {
    pub kind: SqlxErrorKind,
    pub text: String,
    pub detail: String,
    pub code: Option<String>,
}

/// The SQLite codes of constraint violations: general, unique, primary key, foreign key.
pub open spec fn is_constraint_code(code: Seq<char>) -> bool {
    code == "19"@ || code == "2067"@ || code == "1555"@ || code == "787"@
}

/// Whether `e` is the classification of the failure `info`.
pub open spec fn classified(info: SqlxErrorInfo, e: RepositoryError) -> bool {
    match info.kind {
        SqlxErrorKind::RowNotFound => e is RowNotFound,
        SqlxErrorKind::PoolTimedOut | SqlxErrorKind::Io | SqlxErrorKind::Tls => e matches RepositoryError::ConnectionError(t) && t@ == info.text@,
        SqlxErrorKind::Decode => e matches RepositoryError::RowDecodingError(t) && t@ == info.detail@,
        SqlxErrorKind::Database => if info.code matches Some(c) && is_constraint_code(c@) {
            e matches RepositoryError::ConstraintViolation { description } && description@ == info.detail@
        } else {
            e matches RepositoryError::GenericDatabaseError(t) && t@ == info.text@
        },
        SqlxErrorKind::Other => e matches RepositoryError::GenericDatabaseError(t) && t@ == info.text@,
    }
}

fn is_constraint_code_text(code: &str) -> (res: bool)
    ensures
        res == is_constraint_code(code@),
{
    same_text(code, "19") || same_text(code, "2067") || same_text(code, "1555") || same_text(code, "787")
}

impl RepositoryError {
    /// Classifies a database driver failure: a missing row, a connection failure, a
    /// decoding failure, a constraint violation, or any other database error.
    pub fn from_sqlx_error(sqlx_error: SqlxErrorInfo) -> (res: Self)
        ensures
            classified(sqlx_error, res),
    {
        match sqlx_error.kind {
            SqlxErrorKind::RowNotFound => RepositoryError::RowNotFound,
            SqlxErrorKind::PoolTimedOut | SqlxErrorKind::Io | SqlxErrorKind::Tls => RepositoryError::ConnectionError(sqlx_error.text),
            SqlxErrorKind::Decode => RepositoryError::RowDecodingError(sqlx_error.detail),
            SqlxErrorKind::Database => {
                let constraint = match &sqlx_error.code {
                    Some(c) => is_constraint_code_text(c.as_str()),
                    None => false,
                };
                if constraint {
                    RepositoryError::ConstraintViolation { description: sqlx_error.detail }
                } else {
                    RepositoryError::GenericDatabaseError(sqlx_error.text)
                }
            },
            SqlxErrorKind::Other => RepositoryError::GenericDatabaseError(sqlx_error.text),
        }
    }
}

/// The text of the failure for an `EXISTS` answer other than 0 or 1.
pub open spec fn unexpected_exists_text(subject: Seq<char>, answer: i64) -> Seq<char> {
    "Unexpected value returned from EXISTS query for "@ + subject + ": "@ + signed_decimal(answer as int)
}

/// What an `EXISTS` query's answer means: 0 is no, 1 is yes, anything else is a
/// failure that names the subject (such as `ID <uuid>` or `path <path>`) and the answer.
pub fn exists_answer(answer: i64, subject: &str) -> (res: Result<bool, RepositoryError>)
    ensures
        answer == 0 ==> (res matches Ok(b) && !b),
        answer == 1 ==> (res matches Ok(b) && b),
        answer != 0 && answer != 1 ==> (res matches Err(RepositoryError::UnknownError(t)) && t@
            == unexpected_exists_text(subject@, answer)),
{
    if answer == 0 {
        Ok(false)
    } else if answer == 1 {
        Ok(true)
    } else {
        let text = "Unexpected value returned from EXISTS query for ".to_string().concat(subject).concat(": ").concat(i64_text(answer).as_str());
        Err(RepositoryError::UnknownError(text))
    }
}

/// What a delete by id means: a removed row is success, none is an unknown id.
pub fn delete_outcome(rows_affected: u64, id: Id) -> (res: Result<(), RepositoryError>)
    ensures
        rows_affected > 0 ==> res is Ok,
        rows_affected == 0 ==> (res matches Err(RepositoryError::IdNotFound(i)) && i == id),
{
    if rows_affected > 0 {
        Ok(())
    } else {
        Err(RepositoryError::IdNotFound(id))
    }
}

/// Something that names an entity: an id, or the text of a UUID.
pub trait IntoUuid {
    fn into_uuid(&self) -> Result<Id, RepositoryError>;
}

impl IntoUuid for u128 {
    fn into_uuid(&self) -> (res: Result<Id, RepositoryError>)
        ensures
            res matches Ok(v) && v == *self,
    {
        Ok(*self)
    }
}

impl IntoUuid for &str {
    fn into_uuid(&self) -> (res: Result<Id, RepositoryError>)
        ensures
            match res {
                Ok(v) => parsed_uuid(self@) == Some(v),
                Err(e) => parsed_uuid(self@) is None && e is UuidConversion,
            },
    {
        match uuid_from_text(self) {
            Ok(v) => Ok(v),
            Err(e) => Err(RepositoryError::UuidConversion(e)),
        }
    }
}

impl IntoUuid for String {
    fn into_uuid(&self) -> (res: Result<Id, RepositoryError>)
        ensures
            match res {
                Ok(v) => parsed_uuid(self@) == Some(v),
                Err(e) => parsed_uuid(self@) is None && e is UuidConversion,
            },
    {
        match uuid_from_text(self.as_str()) {
            Ok(v) => Ok(v),
            Err(e) => Err(RepositoryError::UuidConversion(e)),
        }
    }
}

} // verus!
