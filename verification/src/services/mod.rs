pub mod resample;
pub mod scanner;
pub mod sync;
pub mod prepare;

use vstd::prelude::*;
use crate::domain::ValidationError;
use crate::repository::RepositoryError;

verus! {

/// Why a scan of the music library failed, or what it skipped.
#[derive(Debug)]
pub enum ScanError {
    WalkdirError(String),
    RootDirAccessError { path: String, source: String },
    IOError(String),
}

/// Why a synchronisation of the library with the database failed.
#[derive(Debug)]
pub enum SyncServiceError {
    ConfigLoadingError(String),
    RepositoryError(RepositoryError),
    Sqlx(String),
    IOError(String),
    FailedToReadAudioFile(String),
    FailedToExtractMetadata(String),
    FailedToExtractExtension(String),
    ScanError(ScanError),
    DomainStructValidationError(ValidationError),
}

} // verus!
