//! Audio files that the test suite describes in a JSON file.
use vstd::prelude::*;
use crate::domain::audiofile::{AudioFileMetadata, AudioFileType};

verus! {

/// Why the fixture descriptions could not be loaded.
#[derive(Debug)]
pub enum FixturesLoadingError {
    IOError(String),
    SerializationError(String),
}

/// One audio file of the test material, with the metadata it is known to carry.
#[derive(Debug)]
pub struct AudioFixture {
    pub file_type: AudioFileType,
    pub file_name: String,
    pub metadata: AudioFileMetadata,
}

} // verus!
