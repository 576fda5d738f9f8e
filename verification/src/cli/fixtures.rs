//! Test material under `./test_fixtures`, for development machines.
use vstd::prelude::*;
use crate::domain::audiofile::{type_text, AudioFileType};
use crate::services::prepare::{fixture_file_name, fixture_metadata, fixture_parts, is_fixture_type, pair_texts};

verus! {

/// Why setting up the test material failed.
#[derive(Debug)]
pub enum FixturesSetupError {
    IOError(String),
    SystemRootVariableNotFound(String),
    IcaclsNotFound,
    InvalidPath(String),
    IcaclsCommandError(String),
    FixturesCacheSerializationError(String),
    UnsupportedFileType(String),
    FfmpegCommandError(String),
}

/// A test audio file: where it goes and the tags it carries.
#[derive(Debug)]
pub struct AudioFixture {
    pub path: String,
    pub metadata: Vec<(String, String)>,
}

impl AudioFixture {
    /// The test audio file of a type, under `./test_fixtures/files`; only FLAC,
    /// MP3 and WAV have one.
    pub fn new(audio_type: AudioFileType) -> (res: Result<AudioFixture, FixturesSetupError>)
        ensures
            is_fixture_type(audio_type) ==> (res matches Ok(f)
                && f.path@ == "./test_fixtures/files/"@ + fixture_file_name(audio_type)
                && pair_texts(f.metadata@) == fixture_metadata(audio_type)),
            !is_fixture_type(audio_type) ==> (res matches Err(FixturesSetupError::UnsupportedFileType(n))
                && n@ == type_text(audio_type)),
    {
        match fixture_parts(audio_type) {
            Some((file_name, metadata)) => {
                let path = "./test_fixtures/files/".to_string().concat(file_name.as_str());
                Ok(AudioFixture { path, metadata })
            },
            None => Err(FixturesSetupError::UnsupportedFileType(audio_type.as_str().to_string())),
        }
    }
}

/// What was done to the test material, so that it can be undone.
#[derive(Debug)]
pub struct FixturesContext {
    pub fixture_path: String,
    pub stripped_files: Vec<String>,
    pub stripped_dirs: Vec<String>,
    pub fixtures_cache_path: String,
}

impl FixturesContext {
    /// Nothing done yet, with the material under `./test_fixtures`.
    pub fn new() -> (res: FixturesContext)
        ensures
            res.fixture_path@ == "./test_fixtures"@,
            res.stripped_files@.len() == 0,
            res.stripped_dirs@.len() == 0,
            res.fixtures_cache_path@ == "./test_fixtures/fixtures_state.json"@,
    {
        FixturesContext {
            fixture_path: "./test_fixtures".to_string(),
            stripped_files: Vec::new(),
            stripped_dirs: Vec::new(),
            fixtures_cache_path: "./test_fixtures/fixtures_state.json".to_string(),
        }
    }
}

} // verus!
