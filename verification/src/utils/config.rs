//! The settings that the server and its tools read from `config.toml`.
use vstd::prelude::*;

verus! {

/// Why the settings could not be had.
#[derive(Debug, Clone)]
pub enum ConfigLoadingError {
    FailedToReadConfig(String),
    FailedToParseConfig(String),
}

/// All settings of the server.
#[derive(Debug, Clone)]
pub struct Config {
    pub server: ServerConfig,
    pub database: DatabaseConfig,
    pub media: MediaConfig,
}

/// Where the server listens.
#[derive(Debug, Clone)]
pub struct ServerConfig {
    pub host: String,
    pub port: u16,
}

/// Where the database file lies.
#[derive(Debug, Clone)]
pub struct DatabaseConfig {
    pub path: String,
}

/// Where media, tools and test material lie, and where `ffmpeg` is fetched from.
#[derive(Debug, Clone)]
pub struct MediaConfig {
    pub music_path: String,
    pub video_path: String,
    pub filesharing_path: String,
    pub ffmpeg_dir_path: String,
    pub ffmpeg_exe_path: String,
    pub ffmpeg_donwload_mirror: String,
    pub ffmpeg_sha_download_mirror: String,
    pub test_fixtures_path: String,
    pub resampled_music_path: String,
    pub audio_fixtures_json_path: String,
}

} // verus!
