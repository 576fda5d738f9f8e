pub mod text;
pub mod normalizations;
pub mod ids;
pub mod numbers;
pub mod paths;
pub mod config;
pub mod db;
pub mod audio_fixtures;
