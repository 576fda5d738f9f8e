//! What the web pages answer; the server itself runs outside the library.
use vstd::prelude::*;
use crate::domain::track::Track;
use crate::repository::RepositoryError;

verus! {

/// Why a page could not be built.
#[derive(Debug)]
pub enum WebLayerError {
    RepositoryError(RepositoryError),
    AskamaError(String),
}

/// The answer to a request for a track's audio.
#[derive(Debug)]
pub enum TrackAnswer {
    /// Send the file at this path.
    ServeFile(String),
    /// Answer with this HTTP status and text.
    Refuse { status: u16, message: String },
}

/// The answer to a request for a track, given what looking its id up in the
/// database gave back: the track's file when it is there, 404 when it is not,
/// and 500 when the lookup failed.
pub fn track_answer(lookup: &Result<Option<Track>, RepositoryError>) -> (res: TrackAnswer)
    ensures
        match lookup {
            Ok(Some(t)) => res matches TrackAnswer::ServeFile(p) && p@ == t@.file_path,
            Ok(None) => res matches TrackAnswer::Refuse { status, message }
                && status == 404 && message@ == "Track not found"@,
            Err(_) => res matches TrackAnswer::Refuse { status, message }
                && status == 500 && message@ == "Database error"@,
        },
{
    match lookup {
        Ok(Some(track)) => TrackAnswer::ServeFile(track.file_path().to_string()),
        Ok(None) => TrackAnswer::Refuse { status: 404, message: "Track not found".to_string() },
        Err(_) => TrackAnswer::Refuse { status: 500, message: "Database error".to_string() },
    }
}

} // verus!
