use vstd::prelude::*;
use crate::domain::{Id, UploadedParseError, ValidationError};
use crate::domain::audiofile::{AudioFileType, lemma_type_text_round_trip, type_of_extension, type_text};
use crate::domain::track::{Track, TrackView, track_refusal};
use crate::domain::uploaded::{Uploaded, parsed_uploaded, uploaded_text};
use crate::repository::RepositoryError;
use crate::utils::ids::{big_endian_value, uuid_bytes, uuid_from_slice};
use crate::utils::normalizations::{normalized_name, normalized_path};

verus! {

/// A row of the `tracks` table.
#[derive(Debug, Clone)]
pub struct TrackRow {
    pub id: Vec<u8>,
    pub name: String,
    pub album_id: Vec<u8>,
    pub duration: i64,
    pub file_path: String,
    pub file_size: i64,
    pub file_type: String,
    pub uploaded: String,
    pub date_added: Option<chrono::NaiveDateTime>,
}

/// Why a row of the `tracks` table is not a track.
#[derive(Debug)]
pub enum TrackConversionError {
    UuidConversionError(uuid::Error),
    IntConversionError(std::num::TryFromIntError),
    UploadedConversionError(UploadedParseError),
    ValidationError(ValidationError),
}

/// Whether the numbers of a row fit the track's fields.
pub open spec fn row_numbers_fit(row: TrackRow) -> bool {
    0 <= row.duration <= u32::MAX && 0 <= row.file_size
}

/// The track a row holds.
pub open spec fn track_of_row(row: TrackRow, t: TrackView) -> bool {
    &&& row.id@.len() == 16
    &&& row.album_id@.len() == 16
    &&& row_numbers_fit(row)
    &&& parsed_uploaded(row.uploaded@) is Some
    &&& track_refusal(row.name@, row.duration as u32, row.file_size as u64) is None
    &&& t == (TrackView {
        id: big_endian_value(row.id@) as Id,
        name: normalized_name(row.name@),
        album_id: big_endian_value(row.album_id@) as Id,
        duration: row.duration as u32,
        file_path: normalized_path(row.file_path@),
        file_size: row.file_size as u64,
        file_type: type_of_extension(row.file_type@),
        uploaded: parsed_uploaded(row.uploaded@)->0,
        date_added: row.date_added,
    })
}

impl Track {
    /// Reads a track out of its row; the ids are checked first, then the duration and
    /// the size, then the uploader, then the fields that `Track::new` checks.
    pub fn try_from_row(row: TrackRow) -> (res: Result<Track, TrackConversionError>)
        ensures
            match res {
                Ok(t) => track_of_row(row, t@),
                Err(TrackConversionError::UuidConversionError(_)) => row.id@.len() != 16 || row.album_id@.len() != 16,
                Err(TrackConversionError::IntConversionError(_)) => row.id@.len() == 16 && row.album_id@.len() == 16
                    && !row_numbers_fit(row),
                Err(TrackConversionError::UploadedConversionError(e)) => row.id@.len() == 16
                    && row.album_id@.len() == 16 && row_numbers_fit(row)
                    && parsed_uploaded(row.uploaded@) is None && e.0@ == row.uploaded@,
                Err(TrackConversionError::ValidationError(v)) => row.id@.len() == 16
                    && row.album_id@.len() == 16 && row_numbers_fit(row)
                    && parsed_uploaded(row.uploaded@) is Some
                    && track_refusal(row.name@, row.duration as u32, row.file_size as u64) == Some(v),
            },
    {
        let id = match uuid_from_slice(row.id.as_slice()) {
            Ok(v) => v,
            Err(e) => return Err(TrackConversionError::UuidConversionError(e)),
        };
        let album_id = match uuid_from_slice(row.album_id.as_slice()) {
            Ok(v) => v,
            Err(e) => return Err(TrackConversionError::UuidConversionError(e)),
        };
        let duration = match u32::try_from(row.duration) {
            Ok(d) => d,
            Err(e) => return Err(TrackConversionError::IntConversionError(e)),
        };
        let file_size = match u64::try_from(row.file_size) {
            Ok(s) => s,
            Err(e) => return Err(TrackConversionError::IntConversionError(e)),
        };
        let file_type = AudioFileType::from_extension_str(row.file_type.as_str());
        let uploaded = match Uploaded::parse(row.uploaded.as_str()) {
            Ok(u) => u,
            Err(e) => return Err(TrackConversionError::UploadedConversionError(e)),
        };
        match Track::new(
            id,
            row.name.as_str(),
            album_id,
            duration,
            row.file_path.as_str(),
            file_size,
            file_type,
            uploaded,
            row.date_added,
        ) {
            Ok(t) => Ok(t),
            Err(v) => Err(TrackConversionError::ValidationError(v)),
        }
    }
}

/// The id of a row returned by a multi-row insert: exactly 16 bytes, read big-endian.
pub fn returned_row_id(bytes: &[u8]) -> (res: Result<Id, RepositoryError>)
    ensures
        match res {
            Ok(v) => bytes@.len() == 16 && v as int == big_endian_value(bytes@),
            Err(e) => bytes@.len() != 16 && (e matches RepositoryError::InvalidUuidLength(n) && n == bytes@.len()),
        },
{
    if bytes.len() != 16 {
        return Err(RepositoryError::InvalidUuidLength(bytes.len()));
    }
    match uuid_from_slice(bytes) {
        Ok(v) => Ok(v),
        Err(e) => Err(RepositoryError::UuidConversion(e)),
    }
}

/// The store of tracks.
pub struct SqliteTracksRepository;

impl SqliteTracksRepository {
    pub fn new() -> (res: Self) {
        SqliteTracksRepository
    }
}

/// Whether `row` is what storing the track `t` writes.
pub open spec fn track_row_of(row: TrackRow, t: TrackView) -> bool {
    &&& row.id@.len() == 16
    &&& big_endian_value(row.id@) == t.id as int
    &&& row.name@ == t.name
    &&& row.album_id@.len() == 16
    &&& big_endian_value(row.album_id@) == t.album_id as int
    &&& row.duration == t.duration as i64
    &&& row.file_path@ == t.file_path
    &&& row.file_size == t.file_size as i64
    &&& row.file_type@ == type_text(t.file_type)
    &&& row.uploaded@ == uploaded_text(t.uploaded)
    &&& row.date_added == t.date_added
}

impl Track {
    /// The row that stores the track.
    pub fn to_row(&self) -> (res: TrackRow)
        ensures
            track_row_of(res, self@),
    {
        TrackRow {
            id: uuid_bytes(self.id()),
            name: self.name().to_string(),
            album_id: uuid_bytes(self.album_id()),
            duration: self.duration() as i64,
            file_path: self.file_path().to_string(),
            file_size: self.file_size() as i64,
            file_type: self.file_type().as_str().to_string(),
            uploaded: self.uploaded().as_str().to_string(),
            date_added: self.date_added(),
        }
    }
}

/// A track written to its table reads back with the same ids, duration, size,
/// kind and date, and with its name and path normalised once more; one
/// whose size fits a signed 64-bit column never fails to read for its ids or its
/// numbers.
pub proof fn lemma_track_row_round_trip(row: TrackRow, t: TrackView)
    requires
        track_row_of(row, t),
        t.file_size <= i64::MAX,
    ensures
        row.id@.len() == 16 && row.album_id@.len() == 16 && row_numbers_fit(row),
        forall|back: TrackView| #[trigger] track_of_row(row, back) ==> {
            &&& back.id == t.id
            &&& back.album_id == t.album_id
            &&& back.duration == t.duration
            &&& back.file_size == t.file_size
            &&& back.file_type == t.file_type
            &&& back.date_added == t.date_added
            &&& back.name == normalized_name(t.name)
            &&& back.file_path == normalized_path(t.file_path)
        },
{
    lemma_type_text_round_trip(t.file_type);
}

} // verus!
