use vstd::prelude::*;
use crate::domain::{Id, ValidationError};
use crate::domain::artist::{Artist, ArtistView};
use crate::utils::ids::{big_endian_value, uuid_bytes, uuid_from_slice};
use crate::utils::normalizations::normalized_name;

verus! {

/// A row of the `artists` table.
#[derive(Debug, Clone)]
pub struct ArtistRow {
    pub id: Vec<u8>,
    pub name: String,
}

/// Why a row of the `artists` table is not an artist.
#[derive(Debug)]
pub enum ArtistConversionError {
    UuidConversionError(uuid::Error),
    ValidationError(ValidationError),
}

/// The artist a row holds: its id bytes must be 16 long and its name must not
/// normalise to nothing.
pub open spec fn artist_of_row(row: ArtistRow, a: ArtistView) -> bool {
    &&& row.id@.len() == 16
    &&& normalized_name(row.name@).len() > 0
    &&& a == (ArtistView { id: big_endian_value(row.id@) as Id, name: normalized_name(row.name@) })
}

impl Artist {
    /// Reads an artist out of its row.
    pub fn try_from_row(row: ArtistRow) -> (res: Result<Artist, ArtistConversionError>)
        ensures
            match res {
                Ok(a) => artist_of_row(row, a@),
                Err(ArtistConversionError::UuidConversionError(_)) => row.id@.len() != 16,
                Err(ArtistConversionError::ValidationError(v)) => row.id@.len() == 16
                    && normalized_name(row.name@).len() == 0 && v == ValidationError::NameIsEmptyString,
            },
    {
        let id = match uuid_from_slice(row.id.as_slice()) {
            Ok(v) => v,
            Err(e) => return Err(ArtistConversionError::UuidConversionError(e)),
        };
        match Artist::new(id, row.name.as_str()) {
            Ok(a) => Ok(a),
            Err(v) => Err(ArtistConversionError::ValidationError(v)),
        }
    }
}

/// The store of artists.
pub struct SqliteArtistsRepository;

impl SqliteArtistsRepository {
    pub fn new() -> (res: Self) {
        SqliteArtistsRepository
    }
}

/// Whether `row` is what storing the artist `a` writes.
pub open spec fn artist_row_of(row: ArtistRow, a: ArtistView) -> bool {
    &&& row.id@.len() == 16
    &&& big_endian_value(row.id@) == a.id as int
    &&& row.name@ == a.name
}

impl Artist {
    /// The row that stores the artist.
    pub fn to_row(&self) -> (res: ArtistRow)
        ensures
            artist_row_of(res, self@),
    {
        ArtistRow { id: uuid_bytes(self.id()), name: self.name().to_string() }
    }
}

/// An artist written to its table reads back with the same id, and with its name
/// normalised once more.
pub proof fn lemma_artist_row_round_trip(row: ArtistRow, a: ArtistView, back: ArtistView)
    requires
        artist_row_of(row, a),
        artist_of_row(row, back),
    ensures
        back.id == a.id,
        back.name == normalized_name(a.name),
{
}

} // verus!
