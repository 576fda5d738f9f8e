use vstd::prelude::*;
use crate::domain::{Id, ValidationError};
use crate::domain::album::{Album, AlbumView};
use crate::utils::ids::{big_endian_value, uuid_bytes, uuid_from_slice};
use crate::utils::normalizations::normalized_name;

verus! {

/// A row of the `albums` table.
#[derive(Debug, Clone)]
pub struct AlbumRow {
    pub id: Vec<u8>,
    pub name: String,
    pub artist_id: Vec<u8>,
    pub year: Option<i64>,
}

/// Why a row of the `albums` table is not an album.
#[derive(Debug)]
pub enum AlbumConversionError {
    UuidConversionError(uuid::Error),
    ValidationError(ValidationError),
    YearLessOrEqualToZero(i64),
    YearOutOfRange(std::num::TryFromIntError),
}

/// The year a row holds, when it is a positive `u32` or absent.
pub open spec fn row_year(year: Option<i64>) -> Option<Option<u32>> {
    match year {
        None => Some(None),
        Some(y) => if 0 < y <= u32::MAX {
            Some(Some(y as u32))
        } else {
            None
        },
    }
}

/// The album a row holds: a usable year, ids of 16 bytes, and a name that does not
/// normalise to nothing.
pub open spec fn album_of_row(row: AlbumRow, a: AlbumView) -> bool {
    &&& row_year(row.year) is Some
    &&& row.id@.len() == 16
    &&& row.artist_id@.len() == 16
    &&& normalized_name(row.name@).len() > 0
    &&& a == (AlbumView {
        id: big_endian_value(row.id@) as Id,
        name: normalized_name(row.name@),
        artist_id: big_endian_value(row.artist_id@) as Id,
        year: row_year(row.year)->0,
    })
}

impl Album {
    /// Reads an album out of its row; the year is checked first, then the album's id,
    /// then the artist's id, then the name.
    pub fn try_from_row(row: AlbumRow) -> (res: Result<Album, AlbumConversionError>)
        ensures
            match res {
                Ok(a) => album_of_row(row, a@),
                Err(AlbumConversionError::YearLessOrEqualToZero(y)) => row.year == Some(y) && y <= 0,
                Err(AlbumConversionError::YearOutOfRange(_)) => row.year matches Some(y) && y > u32::MAX,
                Err(AlbumConversionError::UuidConversionError(_)) => row_year(row.year) is Some
                    && (row.id@.len() != 16 || row.artist_id@.len() != 16),
                Err(AlbumConversionError::ValidationError(v)) => row_year(row.year) is Some
                    && row.id@.len() == 16 && row.artist_id@.len() == 16
                    && normalized_name(row.name@).len() == 0 && v == ValidationError::NameIsEmptyString,
            },
    {
        let year = match row.year {
            Some(int_year) => {
                if int_year <= 0 {
                    return Err(AlbumConversionError::YearLessOrEqualToZero(int_year));
                }
                match u32::try_from(int_year) {
                    Ok(y) => Some(y),
                    Err(e) => return Err(AlbumConversionError::YearOutOfRange(e)),
                }
            },
            None => None,
        };
        let id = match uuid_from_slice(row.id.as_slice()) {
            Ok(v) => v,
            Err(e) => return Err(AlbumConversionError::UuidConversionError(e)),
        };
        let artist_id = match uuid_from_slice(row.artist_id.as_slice()) {
            Ok(v) => v,
            Err(e) => return Err(AlbumConversionError::UuidConversionError(e)),
        };
        match Album::new(id, row.name.as_str(), artist_id, year) {
            Ok(a) => Ok(a),
            Err(v) => Err(AlbumConversionError::ValidationError(v)),
        }
    }
}

/// The store of albums.
pub struct SqliteAlbumsRepository;

impl SqliteAlbumsRepository {
    pub fn new() -> (res: Self) {
        SqliteAlbumsRepository
    }
}

/// The year column that stores an album's year.
pub open spec fn year_column(year: Option<u32>) -> Option<i64> {
    match year {
        Some(y) => Some(y as i64),
        None => None,
    }
}

/// Whether `row` is what storing the album `a` writes.
pub open spec fn album_row_of(row: AlbumRow, a: AlbumView) -> bool {
    &&& row.id@.len() == 16
    &&& big_endian_value(row.id@) == a.id as int
    &&& row.name@ == a.name
    &&& row.artist_id@.len() == 16
    &&& big_endian_value(row.artist_id@) == a.artist_id as int
    &&& row.year == year_column(a.year)
}

impl Album {
    /// The row that stores the album.
    pub fn to_row(&self) -> (res: AlbumRow)
        ensures
            album_row_of(res, self@),
    {
        let year = match self.year() {
            Some(y) => Some(y as i64),
            None => None,
        };
        AlbumRow { id: uuid_bytes(self.id()), name: self.name().to_string(), artist_id: uuid_bytes(self.artist_id()), year }
    }
}

/// An album written to its table reads back with the same ids and year, and with
/// its name normalised once more; an album without a year, or with a year above
/// zero, never fails to read for its year or its ids.
pub proof fn lemma_album_row_round_trip(row: AlbumRow, a: AlbumView)
    requires
        album_row_of(row, a),
    ensures
        (a.year is None || a.year->0 > 0) ==> row_year(row.year) is Some,
        forall|back: AlbumView| #[trigger] album_of_row(row, back) ==> {
            &&& back.id == a.id
            &&& back.artist_id == a.artist_id
            &&& back.year == a.year
            &&& back.name == normalized_name(a.name)
        },
{
}

} // verus!
