use home_server::domain::audiofile::AudioFileType;
use home_server::domain::uploaded::Uploaded;
use home_server::domain::ValidationError;
use home_server::repository::albums_repo::{AlbumConversionError, AlbumRow, SqliteAlbumsRepository};
use home_server::repository::artists_repo::{ArtistConversionError, ArtistRow, SqliteArtistsRepository};
use home_server::repository::tracks_repo::{returned_row_id, SqliteTracksRepository, TrackConversionError, TrackRow};
use home_server::repository::{delete_outcome, exists_answer, IntoUuid, RepositoryError, SqlxErrorInfo, SqlxErrorKind};
use home_server::domain::album::Album;
use home_server::domain::artist::Artist;
use home_server::domain::track::Track;

fn id_bytes(v: u128) -> Vec<u8> {
    v.to_be_bytes().to_vec()
}

fn info(kind: SqlxErrorKind, code: Option<&str>) -> SqlxErrorInfo {
    SqlxErrorInfo {
        kind,
        text: "text".to_string(),
        detail: "detail".to_string(),
        code: code.map(|c| c.to_string()),
    }
}

#[test]
fn repositories_are_made() {
    let _a = SqliteArtistsRepository::new();
    let _b = SqliteAlbumsRepository::new();
    let _c = SqliteTracksRepository::new();
}

#[test]
fn artist_from_row() {
    let artist = Artist::try_from_row(ArtistRow { id: id_bytes(0x0102), name: "Nirvana".to_string() }).unwrap();
    assert_eq!(artist.id(), 0x0102);
    assert_eq!(artist.name(), "nirvana");
    let short = Artist::try_from_row(ArtistRow { id: vec![1, 2, 3], name: "x".to_string() });
    assert!(matches!(short, Err(ArtistConversionError::UuidConversionError(_))));
    let empty = Artist::try_from_row(ArtistRow { id: id_bytes(1), name: "  ".to_string() });
    assert!(matches!(empty, Err(ArtistConversionError::ValidationError(ValidationError::NameIsEmptyString))));
}

#[test]
fn album_from_row() {
    let row = AlbumRow { id: id_bytes(5), name: "Nevermind".to_string(), artist_id: id_bytes(6), year: Some(1991) };
    let album = Album::try_from_row(row).unwrap();
    assert_eq!(album.id(), 5);
    assert_eq!(album.artist_id(), 6);
    assert_eq!(album.name(), "nevermind");
    assert_eq!(album.year(), Some(1991));

    let no_year = AlbumRow { id: id_bytes(5), name: "x".to_string(), artist_id: id_bytes(6), year: None };
    assert_eq!(Album::try_from_row(no_year).unwrap().year(), None);

    let zero = AlbumRow { id: vec![], name: "x".to_string(), artist_id: id_bytes(6), year: Some(0) };
    assert!(matches!(Album::try_from_row(zero), Err(AlbumConversionError::YearLessOrEqualToZero(0))));

    let huge = AlbumRow { id: id_bytes(5), name: "x".to_string(), artist_id: id_bytes(6), year: Some(1i64 << 40) };
    assert!(matches!(Album::try_from_row(huge), Err(AlbumConversionError::YearOutOfRange(_))));

    let bad_id = AlbumRow { id: id_bytes(5), name: "x".to_string(), artist_id: vec![0; 15], year: Some(2000) };
    assert!(matches!(Album::try_from_row(bad_id), Err(AlbumConversionError::UuidConversionError(_))));

    let no_name = AlbumRow { id: id_bytes(5), name: "...".to_string(), artist_id: id_bytes(6), year: None };
    assert!(matches!(Album::try_from_row(no_name), Err(AlbumConversionError::ValidationError(ValidationError::NameIsEmptyString))));
}

fn track_row() -> TrackRow {
    TrackRow {
        id: id_bytes(77),
        name: "Lithium".to_string(),
        album_id: id_bytes(5),
        duration: 257,
        file_path: "Music\\Nirvana\\Lithium.flac".to_string(),
        file_size: 4096,
        file_type: "flac".to_string(),
        uploaded: "Masha".to_string(),
        date_added: None,
    }
}

#[test]
fn track_from_row() {
    let t = Track::try_from_row(track_row()).unwrap();
    assert_eq!(t.id(), 77);
    assert_eq!(t.album_id(), 5);
    assert_eq!(t.name(), "lithium");
    assert_eq!(t.duration(), 257);
    assert_eq!(t.file_path(), "music/nirvana/lithium.flac");
    assert_eq!(t.file_size(), 4096);
    assert_eq!(t.file_type(), AudioFileType::Flac);
    assert_eq!(t.uploaded(), Uploaded::Masha);
}

#[test]
fn track_from_row_refusals() {
    let mut row = track_row();
    row.album_id = vec![1];
    assert!(matches!(Track::try_from_row(row), Err(TrackConversionError::UuidConversionError(_))));

    let mut row = track_row();
    row.duration = -1;
    assert!(matches!(Track::try_from_row(row), Err(TrackConversionError::IntConversionError(_))));

    let mut row = track_row();
    row.file_size = -5;
    assert!(matches!(Track::try_from_row(row), Err(TrackConversionError::IntConversionError(_))));

    let mut row = track_row();
    row.uploaded = "somebody".to_string();
    match Track::try_from_row(row) {
        Err(TrackConversionError::UploadedConversionError(e)) => assert_eq!(e.0, "somebody"),
        other => panic!("unexpected: {:?}", other),
    }

    let mut row = track_row();
    row.duration = 0;
    assert!(matches!(Track::try_from_row(row), Err(TrackConversionError::ValidationError(ValidationError::DurationIsZero))));

    let mut row = track_row();
    row.file_type = "ogg".to_string();
    assert_eq!(Track::try_from_row(row).unwrap().file_type(), AudioFileType::Unknown);
}

#[test]
fn returned_ids_must_be_sixteen_bytes() {
    assert_eq!(returned_row_id(&id_bytes(0xdead_beef)).unwrap(), 0xdead_beef);
    assert!(matches!(returned_row_id(&[1, 2, 3]), Err(RepositoryError::InvalidUuidLength(3))));
}

#[test]
fn sqlx_errors_are_classified() {
    assert!(matches!(RepositoryError::from_sqlx_error(info(SqlxErrorKind::RowNotFound, None)), RepositoryError::RowNotFound));
    match RepositoryError::from_sqlx_error(info(SqlxErrorKind::Io, None)) {
        RepositoryError::ConnectionError(t) => assert_eq!(t, "text"),
        other => panic!("unexpected: {:?}", other),
    }
    match RepositoryError::from_sqlx_error(info(SqlxErrorKind::Decode, None)) {
        RepositoryError::RowDecodingError(t) => assert_eq!(t, "detail"),
        other => panic!("unexpected: {:?}", other),
    }
    match RepositoryError::from_sqlx_error(info(SqlxErrorKind::Database, Some("2067"))) {
        RepositoryError::ConstraintViolation { description } => assert_eq!(description, "detail"),
        other => panic!("unexpected: {:?}", other),
    }
    match RepositoryError::from_sqlx_error(info(SqlxErrorKind::Database, Some("1"))) {
        RepositoryError::GenericDatabaseError(t) => assert_eq!(t, "text"),
        other => panic!("unexpected: {:?}", other),
    }
    match RepositoryError::from_sqlx_error(info(SqlxErrorKind::Other, None)) {
        RepositoryError::GenericDatabaseError(t) => assert_eq!(t, "text"),
        other => panic!("unexpected: {:?}", other),
    }
}

#[test]
fn exists_answers() {
    assert_eq!(exists_answer(0, "ID x").unwrap(), false);
    assert_eq!(exists_answer(1, "ID x").unwrap(), true);
    match exists_answer(-7, "path a/b") {
        Err(RepositoryError::UnknownError(t)) => {
            assert_eq!(t, "Unexpected value returned from EXISTS query for path a/b: -7")
        }
        other => panic!("unexpected: {:?}", other),
    }
}

#[test]
fn delete_outcomes() {
    assert!(delete_outcome(1, 9).is_ok());
    assert!(matches!(delete_outcome(0, 9), Err(RepositoryError::IdNotFound(9))));
}

#[test]
fn ids_from_text() {
    let id: u128 = 0x67e55044_10b1_426f_9247_bb680e5fe0c8;
    assert_eq!(id.into_uuid().unwrap(), id);
    assert_eq!("67e55044-10b1-426f-9247-bb680e5fe0c8".into_uuid().unwrap(), id);
    assert_eq!("67e5504410b1426f9247bb680e5fe0c8".to_string().into_uuid().unwrap(), id);
    assert!(matches!("not a uuid".into_uuid(), Err(RepositoryError::UuidConversion(_))));
}

#[test]
fn stored_rows_read_back() {
    let artist = Artist::new(0x1234_5678_9abc_def0_1122_3344_5566_7788, "The Cure").unwrap();
    let row = artist.to_row();
    assert_eq!(row.id, id_bytes(0x1234_5678_9abc_def0_1122_3344_5566_7788));
    let back = Artist::try_from_row(row).unwrap();
    assert_eq!(back.id(), artist.id());
    assert_eq!(back.name(), artist.name());

    let album = Album::new(9, "Disintegration", artist.id(), Some(1989)).unwrap();
    let back = Album::try_from_row(album.to_row()).unwrap();
    assert_eq!(back.id(), 9);
    assert_eq!(back.artist_id(), artist.id());
    assert_eq!(back.year(), Some(1989));
    assert_eq!(back.name(), "disintegration");

    let when = chrono::NaiveDate::from_ymd_opt(2020, 5, 6).unwrap().and_hms_opt(7, 8, 9).unwrap();
    let track = Track::new(u128::MAX, "Pictures of You", 9, 448, "m/cure/pictures.flac", 1 << 40, AudioFileType::Flac, Uploaded::Masha, Some(when)).unwrap();
    let row = track.to_row();
    assert_eq!(row.file_type, "flac");
    assert_eq!(row.uploaded, "masha");
    assert_eq!(row.file_size, 1 << 40);
    let back = Track::try_from_row(row).unwrap();
    assert_eq!(back.id(), u128::MAX);
    assert_eq!(back.album_id(), 9);
    assert_eq!(back.name(), track.name());
    assert_eq!(back.file_path(), track.file_path());
    assert_eq!(back.duration(), 448);
    assert_eq!(back.file_size(), 1 << 40);
    assert_eq!(back.file_type(), AudioFileType::Flac);
    assert_eq!(back.uploaded(), Uploaded::Masha);
    assert_eq!(back.date_added(), Some(when));
}

#[test]
fn an_album_of_year_zero_does_not_read_back() {
    let album = Album::new(1, "Untitled", 2, Some(0)).unwrap();
    assert!(matches!(Album::try_from_row(album.to_row()), Err(AlbumConversionError::YearLessOrEqualToZero(0))));
}

#[test]
fn exists_answer_names_the_smallest_answer() {
    match exists_answer(i64::MIN, "ID x") {
        Err(RepositoryError::UnknownError(t)) => {
            assert_eq!(t, "Unexpected value returned from EXISTS query for ID x: -9223372036854775808")
        }
        other => panic!("unexpected: {:?}", other),
    }
}
