use home_server::domain::audiofile::AudioFileType;
use home_server::domain::track::Track;
use home_server::domain::uploaded::Uploaded;
use home_server::repository::RepositoryError;
use home_server::utils::db::{db_file_path, db_url_for};
use home_server::utils::normalizations::{normalize_name, normalize_path};
use home_server::web::{track_answer, TrackAnswer};

#[test]
fn names_are_normalised() {
    assert_eq!(normalize_name("  Hello, World!  "), "hello world");
    assert_eq!(normalize_name("ＡＢＣ"), "abc");
    assert_eq!(normalize_name("Ünïcödé"), "ünïcödé");
    assert_eq!(normalize_name("a\tb"), "a\tb");
    assert_eq!(normalize_name("???"), "");
    assert_eq!(normalize_name(""), "");
}

#[test]
fn paths_are_normalised() {
    assert_eq!(normalize_path("C:\\Music\\Song.FLAC"), "c:/music/song.flac");
    assert_eq!(normalize_path("already/fine.mp3"), "already/fine.mp3");
}

#[test]
fn database_urls() {
    assert_eq!(db_file_path("sqlite:./data/db/database.db"), "./data/db/database.db");
    assert_eq!(db_file_path("./plain.db"), "./plain.db");
    assert_eq!(db_file_path("sqlite"), "sqlite");
    assert_eq!(db_url_for("./data/db/database.db"), "sqlite:./data/db/database.db");
    assert_eq!(db_file_path(&db_url_for("x.db")), "x.db");
}

#[test]
fn track_requests_are_answered() {
    let t = Track::new(1, "a", 2, 3, "m/a.flac", 4, AudioFileType::Flac, Uploaded::Denis, None).unwrap();
    match track_answer(&Ok(Some(t))) {
        TrackAnswer::ServeFile(p) => assert_eq!(p, "m/a.flac"),
        other => panic!("unexpected: {:?}", other),
    }
    match track_answer(&Ok(None)) {
        TrackAnswer::Refuse { status, message } => {
            assert_eq!(status, 404);
            assert_eq!(message, "Track not found");
        }
        other => panic!("unexpected: {:?}", other),
    }
    match track_answer(&Err(RepositoryError::RowNotFound)) {
        TrackAnswer::Refuse { status, message } => {
            assert_eq!(status, 500);
            assert_eq!(message, "Database error");
        }
        other => panic!("unexpected: {:?}", other),
    }
}

#[test]
fn normalised_names_ignore_padding_and_keep_only_letters_digits_and_spaces() {
    assert_eq!(normalize_name(" \t Mötley Crüe! \n"), normalize_name("Mötley Crüe!"));
    assert!(normalize_name("A-ha (Take On Me)").chars().all(|c| c.is_alphanumeric() || c.is_whitespace()));
}

#[test]
fn normalised_paths_have_no_backslash() {
    assert!(!normalize_path("C:\\Music\\A\\b.mp3").contains('\\'));
}
