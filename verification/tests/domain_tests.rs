use home_server::domain::album::Album;
use home_server::domain::artist::Artist;
use home_server::domain::audiofile::{AudioFileMetadata, AudioFileType, LoftyFileType, TagFields, TaggedFileInfo};
use home_server::domain::track::Track;
use home_server::domain::uploaded::Uploaded;
use home_server::domain::{BatchDeleteReport, BatchSaveOutcome, BatchSaveReport, ValidationError};
use home_server::repository::RepositoryError;

fn track(path: &str) -> Track {
    Track::new(7, "Song", 9, 180, path, 1024, AudioFileType::Flac, Uploaded::Denis, None).unwrap()
}

#[test]
fn artist_new_normalises_name() {
    let artist = Artist::new(1, "  The Beatles!  ").unwrap();
    assert_eq!(artist.id(), 1);
    assert_eq!(artist.name(), "the beatles");
}

#[test]
fn artist_new_refuses_empty_name() {
    assert!(matches!(Artist::new(1, "  !!! "), Err(ValidationError::NameIsEmptyString)));
    assert!(matches!(Artist::new(1, ""), Err(ValidationError::NameIsEmptyString)));
}

#[test]
fn artist_set_name_and_id() {
    let mut artist = Artist::new(1, "Queen").unwrap();
    assert!(artist.set_name("ABBA").is_ok());
    assert_eq!(artist.name(), "abba");
    assert!(matches!(artist.set_name("   "), Err(ValidationError::NameIsEmptyString)));
    assert_eq!(artist.name(), "abba");
    artist.set_id(42);
    assert_eq!(artist.id(), 42);
}

#[test]
fn artists_with_the_same_name_are_equal() {
    let a = Artist::new(1, "Queen").unwrap();
    let b = Artist::new(2, "QUEEN").unwrap();
    let c = Artist::new(1, "Kino").unwrap();
    assert!(a == b);
    assert!(a != c);
}

#[test]
fn album_new_and_getters() {
    let album = Album::new(3, "Abbey Road", 1, Some(1969)).unwrap();
    assert_eq!(album.id(), 3);
    assert_eq!(album.name(), "abbey road");
    assert_eq!(album.artist_id(), 1);
    assert_eq!(album.year(), Some(1969));
    assert!(matches!(Album::new(3, "?!", 1, None), Err(ValidationError::NameIsEmptyString)));
}

#[test]
fn albums_are_equal_by_name_and_artist() {
    let a = Album::new(1, "Help", 5, None).unwrap();
    let b = Album::new(2, "HELP", 5, Some(1965)).unwrap();
    let c = Album::new(1, "Help", 6, None).unwrap();
    assert!(a == b);
    assert!(a != c);
}

#[test]
fn track_new_normalises_and_validates() {
    let t = Track::new(7, "  My Song ", 9, 180, "C:\\Music\\A.flac", 1024, AudioFileType::Flac, Uploaded::Masha, None).unwrap();
    assert_eq!(t.id(), 7);
    assert_eq!(t.name(), "my song");
    assert_eq!(t.album_id(), 9);
    assert_eq!(t.duration(), 180);
    assert_eq!(t.file_path(), "c:/music/a.flac");
    assert_eq!(t.file_size(), 1024);
    assert_eq!(t.file_type(), AudioFileType::Flac);
    assert_eq!(t.uploaded(), Uploaded::Masha);
    assert_eq!(t.date_added(), None);
}

#[test]
fn track_new_refusals_in_order() {
    let r = Track::new(1, "", 1, 0, "a.mp3", 0, AudioFileType::Mp3, Uploaded::Denis, None);
    assert!(matches!(r, Err(ValidationError::NameIsEmptyString)));
    let r = Track::new(1, "x", 1, 0, "a.mp3", 0, AudioFileType::Mp3, Uploaded::Denis, None);
    assert!(matches!(r, Err(ValidationError::DurationIsZero)));
    let r = Track::new(1, "x", 1, 3, "a.mp3", 0, AudioFileType::Mp3, Uploaded::Denis, None);
    assert!(matches!(r, Err(ValidationError::FileSizeIsZero)));
}

#[test]
fn tracks_are_equal_by_path() {
    assert!(track("a/b.flac") == track("A\\B.flac"));
    assert!(track("a/b.flac") != track("a/c.flac"));
}

#[test]
fn uploaded_parse_and_text() {
    assert_eq!(Uploaded::parse("  MASHA ").unwrap(), Uploaded::Masha);
    assert_eq!(Uploaded::parse("denis").unwrap(), Uploaded::Denis);
    let err = Uploaded::parse("kolya").unwrap_err();
    assert_eq!(err.0, "kolya");
    assert_eq!(Uploaded::Masha.as_str(), "masha");
    assert_eq!(Uploaded::Denis.to_text(), "denis".to_string());
    assert_eq!(Uploaded::parse(Uploaded::Masha.as_str()).unwrap(), Uploaded::Masha);
}

#[test]
fn audio_file_type_from_extension() {
    assert_eq!(AudioFileType::from_extension_str("flac"), AudioFileType::Flac);
    assert_eq!(AudioFileType::from_extension_str("mp3"), AudioFileType::Mp3);
    assert_eq!(AudioFileType::from_extension_str("wav"), AudioFileType::Wav);
    assert_eq!(AudioFileType::from_extension_str("FLAC"), AudioFileType::Unknown);
    assert_eq!(AudioFileType::from_extension_str("ogg"), AudioFileType::Unknown);
    assert_eq!(AudioFileType::from_os_ext(b"wav"), AudioFileType::Wav);
    assert_eq!(AudioFileType::from_os_ext(&[0xff, 0xfe]), AudioFileType::Unknown);
}

#[test]
fn audio_file_type_text_round_trip() {
    for t in [AudioFileType::Flac, AudioFileType::Mp3, AudioFileType::Wav, AudioFileType::Unknown] {
        assert_eq!(AudioFileType::from_extension_str(t.as_str()), t);
    }
    assert_eq!(AudioFileType::Unknown.as_str(), "unknown");
}

#[test]
fn audio_file_type_supported_extensions() {
    assert!(AudioFileType::is_supported_extension(b"FLAC"));
    assert!(AudioFileType::is_supported_extension(b"Mp3"));
    assert!(AudioFileType::is_supported_extension(b"wav"));
    assert!(!AudioFileType::is_supported_extension(b"ogg"));
    assert!(!AudioFileType::is_supported_extension(b""));
}

#[test]
fn audio_file_type_from_lofty() {
    assert_eq!(AudioFileType::from_lofty(&LoftyFileType::Flac), AudioFileType::Flac);
    assert_eq!(AudioFileType::from_lofty(&LoftyFileType::Mpeg), AudioFileType::Mp3);
    assert_eq!(AudioFileType::from_lofty(&LoftyFileType::Wav), AudioFileType::Wav);
    assert_eq!(AudioFileType::from_lofty(&LoftyFileType::Opus), AudioFileType::Unknown);
    assert_eq!(AudioFileType::from_lofty(&LoftyFileType::Custom("x".to_string())), AudioFileType::Unknown);
}

#[test]
fn resample_target_rates() {
    assert_eq!(AudioFileType::Flac.get_resample_target_rate(), 88200);
    assert_eq!(AudioFileType::Wav.get_resample_target_rate(), 88200);
    assert_eq!(AudioFileType::Mp3.get_resample_target_rate(), 44100);
    assert_eq!(AudioFileType::Unknown.get_resample_target_rate(), 44100);
    for t in [AudioFileType::Flac, AudioFileType::Mp3, AudioFileType::Wav, AudioFileType::Unknown] {
        assert!(t.get_resample_target_rate() <= 88200);
    }
}

#[test]
fn metadata_default_values() {
    let m = AudioFileMetadata::default();
    assert_eq!(m.artist_name, "unknown artist");
    assert_eq!(m.album_name, "unknown album");
    assert_eq!(m.album_year, None);
    assert_eq!(m.sample_rate, None);
}

#[test]
fn metadata_from_tags() {
    let info = TaggedFileInfo {
        primary_tag: None,
        first_tag: Some(TagFields {
            artist: Some("The Doors".to_string()),
            album: Some("L.A. Woman".to_string()),
            year: Some(1971),
            title: Some("Riders on the Storm".to_string()),
        }),
        duration_secs: 434,
        sample_rate: Some(44100),
    };
    let m = AudioFileMetadata::from_tagged(&info);
    assert_eq!(m.artist_name, "the doors");
    assert_eq!(m.album_name, "la woman");
    assert_eq!(m.album_year, Some(1971));
    assert_eq!(m.track_name, "riders on the storm");
    assert_eq!(m.track_duration, 434);
    assert_eq!(m.sample_rate, Some(44100));
}

#[test]
fn metadata_extract_or_default_on_failure() {
    let m = AudioFileMetadata::extract_or_default(Err("unreadable".to_string()));
    assert_eq!(m, AudioFileMetadata::default());
    let info = TaggedFileInfo { primary_tag: None, first_tag: None, duration_secs: 5, sample_rate: Some(96000) };
    let m = AudioFileMetadata::extract_or_default(Ok(info));
    assert_eq!(m.artist_name, "unknown artist");
}

#[test]
fn batch_save_report_partitions_outcomes() {
    let mut report = BatchSaveReport::new();
    assert!(report.successful_ids().is_empty());
    report.outcomes.push(BatchSaveOutcome { batch_index: 0, result: Ok(11) });
    report.outcomes.push(BatchSaveOutcome { batch_index: 1, result: Err(RepositoryError::RowNotFound) });
    report.outcomes.push(BatchSaveOutcome { batch_index: 2, result: Ok(13) });
    assert_eq!(report.successful_ids(), vec![11, 13]);
    let failed = report.failed();
    assert_eq!(failed.len(), 1);
    assert_eq!(failed[0].batch_index, 1);
    assert_eq!(report.successful_ids().len() + report.failed().len(), report.outcomes.len());
}

#[test]
fn batch_delete_report_starts_empty() {
    let report = BatchDeleteReport::new();
    assert!(report.deleted_ids.is_empty());
    assert!(report.failed.is_empty());
}

#[test]
fn metadata_prefers_the_primary_tag() {
    let tag = |artist: &str| TagFields { artist: Some(artist.to_string()), album: None, year: None, title: None };
    let info = TaggedFileInfo { primary_tag: Some(tag("Primary")), first_tag: Some(tag("First")), duration_secs: 1, sample_rate: None };
    assert_eq!(AudioFileMetadata::from_tagged(&info).artist_name, "primary");
}

#[test]
fn batch_save_report_records_in_order() {
    let mut report = BatchSaveReport::new();
    report.record(0, Ok(5));
    report.record(1, Err(RepositoryError::RowNotFound));
    assert_eq!(report.outcomes.len(), 2);
    assert_eq!(report.outcomes[0].batch_index, 0);
    assert!(matches!(report.outcomes[1].result, Err(RepositoryError::RowNotFound)));
    assert_eq!(report.successful_ids(), vec![5]);
}
