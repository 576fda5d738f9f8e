use home_server::cli::fixtures::{AudioFixture as DevAudioFixture, FixturesContext as DevFixturesContext, FixturesSetupError as DevFixturesSetupError};
use home_server::cli::{PrepareAction, PrepareArgs, ServeAction, ServerArgs};
use home_server::domain::audiofile::AudioFileType;
use home_server::services::prepare::{
    compare_checksums, dirs_to_prepare, extract_ffmpeg, ffmpeg_plan, fixture_ffmpeg_args, is_wanted_entry, restore_order,
    to_lower_hex, verify_checksums, AudioFixture, FixturesContext, FixturesSetupError, PrepareServiceError,
};
use home_server::utils::config::{Config, DatabaseConfig, MediaConfig, ServerConfig};

fn config(root: &str) -> Config {
    Config {
        server: ServerConfig { host: "0.0.0.0".to_string(), port: 8080 },
        database: DatabaseConfig { path: format!("{}/data/db/database.db", root) },
        media: MediaConfig {
            music_path: format!("{}/data/media/music", root),
            video_path: format!("{}/data/media/video", root),
            filesharing_path: format!("{}/data/filesharing", root),
            ffmpeg_dir_path: format!("{}/ffmpeg", root),
            ffmpeg_exe_path: format!("{}/ffmpeg/ffmpeg.exe", root),
            ffmpeg_donwload_mirror: "mock this!".to_string(),
            ffmpeg_sha_download_mirror: "mock this".to_string(),
            test_fixtures_path: format!("{}/test_fixtures", root),
            resampled_music_path: format!("{}/data/media/music/.resampled", root),
            audio_fixtures_json_path: format!("{}/./audio_fixtures.json", root),
        },
    }
}

#[test]
fn dirs_to_prepare_lists_every_configured_folder() {
    let c = config("/tmp/x");
    let dirs = dirs_to_prepare(&c).unwrap();
    assert_eq!(
        dirs,
        vec![
            "/tmp/x/data/media/music/.resampled",
            "/tmp/x/data/media/video",
            "/tmp/x/data/media/video",
            "/tmp/x/ffmpeg",
            "/tmp/x/test_fixtures",
            "/tmp/x/data/filesharing",
            "/tmp/x/data/db",
        ]
    );
    assert!(dirs[0].starts_with(&c.media.music_path));
}

#[test]
fn dirs_to_prepare_needs_a_database_folder() {
    let mut c = config("/tmp/x");
    c.database.path = "/".to_string();
    assert!(dirs_to_prepare(&c).is_none());
}

#[test]
fn lower_hex_writes_two_digits_per_byte() {
    assert_eq!(to_lower_hex(&[0x00, 0x0f, 0xa0, 0xff]), "000fa0ff");
    assert_eq!(to_lower_hex(&[]), "");
}

#[test]
fn checksums_of_a_known_input() {
    let abc = "ba7816bf8f01cfea414140de5dae2223b00361a396177a9cb410ff61f20015ad".to_string();
    assert!(verify_checksums(b"abc", abc.clone()).is_ok());
    match verify_checksums(b"abd", abc.clone()) {
        Err(PrepareServiceError::ChecksumMismatch { actual, expected }) => {
            assert_eq!(expected, abc);
            assert_eq!(actual.len(), 64);
            assert_ne!(actual, abc);
        }
        other => panic!("unexpected: {:?}", other),
    }
    assert!(compare_checksums("a".to_string(), "a".to_string()).is_ok());
    assert!(matches!(compare_checksums("a".to_string(), "b".to_string()), Err(PrepareServiceError::ChecksumMismatch { .. })));
}

#[test]
fn ffmpeg_plan_for_config() {
    let plan = ffmpeg_plan(&config("/r"));
    assert_eq!(plan.executable_path, "/r/ffmpeg/ffmpeg.exe");
    assert_eq!(plan.archive_path, "/r/ffmpeg/ffmpeg_zip.7z");
    assert_eq!(plan.download_url, "mock this!");
    assert_eq!(plan.checksum_url, "mock this");
    assert_eq!(plan.executable_name, "ffmpeg.exe");
    assert_eq!(plan.unpack_dir, "/r/ffmpeg");
}

#[test]
fn archive_entries_to_unpack() {
    assert!(is_wanted_entry(false, "ffmpeg-7.1-essentials_build/bin/ffmpeg.exe", "ffmpeg.exe", false));
    assert!(!is_wanted_entry(true, "bin/ffmpeg.exe", "ffmpeg.exe", false));
    assert!(!is_wanted_entry(false, "bin/ffmpeg.exe", "ffmpeg.exe", true));
    assert!(!is_wanted_entry(false, "bin/ffprobe.exe", "ffmpeg.exe", false));
    assert!(!is_wanted_entry(false, "exe", "ffmpeg.exe", false));
}

#[test]
fn fixtures_for_supported_types() {
    let c = config("/r");
    let flac = AudioFixture::new(AudioFileType::Flac, &c).unwrap();
    assert_eq!(flac.path, "/r/test_fixtures/files/flac_valid_metadata.flac");
    assert_eq!(flac.metadata.len(), 7);
    assert_eq!(flac.metadata[0], ("title".to_string(), "FLAC test title".to_string()));
    assert_eq!(flac.metadata[5], ("track".to_string(), "1/1".to_string()));
    let mp3 = AudioFixture::new(AudioFileType::Mp3, &c).unwrap();
    assert_eq!(mp3.path, "/r/test_fixtures/files/mp3_valid_metadata.mp3");
    assert_eq!(mp3.metadata[5], ("track".to_string(), "1".to_string()));
    let wav = AudioFixture::new(AudioFileType::Wav, &c).unwrap();
    assert_eq!(wav.metadata[6], ("comment".to_string(), "WAV test comment".to_string()));
    match AudioFixture::new(AudioFileType::Unknown, &c) {
        Err(FixturesSetupError::UnsupportedFileType(t)) => assert_eq!(t, "unknown"),
        other => panic!("unexpected: {:?}", other),
    }
}

#[test]
fn dev_fixtures_live_under_test_fixtures() {
    let wav = DevAudioFixture::new(AudioFileType::Wav).unwrap();
    assert_eq!(wav.path, "./test_fixtures/files/wav_valid_metadata.wav");
    assert_eq!(wav.metadata[0], ("title".to_string(), "WAV test title".to_string()));
    assert!(matches!(DevAudioFixture::new(AudioFileType::Unknown), Err(DevFixturesSetupError::UnsupportedFileType(_))));
    let ctx = DevFixturesContext::new();
    assert_eq!(ctx.fixture_path, "./test_fixtures");
    assert_eq!(ctx.fixtures_cache_path, "./test_fixtures/fixtures_state.json");
}

#[test]
fn fixtures_context_starts_empty() {
    let ctx = FixturesContext::new();
    assert_eq!(ctx.fixture_path, "./test_fixtures");
    assert!(ctx.stripped_files.is_empty());
    assert!(ctx.stripped_dirs.is_empty());
    assert_eq!(ctx.fixtures_cache_path, "./test_fixtures/fixtures_state.json");
}

#[test]
fn fixture_arguments_for_ffmpeg() {
    let metadata = vec![("title".to_string(), "T".to_string()), ("date".to_string(), "2023".to_string())];
    assert_eq!(
        fixture_ffmpeg_args("out.flac", &metadata),
        vec![
            "-y", "-f", "lavfi", "-i", "sine=frequency=880:duration=5",
            "-metadata", "title=T", "-metadata", "date=2023", "out.flac",
        ]
    );
}

#[test]
fn folders_are_restored_deepest_first() {
    let dirs = vec![
        "./t/dirs/inaccessible_dir".to_string(),
        "./t/dirs/accessible_dir/inaccessible_dir".to_string(),
        "./t/a".to_string(),
        "./t/dirs/other".to_string(),
    ];
    assert_eq!(
        restore_order(&dirs),
        vec![
            "./t/dirs/accessible_dir/inaccessible_dir",
            "./t/dirs/inaccessible_dir",
            "./t/dirs/other",
            "./t/a",
        ]
    );
    assert!(restore_order(&vec![]).is_empty());
}

#[test]
fn serve_flags_choose_one_task() {
    let none = ServerArgs { dry_start: false, scan: false, resample: false, sync: false };
    assert_eq!(none.action(), ServeAction::Full);
    assert_eq!(ServerArgs { dry_start: true, ..none }.action(), ServeAction::DryStart);
    assert_eq!(ServerArgs { scan: true, ..none }.action(), ServeAction::Scan);
    assert_eq!(ServerArgs { resample: true, ..none }.action(), ServeAction::Resample);
    assert_eq!(ServerArgs { sync: true, ..none }.action(), ServeAction::Sync);
    assert_eq!(ServerArgs { dry_start: true, sync: true, ..none }.action(), ServeAction::DryStart);
    assert_eq!(PrepareArgs { dev: true }.action(), PrepareAction::Devspace);
    assert_eq!(PrepareArgs { dev: false }.action(), PrepareAction::Userspace);
}

fn archive(entries: &[(&str, &[u8])]) -> Vec<u8> {
    let mut writer = sevenz_rust2::ArchiveWriter::new(std::io::Cursor::new(Vec::new())).unwrap();
    for (name, data) in entries {
        writer.push_archive_entry(sevenz_rust2::ArchiveEntry::new_file(name), Some(*data)).unwrap();
    }
    writer.finish().unwrap().into_inner()
}

#[test]
fn ffmpeg_is_extracted_from_the_archive() {
    let bytes = archive(&[
        ("ffmpeg-7.1/README.txt", b"readme"),
        ("ffmpeg-7.1/bin/ffprobe.exe", b"probe"),
        ("ffmpeg-7.1/bin/ffmpeg.exe", b"hello world!"),
    ]);
    assert_eq!(extract_ffmpeg(&bytes, "ffmpeg.exe").unwrap(), b"hello world!".to_vec());
    match extract_ffmpeg(&bytes, "ffplay.exe") {
        Err(PrepareServiceError::FailedToFindFFmpegInsideArchive(n)) => assert_eq!(n, "ffplay.exe"),
        other => panic!("unexpected: {:?}", other),
    }
    assert!(matches!(extract_ffmpeg(b"not an archive", "ffmpeg.exe"), Err(PrepareServiceError::ErrorExtractingFfmpeg(_))));
}
