use home_server::domain::audiofile::{AudioFileDescriptor, AudioFileMetadata, AudioFileType, LoftyFileType, TagFields, TaggedFileInfo};
use home_server::services::resample::{
    ffmpeg_args, finish_descriptor, should_move, DescriptorOutcome, DescriptorPlan, ResampleConfig, ResampleError, ResampleReport,
    ResampleStrategy, SkipReason,
};
use home_server::services::scanner::{EntryAction, MediaScanner, ProbeReport, ScanResult};

fn descriptor(path: &str, rate: Option<u32>, file_type: AudioFileType) -> AudioFileDescriptor {
    let mut metadata = AudioFileMetadata::default();
    metadata.sample_rate = rate;
    AudioFileDescriptor { path: path.to_string(), file_size: 100, file_type, metadata }
}

#[test]
fn scanner_recognises_audio_files() {
    let scanner = MediaScanner::new("./data/media/music");
    assert_eq!(scanner.music_lib_path, "./data/media/music");
    assert!(scanner.is_audio_file("a/b/song.FLAC"));
    assert!(scanner.is_audio_file("song.mp3"));
    assert!(scanner.is_audio_file("x.Wav"));
    assert!(!scanner.is_audio_file("notes.txt"));
    assert!(!scanner.is_audio_file("no_extension"));
    assert!(!scanner.is_audio_file(".flac"));
}

#[test]
fn scanner_entry_actions() {
    let scanner = MediaScanner::new("m");
    assert_eq!(scanner.entry_action("m/dir", true, false), EntryAction::SkipDirOrLink);
    assert_eq!(scanner.entry_action("m/link.flac", false, true), EntryAction::SkipDirOrLink);
    assert_eq!(scanner.entry_action("m/cover.jpg", false, false), EntryAction::SkipUnsupported);
    assert_eq!(scanner.entry_action("m/a.wav", false, false), EntryAction::Process);
}

#[test]
fn scanner_type_from_extension() {
    let scanner = MediaScanner::new("m");
    assert_eq!(scanner.type_from_ext("m/a.flac"), AudioFileType::Flac);
    assert_eq!(scanner.type_from_ext("m/a.MP3"), AudioFileType::Unknown);
    assert_eq!(scanner.type_from_ext("m/a"), AudioFileType::Unknown);
}

#[test]
fn scanner_prettifies_paths_under_the_root() {
    let scanner = MediaScanner::new("/music");
    assert_eq!(scanner.prettify_path("/music/artist/a.flac"), "./artist/a.flac");
    assert_eq!(scanner.prettify_path("/elsewhere/a.flac"), "/elsewhere/a.flac");
}

#[test]
fn scanner_descriptor_from_probe() {
    let scanner = MediaScanner::new("m");
    let tags = TaggedFileInfo {
        primary_tag: Some(TagFields { artist: Some("Air".to_string()), album: None, year: None, title: Some("Alone".to_string()) }),
        first_tag: None,
        duration_secs: 61,
        sample_rate: Some(96000),
    };
    let d = scanner.make_descriptor("m/x.flac", 555, Ok(ProbeReport { file_type: Some(LoftyFileType::Mpeg), tags: Ok(tags) }));
    assert_eq!(d.path, "m/x.flac");
    assert_eq!(d.file_size, 555);
    assert_eq!(d.file_type, AudioFileType::Mp3);
    assert_eq!(d.metadata.artist_name, "air");
    assert_eq!(d.metadata.album_name, "unknown album");
    assert_eq!(d.metadata.track_name, "alone");
    assert_eq!(d.metadata.sample_rate, Some(96000));

    let d = scanner.make_descriptor("m/y.wav", 1, Err("cannot open".to_string()));
    assert_eq!(d.file_type, AudioFileType::Wav);
    assert_eq!(d.metadata, AudioFileMetadata::default());

    let (t, m) = scanner.extract_type_and_metadata("m/z.mp3", Ok(ProbeReport { file_type: None, tags: Err("no tags".to_string()) }));
    assert_eq!(t, AudioFileType::Mp3);
    assert_eq!(m, AudioFileMetadata::default());
}

#[test]
fn scan_result_starts_empty() {
    let r = ScanResult::new();
    assert!(r.descriptors.is_empty());
    assert!(r.errors.is_empty());
}

#[test]
fn resample_config_defaults() {
    let c = ResampleConfig::default();
    assert_eq!(c.max_sample_rate, 88200);
    assert_eq!(c.strategy, ResampleStrategy::CopyToCache);
    assert_eq!(c.cache_dir, "./data/media/music/.resampled");
    assert!(c.enable_backups);
    assert!(c.supported_types.is_empty());
    assert_eq!(ResampleStrategy::default(), ResampleStrategy::CopyToCache);
}

#[test]
fn resample_plans() {
    let c = ResampleConfig::default();
    match c.plan_descriptor(&descriptor("m/a.flac", None, AudioFileType::Flac)) {
        DescriptorPlan::Skip(p, r) => {
            assert_eq!(p, "m/a.flac");
            assert_eq!(r, SkipReason::FailedToRetrieveSampleRate);
        }
        other => panic!("unexpected: {:?}", other),
    }
    match c.plan_descriptor(&descriptor("m/a.flac", Some(88200), AudioFileType::Flac)) {
        DescriptorPlan::Skip(_, r) => assert_eq!(r, SkipReason::SampleRateLowerThanMax),
        other => panic!("unexpected: {:?}", other),
    }
    match c.plan_descriptor(&descriptor("/", Some(192000), AudioFileType::Flac)) {
        DescriptorPlan::Skip(_, r) => assert_eq!(r, SkipReason::InvalidPath),
        other => panic!("unexpected: {:?}", other),
    }
    match c.plan_descriptor(&descriptor("m/hi/a.flac", Some(192000), AudioFileType::Flac)) {
        DescriptorPlan::Resample { input, output, file_type, strategy } => {
            assert_eq!(input, "m/hi/a.flac");
            assert_eq!(output, "./data/media/music/.resampled/a.flac");
            assert_eq!(file_type, AudioFileType::Flac);
            assert_eq!(strategy, ResampleStrategy::CopyToCache);
        }
        other => panic!("unexpected: {:?}", other),
    }
}

#[test]
fn resample_ffmpeg_arguments() {
    assert_eq!(
        ffmpeg_args("in.flac", "out.flac", AudioFileType::Flac),
        vec!["-i", "in.flac", "-ar", "88200", "-c:a", "flac", "out.flac"]
    );
    assert_eq!(
        ffmpeg_args("in.mp3", "out.mp3", AudioFileType::Mp3),
        vec!["-i", "in.mp3", "-ar", "44100", "-c:a", "mp3", "out.mp3"]
    );
}

#[test]
fn resample_outcomes() {
    assert!(matches!(
        finish_descriptor("a".to_string(), ResampleStrategy::CopyToCache, Ok(()), None),
        DescriptorOutcome::Processed(p) if p == "a"
    ));
    assert!(matches!(
        finish_descriptor("a".to_string(), ResampleStrategy::InPlace, Ok(()), Some(Err("busy".to_string()))),
        DescriptorOutcome::Errored(p, ResampleError::IOError(m)) if p == "a" && m == "busy"
    ));
    assert!(matches!(
        finish_descriptor("a".to_string(), ResampleStrategy::InPlace, Ok(()), Some(Ok(()))),
        DescriptorOutcome::Processed(_)
    ));
    assert!(matches!(
        finish_descriptor("a".to_string(), ResampleStrategy::InPlace, Err(ResampleError::FfmpegResamplerError("x".to_string())), None),
        DescriptorOutcome::Errored(_, ResampleError::FfmpegResamplerError(_))
    ));
}

#[test]
fn resample_report_sorts_outcomes() {
    let empty = ResampleReport::new();
    assert!(empty.processed_files.is_empty() && empty.skipped_files.is_empty() && empty.errors.is_empty());
    let report = ResampleReport::from_outcomes(vec![
        DescriptorOutcome::Processed("a".to_string()),
        DescriptorOutcome::Skipped("b".to_string(), SkipReason::SampleRateLowerThanMax),
        DescriptorOutcome::Errored("c".to_string(), ResampleError::IOError("e".to_string())),
        DescriptorOutcome::Processed("d".to_string()),
    ]);
    assert_eq!(report.processed_files, vec!["a", "d"]);
    assert_eq!(report.skipped_files.len(), 1);
    assert_eq!(report.skipped_files[0].0, "b");
    assert_eq!(report.errors.len(), 1);
    assert_eq!(report.errors[0].0, "c");
    assert_eq!(report.processed_files.len() + report.skipped_files.len() + report.errors.len(), 4);
}

fn wav_bytes() -> Vec<u8> {
    let samples: Vec<u8> = vec![0; 4 * 441];
    let mut b = Vec::new();
    b.extend_from_slice(b"RIFF");
    b.extend_from_slice(&(36 + samples.len() as u32).to_le_bytes());
    b.extend_from_slice(b"WAVEfmt ");
    b.extend_from_slice(&16u32.to_le_bytes());
    b.extend_from_slice(&1u16.to_le_bytes());
    b.extend_from_slice(&2u16.to_le_bytes());
    b.extend_from_slice(&44100u32.to_le_bytes());
    b.extend_from_slice(&(44100u32 * 4).to_le_bytes());
    b.extend_from_slice(&4u16.to_le_bytes());
    b.extend_from_slice(&16u16.to_le_bytes());
    b.extend_from_slice(b"data");
    b.extend_from_slice(&(samples.len() as u32).to_le_bytes());
    b.extend_from_slice(&samples);
    b
}

#[test]
fn scanner_describes_file_contents() {
    let scanner = MediaScanner::new("m");
    let bytes = wav_bytes();
    let d = scanner.describe_file("m/tone.mp3", &bytes);
    assert_eq!(d.path, "m/tone.mp3");
    assert_eq!(d.file_size, bytes.len() as u64);
    assert_eq!(d.file_type, AudioFileType::Wav);
    assert_eq!(d.metadata, AudioFileMetadata::default());

    let d = scanner.describe_file("m/noise.flac", b"not audio at all");
    assert_eq!(d.file_type, AudioFileType::Flac);
    assert_eq!(d.metadata, AudioFileMetadata::default());
}

#[test]
fn a_failed_resample_keeps_its_own_error() {
    match finish_descriptor("a".to_string(), ResampleStrategy::CopyToCache, Err(ResampleError::IOError("disk".to_string())), None) {
        DescriptorOutcome::Errored(p, ResampleError::IOError(m)) => {
            assert_eq!(p, "a");
            assert_eq!(m, "disk");
        }
        other => panic!("unexpected: {:?}", other),
    }
}

#[test]
fn only_a_successful_in_place_resample_is_moved() {
    assert!(should_move(ResampleStrategy::InPlace, &Ok(())));
    assert!(!should_move(ResampleStrategy::InPlace, &Err(ResampleError::IOError("x".to_string()))));
    assert!(!should_move(ResampleStrategy::CopyToCache, &Ok(())));
}
