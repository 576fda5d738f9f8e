use home_server::domain::album::Album;
use home_server::domain::artist::Artist;
use home_server::domain::audiofile::{AudioFileDescriptor, AudioFileMetadata, AudioFileType};
use home_server::domain::track::Track;
use home_server::domain::uploaded::Uploaded;
use home_server::services::sync::{
    collect_by_key, orphaned_groups, sync_steps, DatabaseCache, MusicLibSyncService, PendingAdditions,
    PendingDeletions, SyncServiceReport, SyncStep,
};
use home_server::services::SyncServiceError;

fn track(id: u128, album: u128, path: &str) -> Track {
    Track::new(id, "song", album, 100, path, 10, AudioFileType::Mp3, Uploaded::Denis, None).unwrap()
}

fn file(path: &str, artist: &str, album: &str, title: &str) -> AudioFileDescriptor {
    AudioFileDescriptor {
        path: path.to_string(),
        file_size: 2048,
        file_type: AudioFileType::Flac,
        metadata: AudioFileMetadata {
            artist_name: artist.to_string(),
            album_name: album.to_string(),
            album_year: Some(1999),
            track_name: title.to_string(),
            track_duration: 200,
            sample_rate: Some(44100),
        },
    }
}

#[test]
fn collect_by_key_keeps_the_last_of_each_key() {
    let a = Artist::new(1, "Muse").unwrap();
    let b = Artist::new(2, "Blur").unwrap();
    let c = Artist::new(3, "MUSE").unwrap();
    let kept = collect_by_key(vec![a, b, c]);
    assert_eq!(kept.len(), 2);
    assert_eq!(kept[0].id(), 2);
    assert_eq!(kept[1].id(), 3);
}

#[test]
fn cache_files_entities_by_key() {
    let cache = DatabaseCache::new(
        vec![track(1, 10, "a/x.mp3"), track(2, 10, "a/x.mp3"), track(3, 11, "a/y.mp3")],
        vec![Album::new(10, "One", 100, None).unwrap()],
        vec![Artist::new(100, "Band").unwrap()],
    );
    assert_eq!(cache.tracks.len(), 2);
    assert_eq!(cache.tracks[0].id(), 2);
    assert!(cache.has_track_at("a/y.mp3"));
    assert!(!cache.has_track_at("a/z.mp3"));
}

#[test]
fn orphaned_groups_need_every_member_deleted() {
    let pairs = vec![(10, 1), (10, 2), (11, 3), (12, 4)];
    let orphans = orphaned_groups(&pairs, &vec![1, 2, 4]);
    assert_eq!(orphans, vec![10, 12]);
    assert!(orphaned_groups(&pairs, &vec![]).is_empty());
}

#[test]
fn missing_files_delete_tracks_then_empty_albums_then_lonely_artists() {
    let cache = DatabaseCache::new(
        vec![track(1, 10, "m/a.mp3"), track(2, 10, "m/b.mp3"), track(3, 11, "m/c.mp3")],
        vec![Album::new(10, "First", 100, None).unwrap(), Album::new(11, "Second", 101, None).unwrap()],
        vec![Artist::new(100, "Kept").unwrap(), Artist::new(101, "Gone").unwrap()],
    );
    let files = vec![file("m/a.mp3", "Kept", "First", "a")];
    let deletions = cache.find_orphaned_entities(&files);
    assert_eq!(deletions.track_ids, vec![2, 3]);
    assert_eq!(deletions.album_ids, vec![11]);
    assert_eq!(deletions.artist_ids, vec![101]);
    assert!(!deletions.is_empty());
}

#[test]
fn nothing_missing_deletes_nothing() {
    let cache = DatabaseCache::new(vec![track(1, 10, "m/a.mp3")], vec![], vec![]);
    let deletions = cache.find_orphaned_entities(&vec![file("m/a.mp3", "x", "y", "z")]);
    assert!(deletions.is_empty());
    assert!(PendingDeletions::new().is_empty());
}

#[test]
fn new_files_bring_artists_albums_and_tracks() {
    let service = MusicLibSyncService::new(
        "./data/media/music".to_string(),
        vec![track(1, 10, "m/old.mp3")],
        vec![Album::new(10, "Known Album", 100, None).unwrap()],
        vec![Artist::new(100, "Known Artist").unwrap()],
    );
    assert_eq!(service.music_lib_path, "./data/media/music");
    let files = vec![
        file("m/old.mp3", "known artist", "known album", "old"),
        file("m/new1.flac", "known artist", "known album", "new one"),
        file("m/new2.flac", "fresh artist", "fresh album", "new two"),
        file("m/new3.flac", "fresh artist", "fresh album", "new three"),
    ];
    let adds = service.find_new_files(&files).unwrap();
    assert_eq!(adds.artists.len(), 1);
    assert_eq!(adds.artists[0].name(), "fresh artist");
    assert_eq!(adds.albums.len(), 1);
    assert_eq!(adds.albums[0].name(), "fresh album");
    assert_eq!(adds.albums[0].artist_id(), adds.artists[0].id());
    assert_eq!(adds.tracks.len(), 3);
    assert_eq!(adds.tracks[0].album_id(), 10);
    assert_eq!(adds.tracks[0].name(), "new one");
    assert_eq!(adds.tracks[1].album_id(), adds.albums[0].id());
    assert_eq!(adds.tracks[2].album_id(), adds.albums[0].id());
    assert_eq!(adds.tracks[0].uploaded(), Uploaded::Denis);
    assert!(adds.tracks[0].date_added().is_some());
    assert!(!adds.is_empty());
}

#[test]
fn new_album_for_a_known_artist() {
    let service = MusicLibSyncService::new("m".to_string(), vec![], vec![], vec![Artist::new(100, "chevelle").unwrap()]);
    let files = vec![
        file("m/closure.flac", "chevelle", "wonder whats next", "closure"),
        file("m/forfeit.flac", "chevelle", "wonder whats next", "forfeit"),
    ];
    let adds = service.find_new_files(&files).unwrap();
    assert!(adds.artists.is_empty());
    assert_eq!(adds.albums.len(), 1);
    assert_eq!(adds.albums[0].artist_id(), 100);
    assert_eq!(adds.tracks.len(), 2);
    assert_eq!(adds.tracks[0].name(), "closure");
    assert_eq!(adds.tracks[1].name(), "forfeit");
}

#[test]
fn deleting_one_of_many_tracks_keeps_album_and_artist() {
    let cache = DatabaseCache::new(
        vec![track(1, 10, "m/a.mp3"), track(2, 10, "m/b.mp3")],
        vec![Album::new(10, "Album", 100, None).unwrap()],
        vec![Artist::new(100, "Artist").unwrap()],
    );
    let deletions = cache.find_orphaned_entities(&vec![file("m/a.mp3", "artist", "album", "a")]);
    assert_eq!(deletions.track_ids, vec![2]);
    assert!(deletions.album_ids.is_empty());
    assert!(deletions.artist_ids.is_empty());
}

#[test]
fn a_file_without_a_name_fails_the_sync() {
    let service = MusicLibSyncService::new("m".to_string(), vec![], vec![], vec![]);
    let files = vec![file("m/bad.flac", "Artist", "Album", "!!!")];
    assert!(matches!(service.find_new_files(&files), Err(SyncServiceError::DomainStructValidationError(_))));
}

#[test]
fn a_library_in_sync_has_nothing_to_do() {
    let service = MusicLibSyncService::new(
        "m".to_string(),
        vec![track(1, 10, "m/a.mp3")],
        vec![Album::new(10, "Album", 100, None).unwrap()],
        vec![Artist::new(100, "Artist").unwrap()],
    );
    let (adds, dels) = service.difference(&vec![file("m/a.mp3", "Artist", "Album", "song")]).unwrap();
    assert!(adds.is_empty());
    assert!(dels.is_empty());
    assert_eq!(sync_steps(&adds, &dels), vec![SyncStep::Commit]);
}

#[test]
fn sync_steps_delete_before_saving() {
    let mut adds = PendingAdditions::new();
    adds.add_artist(Artist::new(1, "A").unwrap());
    let mut dels = PendingDeletions::new();
    dels.track_ids.push(5);
    assert_eq!(
        sync_steps(&adds, &dels),
        vec![
            SyncStep::DeleteTracks,
            SyncStep::DeleteAlbums,
            SyncStep::DeleteArtists,
            SyncStep::SaveArtists,
            SyncStep::SaveAlbums,
            SyncStep::SaveTracks,
            SyncStep::Commit,
        ]
    );
    assert_eq!(sync_steps(&adds, &PendingDeletions::new()).len(), 4);
}

#[test]
fn pending_additions_skip_a_track_already_pending() {
    let mut adds = PendingAdditions::new();
    assert!(adds.is_empty());
    adds.add_track(track(1, 2, "x/y.mp3"));
    adds.add_track(track(1, 2, "x/y.mp3"));
    assert_eq!(adds.tracks.len(), 1);
    adds.add_album(Album::new(2, "B", 3, None).unwrap());
    assert_eq!(adds.albums.len(), 1);
}

#[test]
fn sync_report_starts_empty() {
    let when = chrono::NaiveDate::from_ymd_opt(2024, 1, 2).unwrap().and_hms_opt(3, 4, 5).unwrap();
    let report = SyncServiceReport::new(when);
    assert_eq!(report.timestamp, when);
    assert!(report.added_tracks.outcomes.is_empty());
    assert!(report.deleted_artists.deleted_ids.is_empty());
}

#[test]
fn scanned_paths_are_normalised_before_comparing() {
    let service = MusicLibSyncService::new(
        "M".to_string(),
        vec![track(1, 10, "M\\Band\\Song.mp3")],
        vec![Album::new(10, "Album", 100, None).unwrap()],
        vec![Artist::new(100, "Artist").unwrap()],
    );
    assert_eq!(service.db_cache.tracks[0].file_path(), "m/band/song.mp3");
    let files = vec![file("M\\Band\\Song.mp3", "artist", "album", "song")];
    let (adds, dels) = service.difference(&files).unwrap();
    assert!(adds.is_empty());
    assert!(dels.is_empty());
    assert!(service.find_orphaned_entities(&files).is_empty());
}

#[test]
fn each_new_file_yields_one_track_and_albums_hold_tracks() {
    let service = MusicLibSyncService::new("m".to_string(), vec![], vec![], vec![]);
    let files = vec![
        file("m/one.flac", "band", "first", "one"),
        file("m/two.flac", "band", "second", "two"),
        file("m/three.flac", "band", "first", "three"),
    ];
    let adds = service.find_new_files(&files).unwrap();
    assert_eq!(adds.tracks.len(), 3);
    assert_eq!(adds.albums.len(), 2);
    assert_eq!(adds.artists.len(), 1);
    for album in &adds.albums {
        assert!(adds.tracks.iter().any(|t| t.album_id() == album.id()));
    }
}

#[test]
fn tags_are_matched_once_normalised() {
    let service = MusicLibSyncService::new("m".to_string(), vec![], vec![], vec![Artist::new(100, "a").unwrap()]);
    let files = vec![
        file("m/1.flac", "A", "B", "t1"),
        file("m/2.flac", " a ", "b!", "t2"),
        file("m/3.flac", "The Band", "First", "t3"),
        file("m/4.flac", "the band", "FIRST", "t4"),
    ];
    let adds = service.find_new_files(&files).unwrap();
    assert_eq!(adds.artists.len(), 1);
    assert_eq!(adds.artists[0].name(), "the band");
    assert_eq!(adds.albums.len(), 2);
    assert_eq!(adds.albums[0].artist_id(), 100);
    assert_eq!(adds.albums[0].name(), "b");
    assert_eq!(adds.albums[1].artist_id(), adds.artists[0].id());
    assert_eq!(adds.tracks.len(), 4);
    assert_eq!(adds.tracks[0].album_id(), adds.albums[0].id());
    assert_eq!(adds.tracks[1].album_id(), adds.albums[0].id());
    assert_eq!(adds.tracks[2].album_id(), adds.albums[1].id());
    assert_eq!(adds.tracks[3].album_id(), adds.albums[1].id());
}

#[test]
fn the_first_refused_file_names_the_error() {
    let service = MusicLibSyncService::new("m".to_string(), vec![], vec![], vec![]);
    let mut short = file("m/short.flac", "x", "y", "ok");
    short.metadata.track_duration = 0;
    let files = vec![file("m/fine.flac", "x", "y", "fine"), short, file("m/bad.flac", "x", "y", "???")];
    match service.find_new_files(&files) {
        Err(SyncServiceError::DomainStructValidationError(v)) => assert_eq!(v, home_server::domain::ValidationError::DurationIsZero),
        Err(other) => panic!("unexpected: {:?}", other),
        Ok(_) => panic!("expected a refusal"),
    }
}
