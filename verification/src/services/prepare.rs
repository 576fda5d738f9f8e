//! Getting a machine ready to serve: folders, the database file, `ffmpeg`, and
//! the audio material that the test suite runs against.
use vstd::prelude::*;
use sha2::{Digest, Sha256};
use crate::domain::audiofile::{type_text, AudioFileType};
use crate::utils::config::{Config, ConfigLoadingError};
use crate::utils::paths::{component_count, joined_path, parent_path, path_component_count, path_join, path_parent};
use crate::utils::text::{has_suffix, string_push};

verus! {

broadcast use vstd::seq_lib::group_seq_properties;

/// Why getting the machine ready failed.
#[derive(Debug)]
pub enum PrepareServiceError {
    ConfigLoadingError(ConfigLoadingError),
    RequestError(String),
    ErrorCreatingDestinationFile(String),
    ErrorCopyingIntoDestinationFile(String),
    FailedToParseChecksums,
    FfmpegDoesntExist,
    ChecksumMismatch { actual: String, expected: String },
    FileOpenError { path: String, source: String },
    FileReadError { path: String, source: String },
    FileRemoveError { path: String, source: String },
    FileCreateError { path: String, source: String },
    FileWriteError { path: String, source: String },
    DirCreateError { path: String, source: String },
    ErrorExtractingFfmpeg(String),
    FixtureSetupError(FixturesSetupError),
    RequestFailureStatus(String),
    FailedToReadTheFileFromArchive(String),
    FailedToFindFFmpegInsideArchive(String),
    ForEachError(String),
}

/// Why setting up the test material failed.
#[derive(Debug)]
pub enum FixturesSetupError {
    IOError(String),
    SystemRootVariableNotFound(String),
    IcaclsNotFound,
    InvalidPath(String),
    IcaclsCommandError(String),
    FixturesCacheSerializationError(String),
    UnsupportedFileType(String),
    FfmpegCommandError(String),
}

/* ------------------------------ folders ------------------------------ */

/// The folders that must exist before the server runs, in the order in which
/// they are made; `db_dir` is the folder of the database file.
pub open spec fn prepared_dirs(config: Config, db_dir: Seq<char>) -> Seq<Seq<char>> {
    seq![
        config.media.resampled_music_path@,
        config.media.video_path@,
        config.media.video_path@,
        config.media.ffmpeg_dir_path@,
        config.media.test_fixtures_path@,
        config.media.filesharing_path@,
        db_dir,
    ]
}

/// The texts of a sequence of strings.
pub open spec fn texts(v: Seq<String>) -> Seq<Seq<char>> {
    v.map_values(|s: String| s@)
}

/// The folders to make, or `None` where the database path has no parent folder.
pub fn dirs_to_prepare(config: &Config) -> (res: Option<Vec<String>>)
    ensures
        match parent_path(config.database.path@) {
            None => res is None,
            Some(d) => res matches Some(v) && texts(v@) == prepared_dirs(*config, d),
        },
{
    let db_dir = match path_parent(config.database.path.as_str()) {
        Some(d) => d,
        None => return None,
    };
    let mut dirs: Vec<String> = Vec::new();
    dirs.push(config.media.resampled_music_path.clone());
    dirs.push(config.media.video_path.clone());
    dirs.push(config.media.video_path.clone());
    dirs.push(config.media.ffmpeg_dir_path.clone());
    dirs.push(config.media.test_fixtures_path.clone());
    dirs.push(config.media.filesharing_path.clone());
    dirs.push(db_dir);
    assert(texts(dirs@) =~= prepared_dirs(*config, parent_path(config.database.path@)->0));
    Some(dirs)
}

/* ------------------------------ ffmpeg ------------------------------ */

/// The SHA-256 digest of `bytes`.
pub uninterp spec fn sha256(bytes: Seq<u8>) -> Seq<u8>;

/// Calls `Digest::digest` of `sha2`'s `Sha256` and copies out the digest.
/// Trusted: the result is the SHA-256 digest of `bytes`, a function of the bytes
/// alone, and it is 32 bytes long (the hash's output size).
#[verifier::external_body]
fn sha256_digest(bytes: &[u8]) -> (res: Vec<u8>)
    ensures
        res@ == sha256(bytes@),
        res@.len() == 32,
{
    Sha256::digest(bytes).to_vec()
}

/// The lower-case hexadecimal digit of `n`, for `n` below 16.
pub open spec fn hex_digit(n: int) -> char {
    if n < 10 {
        (48 + n) as char
    } else {
        (87 + n) as char
    }
}

/// `bytes` written in lower-case hexadecimal, two digits per byte, the high
/// half first, as `{:x}` writes a digest.
pub open spec fn lower_hex(bytes: Seq<u8>) -> Seq<char>
    decreases bytes.len(),
{
    if bytes.len() == 0 {
        Seq::empty()
    } else {
        lower_hex(bytes.drop_last()) + seq![hex_digit(bytes.last() as int / 16), hex_digit(bytes.last() as int % 16)]
    }
}

/// Hexadecimal writes two digits per byte, so a SHA-256 checksum is 64 digits long.
pub proof fn lemma_lower_hex_len(bytes: Seq<u8>)
    ensures
        lower_hex(bytes).len() == 2 * bytes.len(),
    decreases bytes.len(),
{
    if bytes.len() > 0 {
        lemma_lower_hex_len(bytes.drop_last());
    }
}

fn hex_char(n: u8) -> (c: char)
    requires
        n < 16,
    ensures
        c == hex_digit(n as int),
{
    if n < 10 {
        (48u8 + n) as char
    } else {
        (87u8 + n) as char
    }
}

/// Writes `bytes` in lower-case hexadecimal.
pub fn to_lower_hex(bytes: &[u8]) -> (res: String)
    ensures
        res@ == lower_hex(bytes@),
{
    let mut res = String::new();
    let n = bytes.len();
    for i in 0..n
        invariant
            n == bytes@.len(),
            res@ == lower_hex(bytes@.take(i as int)),
    {
        let b = bytes[i];
        string_push(&mut res, hex_char(b / 16));
        string_push(&mut res, hex_char(b % 16));
        assert(bytes@.take(i + 1).drop_last() == bytes@.take(i as int));
    }
    assert(bytes@.take(n as int) == bytes@);
    res
}

/// The outcome of comparing the checksum of the downloaded archive with the
/// published one: they must be the same text.
pub fn compare_checksums(actual: String, expected: String) -> (res: Result<(), PrepareServiceError>)
    ensures
        actual@ == expected@ ==> res is Ok,
        actual@ != expected@ ==> (res matches Err(PrepareServiceError::ChecksumMismatch { actual: a, expected: e })
            && a@ == actual@ && e@ == expected@),
{
    if actual == expected {
        Ok(())
    } else {
        Err(PrepareServiceError::ChecksumMismatch { actual, expected })
    }
}

/// Checks the downloaded archive against the published SHA-256 checksum, written
/// in lower-case hexadecimal.
pub fn verify_checksums(archive: &[u8], expected_checksum: String) -> (res: Result<(), PrepareServiceError>)
    ensures
        lower_hex(sha256(archive@)) == expected_checksum@ ==> res is Ok,
        lower_hex(sha256(archive@)) != expected_checksum@ ==> (res matches Err(PrepareServiceError::ChecksumMismatch { actual: a, expected: e })
            && a@ == lower_hex(sha256(archive@)) && e@ == expected_checksum@),
{
    let digest = sha256_digest(archive);
    let actual = to_lower_hex(digest.as_slice());
    compare_checksums(actual, expected_checksum)
}

/// The name under which the `ffmpeg` executable is unpacked.
pub open spec fn ffmpeg_executable_name() -> Seq<char> {
    "ffmpeg.exe"@
}

/// The name under which the downloaded `ffmpeg` archive is kept until it is unpacked.
pub open spec fn ffmpeg_archive_name() -> Seq<char> {
    "ffmpeg_zip.7z"@
}

/// Where `ffmpeg` comes from and where it goes.
#[derive(Debug)]
pub struct FfmpegPlan {
    /// The executable whose presence means there is nothing to do.
    pub executable_path: String,
    /// Where the downloaded archive is kept.
    pub archive_path: String,
    pub download_url: String,
    pub checksum_url: String,
    /// The name of the archive entry to unpack.
    pub executable_name: String,
    /// The folder the executable is unpacked into.
    pub unpack_dir: String,
}

/// What fetching `ffmpeg` works with, for the given settings.
pub fn ffmpeg_plan(config: &Config) -> (res: FfmpegPlan)
    ensures
        res.executable_path@ == config.media.ffmpeg_exe_path@,
        res.archive_path@ == joined_path(config.media.ffmpeg_dir_path@, ffmpeg_archive_name()),
        res.download_url@ == config.media.ffmpeg_donwload_mirror@,
        res.checksum_url@ == config.media.ffmpeg_sha_download_mirror@,
        res.executable_name@ == ffmpeg_executable_name(),
        res.unpack_dir@ == config.media.ffmpeg_dir_path@,
{
    FfmpegPlan {
        executable_path: config.media.ffmpeg_exe_path.clone(),
        archive_path: path_join(config.media.ffmpeg_dir_path.as_str(), "ffmpeg_zip.7z"),
        download_url: config.media.ffmpeg_donwload_mirror.clone(),
        checksum_url: config.media.ffmpeg_sha_download_mirror.clone(),
        executable_name: "ffmpeg.exe".to_string(),
        unpack_dir: config.media.ffmpeg_dir_path.clone(),
    }
}

/// Whether `s` ends with `suffix`.
pub open spec fn ends_with(s: Seq<char>, suffix: Seq<char>) -> bool {
    suffix.len() <= s.len() && s.skip(s.len() - suffix.len()) == suffix
}

/// Whether an entry of the `ffmpeg` archive is the one to unpack: the first entry
/// that is no folder and whose name ends with `file_name`.
pub fn is_wanted_entry(is_directory: bool, entry_name: &str, file_name: &str, already_found: bool) -> (res: bool)
    ensures
        res == (!is_directory && !already_found && ends_with(entry_name@, file_name@)),
{
    if is_directory || already_found {
        false
    } else {
        has_suffix(entry_name, file_name)
    }
}

/// The entries of a 7z archive, in the order the archive lists them: each entry's
/// name and whether it is a folder; or why the archive could not be opened.
pub uninterp spec fn archive_listing(archive: Seq<u8>) -> Result<Seq<(Seq<char>, bool)>, Seq<char>>;

/// The contents of the entry named `name` in a 7z archive, or why they could not be
/// read.
pub uninterp spec fn archive_file(archive: Seq<u8>, name: Seq<char>) -> Result<Seq<u8>, Seq<char>>;

/// The texts of a list of (name, is folder) entries.
pub open spec fn entry_texts(v: Seq<(String, bool)>) -> Seq<(Seq<char>, bool)> {
    v.map_values(|e: (String, bool)| (e.0@, e.1))
}

/// Calls `sevenz_rust2`'s `ArchiveReader::new` over the bytes, with no password, and
/// lists `archive().files` by name and `is_directory`.
/// Trusted: the outcome is a function of the bytes alone.
#[verifier::external_body]
fn archive_entries(archive: &[u8]) -> (res: Result<Vec<(String, bool)>, String>)
    ensures
        match res {
            Ok(v) => archive_listing(archive@) == Ok::<Seq<(Seq<char>, bool)>, Seq<char>>(entry_texts(v@)),
            Err(e) => archive_listing(archive@) == Err::<Seq<(Seq<char>, bool)>, Seq<char>>(e@),
        },
{
    match sevenz_rust2::ArchiveReader::new(std::io::Cursor::new(archive), sevenz_rust2::Password::empty()) {
        Ok(reader) => Ok(reader.archive().files.iter().map(|f| (f.name().to_string(), f.is_directory())).collect()),
        Err(e) => Err(e.to_string()),
    }
}

/// Calls `sevenz_rust2`'s `ArchiveReader::new` over the bytes, with no password, then
/// `read_file`.
/// Trusted: the outcome is a function of the bytes and the name alone.
#[verifier::external_body]
fn archive_entry_bytes(archive: &[u8], name: &str) -> (res: Result<Vec<u8>, String>)
    ensures
        match res {
            Ok(v) => archive_file(archive@, name@) == Ok::<Seq<u8>, Seq<char>>(v@),
            Err(e) => archive_file(archive@, name@) == Err::<Seq<u8>, Seq<char>>(e@),
        },
{
    match sevenz_rust2::ArchiveReader::new(std::io::Cursor::new(archive), sevenz_rust2::Password::empty()) {
        Ok(mut reader) => reader.read_file(name).map_err(|e| e.to_string()),
        Err(e) => Err(e.to_string()),
    }
}

/// Whether an entry is one to unpack: no folder, and named with `file_name` at its end.
pub open spec fn wanted(entry: (Seq<char>, bool), file_name: Seq<char>) -> bool {
    !entry.1 && ends_with(entry.0, file_name)
}

/// Whether `i` is the first entry to unpack.
pub open spec fn first_wanted(entries: Seq<(Seq<char>, bool)>, file_name: Seq<char>, i: int) -> bool {
    &&& 0 <= i < entries.len()
    &&& wanted(entries[i], file_name)
    &&& forall|j: int| 0 <= j < i ==> !wanted(#[trigger] entries[j], file_name)
}

/// What unpacking `file_name` out of the archive gives: the contents of the first
/// entry that is no folder and whose name ends with `file_name`.
pub open spec fn extracted(archive: Seq<u8>, file_name: Seq<char>, res: Result<Vec<u8>, PrepareServiceError>) -> bool {
    match archive_listing(archive) {
        Err(e) => res matches Err(PrepareServiceError::ErrorExtractingFfmpeg(m)) && m@ == e,
        Ok(entries) => if exists|i: int| first_wanted(entries, file_name, i) {
            let i = choose|i: int| first_wanted(entries, file_name, i);
            match archive_file(archive, entries[i].0) {
                Ok(b) => res matches Ok(v) && v@ == b,
                Err(e) => res matches Err(PrepareServiceError::ForEachError(m)) && m@ == e,
            }
        } else {
            res matches Err(PrepareServiceError::FailedToFindFFmpegInsideArchive(n)) && n@ == file_name
        },
    }
}

/// Unpacks the `ffmpeg` executable out of the downloaded 7z archive.
pub fn extract_ffmpeg(archive: &[u8], file_name: &str) -> (res: Result<Vec<u8>, PrepareServiceError>)
    ensures
        extracted(archive@, file_name@, res),
{
    let entries = match archive_entries(archive) {
        Ok(v) => v,
        Err(e) => return Err(PrepareServiceError::ErrorExtractingFfmpeg(e)),
    };
    let ghost es = entry_texts(entries@);
    let n = entries.len();
    for i in 0..n
        invariant
            n == entries@.len(),
            es == entry_texts(entries@),
            archive_listing(archive@) == Ok::<Seq<(Seq<char>, bool)>, Seq<char>>(es),
            forall|j: int| 0 <= j < i ==> !wanted(#[trigger] es[j], file_name@),
    {
        assert(es[i as int] == (entries@[i as int].0@, entries@[i as int].1));
        if is_wanted_entry(entries[i].1, entries[i].0.as_str(), file_name, false) {
            proof {
                assert(first_wanted(es, file_name@, i as int));
                let k = choose|k: int| first_wanted(es, file_name@, k);
                if k < i {
                    assert(!wanted(es[k], file_name@));
                } else if k > i {
                    assert(!wanted(es[i as int], file_name@));
                }
                assert(k == i);
            }
            return match archive_entry_bytes(archive, entries[i].0.as_str()) {
                Ok(v) => Ok(v),
                Err(e) => Err(PrepareServiceError::ForEachError(e)),
            };
        }
    }
    proof {
        assert forall|i: int| !first_wanted(es, file_name@, i) by {
            if 0 <= i < es.len() {
                assert(!wanted(es[i], file_name@));
            }
        }
    }
    Err(PrepareServiceError::FailedToFindFFmpegInsideArchive(file_name.to_string()))
}

/* ------------------------------ test material ------------------------------ */

/// Whether test audio of this type is made.
pub open spec fn is_fixture_type(t: AudioFileType) -> bool {
    t is Flac || t is Mp3 || t is Wav
}

/// The file name of the test audio file of a type.
pub open spec fn fixture_file_name(t: AudioFileType) -> Seq<char> {
    match t {
        AudioFileType::Flac => "flac_valid_metadata.flac"@,
        AudioFileType::Mp3 => "mp3_valid_metadata.mp3"@,
        AudioFileType::Wav => "wav_valid_metadata.wav"@,
        _ => Seq::empty(),
    }
}

/// The tags written into the test audio file of a type, as (key, value) pairs.
pub open spec fn fixture_metadata(t: AudioFileType) -> Seq<(Seq<char>, Seq<char>)> {
    match t {
        AudioFileType::Flac => seq![
            ("title"@, "FLAC test title"@),
            ("artist"@, "FLAC test artist"@),
            ("album"@, "FLAC test album"@),
            ("genre"@, "FLAC test genre"@),
            ("date"@, "2023"@),
            ("track"@, "1/1"@),
            ("comment"@, "FLAC test comment"@),
        ],
        AudioFileType::Mp3 => seq![
            ("title"@, "MP3 test title"@),
            ("artist"@, "MP3 test artist"@),
            ("album"@, "MP3 test album"@),
            ("genre"@, "MP3 test genre"@),
            ("date"@, "2023"@),
            ("track"@, "1"@),
            ("comment"@, "MP3 test comment"@),
        ],
        AudioFileType::Wav => seq![
            ("title"@, "WAV test title"@),
            ("artist"@, "WAV test artist"@),
            ("album"@, "WAV test album"@),
            ("genre"@, "WAV test genre"@),
            ("date"@, "2023"@),
            ("track"@, "1"@),
            ("comment"@, "WAV test comment"@),
        ],
        _ => Seq::empty(),
    }
}

/// A character in upper case, where it is a lower-case ASCII letter.
pub open spec fn ascii_upper_char(c: char) -> char {
    if 'a' <= c && c <= 'z' {
        ((c as int) - 32) as char
    } else {
        c
    }
}

/// A text with its lower-case ASCII letters in upper case.
pub open spec fn ascii_upper(s: Seq<char>) -> Seq<char> {
    s.map_values(|c: char| ascii_upper_char(c))
}

/// The test audio file of each type carries seven tags, keyed in this order title,
/// artist, album, genre, date, track and comment. The date is "2023"; the track is
/// "1/1" for FLAC and "1" for the others; each other tag reads as the type's name in
/// capitals, " test " and the tag's key, so no tag of one type names another type.
pub proof fn lemma_fixture_tags(t: AudioFileType)
    requires
        is_fixture_type(t),
    ensures
        fixture_metadata(t).len() == 7,
        fixture_metadata(t)[0].0 == "title"@,
        fixture_metadata(t)[1].0 == "artist"@,
        fixture_metadata(t)[2].0 == "album"@,
        fixture_metadata(t)[3].0 == "genre"@,
        fixture_metadata(t)[4].0 == "date"@,
        fixture_metadata(t)[5].0 == "track"@,
        fixture_metadata(t)[6].0 == "comment"@,
        fixture_metadata(t)[4].1 == "2023"@,
        fixture_metadata(t)[5].1 == (if t is Flac { "1/1"@ } else { "1"@ }),
        forall|i: int| #![trigger fixture_metadata(t)[i]] 0 <= i < 7 && i != 4 && i != 5 ==> fixture_metadata(t)[i].1
            == ascii_upper(type_text(t)) + " test "@ + fixture_metadata(t)[i].0,
{
    reveal_strlit("title");
    reveal_strlit("artist");
    reveal_strlit("album");
    reveal_strlit("genre");
    reveal_strlit("comment");
    reveal_strlit(" test ");
    reveal_strlit("flac");
    reveal_strlit("mp3");
    reveal_strlit("wav");
    let m = fixture_metadata(t);
    match t {
        AudioFileType::Flac => {
            reveal_strlit("FLAC test title");
            reveal_strlit("FLAC test artist");
            reveal_strlit("FLAC test album");
            reveal_strlit("FLAC test genre");
            reveal_strlit("FLAC test comment");
            assert(ascii_upper(type_text(t)) =~= seq!['F', 'L', 'A', 'C']);
            assert(m[0].1 =~= ascii_upper(type_text(t)) + " test "@ + m[0].0);
            assert(m[1].1 =~= ascii_upper(type_text(t)) + " test "@ + m[1].0);
            assert(m[2].1 =~= ascii_upper(type_text(t)) + " test "@ + m[2].0);
            assert(m[3].1 =~= ascii_upper(type_text(t)) + " test "@ + m[3].0);
            assert(m[6].1 =~= ascii_upper(type_text(t)) + " test "@ + m[6].0);
        },
        AudioFileType::Mp3 => {
            reveal_strlit("MP3 test title");
            reveal_strlit("MP3 test artist");
            reveal_strlit("MP3 test album");
            reveal_strlit("MP3 test genre");
            reveal_strlit("MP3 test comment");
            assert(ascii_upper(type_text(t)) =~= seq!['M', 'P', '3']);
            assert(m[0].1 =~= ascii_upper(type_text(t)) + " test "@ + m[0].0);
            assert(m[1].1 =~= ascii_upper(type_text(t)) + " test "@ + m[1].0);
            assert(m[2].1 =~= ascii_upper(type_text(t)) + " test "@ + m[2].0);
            assert(m[3].1 =~= ascii_upper(type_text(t)) + " test "@ + m[3].0);
            assert(m[6].1 =~= ascii_upper(type_text(t)) + " test "@ + m[6].0);
        },
        _ => {
            reveal_strlit("WAV test title");
            reveal_strlit("WAV test artist");
            reveal_strlit("WAV test album");
            reveal_strlit("WAV test genre");
            reveal_strlit("WAV test comment");
            assert(ascii_upper(type_text(t)) =~= seq!['W', 'A', 'V']);
            assert(m[0].1 =~= ascii_upper(type_text(t)) + " test "@ + m[0].0);
            assert(m[1].1 =~= ascii_upper(type_text(t)) + " test "@ + m[1].0);
            assert(m[2].1 =~= ascii_upper(type_text(t)) + " test "@ + m[2].0);
            assert(m[3].1 =~= ascii_upper(type_text(t)) + " test "@ + m[3].0);
            assert(m[6].1 =~= ascii_upper(type_text(t)) + " test "@ + m[6].0);
        },
    }
}

/// The texts of a sequence of (key, value) pairs.
pub open spec fn pair_texts(v: Seq<(String, String)>) -> Seq<(Seq<char>, Seq<char>)> {
    v.map_values(|p: (String, String)| (p.0@, p.1@))
}

fn tag(pairs: &mut Vec<(String, String)>, key: &str, value: &str)
    ensures
        pair_texts(final(pairs)@) == pair_texts(old(pairs)@).push((key@, value@)),
{
    let k = key.to_string();
    let v = value.to_string();
    pairs.push((k, v));
    assert(pair_texts(pairs@) =~= pair_texts(old(pairs)@).push((key@, value@)));
}

/// The file name and the tags of the test audio file of a type, for the types
/// that have one.
pub(crate) fn fixture_parts(t: AudioFileType) -> (res: Option<(String, Vec<(String, String)>)>)
    ensures
        is_fixture_type(t) <==> res is Some,
        res matches Some((n, m)) ==> n@ == fixture_file_name(t) && pair_texts(m@) == fixture_metadata(t),
{
    let mut m: Vec<(String, String)> = Vec::new();
    match t {
        AudioFileType::Flac => {
            tag(&mut m, "title", "FLAC test title");
            tag(&mut m, "artist", "FLAC test artist");
            tag(&mut m, "album", "FLAC test album");
            tag(&mut m, "genre", "FLAC test genre");
            tag(&mut m, "date", "2023");
            tag(&mut m, "track", "1/1");
            tag(&mut m, "comment", "FLAC test comment");
            assert(pair_texts(m@) =~= fixture_metadata(t));
            Some(("flac_valid_metadata.flac".to_string(), m))
        },
        AudioFileType::Mp3 => {
            tag(&mut m, "title", "MP3 test title");
            tag(&mut m, "artist", "MP3 test artist");
            tag(&mut m, "album", "MP3 test album");
            tag(&mut m, "genre", "MP3 test genre");
            tag(&mut m, "date", "2023");
            tag(&mut m, "track", "1");
            tag(&mut m, "comment", "MP3 test comment");
            assert(pair_texts(m@) =~= fixture_metadata(t));
            Some(("mp3_valid_metadata.mp3".to_string(), m))
        },
        AudioFileType::Wav => {
            tag(&mut m, "title", "WAV test title");
            tag(&mut m, "artist", "WAV test artist");
            tag(&mut m, "album", "WAV test album");
            tag(&mut m, "genre", "WAV test genre");
            tag(&mut m, "date", "2023");
            tag(&mut m, "track", "1");
            tag(&mut m, "comment", "WAV test comment");
            assert(pair_texts(m@) =~= fixture_metadata(t));
            Some(("wav_valid_metadata.wav".to_string(), m))
        },
        _ => None,
    }
}

/// A test audio file: where it goes and the tags it carries.
#[derive(Debug)]
pub struct AudioFixture {
    pub path: String,
    pub metadata: Vec<(String, String)>,
}

impl AudioFixture {
    /// The test audio file of a type, under the `files` folder of the configured
    /// test material; only FLAC, MP3 and WAV have one.
    pub fn new(audio_type: AudioFileType, config: &Config) -> (res: Result<AudioFixture, FixturesSetupError>)
        ensures
            is_fixture_type(audio_type) ==> (res matches Ok(f)
                && f.path@ == joined_path(joined_path(config.media.test_fixtures_path@, "files"@), fixture_file_name(audio_type))
                && pair_texts(f.metadata@) == fixture_metadata(audio_type)),
            !is_fixture_type(audio_type) ==> (res matches Err(FixturesSetupError::UnsupportedFileType(n))
                && n@ == type_text(audio_type)),
    {
        match fixture_parts(audio_type) {
            Some((file_name, metadata)) => {
                let dir = path_join(config.media.test_fixtures_path.as_str(), "files");
                let path = path_join(dir.as_str(), file_name.as_str());
                Ok(AudioFixture { path, metadata })
            },
            None => Err(FixturesSetupError::UnsupportedFileType(audio_type.as_str().to_string())),
        }
    }
}

/// What was done to the test material, so that it can be undone: the material's
/// folder, the files and folders whose permissions were stripped, and the file
/// that records all this.
#[derive(Debug)]
pub struct FixturesContext {
    pub fixture_path: String,
    pub stripped_files: Vec<String>,
    pub stripped_dirs: Vec<String>,
    pub fixtures_cache_path: String,
}

impl FixturesContext {
    /// Nothing done yet, with the material under `./test_fixtures`.
    pub fn new() -> (res: FixturesContext)
        ensures
            res.fixture_path@ == "./test_fixtures"@,
            res.stripped_files@.len() == 0,
            res.stripped_dirs@.len() == 0,
            res.fixtures_cache_path@ == "./test_fixtures/fixtures_state.json"@,
    {
        FixturesContext {
            fixture_path: "./test_fixtures".to_string(),
            stripped_files: Vec::new(),
            stripped_dirs: Vec::new(),
            fixtures_cache_path: "./test_fixtures/fixtures_state.json".to_string(),
        }
    }
}

/// The `ffmpeg` arguments that write the tags, one `-metadata key=value` per pair.
pub open spec fn metadata_args(m: Seq<(Seq<char>, Seq<char>)>) -> Seq<Seq<char>>
    decreases m.len(),
{
    if m.len() == 0 {
        Seq::empty()
    } else {
        metadata_args(m.drop_last()) + seq!["-metadata"@, m.last().0 + "="@ + m.last().1]
    }
}

/// The `ffmpeg` arguments that make a five-second 880 Hz sine tone at `path`,
/// tagged with `metadata`, overwriting what is there.
pub open spec fn fixture_argument_list(path: Seq<char>, metadata: Seq<(Seq<char>, Seq<char>)>) -> Seq<Seq<char>> {
    seq!["-y"@, "-f"@, "lavfi"@, "-i"@, "sine=frequency=880:duration=5"@] + metadata_args(metadata) + seq![path]
}

/// The arguments with which `ffmpeg` makes a test audio file.
pub fn fixture_ffmpeg_args(path: &str, metadata: &Vec<(String, String)>) -> (res: Vec<String>)
    ensures
        texts(res@) == fixture_argument_list(path@, pair_texts(metadata@)),
{
    let mut args: Vec<String> = Vec::new();
    args.push("-y".to_string());
    args.push("-f".to_string());
    args.push("lavfi".to_string());
    args.push("-i".to_string());
    args.push("sine=frequency=880:duration=5".to_string());
    let ghost head = texts(args@);
    assert(head =~= seq!["-y"@, "-f"@, "lavfi"@, "-i"@, "sine=frequency=880:duration=5"@]);
    let n = metadata.len();
    for i in 0..n
        invariant
            n == metadata@.len(),
            texts(args@) == head + metadata_args(pair_texts(metadata@).take(i as int)),
    {
        let key = &metadata[i].0;
        let value = &metadata[i].1;
        let flag = "-metadata".to_string();
        let kv = key.clone().concat("=").concat(value.as_str());
        let ghost before = args@;
        args.push(flag);
        args.push(kv);
        proof {
            let m = pair_texts(metadata@);
            assert(m[i as int] == (key@, value@));
            assert(m.take(i + 1).drop_last() =~= m.take(i as int));
            assert(m.take(i + 1).last() == (key@, value@));
            assert(texts(args@) =~= texts(before).push("-metadata"@).push(key@ + "="@ + value@));
            assert(texts(args@) =~= head + metadata_args(m.take(i + 1)));
        }
    }
    args.push(path.to_string());
    proof {
        assert(pair_texts(metadata@).take(n as int) =~= pair_texts(metadata@));
        assert(texts(args@) =~= fixture_argument_list(path@, pair_texts(metadata@)));
    }
    args
}

/* ------------------------------ clean-up ------------------------------ */

/// The paths in `s` that have `k` components, in their order in `s`.
pub open spec fn at_depth(s: Seq<Seq<char>>, k: nat) -> Seq<Seq<char>> {
    s.filter(|p: Seq<char>| component_count(p) == k)
}

/// Whether no path in `s` has fewer components than a path after it.
pub open spec fn deepest_first(s: Seq<Seq<char>>) -> bool {
    forall|i: int, j: int| 0 <= i < j < s.len() ==> #[trigger] component_count(s[i]) >= #[trigger] component_count(s[j])
}

proof fn lemma_insert_at_depth(s: Seq<Seq<char>>, pos: int, x: Seq<char>, k: nat)
    requires
        0 <= pos <= s.len(),
        forall|i: int| pos <= i < s.len() ==> #[trigger] component_count(s[i]) < component_count(x),
    ensures
        at_depth(s.insert(pos, x), k) == if component_count(x) == k {
            at_depth(s, k).push(x)
        } else {
            at_depth(s, k)
        },
{
    let pred = |p: Seq<char>| component_count(p) == k;
    let a = s.take(pos);
    let b = s.skip(pos);
    assert(s.insert(pos, x) =~= (a + seq![x]) + b);
    assert(s =~= a + b);
    Seq::filter_distributes_over_add(a + seq![x], b, pred);
    Seq::filter_distributes_over_add(a, seq![x], pred);
    Seq::filter_distributes_over_add(a, b, pred);
    assert(seq![x] =~= Seq::<Seq<char>>::empty().push(x));
    Seq::<Seq<char>>::empty().lemma_filter_push(x, pred);
    assert(Seq::<Seq<char>>::empty().filter(pred) =~= Seq::<Seq<char>>::empty()) by {
        reveal(Seq::filter);
    }
    if component_count(x) == k {
        assert(b.all(|p: Seq<char>| !pred(p))) by {
            assert forall|i: int| 0 <= i < b.len() implies !pred(#[trigger] b[i]) by {
                assert(b[i] == s[pos + i]);
            }
        }
        b.lemma_all_neg_filter_empty(pred);
        assert(b.filter(pred) =~= Seq::<Seq<char>>::empty());
        assert(at_depth(s.insert(pos, x), k) =~= at_depth(s, k).push(x));
    } else {
        assert(at_depth(s.insert(pos, x), k) =~= at_depth(s, k));
    }
}

proof fn lemma_count_at_depth(s: Seq<Seq<char>>, x: Seq<char>)
    ensures
        at_depth(s, component_count(x)).to_multiset().count(x) == s.to_multiset().count(x),
    decreases s.len(),
{
    broadcast use vstd::seq_lib::group_to_multiset_ensures;
    let k = component_count(x);
    if s.len() == 0 {
        assert(at_depth(s, k) =~= s) by {
            reveal(Seq::filter);
        }
    } else {
        let rest = s.drop_last();
        let last = s.last();
        lemma_count_at_depth(rest, x);
        assert(s =~= rest.push(last));
        rest.lemma_filter_push(last, |p: Seq<char>| component_count(p) == k);
    }
}

/// Folders with the same paths at every depth, in whatever order, are the same
/// folders, as many times each.
proof fn lemma_same_depths_same_folders(a: Seq<Seq<char>>, b: Seq<Seq<char>>)
    requires
        forall|k: nat| #[trigger] at_depth(a, k) == at_depth(b, k),
    ensures
        a.to_multiset() == b.to_multiset(),
{
    assert forall|x: Seq<char>| a.to_multiset().count(x) == b.to_multiset().count(x) by {
        lemma_count_at_depth(a, x);
        lemma_count_at_depth(b, x);
        assert(at_depth(a, component_count(x)) == at_depth(b, component_count(x)));
    }
    assert(a.to_multiset() =~= b.to_multiset());
}

/// The order in which stripped folders get their permissions back: deepest first,
/// folders of the same depth in the order they were stripped in.
#[verifier::rlimit(40)]
pub fn restore_order(dirs: &Vec<String>) -> (res: Vec<String>)
    ensures
        res@.len() == dirs@.len(),
        texts(res@).to_multiset() == texts(dirs@).to_multiset(),
        deepest_first(texts(res@)),
        forall|k: nat| #[trigger] at_depth(texts(res@), k) == at_depth(texts(dirs@), k),
{
    let mut res: Vec<String> = Vec::new();
    let mut depths: Vec<usize> = Vec::new();
    let n = dirs.len();
    for j in 0..n
        invariant
            n == dirs@.len(),
            res@.len() == j,
            depths@.len() == j,
            forall|i: int| 0 <= i < j ==> depths@[i] as nat == component_count(#[trigger] res@[i]@),
            deepest_first(texts(res@)),
            forall|k: nat| #[trigger] at_depth(texts(res@), k) == at_depth(texts(dirs@.take(j as int)), k),
    {
        let d = path_component_count(dirs[j].as_str());
        let mut pos: usize = 0;
        while pos < depths.len() && depths[pos] >= d
            invariant
                pos <= depths@.len(),
                depths@.len() == j,
                forall|i: int| 0 <= i < pos ==> depths@[i] >= d,
            decreases depths@.len() - pos,
        {
            pos = pos + 1;
        }
        let ghost old_texts = texts(res@);
        let ghost old_res = res@;
        let ghost old_depths = depths@;
        let ghost x = dirs@[j as int]@;
        proof {
            assert forall|i: int| pos <= i < old_texts.len() implies #[trigger] component_count(old_texts[i]) < component_count(x) by {
                assert(old_texts[i] == res@[i]@);
                assert(old_texts[pos as int] == res@[pos as int]@);
                if i > pos {
                    assert(component_count(old_texts[pos as int]) >= component_count(old_texts[i]));
                }
            }
        }
        res.insert(pos, dirs[j].clone());
        depths.insert(pos, d);
        proof {
            assert(texts(res@) =~= old_texts.insert(pos as int, x));
            assert forall|k: nat| #[trigger] at_depth(texts(res@), k) == at_depth(texts(dirs@.take(j + 1)), k) by {
                lemma_insert_at_depth(old_texts, pos as int, x, k);
                assert(texts(dirs@.take(j + 1)) =~= texts(dirs@.take(j as int)).push(x));
                texts(dirs@.take(j as int)).lemma_filter_push(x, |p: Seq<char>| component_count(p) == k);
            }
            assert forall|a: int, b: int| 0 <= a < b < texts(res@).len() implies #[trigger] component_count(texts(res@)[a]) >= #[trigger] component_count(texts(res@)[b]) by {
                let t = texts(res@);
                if a < pos && b < pos {
                    assert(t[a] == old_texts[a] && t[b] == old_texts[b]);
                } else if a < pos && b == pos {
                    assert(t[a] == old_texts[a]);
                    assert(old_depths[a] >= d);
                    assert(old_texts[a] == old_res[a]@);
                    assert(old_depths[a] as nat == component_count(old_res[a]@));
                } else if a < pos {
                    assert(t[a] == old_texts[a] && t[b] == old_texts[b - 1]);
                } else if a == pos {
                    assert(t[b] == old_texts[b - 1]);
                } else {
                    assert(t[a] == old_texts[a - 1] && t[b] == old_texts[b - 1]);
                }
            }
        }
    }
    assert(dirs@.take(n as int) =~= dirs@);
    proof {
        lemma_same_depths_same_folders(texts(res@), texts(dirs@));
    }
    res
}

} // verus!
