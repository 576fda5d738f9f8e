//! What a scan of the music library decides about each entry it walks over.
use vstd::prelude::*;
use crate::domain::audiofile::{
    AudioFileDescriptor, AudioFileMetadata, AudioFileType, LoftyFileType, TagFields, TaggedFileInfo, is_default_metadata,
    metadata_of_tags, supported_extension, type_of_lofty, type_of_os_extension,
};
use lofty::file::{AudioFile, FileType, TaggedFile, TaggedFileExt};
use lofty::probe::Probe;
use lofty::tag::{Accessor, Tag};
use crate::services::ScanError;
use crate::utils::paths::{file_extension, path_extension, path_strip_prefix, stripped_path};

verus! {

/// The scanner of the music library under one directory.
pub struct MediaScanner {
    pub music_lib_path: String,
}

/// What the tag reader found in a file: the kind it recognised, if any, and the tags
/// it read, or why reading them failed.
#[derive(Debug)]
pub struct ProbeReport {
    pub file_type: Option<LoftyFileType>,
    pub tags: Result<TaggedFileInfo, String>,
}

#[verifier::external_type_specification]
#[verifier::external_body]
pub struct ExLoftyFileType(FileType);

#[verifier::external_type_specification]
#[verifier::external_body]
pub struct ExTaggedFile(TaggedFile);

#[verifier::external_type_specification]
#[verifier::external_body]
pub struct ExTag(Tag);

/// What `lofty` reads out of the bytes of a file: the kind it recognises and the
/// tags, or why it could not tell the kind.
pub uninterp spec fn probed(bytes: Seq<u8>) -> Result<ProbeReport, Seq<char>>;

/// Tells apart the variants of `lofty`'s `FileType`, one for one.
/// Trusted: nothing is claimed of it; it only converts.
#[verifier::external_body]
fn lofty_kind(t: FileType) -> LoftyFileType {
    match t {
        FileType::Aac => LoftyFileType::Aac, FileType::Aiff => LoftyFileType::Aiff,
        FileType::Ape => LoftyFileType::Ape, FileType::Flac => LoftyFileType::Flac,
        FileType::Mpeg => LoftyFileType::Mpeg, FileType::Mp4 => LoftyFileType::Mp4,
        FileType::Mpc => LoftyFileType::Mpc, FileType::Opus => LoftyFileType::Opus,
        FileType::Vorbis => LoftyFileType::Vorbis, FileType::Speex => LoftyFileType::Speex,
        FileType::Wav => LoftyFileType::Wav, FileType::WavPack => LoftyFileType::WavPack,
        FileType::Custom(name) => LoftyFileType::Custom(name.to_string()),
        _ => LoftyFileType::Custom(String::new()),
    }
}

/// Reads the artist, album, date and title of a `lofty` `Tag` (`Accessor`).
/// Trusted: nothing is claimed of it; it only converts.
#[verifier::external_body]
fn tag_fields(t: &Tag) -> TagFields {
    TagFields {
        artist: t.artist().map(|v| v.to_string()),
        album: t.album().map(|v| v.to_string()),
        year: t.date().map(|d| d.year as u32),
        title: t.title().map(|v| v.to_string()),
    }
}

/// Reads the primary tag, the first tag, the duration and the sample rate of a
/// `lofty` `TaggedFile` (`TaggedFileExt`, `AudioFile::properties`).
/// Trusted: nothing is claimed of it; it only converts.
#[verifier::external_body]
fn tagged_info(t: &TaggedFile) -> TaggedFileInfo {
    TaggedFileInfo {
        primary_tag: t.primary_tag().map(tag_fields),
        first_tag: t.first_tag().map(tag_fields),
        duration_secs: t.properties().duration().as_secs(),
        sample_rate: t.properties().sample_rate(),
    }
}

/// Calls `lofty`'s `Probe::new` over the bytes, then `guess_file_type`, `file_type`
/// and `read`.
/// Trusted: the outcome is a function of the bytes alone.
#[verifier::external_body]
fn lofty_probe(bytes: &[u8]) -> (res: Result<ProbeReport, String>)
    ensures
        match res {
            Ok(r) => probed(bytes@) == Ok::<ProbeReport, Seq<char>>(r),
            Err(e) => probed(bytes@) == Err::<ProbeReport, Seq<char>>(e@),
        },
{
    match Probe::new(std::io::Cursor::new(bytes)).guess_file_type() {
        Ok(probe) => {
            let file_type = probe.file_type().map(lofty_kind);
            let tags = probe.read().map(|t| tagged_info(&t)).map_err(|e| e.to_string());
            Ok(ProbeReport { file_type, tags })
        },
        Err(e) => Err(e.to_string()),
    }
}

/// What a scan does with an entry of the walk.
#[derive(Debug, Clone, Copy, PartialEq, Eq, Structural)]
pub enum EntryAction {
    /// A directory or a symbolic link: skipped.
    SkipDirOrLink,
    /// A file without a playable extension: skipped.
    SkipUnsupported,
    /// An audio file: opened and read.
    Process,
}

/// Whether a path's extension is one that the library plays.
pub open spec fn audio_path(path: Seq<char>) -> bool {
    match file_extension(path) {
        Some(e) => supported_extension(e),
        None => false,
    }
}

/// The kind a path's extension names; a path without one has kind `Unknown`.
pub open spec fn type_of_path(path: Seq<char>) -> AudioFileType {
    match file_extension(path) {
        Some(e) => type_of_os_extension(e),
        None => AudioFileType::Unknown,
    }
}

/// The path as the scan reports it: `./` and the part below the library's root when
/// it lies under the root, else the path unchanged.
pub open spec fn pretty_path(path: Seq<char>, base: Seq<char>) -> Seq<char> {
    match stripped_path(path, base) {
        Some(rest) => "./"@ + rest,
        None => path,
    }
}

impl MediaScanner {
    pub fn new(music_path: &str) -> (res: Self)
        ensures
            res.music_lib_path@ == music_path@,
    {
        MediaScanner { music_lib_path: music_path.to_string() }
    }

    /// Whether the path's extension, in any case, is `flac`, `mp3` or `wav`.
    pub fn is_audio_file(&self, path: &str) -> (res: bool)
        ensures
            res == audio_path(path@),
    {
        match path_extension(path) {
            Some(ext) => AudioFileType::is_supported_extension(ext.as_slice()),
            None => false,
        }
    }

    /// What a scan does with a walked entry.
    pub fn entry_action(&self, path: &str, is_dir: bool, is_symlink: bool) -> (res: EntryAction)
        ensures
            res == (if is_dir || is_symlink {
                EntryAction::SkipDirOrLink
            } else if !audio_path(path@) {
                EntryAction::SkipUnsupported
            } else {
                EntryAction::Process
            }),
    {
        if is_dir || is_symlink {
            EntryAction::SkipDirOrLink
        } else if !self.is_audio_file(path) {
            EntryAction::SkipUnsupported
        } else {
            EntryAction::Process
        }
    }

    /// The kind a path's extension names.
    pub fn type_from_ext(&self, path: &str) -> (res: AudioFileType)
        ensures
            res == type_of_path(path@),
    {
        match path_extension(path) {
            Some(ext) => AudioFileType::from_os_ext(ext.as_slice()),
            None => {
                proof {
                    reveal_strlit("unknown");
                    reveal_strlit("flac");
                    reveal_strlit("mp3");
                    reveal_strlit("wav");
                    assert("unknown"@.len() == 7);
                    assert("flac"@.len() == 4);
                    assert("mp3"@.len() == 3);
                    assert("wav"@.len() == 3);
                }
                let t = AudioFileType::from_extension_str("unknown");
                assert(t == AudioFileType::Unknown);
                t
            },
        }
    }

    /// The kind and the metadata of a file: the tag reader's kind, else the extension's;
    /// the tags read, else the placeholder; and when the tag reader could not even
    /// probe the file, the extension's kind and the placeholder.
    pub fn extract_type_and_metadata(&self, path: &str, probe: Result<ProbeReport, String>) -> (res: (AudioFileType, AudioFileMetadata))
        ensures
            match probe {
                Ok(report) => {
                    &&& res.0 == match report.file_type {
                        Some(t) => type_of_lofty(t),
                        None => type_of_path(path@),
                    }
                    &&& match report.tags {
                        Ok(info) => metadata_of_tags(info, res.1),
                        Err(_) => is_default_metadata(res.1),
                    }
                },
                Err(_) => res.0 == type_of_path(path@) && is_default_metadata(res.1),
            },
    {
        match probe {
            Ok(report) => {
                let file_type = match &report.file_type {
                    Some(ft) => AudioFileType::from_lofty(ft),
                    None => self.type_from_ext(path),
                };
                let metadata = AudioFileMetadata::extract_or_default(report.tags);
                (file_type, metadata)
            },
            Err(_) => (self.type_from_ext(path), AudioFileMetadata::default()),
        }
    }

    /// The record of one scanned audio file.
    pub fn make_descriptor(&self, path: &str, file_size: u64, probe: Result<ProbeReport, String>) -> (res: AudioFileDescriptor)
        ensures
            res.path@ == path@,
            res.file_size == file_size,
            match probe {
                Ok(report) => {
                    &&& res.file_type == match report.file_type {
                        Some(t) => type_of_lofty(t),
                        None => type_of_path(path@),
                    }
                    &&& match report.tags {
                        Ok(info) => metadata_of_tags(info, res.metadata),
                        Err(_) => is_default_metadata(res.metadata),
                    }
                },
                Err(_) => res.file_type == type_of_path(path@) && is_default_metadata(res.metadata),
            },
    {
        let (file_type, metadata) = self.extract_type_and_metadata(path, probe);
        AudioFileDescriptor { path: path.to_string(), file_size, file_type, metadata }
    }

    /// What a scan records of the audio file at `path` whose contents are `bytes`:
    /// its size is the number of bytes, and its kind and metadata are what `lofty`
    /// reads out of them, falling back on the extension and on placeholder metadata.
    pub fn describe_file(&self, path: &str, bytes: &[u8]) -> (res: AudioFileDescriptor)
        ensures
            res.path@ == path@,
            res.file_size == bytes@.len(),
            match probed(bytes@) {
                Ok(report) => {
                    &&& res.file_type == match report.file_type {
                        Some(t) => type_of_lofty(t),
                        None => type_of_path(path@),
                    }
                    &&& match report.tags {
                        Ok(info) => metadata_of_tags(info, res.metadata),
                        Err(_) => is_default_metadata(res.metadata),
                    }
                },
                Err(_) => res.file_type == type_of_path(path@) && is_default_metadata(res.metadata),
            },
    {
        let probe = lofty_probe(bytes);
        self.make_descriptor(path, bytes.len() as u64, probe)
    }

    /// The path as the scan reports it.
    pub fn prettify_path(&self, path: &str) -> (res: String)
        ensures
            res@ == pretty_path(path@, self.music_lib_path@),
    {
        match path_strip_prefix(path, self.music_lib_path.as_str()) {
            Some(rest) => "./".to_string().concat(rest.as_str()),
            None => path.to_string(),
        }
    }
}

/// What a scan found: the audio files, and what went wrong along the way.
#[derive(Debug)]
pub struct ScanResult {
    pub descriptors: Vec<AudioFileDescriptor>,
    pub errors: Vec<ScanError>,
}

impl ScanResult {
    pub fn new() -> (res: Self)
        ensures
            res.descriptors@.len() == 0,
            res.errors@.len() == 0,
    {
        ScanResult { descriptors: Vec::new(), errors: Vec::new() }
    }
}

} // verus!
