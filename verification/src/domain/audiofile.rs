//! Audio file kinds, the metadata read from their tags, and what a scan records of a file.
use vstd::prelude::*;
use crate::utils::normalizations::{normalize_name, normalized_name};
use crate::utils::text::{lossy_utf8, lowercase, same_text, to_lowercase_string, utf8_lossy_string, utf8_str};

verus! {

#[derive(Clone, Copy, Debug, PartialEq, Eq, Hash, Structural)]
pub enum AudioFileType {
    Flac,
    Mp3,
    Wav,
    Unknown,
}

/// The file kinds that the tag reader tells apart.
#[derive(Clone, Debug, PartialEq, Eq)]
pub enum LoftyFileType {
    Aac,
    Aiff,
    Ape,
    Flac,
    Mpeg,
    Mp4,
    Mpc,
    Opus,
    Vorbis,
    Speex,
    Wav,
    WavPack,
    Custom(String),
}

/// The kind that a lower-case extension names.
pub open spec fn type_of_extension(ext: Seq<char>) -> AudioFileType {
    if ext == "flac"@ {
        AudioFileType::Flac
    } else if ext == "mp3"@ {
        AudioFileType::Mp3
    } else if ext == "wav"@ {
        AudioFileType::Wav
    } else {
        AudioFileType::Unknown
    }
}

/// The kind that the raw bytes of an extension name: unknown unless they are UTF-8.
pub open spec fn type_of_os_extension(ext: Seq<u8>) -> AudioFileType {
    if vstd::utf8::valid_utf8(ext) {
        type_of_extension(vstd::utf8::decode_utf8(ext))
    } else {
        AudioFileType::Unknown
    }
}

/// Whether an extension, read leniently and lower-cased, is one the library plays.
pub open spec fn supported_extension(ext: Seq<u8>) -> bool {
    let e = lowercase(lossy_utf8(ext));
    e == "flac"@ || e == "mp3"@ || e == "wav"@
}

/// The text by which a kind is stored.
pub open spec fn type_text(t: AudioFileType) -> Seq<char> {
    match t {
        AudioFileType::Flac => "flac"@,
        AudioFileType::Mp3 => "mp3"@,
        AudioFileType::Wav => "wav"@,
        AudioFileType::Unknown => "unknown"@,
    }
}

/// The sample rate a file of the kind is resampled to.
pub open spec fn resample_target_rate(t: AudioFileType) -> u32 {
    match t {
        AudioFileType::Flac => 88200,
        AudioFileType::Wav => 88200,
        _ => 44100,
    }
}

/// A kind survives being stored as text: reading back the text of a kind gives
/// the kind.
pub proof fn lemma_type_text_round_trip(t: AudioFileType)
    ensures
        type_of_extension(type_text(t)) == t,
{
    reveal_strlit("flac");
    reveal_strlit("mp3");
    reveal_strlit("wav");
    reveal_strlit("unknown");
    assert("unknown"@ != "flac"@ && "unknown"@ != "mp3"@ && "unknown"@ != "wav"@) by {
        assert("unknown"@.len() != "flac"@.len());
        assert("unknown"@.len() != "mp3"@.len());
        assert("unknown"@.len() != "wav"@.len());
    }
    assert("mp3"@ != "flac"@) by {
        assert("mp3"@.len() != "flac"@.len());
    }
    assert("wav"@ != "flac"@) by {
        assert("wav"@.len() != "flac"@.len());
    }
    assert("wav"@ != "mp3"@) by {
        assert("wav"@[0] != "mp3"@[0]);
    }
}

/// No kind is resampled above 88200 Hz, the highest rate that a browser's audio
/// element plays.
pub proof fn lemma_target_rate_is_playable(t: AudioFileType)
    ensures
        resample_target_rate(t) <= 88200,
{
}

/// The kind that a tag reader's kind corresponds to.
pub open spec fn type_of_lofty(t: LoftyFileType) -> AudioFileType {
    match t {
        LoftyFileType::Flac => AudioFileType::Flac,
        LoftyFileType::Mpeg => AudioFileType::Mp3,
        LoftyFileType::Wav => AudioFileType::Wav,
        _ => AudioFileType::Unknown,
    }
}

impl AudioFileType {
    pub fn from_lofty(lofty_type: &LoftyFileType) -> (res: Self)
        ensures
            res == type_of_lofty(*lofty_type),
    {
        match lofty_type {
            LoftyFileType::Flac => AudioFileType::Flac,
            LoftyFileType::Mpeg => AudioFileType::Mp3,
            LoftyFileType::Wav => AudioFileType::Wav,
            _ => AudioFileType::Unknown,
        }
    }

    /// The kind an extension names, compared exactly (so case matters).
    pub fn from_extension_str(extension: &str) -> (res: Self)
        ensures
            res == type_of_extension(extension@),
    {
        if same_text(extension, "flac") {
            AudioFileType::Flac
        } else if same_text(extension, "mp3") {
            AudioFileType::Mp3
        } else if same_text(extension, "wav") {
            AudioFileType::Wav
        } else {
            AudioFileType::Unknown
        }
    }

    /// The kind that the raw bytes of a file extension name.
    pub fn from_os_ext(os_ext: &[u8]) -> (res: Self)
        ensures
            res == type_of_os_extension(os_ext@),
    {
        match utf8_str(os_ext) {
            Some(ext_str) => Self::from_extension_str(ext_str),
            None => AudioFileType::Unknown,
        }
    }

    pub fn as_str(&self) -> (res: &'static str)
        ensures
            res@ == type_text(*self),
    {
        match self {
            AudioFileType::Flac => "flac",
            AudioFileType::Mp3 => "mp3",
            AudioFileType::Wav => "wav",
            AudioFileType::Unknown => "unknown",
        }
    }

    /// Whether the extension, in any case, is `flac`, `mp3` or `wav`.
    pub fn is_supported_extension(extension: &[u8]) -> (res: bool)
        ensures
            res == supported_extension(extension@),
    {
        let text = utf8_lossy_string(extension);
        let lowered = to_lowercase_string(text.as_str());
        same_text(lowered.as_str(), "flac") || same_text(lowered.as_str(), "mp3") || same_text(
            lowered.as_str(),
            "wav",
        )
    }

    pub fn get_resample_target_rate(&self) -> (res: u32)
        ensures
            res == resample_target_rate(*self),
    {
        match self {
            AudioFileType::Flac => 88200,
            AudioFileType::Wav => 88200,
            AudioFileType::Mp3 => 44100,
            _ => 44100,
        }
    }
}

/// What a scan reads out of a file's tags and properties.
#[derive(Debug, Clone, PartialEq, Eq)]
pub struct AudioFileMetadata {
    pub artist_name: String,
    pub album_name: String,
    pub album_year: Option<u32>,
    pub track_name: String,
    pub track_duration: u32,
    pub sample_rate: Option<u32>,
}

/// The fields of a tag that the metadata is taken from.
#[derive(Debug, Clone, PartialEq, Eq)]
pub struct TagFields {
    pub artist: Option<String>,
    pub album: Option<String>,
    pub year: Option<u32>,
    pub title: Option<String>,
}

/// What the tag reader hands back for a file: the tag of the file format's own
/// kind, the first tag it found, and the audio properties.
#[derive(Debug, Clone, PartialEq, Eq)]
pub struct TaggedFileInfo {
    pub primary_tag: Option<TagFields>,
    pub first_tag: Option<TagFields>,
    pub duration_secs: u64,
    pub sample_rate: Option<u32>,
}

/// The tag the metadata is read from: the primary tag, or else the first one.
pub open spec fn chosen_tag(info: TaggedFileInfo) -> Option<TagFields> {
    match info.primary_tag {
        Some(t) => Some(t),
        None => info.first_tag,
    }
}

/// A normalised tag text, or the normalised fallback when the tag lacks it.
pub open spec fn name_or(field: Option<String>, fallback: Seq<char>) -> Seq<char> {
    match field {
        Some(s) => normalized_name(s@),
        None => normalized_name(fallback),
    }
}

/// A duration in whole seconds as a `u32`, or 0 when it does not fit.
pub open spec fn duration_u32(secs: u64) -> u32 {
    if secs <= u32::MAX {
        secs as u32
    } else {
        0
    }
}

/// Whether `m` holds the placeholder metadata of a file whose tags could not be read.
pub open spec fn is_default_metadata(m: AudioFileMetadata) -> bool {
    &&& m.artist_name@ == "unknown artist"@
    &&& m.album_name@ == "unknown album"@
    &&& m.album_year is None
    &&& m.track_name@ == "unknown track"@
    &&& m.track_duration == 0
    &&& m.sample_rate is None
}

/// Whether `m` is the metadata that `info` yields.
pub open spec fn metadata_of_tags(info: TaggedFileInfo, m: AudioFileMetadata) -> bool {
    match chosen_tag(info) {
        None => is_default_metadata(m),
        Some(tag) => {
            &&& m.artist_name@ == name_or(tag.artist, "unknown artist"@)
            &&& m.album_name@ == name_or(tag.album, "unknown album"@)
            &&& m.album_year == tag.year
            &&& m.track_name@ == name_or(tag.title, "unknown track"@)
            &&& m.track_duration == duration_u32(info.duration_secs)
            &&& m.sample_rate == info.sample_rate
        },
    }
}

/// Where the chosen tag lacks the artist, the album or the title, the metadata holds
/// the normalised form of the placeholder that the default metadata holds in that same
/// field; where the file has no tag at all, it holds the default metadata itself.
pub proof fn lemma_missing_tag_fields_take_default_placeholders(
    info: TaggedFileInfo,
    m: AudioFileMetadata,
    d: AudioFileMetadata,
)
    requires
        metadata_of_tags(info, m),
        is_default_metadata(d),
    ensures
        chosen_tag(info) is Some && chosen_tag(info).unwrap().artist is None ==> m.artist_name@ == normalized_name(d.artist_name@),
        chosen_tag(info) is Some && chosen_tag(info).unwrap().album is None ==> m.album_name@ == normalized_name(d.album_name@),
        chosen_tag(info) is Some && chosen_tag(info).unwrap().title is None ==> m.track_name@ == normalized_name(d.track_name@),
        chosen_tag(info) is None ==> {
            &&& m.artist_name@ == d.artist_name@
            &&& m.album_name@ == d.album_name@
            &&& m.album_year == d.album_year
            &&& m.track_name@ == d.track_name@
            &&& m.track_duration == d.track_duration
            &&& m.sample_rate == d.sample_rate
        },
{
}

impl Default for AudioFileMetadata {
    fn default() -> (res: Self)
        ensures
            is_default_metadata(res),
    {
        AudioFileMetadata {
            artist_name: "unknown artist".to_string(),
            album_name: "unknown album".to_string(),
            album_year: None,
            track_name: "unknown track".to_string(),
            track_duration: 0,
            sample_rate: None,
        }
    }
}

fn normalized_or(field: &Option<String>, fallback: &str) -> (res: String)
    ensures
        res@ == name_or(*field, fallback@),
{
    match field {
        Some(s) => normalize_name(s.as_str()),
        None => normalize_name(fallback),
    }
}

impl AudioFileMetadata {
    /// The metadata of a read file, or the placeholder when reading failed.
    pub fn extract_or_default(tagged_result: Result<TaggedFileInfo, String>) -> (res: Self)
        ensures
            match tagged_result {
                Ok(info) => metadata_of_tags(info, res),
                Err(_) => is_default_metadata(res),
            },
    {
        match tagged_result {
            Ok(tagged) => Self::from_tagged(&tagged),
            Err(_) => Self::default(),
        }
    }

    /// The metadata of a read file: normalised tag texts with fallbacks, the year, the
    /// duration in whole seconds and the sample rate.
    pub fn from_tagged(tagged_file: &TaggedFileInfo) -> (res: Self)
        ensures
            metadata_of_tags(*tagged_file, res),
    {
        let tag = match &tagged_file.primary_tag {
            Some(t) => t,
            None => match &tagged_file.first_tag {
                Some(t) => t,
                None => {
                    return Self::default();
                },
            },
        };
        let secs = tagged_file.duration_secs;
        let track_duration: u32 = if secs <= 0xffff_ffffu64 {
            secs as u32
        } else {
            0
        };
        AudioFileMetadata {
            artist_name: normalized_or(&tag.artist, "unknown artist"),
            album_name: normalized_or(&tag.album, "unknown album"),
            album_year: tag.year,
            track_name: normalized_or(&tag.title, "unknown track"),
            track_duration,
            sample_rate: tagged_file.sample_rate,
        }
    }
}

/// What a scan records of one audio file.
#[derive(Debug, Clone)]
pub struct AudioFileDescriptor {
    pub path: String,
    pub file_size: u64,
    pub file_type: AudioFileType,
    pub metadata: AudioFileMetadata,
}

} // verus!
