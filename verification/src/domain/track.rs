use vstd::prelude::*;
use crate::domain::{Id, ValidationError};
use crate::domain::audiofile::AudioFileType;
use crate::domain::uploaded::Uploaded;
use crate::utils::normalizations::{normalize_name, normalize_path, normalized_name, normalized_path};

verus! {

#[verifier::external_type_specification]
#[verifier::external_body]
pub struct ExNaiveDateTime(chrono::NaiveDateTime);

/// What a track is.
pub struct TrackView {
    pub id: Id,
    pub name: Seq<char>,
    pub album_id: Id,
    pub duration: u32,
    pub file_path: Seq<char>,
    pub file_size: u64,
    pub file_type: AudioFileType,
    pub uploaded: Uploaded,
    pub date_added: Option<chrono::NaiveDateTime>,
}

/// A track; its name is never empty, and its duration and file size are never zero.
#[derive(Debug)]
pub struct Track {
    id: Id,
    name: String,
    album_id: Id,
    duration: u32,
    file_path: String,
    file_size: u64,
    file_type: AudioFileType,
    uploaded: Uploaded,
    date_added: Option<chrono::NaiveDateTime>,
}

impl View for Track {
    type V = TrackView;

    closed spec fn view(&self) -> TrackView {
        TrackView {
            id: self.id,
            name: self.name@,
            album_id: self.album_id,
            duration: self.duration,
            file_path: self.file_path@,
            file_size: self.file_size,
            file_type: self.file_type,
            uploaded: self.uploaded,
            date_added: self.date_added,
        }
    }
}

/// Why `Track::new` refuses the given fields, checked in this order.
pub open spec fn track_refusal(name: Seq<char>, duration: u32, file_size: u64) -> Option<ValidationError> {
    if normalized_name(name).len() == 0 {
        Some(ValidationError::NameIsEmptyString)
    } else if duration == 0 {
        Some(ValidationError::DurationIsZero)
    } else if file_size == 0 {
        Some(ValidationError::FileSizeIsZero)
    } else {
        None
    }
}

/// Two tracks are the same track when they lie at the same path.
impl PartialEq for Track {
    fn eq(&self, other: &Self) -> (res: bool) {
        self.file_path == other.file_path
    }
}

impl vstd::std_specs::cmp::PartialEqSpecImpl for Track {
    open spec fn obeys_eq_spec() -> bool {
        true
    }

    open spec fn eq_spec(&self, other: &Self) -> bool {
        self@.file_path == other@.file_path
    }
}

impl Eq for Track {}

impl Track {
    #[verifier::type_invariant]
    closed spec fn inv(self) -> bool {
        &&& self.name@.len() > 0
        &&& self.duration > 0
        &&& self.file_size > 0
    }

    /// Makes a track with a normalised name and a normalised file path; an empty name,
    /// a zero duration and a zero size are refused.
    pub fn new(
        id: Id,
        name: &str,
        album_id: Id,
        duration: u32,
        file_path: &str,
        file_size: u64,
        file_type: AudioFileType,
        uploaded: Uploaded,
        date_added: Option<chrono::NaiveDateTime>,
    ) -> (res: Result<Track, ValidationError>)
        ensures
            match res {
                Ok(t) => track_refusal(name@, duration, file_size) is None && t@ == (TrackView {
                    id,
                    name: normalized_name(name@),
                    album_id,
                    duration,
                    file_path: normalized_path(file_path@),
                    file_size,
                    file_type,
                    uploaded,
                    date_added,
                }),
                Err(e) => track_refusal(name@, duration, file_size) == Some(e),
            },
    {
        let norm_name = normalize_name(name);
        let norm_path = normalize_path(file_path);
        if norm_name.as_str().is_empty() {
            return Err(ValidationError::NameIsEmptyString);
        }
        if duration == 0 {
            return Err(ValidationError::DurationIsZero);
        }
        if file_size == 0 {
            return Err(ValidationError::FileSizeIsZero);
        }
        Ok(
            Track {
                id,
                name: norm_name,
                album_id,
                duration,
                file_path: norm_path,
                file_size,
                file_type,
                uploaded,
                date_added,
            },
        )
    }

    pub fn id(&self) -> (res: Id)
        ensures
            res == self@.id,
    {
        self.id
    }

    pub fn name(&self) -> (res: &str)
        ensures
            res@ == self@.name,
            res@.len() > 0,
    {
        proof {
            use_type_invariant(self);
        }
        self.name.as_str()
    }

    pub fn album_id(&self) -> (res: Id)
        ensures
            res == self@.album_id,
    {
        self.album_id
    }

    pub fn duration(&self) -> (res: u32)
        ensures
            res == self@.duration,
            res > 0,
    {
        proof {
            use_type_invariant(self);
        }
        self.duration
    }

    pub fn file_path(&self) -> (res: &str)
        ensures
            res@ == self@.file_path,
    {
        self.file_path.as_str()
    }

    pub fn file_size(&self) -> (res: u64)
        ensures
            res == self@.file_size,
            res > 0,
    {
        proof {
            use_type_invariant(self);
        }
        self.file_size
    }

    pub fn file_type(&self) -> (res: AudioFileType)
        ensures
            res == self@.file_type,
    {
        self.file_type
    }

    pub fn uploaded(&self) -> (res: Uploaded)
        ensures
            res == self@.uploaded,
    {
        self.uploaded
    }

    pub fn date_added(&self) -> (res: Option<chrono::NaiveDateTime>)
        ensures
            res == self@.date_added,
    {
        self.date_added
    }
}

} // verus!
