use vstd::prelude::*;
use crate::domain::{Id, ValidationError};
use crate::utils::normalizations::{normalize_name, normalized_name};

verus! {

/// What an album is: its id, its normalised name, its artist and its year.
pub struct AlbumView {
    pub id: Id,
    pub name: Seq<char>,
    pub artist_id: Id,
    pub year: Option<u32>,
}

/// An album; its name is never empty.
#[derive(Debug)]
pub struct Album {
    id: Id,
    name: String,
    artist_id: Id,
    year: Option<u32>,
}

impl View for Album {
    type V = AlbumView;

    closed spec fn view(&self) -> AlbumView {
        AlbumView { id: self.id, name: self.name@, artist_id: self.artist_id, year: self.year }
    }
}

/// Two albums are the same album when they have the same name and the same artist.
impl PartialEq for Album {
    fn eq(&self, other: &Self) -> (res: bool) {
        self.name == other.name && self.artist_id == other.artist_id
    }
}

impl vstd::std_specs::cmp::PartialEqSpecImpl for Album {
    open spec fn obeys_eq_spec() -> bool {
        true
    }

    open spec fn eq_spec(&self, other: &Self) -> bool {
        self@.name == other@.name && self@.artist_id == other@.artist_id
    }
}

impl Eq for Album {}

impl Album {
    #[verifier::type_invariant]
    closed spec fn inv(self) -> bool {
        self.name@.len() > 0
    }

    /// Makes an album whose name is the normalised `name`, refused when that is empty.
    pub fn new(id: Id, name: &str, artist_id: Id, year: Option<u32>) -> (res: Result<Album, ValidationError>)
        ensures
            match res {
                Ok(a) => normalized_name(name@).len() > 0 && a@ == (AlbumView {
                    id,
                    name: normalized_name(name@),
                    artist_id,
                    year,
                }),
                Err(e) => normalized_name(name@).len() == 0 && e == ValidationError::NameIsEmptyString,
            },
    {
        let norm_name = normalize_name(name);
        if norm_name.as_str().is_empty() {
            return Err(ValidationError::NameIsEmptyString);
        }
        Ok(Album { id, name: norm_name, artist_id, year })
    }

    pub fn id(&self) -> (res: Id)
        ensures
            res == self@.id,
    {
        self.id
    }

    pub fn name(&self) -> (res: &str)
        ensures
            res@ == self@.name,
            res@.len() > 0,
    {
        proof {
            use_type_invariant(self);
        }
        self.name.as_str()
    }

    pub fn artist_id(&self) -> (res: Id)
        ensures
            res == self@.artist_id,
    {
        self.artist_id
    }

    pub fn year(&self) -> (res: Option<u32>)
        ensures
            res == self@.year,
    {
        self.year
    }

    /// An album equal to this one in every field.
    pub fn duplicate(&self) -> (res: Album)
        ensures
            res@ == self@,
    {
        proof {
            use_type_invariant(self);
        }
        Album { id: self.id, name: self.name.clone(), artist_id: self.artist_id, year: self.year }
    }
}

} // verus!
