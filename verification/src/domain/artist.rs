use vstd::prelude::*;
use crate::domain::{Id, ValidationError};
use crate::utils::normalizations::{normalize_name, normalized_name};

verus! {

/// What an artist is: its id and its normalised name.
pub struct ArtistView {
    pub id: Id,
    pub name: Seq<char>,
}

/// An artist; its name is never empty.
#[derive(Debug)]
pub struct Artist {
    id: Id,
    name: String,
}

impl View for Artist {
    type V = ArtistView;

    closed spec fn view(&self) -> ArtistView {
        ArtistView { id: self.id, name: self.name@ }
    }
}

/// Two artists are the same artist when they have the same name.
impl PartialEq for Artist {
    fn eq(&self, other: &Self) -> (res: bool) {
        self.name == other.name
    }
}

impl vstd::std_specs::cmp::PartialEqSpecImpl for Artist {
    open spec fn obeys_eq_spec() -> bool {
        true
    }

    open spec fn eq_spec(&self, other: &Self) -> bool {
        self@.name == other@.name
    }
}

impl Eq for Artist {}

impl Artist {
    #[verifier::type_invariant]
    closed spec fn inv(self) -> bool {
        self.name@.len() > 0
    }

    /// Makes an artist whose name is the normalised `name`, refused when that is empty.
    pub fn new(id: Id, name: &str) -> (res: Result<Artist, ValidationError>)
        ensures
            match res {
                Ok(a) => normalized_name(name@).len() > 0 && a@ == (ArtistView { id, name: normalized_name(name@) }),
                Err(e) => normalized_name(name@).len() == 0 && e == ValidationError::NameIsEmptyString,
            },
    {
        let norm_name = normalize_name(name);
        if norm_name.as_str().is_empty() {
            return Err(ValidationError::NameIsEmptyString);
        }
        Ok(Artist { id, name: norm_name })
    }

    pub fn id(&self) -> (res: Id)
        ensures
            res == self@.id,
    {
        self.id
    }

    pub fn name(&self) -> (res: &str)
        ensures
            res@ == self@.name,
            res@.len() > 0,
    {
        proof {
            use_type_invariant(self);
        }
        self.name.as_str()
    }

    /// Renames the artist to the normalised `name`; an empty result is refused and
    /// leaves the artist as it was.
    pub fn set_name(&mut self, name: &str) -> (res: Result<(), ValidationError>)
        ensures
            match res {
                Ok(()) => normalized_name(name@).len() > 0 && final(self)@ == (ArtistView {
                    id: old(self)@.id,
                    name: normalized_name(name@),
                }),
                Err(e) => normalized_name(name@).len() == 0 && e == ValidationError::NameIsEmptyString
                    && final(self)@ == old(self)@,
            },
    {
        let norm_name = normalize_name(name);
        if norm_name.as_str().is_empty() {
            return Err(ValidationError::NameIsEmptyString);
        }
        self.name = norm_name;
        Ok(())
    }

    pub fn set_id(&mut self, id: Id)
        ensures
            final(self)@ == (ArtistView { id, name: old(self)@.name }),
    {
        proof {
            use_type_invariant(&*self);
        }
        self.id = id;
    }

    /// An artist equal to this one in every field.
    pub fn duplicate(&self) -> (res: Artist)
        ensures
            res@ == self@,
    {
        proof {
            use_type_invariant(self);
        }
        Artist { id: self.id, name: self.name.clone() }
    }
}

} // verus!
