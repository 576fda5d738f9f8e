//! Who put a track into the library.
use vstd::prelude::*;
use crate::domain::UploadedParseError;
use crate::utils::text::{chars_of, is_whitespace, lowercase, same_text, string_of, to_lowercase_string, trim, trim_chars, trim_end, trim_start};

verus! {

#[derive(Clone, Copy, Debug, PartialEq, Eq, Hash, Structural)]
pub enum Uploaded {
    Masha,
    Denis,
}

/// The text by which an uploader is stored.
pub open spec fn uploaded_text(u: Uploaded) -> Seq<char> {
    match u {
        Uploaded::Masha => "masha"@,
        Uploaded::Denis => "denis"@,
    }
}

/// The uploader that a text names: it is lower-cased, then trimmed, then compared.
pub open spec fn parsed_uploaded(value: Seq<char>) -> Option<Uploaded> {
    let t = trim(lowercase(value));
    if t == "masha"@ {
        Some(Uploaded::Masha)
    } else if t == "denis"@ {
        Some(Uploaded::Denis)
    } else {
        None
    }
}

impl Uploaded {
    /// Reads an uploader from text, ignoring case and surrounding white space.
    pub fn parse(value: &str) -> (res: Result<Uploaded, UploadedParseError>)
        ensures
            match res {
                Ok(u) => parsed_uploaded(value@) == Some(u),
                Err(e) => parsed_uploaded(value@) is None && e.0@ == value@,
            },
            forall|u: Uploaded| value@ == #[trigger] uploaded_text(u) ==> res == Ok::<Uploaded, UploadedParseError>(u),
    {
        let lowered = to_lowercase_string(value);
        proof {
            reveal_strlit("masha");
            reveal_strlit("denis");
            if value@ == "masha"@ || value@ == "denis"@ {
                assert(lowered@ == value@);
                let v = value@;
                assert(!is_whitespace(v[0]) && !is_whitespace(v[v.len() - 1]));
                assert(trim_start(v) == v);
                assert(trim_end(v) == v);
                assert(trim(v) == v);
            }
        }
        let trimmed = trim_chars(&chars_of(lowered.as_str()));
        let t = string_of(trimmed.as_slice());
        if same_text(t.as_str(), "masha") {
            Ok(Uploaded::Masha)
        } else if same_text(t.as_str(), "denis") {
            Ok(Uploaded::Denis)
        } else {
            Err(UploadedParseError(value.to_string()))
        }
    }

    /// The text by which the uploader is stored.
    pub fn as_str(&self) -> (res: &'static str)
        ensures
            res@ == uploaded_text(*self),
    {
        match self {
            Uploaded::Masha => "masha",
            Uploaded::Denis => "denis",
        }
    }

    /// The stored text as an owned string.
    pub fn to_text(&self) -> (res: String)
        ensures
            res@ == uploaded_text(*self),
    {
        self.as_str().to_string()
    }
}

} // verus!
