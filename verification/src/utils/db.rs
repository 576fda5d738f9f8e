//! How the database is addressed: a SQLite URL and the file behind it.
use vstd::prelude::*;
use crate::utils::text::{chars_from, has_prefix};

verus! {

/// The file that a SQLite URL names: the URL without its `sqlite:` scheme, or
/// the whole URL where it has none.
pub open spec fn db_file_of(url: Seq<char>) -> Seq<char> {
    if url.len() >= 7 && url.take(7) == "sqlite:"@ {
        url.skip(7)
    } else {
        url
    }
}

/// The file behind a SQLite URL.
pub fn db_file_path(db_url: &str) -> (res: String)
    ensures
        res@ == db_file_of(db_url@),
{
    proof {
        reveal_strlit("sqlite:");
    }
    if has_prefix(db_url, "sqlite:") {
        chars_from(db_url, 7)
    } else {
        db_url.to_string()
    }
}

/// The SQLite URL of a database file.
pub fn db_url_for(path: &str) -> (res: String)
    ensures
        res@ == "sqlite:"@ + path@,
{
    "sqlite:".to_string().concat(path)
}

} // verus!
