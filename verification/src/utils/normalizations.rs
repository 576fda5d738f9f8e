//! The rules by which names and paths are made comparable.
use vstd::prelude::*;
use crate::utils::text::{all_whitespace, lemma_trim_ignores_padding, chars_of, char_is_alphanumeric, char_is_whitespace, is_alphanumeric, is_whitespace, lowercase, nfkc, nfkc_string, string_of, to_lowercase_string, trim, trim_chars};

verus! {

/// A character that a normalised name keeps.
pub open spec fn is_name_char(c: char) -> bool {
    is_alphanumeric(c) || is_whitespace(c)
}

/// A normalised name: trimmed, NFKC-composed, lower-cased, and without any
/// character that is neither alphanumeric nor white space.
pub open spec fn normalized_name(name: Seq<char>) -> Seq<char> {
    lowercase(nfkc(trim(name))).filter(|c: char| is_name_char(c))
}

/// A path separator after normalisation: back slashes become forward slashes.
pub open spec fn unify_separator(c: char) -> char {
    if c == '\\' {
        '/'
    } else {
        c
    }
}

/// A normalised path: lower-cased, with every back slash turned into a forward slash.
pub open spec fn normalized_path(path: Seq<char>) -> Seq<char> {
    lowercase(path).map_values(|c: char| unify_separator(c))
}

/// A normalised name holds only alphanumeric characters and white space.
pub proof fn lemma_normalized_name_chars(name: Seq<char>)
    ensures
        forall|i: int| 0 <= i < normalized_name(name).len() ==> is_name_char(#[trigger] normalized_name(name)[i]),
{
    let pred = |c: char| is_name_char(c);
    let inner = lowercase(nfkc(trim(name)));
    assert forall|i: int| 0 <= i < normalized_name(name).len() implies is_name_char(#[trigger] normalized_name(name)[i]) by {
        inner.lemma_filter_pred(pred, i);
    }
}

proof fn lemma_name_filter_count(s: Seq<char>, c: char)
    ensures
        s.filter(|x: char| is_name_char(x)).to_multiset().count(c) == if is_name_char(c) {
            s.to_multiset().count(c)
        } else {
            0
        },
    decreases s.len(),
{
    broadcast use vstd::seq_lib::group_to_multiset_ensures;
    if s.len() == 0 {
        assert(s.filter(|x: char| is_name_char(x)) =~= s) by {
            reveal(Seq::filter);
        }
    } else {
        let rest = s.drop_last();
        let last = s.last();
        lemma_name_filter_count(rest, c);
        assert(s =~= rest.push(last));
        rest.lemma_filter_push(last, |x: char| is_name_char(x));
    }
}

/// A normalised name keeps each alphanumeric or white-space character of the trimmed,
/// NFKC-composed, lower-cased name as often as it occurs there (digits, being
/// alphanumeric, among them), and holds no other character.
pub proof fn lemma_normalized_name_keeps_alphanumerics(name: Seq<char>, c: char)
    ensures
        is_alphanumeric(c) || is_whitespace(c) ==> normalized_name(name).to_multiset().count(c)
            == lowercase(nfkc(trim(name))).to_multiset().count(c),
        !is_alphanumeric(c) && !is_whitespace(c) ==> normalized_name(name).to_multiset().count(c) == 0,
{
    lemma_name_filter_count(lowercase(nfkc(trim(name))), c);
}

/// White space around a name does not change its normalised form.
pub proof fn lemma_normalized_name_ignores_padding(pre: Seq<char>, name: Seq<char>, post: Seq<char>)
    requires
        all_whitespace(pre),
        all_whitespace(post),
    ensures
        normalized_name(pre + name + post) == normalized_name(name),
{
    lemma_trim_ignores_padding(pre, name, post);
}

/// A normalised path holds no back slash.
pub proof fn lemma_normalized_path_has_no_backslash(path: Seq<char>)
    ensures
        forall|i: int| 0 <= i < normalized_path(path).len() ==> #[trigger] normalized_path(path)[i] != '\\',
{
}

/// Normalises a name of an artist, album or track.
pub fn normalize_name(name: &str) -> (res: String)
    ensures
        res@ == normalized_name(name@),
{
    let chars = chars_of(name);
    let trimmed = trim_chars(&chars);
    let trimmed_str = string_of(trimmed.as_slice());
    let composed = nfkc_string(trimmed_str.as_str());
    let lowered = to_lowercase_string(composed.as_str());
    let lc = chars_of(lowered.as_str());
    let ghost pred = |c: char| is_name_char(c);
    let mut kept: Vec<char> = Vec::new();
    let n = lc.len();
    for i in 0..n
        invariant
            n == lc@.len(),
            kept@ == lc@.take(i as int).filter(pred),
            pred == (|c: char| is_name_char(c)),
    {
        let c = lc[i];
        let keep = char_is_alphanumeric(c) || char_is_whitespace(c);
        if keep {
            kept.push(c);
        }
        proof {
            reveal(Seq::filter);
            assert(lc@.take(i + 1).drop_last() == lc@.take(i as int));
        }
    }
    assert(lc@.take(n as int) == lc@);
    string_of(kept.as_slice())
}

/// Normalises a file path so that paths written with either separator compare equal.
pub fn normalize_path(path: &str) -> (res: String)
    ensures
        res@ == normalized_path(path@),
{
    let lowered = to_lowercase_string(path);
    let lc = chars_of(lowered.as_str());
    let mut out: Vec<char> = Vec::new();
    let n = lc.len();
    for i in 0..n
        invariant
            n == lc@.len(),
            out@ == lc@.take(i as int).map_values(|c: char| unify_separator(c)),
    {
        let c = lc[i];
        if c == '\\' {
            out.push('/');
        } else {
            out.push(c);
        }
        assert(lc@.take(i + 1).map_values(|c: char| unify_separator(c))
            =~= lc@.take(i as int).map_values(|c: char| unify_separator(c)).push(unify_separator(lc@[i as int])));
    }
    assert(lc@.take(n as int) == lc@);
    string_of(out.as_slice())
}

} // verus!
