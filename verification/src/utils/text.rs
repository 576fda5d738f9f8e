//! Character-level helpers shared by the name and path normalisation rules.
use vstd::prelude::*;
use unicode_normalization::UnicodeNormalization;

verus! {

/// The characters of `s` after Unicode compatibility composition (NFKC).
pub uninterp spec fn nfkc(s: Seq<char>) -> Seq<char>;

/// The characters of `s` after Unicode lower-casing, as `str::to_lowercase` does it.
pub uninterp spec fn lowercase(s: Seq<char>) -> Seq<char>;

/// Whether `c` has the Unicode `Alphabetic` or `Numeric` property (`char::is_alphanumeric`).
pub uninterp spec fn is_alphanumeric(c: char) -> bool;

/// Whether `c` has the Unicode `White_Space` property (`char::is_whitespace`):
/// the ASCII controls from tab to carriage return, space, next line, no-break
/// space, ogham space mark, the spaces from en quad to hair space, the line and
/// paragraph separators, narrow no-break space, medium mathematical space and
/// ideographic space.
pub open spec fn is_whitespace(c: char) -> bool {
    let n = c as u32;
    ||| 0x09 <= n <= 0x0d
    ||| n == 0x20
    ||| n == 0x85
    ||| n == 0xa0
    ||| n == 0x1680
    ||| 0x2000 <= n <= 0x200a
    ||| n == 0x2028
    ||| n == 0x2029
    ||| n == 0x202f
    ||| n == 0x205f
    ||| n == 0x3000
}

/// Calls `UnicodeNormalization::nfkc` of `unicode-normalization` and collects the characters.
/// Trusted: the result is the NFKC form of `s`, a function of `s` alone.
#[verifier::external_body]
pub(crate) fn nfkc_string(s: &str) -> (res: String)
    ensures
        res@ == nfkc(s@),
{
    s.nfkc().collect::<String>()
}

/// Calls `str::to_lowercase`.
/// Trusted: the result is the Unicode lower-case form of `s`, a function of `s` alone;
/// text made only of the letters `a` to `z` is its own lower-case form.
#[verifier::external_body]
pub(crate) fn to_lowercase_string(s: &str) -> (res: String)
    ensures
        res@ == lowercase(s@),
        (forall|i: int| 0 <= i < s@.len() ==> 'a' <= #[trigger] s@[i] <= 'z') ==> res@ == s@,
{
    s.to_lowercase()
}

/// Calls `char::is_alphanumeric`.
#[verifier::external_body]
pub(crate) fn char_is_alphanumeric(c: char) -> (res: bool)
    ensures
        res == is_alphanumeric(c),
{
    c.is_alphanumeric()
}

/// Whether `c` is white space, as `char::is_whitespace` decides it.
pub(crate) fn char_is_whitespace(c: char) -> (res: bool)
    ensures
        res == is_whitespace(c),
{
    let n = c as u32;
    (0x09 <= n && n <= 0x0d) || n == 0x20 || n == 0x85 || n == 0xa0 || n == 0x1680
        || (0x2000 <= n && n <= 0x200a) || n == 0x2028 || n == 0x2029 || n == 0x202f
        || n == 0x205f || n == 0x3000
}

/// Calls `String::push`: the string grows by exactly the character `c`.
#[verifier::external_body]
pub(crate) fn string_push(s: &mut String, c: char)
    ensures
        final(s)@ == old(s)@.push(c),
{
    s.push(c)
}

/// The characters that `String::from_utf8_lossy` reads out of `bytes`: each
/// invalid sequence becomes U+FFFD.
pub uninterp spec fn lossy_utf8(bytes: Seq<u8>) -> Seq<char>;

/// Calls `std::str::from_utf8`.
/// Trusted: the result is present exactly when `bytes` is valid UTF-8, and then it
/// holds the characters that the bytes encode.
#[verifier::external_body]
pub(crate) fn utf8_str(bytes: &[u8]) -> (res: Option<&str>)
    ensures
        res is Some <==> vstd::utf8::valid_utf8(bytes@),
        res matches Some(s) ==> s@ == vstd::utf8::decode_utf8(bytes@),
{
    match std::str::from_utf8(bytes) {
        Ok(s) => Some(s),
        Err(_) => None,
    }
}

/// Calls `String::from_utf8_lossy`.
/// Trusted: a function of the bytes alone, which for valid UTF-8 is the decoded text.
#[verifier::external_body]
pub(crate) fn utf8_lossy_string(bytes: &[u8]) -> (res: String)
    ensures
        res@ == lossy_utf8(bytes@),
        vstd::utf8::valid_utf8(bytes@) ==> res@ == vstd::utf8::decode_utf8(bytes@),
{
    String::from_utf8_lossy(bytes).into_owned()
}

/// Collects the characters of `s` into a vector.
pub fn chars_of(s: &str) -> (res: Vec<char>)
    ensures
        res@ == s@,
{
    let mut res: Vec<char> = Vec::new();
    for c in it: s.chars()
        invariant
            res@ == it.seq().take(it.index() as int),
            it.seq() == s@,
    {
        res.push(c);
    }
    res
}

/// Builds a string out of the characters in `chars`.
pub fn string_of(chars: &[char]) -> (res: String)
    ensures
        res@ == chars@,
{
    let mut res = String::new();
    let n = chars.len();
    for i in 0..n
        invariant
            n == chars@.len(),
            res@ == chars@.take(i as int),
    {
        string_push(&mut res, chars[i]);
        assert(chars@.take(i + 1) == chars@.take(i as int).push(chars@[i as int]));
    }
    assert(chars@.take(n as int) == chars@);
    res
}

/// Whether the two strings hold the same characters.
pub fn same_text(a: &str, b: &str) -> (res: bool)
    ensures
        res == (a@ == b@),
{
    let x = chars_of(a);
    let y = chars_of(b);
    if x.len() != y.len() {
        return false;
    }
    let n = x.len();
    for i in 0..n
        invariant
            n == x@.len(),
            n == y@.len(),
            x@ == a@,
            y@ == b@,
            forall|k: int| 0 <= k < i ==> x@[k] == y@[k],
    {
        if x[i] != y[i] {
            assert(x@[i as int] != y@[i as int]);
            return false;
        }
    }
    assert(x@ =~= y@);
    true
}

/// Whether `p` occurs in `s` at position `start`.
fn occurs_at(s: &Vec<char>, p: &Vec<char>, start: usize) -> (res: bool)
    ensures
        res == (start + p@.len() <= s@.len() && s@.subrange(start as int, start + p@.len()) == p@),
{
    if p.len() > s.len() || start > s.len() - p.len() {
        return false;
    }
    let n = p.len();
    for i in 0..n
        invariant
            n == p@.len(),
            start + n <= s.len(),
            forall|k: int| 0 <= k < i ==> s@[start + k] == p@[k],
    {
        if s[start + i] != p[i] {
            assert(s@.subrange(start as int, start + n)[i as int] != p@[i as int]);
            return false;
        }
    }
    assert(s@.subrange(start as int, start + n) =~= p@);
    true
}

/// Whether `s` begins with `prefix` (`str::starts_with`).
pub fn has_prefix(s: &str, prefix: &str) -> (res: bool)
    ensures
        res == (prefix@.len() <= s@.len() && s@.take(prefix@.len() as int) == prefix@),
{
    let x = chars_of(s);
    let p = chars_of(prefix);
    let res = occurs_at(&x, &p, 0);
    assert(x@.subrange(0, p@.len() as int) == x@.take(p@.len() as int));
    res
}

/// Whether `s` ends with `suffix` (`str::ends_with`).
pub fn has_suffix(s: &str, suffix: &str) -> (res: bool)
    ensures
        res == (suffix@.len() <= s@.len() && s@.skip(s@.len() - suffix@.len()) == suffix@),
{
    let x = chars_of(s);
    let p = chars_of(suffix);
    if p.len() > x.len() {
        return false;
    }
    let start = x.len() - p.len();
    let res = occurs_at(&x, &p, start);
    assert(x@.subrange(start as int, start + p@.len()) == x@.skip(start as int));
    res
}

/// The characters of `s` from position `start` on.
pub fn chars_from(s: &str, start: usize) -> (res: String)
    requires
        start <= s@.len(),
    ensures
        res@ == s@.skip(start as int),
{
    let x = chars_of(s);
    let mut res = String::new();
    let n = x.len();
    let mut i = start;
    while i < n
        invariant
            n == x@.len(),
            x@ == s@,
            start <= i <= n,
            res@ == x@.subrange(start as int, i as int),
        decreases n - i,
    {
        string_push(&mut res, x[i]);
        assert(x@.subrange(start as int, i + 1) == x@.subrange(start as int, i as int).push(x@[i as int]));
        i = i + 1;
    }
    assert(x@.subrange(start as int, n as int) == x@.skip(start as int));
    res
}

/// `s` without its leading characters that have the `White_Space` property.
pub open spec fn trim_start(s: Seq<char>) -> Seq<char>
    decreases s.len(),
{
    if s.len() > 0 && is_whitespace(s[0]) {
        trim_start(s.drop_first())
    } else {
        s
    }
}

/// `s` without its trailing characters that have the `White_Space` property.
pub open spec fn trim_end(s: Seq<char>) -> Seq<char>
    decreases s.len(),
{
    if s.len() > 0 && is_whitespace(s.last()) {
        trim_end(s.drop_last())
    } else {
        s
    }
}

/// `s` without leading and trailing white space, as `str::trim` documents it.
pub open spec fn trim(s: Seq<char>) -> Seq<char> {
    trim_end(trim_start(s))
}

/// Whether every character of `s` is white space.
pub open spec fn all_whitespace(s: Seq<char>) -> bool {
    forall|i: int| 0 <= i < s.len() ==> is_whitespace(#[trigger] s[i])
}

/// Leading white space is what `trim_start` removes.
pub proof fn lemma_trim_start_skips(pre: Seq<char>, x: Seq<char>)
    requires
        all_whitespace(pre),
    ensures
        trim_start(pre + x) == trim_start(x),
    decreases pre.len(),
{
    if pre.len() > 0 {
        assert((pre + x)[0] == pre[0]);
        assert((pre + x).drop_first() =~= pre.drop_first() + x);
        assert(all_whitespace(pre.drop_first())) by {
            assert forall|i: int| 0 <= i < pre.drop_first().len() implies is_whitespace(#[trigger] pre.drop_first()[i]) by {
                assert(pre.drop_first()[i] == pre[i + 1]);
            }
        }
        lemma_trim_start_skips(pre.drop_first(), x);
    } else {
        assert(pre + x =~= x);
    }
}

/// Trailing white space is what `trim_end` removes.
pub proof fn lemma_trim_end_skips(x: Seq<char>, post: Seq<char>)
    requires
        all_whitespace(post),
    ensures
        trim_end(x + post) == trim_end(x),
    decreases post.len(),
{
    if post.len() > 0 {
        assert((x + post).last() == post.last());
        assert((x + post).drop_last() =~= x + post.drop_last());
        assert(all_whitespace(post.drop_last())) by {
            assert forall|i: int| 0 <= i < post.drop_last().len() implies is_whitespace(#[trigger] post.drop_last()[i]) by {
                assert(post.drop_last()[i] == post[i]);
            }
        }
        lemma_trim_end_skips(x, post.drop_last());
    } else {
        assert(x + post =~= x);
    }
}

proof fn lemma_trim_ignores_suffix(x: Seq<char>, post: Seq<char>)
    requires
        all_whitespace(post),
    ensures
        trim_end(trim_start(x + post)) == trim_end(trim_start(x)),
    decreases x.len(),
{
    if x.len() == 0 {
        assert(x + post =~= Seq::<char>::empty() + post);
        lemma_trim_start_skips(post, Seq::<char>::empty());
        assert(Seq::<char>::empty() + post =~= post + Seq::<char>::empty());
    } else if is_whitespace(x[0]) {
        assert((x + post)[0] == x[0]);
        assert((x + post).drop_first() =~= x.drop_first() + post);
        lemma_trim_ignores_suffix(x.drop_first(), post);
    } else {
        assert((x + post)[0] == x[0]);
        lemma_trim_end_skips(x, post);
    }
}

/// White space around a text does not change what `trim` keeps of it.
pub proof fn lemma_trim_ignores_padding(pre: Seq<char>, s: Seq<char>, post: Seq<char>)
    requires
        all_whitespace(pre),
        all_whitespace(post),
    ensures
        trim(pre + s + post) == trim(s),
{
    assert(pre + s + post =~= pre + (s + post));
    lemma_trim_start_skips(pre, s + post);
    lemma_trim_ignores_suffix(s, post);
}

proof fn lemma_trim_start_at(s: Seq<char>, i: int)
    requires
        0 <= i <= s.len(),
        forall|k: int| 0 <= k < i ==> is_whitespace(#[trigger] s[k]),
        i == s.len() || !is_whitespace(s[i]),
    ensures
        trim_start(s) == s.subrange(i, s.len() as int),
    decreases i,
{
    if i > 0 {
        let t = s.drop_first();
        assert forall|k: int| 0 <= k < i - 1 implies is_whitespace(#[trigger] t[k]) by {
            assert(t[k] == s[k + 1]);
        }
        lemma_trim_start_at(t, i - 1);
        assert(t.subrange(i - 1, t.len() as int) =~= s.subrange(i, s.len() as int));
    } else {
        assert(s.subrange(0, s.len() as int) =~= s);
    }
}

proof fn lemma_trim_end_at(s: Seq<char>, j: int)
    requires
        0 <= j <= s.len(),
        forall|k: int| j <= k < s.len() ==> is_whitespace(#[trigger] s[k]),
        j == 0 || !is_whitespace(s[j - 1]),
    ensures
        trim_end(s) == s.subrange(0, j),
    decreases s.len() - j,
{
    if j < s.len() {
        let t = s.drop_last();
        lemma_trim_end_at(t, j);
        assert(t.subrange(0, j) =~= s.subrange(0, j));
    } else {
        assert(s.subrange(0, j) =~= s);
    }
}

/// Removes leading and trailing white space.
pub fn trim_chars(s: &Vec<char>) -> (res: Vec<char>)
    ensures
        res@ == trim(s@),
{
    let n = s.len();
    let mut i: usize = 0;
    while i < n && char_is_whitespace(s[i])
        invariant
            i <= n,
            n == s@.len(),
            forall|k: int| 0 <= k < i ==> is_whitespace(#[trigger] s@[k]),
        decreases n - i,
    {
        i = i + 1;
    }
    proof {
        lemma_trim_start_at(s@, i as int);
    }
    let mut j: usize = n;
    while j > i && char_is_whitespace(s[j - 1])
        invariant
            i <= j <= n,
            n == s@.len(),
            forall|k: int| j <= k < n ==> is_whitespace(#[trigger] s@[k]),
        decreases j,
    {
        j = j - 1;
    }
    let ghost mid = s@.subrange(i as int, n as int);
    proof {
        assert forall|k: int| j - i <= k < mid.len() implies is_whitespace(#[trigger] mid[k]) by {
            assert(mid[k] == s@[k + i]);
        }
        if j > i {
            assert(mid[j - i - 1] == s@[j - 1]);
        }
        lemma_trim_end_at(mid, j - i);
        assert(mid.subrange(0, j - i) =~= s@.subrange(i as int, j as int));
    }
    let mut res: Vec<char> = Vec::new();
    let mut k: usize = i;
    while k < j
        invariant
            i <= k <= j <= n,
            n == s@.len(),
            res@ == s@.subrange(i as int, k as int),
        decreases j - k,
    {
        res.push(s[k]);
        assert(s@.subrange(i as int, k + 1) == s@.subrange(i as int, k as int).push(s@[k as int]));
        k = k + 1;
    }
    res
}

} // verus!
