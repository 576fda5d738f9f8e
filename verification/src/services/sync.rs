//! What a synchronisation of the music library with the database decides: which
//! stored tracks, albums and artists go, and which new ones come.
use vstd::prelude::*;
use crate::domain::{BatchDeleteReport, BatchSaveReport, Id, ValidationError};
use crate::domain::album::{Album, AlbumView};
use crate::domain::artist::{Artist, ArtistView};
use crate::domain::audiofile::AudioFileDescriptor;
use crate::domain::track::{Track, TrackView};
use crate::domain::track::track_refusal;
use crate::domain::uploaded::Uploaded;
use crate::repository::{SqliteAlbumsRepository, SqliteArtistsRepository, SqliteTracksRepository};
use crate::services::SyncServiceError;
use crate::utils::ids::new_id;
use crate::utils::normalizations::{normalize_name, normalize_path, normalized_name, normalized_path};
use crate::utils::text::same_text;

verus! {

/// Whether some scanned file sits at `path`, a stored (normalised) path: the
/// scanned path is normalised before it is compared.
pub open spec fn file_listed(files: Seq<AudioFileDescriptor>, path: Seq<char>) -> bool {
    exists|k: int| 0 <= k < files.len() && normalized_path((#[trigger] files[k]).path@) == path
}

/// The id of a stored track whose file is gone, or nothing.
pub open spec fn missing_track_id(files: Seq<AudioFileDescriptor>, t: Track) -> Option<Id> {
    if file_listed(files, t@.file_path) {
        None
    } else {
        Some(t@.id)
    }
}

/// The ids of the stored tracks whose files are gone, in stored order.
pub open spec fn missing_track_ids(tracks: Seq<Track>, files: Seq<AudioFileDescriptor>) -> Seq<Id> {
    tracks.filter_map(|t: Track| missing_track_id(files, t))
}

/// Whether group `g` has at least one member among `pairs` (group, member), and every
/// member of it is in `deleted`.
pub open spec fn group_orphaned(pairs: Seq<(Id, Id)>, deleted: Seq<Id>, g: Id) -> bool {
    &&& exists|i: int| 0 <= i < pairs.len() && (#[trigger] pairs[i]).0 == g
    &&& forall|i: int| 0 <= i < pairs.len() && (#[trigger] pairs[i]).0 == g ==> deleted.contains(pairs[i].1)
}

/// The (album, track) pairs of the stored tracks.
pub open spec fn album_track_pairs(tracks: Seq<Track>) -> Seq<(Id, Id)> {
    tracks.map_values(|t: Track| (t@.album_id, t@.id))
}

/// The (artist, album) pairs of the stored albums.
pub open spec fn artist_album_pairs(albums: Seq<Album>) -> Seq<(Id, Id)> {
    albums.map_values(|a: Album| (a@.artist_id, a@.id))
}

/// The normalised paths of the scanned files.
fn normalized_paths(files: &Vec<AudioFileDescriptor>) -> (res: Vec<String>)
    ensures
        res@.len() == files@.len(),
        forall|k: int| 0 <= k < files@.len() ==> (#[trigger] res@[k])@ == normalized_path(files@[k].path@),
{
    let mut res: Vec<String> = Vec::new();
    let n = files.len();
    for k in 0..n
        invariant
            n == files@.len(),
            res@.len() == k,
            forall|j: int| 0 <= j < k ==> (#[trigger] res@[j])@ == normalized_path(files@[j].path@),
    {
        res.push(normalize_path(files[k].path.as_str()));
    }
    res
}

fn file_is_listed(paths: &Vec<String>, Ghost(files): Ghost<Seq<AudioFileDescriptor>>, path: &str) -> (res: bool)
    requires
        paths@.len() == files.len(),
        forall|k: int| 0 <= k < files.len() ==> (#[trigger] paths@[k])@ == normalized_path(files[k].path@),
    ensures
        res == file_listed(files, path@),
{
    let n = paths.len();
    for k in 0..n
        invariant
            n == paths@.len(),
            n == files.len(),
            forall|k: int| 0 <= k < files.len() ==> (#[trigger] paths@[k])@ == normalized_path(files[k].path@),
            forall|j: int| 0 <= j < k ==> normalized_path((#[trigger] files[j]).path@) != path@,
    {
        if same_text(paths[k].as_str(), path) {
            assert(normalized_path(files[k as int].path@) == path@);
            return true;
        }
        assert(paths@[k as int]@ != path@);
    }
    false
}

fn id_listed(ids: &Vec<Id>, id: Id) -> (res: bool)
    ensures
        res == ids@.contains(id),
{
    let n = ids.len();
    for k in 0..n
        invariant
            n == ids@.len(),
            forall|j: int| 0 <= j < k ==> ids@[j] != id,
    {
        if ids[k] == id {
            assert(ids@[k as int] == id);
            return true;
        }
    }
    false
}

proof fn lemma_push_contains(s: Seq<Id>, v: Id)
    ensures
        forall|x: Id| #[trigger] s.push(v).contains(x) <==> (s.contains(x) || x == v),
{
    assert forall|x: Id| #[trigger] s.push(v).contains(x) <==> (s.contains(x) || x == v) by {
        if s.push(v).contains(x) {
            let w = choose|w: int| 0 <= w < s.push(v).len() && s.push(v)[w] == x;
            if w < s.len() {
                assert(s[w] == x);
            }
        }
        if s.contains(x) {
            let w = choose|w: int| 0 <= w < s.len() && s[w] == x;
            assert(s.push(v)[w] == x);
        }
        if x == v {
            assert(s.push(v)[s.len() as int] == x);
        }
    }
}

/// The groups among `pairs` whose members are all in `deleted`, each once, in the
/// order in which the groups first appear.
pub fn orphaned_groups(pairs: &Vec<(Id, Id)>, deleted: &Vec<Id>) -> (res: Vec<Id>)
    ensures
        res@.no_duplicates(),
        forall|g: Id| res@.contains(g) <==> group_orphaned(pairs@, deleted@, g),
{
    broadcast use vstd::seq_lib::group_seq_properties;
    let n = pairs.len();
    let mut seen: Vec<Id> = Vec::new();
    let mut res: Vec<Id> = Vec::new();
    for i in 0..n
        invariant
            n == pairs@.len(),
            res@.no_duplicates(),
            forall|g: Id| seen@.contains(g) <==> exists|j: int| 0 <= j < i && (#[trigger] pairs@[j]).0 == g,
            forall|g: Id| res@.contains(g) <==> seen@.contains(g) && group_orphaned(pairs@, deleted@, g),
    {
        let g = pairs[i].0;
        let ghost seen0 = seen@;
        let ghost res0 = res@;
        if !id_listed(&seen, g) {
            let mut all_deleted = true;
            for j in 0..n
                invariant
                    n == pairs@.len(),
                    all_deleted <==> forall|m: int| 0 <= m < j && (#[trigger] pairs@[m]).0 == g ==> deleted@.contains(pairs@[m].1),
            {
                if pairs[j].0 == g && !id_listed(deleted, pairs[j].1) {
                    all_deleted = false;
                }
            }
            assert(pairs@[i as int].0 == g);
            assert(all_deleted <==> group_orphaned(pairs@, deleted@, g));
            if all_deleted {
                res.push(g);
            }
            seen.push(g);
            assert(seen@ == seen0.push(g));
        }
        assert(seen@ == seen0 || seen@ == seen0.push(g));
        assert(res@ == res0 || res@ == res0.push(g));
        proof {
            lemma_push_contains(seen0, g);
            lemma_push_contains(res0, g);
        }
        assert(seen@.contains(g));
        assert forall|x: Id| seen@.contains(x) implies exists|j: int| 0 <= j < i + 1 && (#[trigger] pairs@[j]).0 == x by {
            if x == g {
                assert(pairs@[i as int].0 == x);
            } else {
                assert(seen0.contains(x));
                let j = choose|j: int| 0 <= j < i && (#[trigger] pairs@[j]).0 == x;
                assert(pairs@[j].0 == x);
            }
        }
        assert forall|x: Id| (exists|j: int| 0 <= j < i + 1 && (#[trigger] pairs@[j]).0 == x) implies seen@.contains(x) by {
            let j = choose|j: int| 0 <= j < i + 1 && (#[trigger] pairs@[j]).0 == x;
            if j < i {
                assert(seen0.contains(x));
            }
        }
        assert forall|x: Id| res@.contains(x) <==> seen@.contains(x) && group_orphaned(pairs@, deleted@, x) by {
            if x != g {
                assert(res@.contains(x) <==> res0.contains(x));
                assert(seen@.contains(x) <==> seen0.contains(x));
            }
        }
    }
    assert forall|g: Id| group_orphaned(pairs@, deleted@, g) implies seen@.contains(g) by {
        let w = choose|w: int| 0 <= w < pairs@.len() && (#[trigger] pairs@[w]).0 == g;
    }
    res
}

/// Something that the cache files under a key.
pub trait Keyed: Sized {
    type Key;

    spec fn key_of(&self) -> Self::Key;

    fn same_key(&self, other: &Self) -> (res: bool)
        ensures
            res == (self.key_of() == other.key_of()),
    ;
}

impl Keyed for Track {
    type Key = Seq<char>;

    open spec fn key_of(&self) -> Seq<char> {
        self@.file_path
    }

    fn same_key(&self, other: &Self) -> (res: bool) {
        same_text(self.file_path(), other.file_path())
    }
}

impl Keyed for Album {
    type Key = (Seq<char>, Id);

    open spec fn key_of(&self) -> (Seq<char>, Id) {
        (self@.name, self@.artist_id)
    }

    fn same_key(&self, other: &Self) -> (res: bool) {
        same_text(self.name(), other.name()) && self.artist_id() == other.artist_id()
    }
}

impl Keyed for Artist {
    type Key = Seq<char>;

    open spec fn key_of(&self) -> Seq<char> {
        self@.name
    }

    fn same_key(&self, other: &Self) -> (res: bool) {
        same_text(self.name(), other.name())
    }
}

/// Whether some item of `s` is filed under `k`.
pub open spec fn has_key<T: Keyed>(s: Seq<T>, k: T::Key) -> bool {
    exists|i: int| 0 <= i < s.len() && (#[trigger] s[i]).key_of() == k
}

/// What collecting `s` into a map keeps: for each key, the last item filed under it,
/// in the order of those items.
pub open spec fn last_by_key<T: Keyed>(s: Seq<T>) -> Seq<T>
    decreases s.len(),
{
    if s.len() == 0 {
        s
    } else {
        let rest = last_by_key(s.drop_first());
        if has_key(s.drop_first(), s[0].key_of()) {
            rest
        } else {
            seq![s[0]] + rest
        }
    }
}

/// Collecting keeps every key and nothing else.
pub proof fn lemma_last_by_key_keys<T: Keyed>(s: Seq<T>)
    ensures
        forall|k: T::Key| has_key(last_by_key(s), k) <==> has_key(s, k),
    decreases s.len(),
{
    if s.len() > 0 {
        let t = s.drop_first();
        lemma_last_by_key_keys(t);
        let r = last_by_key(t);
        assert forall|k: T::Key| has_key(last_by_key(s), k) <==> has_key(s, k) by {
            if has_key(t, k) {
                let i = choose|i: int| 0 <= i < t.len() && (#[trigger] t[i]).key_of() == k;
                assert(s[i + 1] == t[i]);
            }
            if has_key(s, k) {
                let i = choose|i: int| 0 <= i < s.len() && (#[trigger] s[i]).key_of() == k;
                if i > 0 {
                    assert(t[i - 1] == s[i]);
                }
            }
            if !has_key(t, s[0].key_of()) {
                let x = seq![s[0]] + r;
                assert(x[0] == s[0]);
                if has_key(r, k) {
                    let i = choose|i: int| 0 <= i < r.len() && (#[trigger] r[i]).key_of() == k;
                    assert(x[i + 1] == r[i]);
                }
                if has_key(x, k) {
                    let i = choose|i: int| 0 <= i < x.len() && (#[trigger] x[i]).key_of() == k;
                    if i > 0 {
                        assert(r[i - 1] == x[i]);
                    }
                }
            }
        }
    }
}

/// Collecting files each key once.
pub proof fn lemma_last_by_key_unique<T: Keyed>(s: Seq<T>)
    ensures
        forall|a: int, b: int| 0 <= a < b < last_by_key(s).len() ==> (#[trigger] last_by_key(s)[a]).key_of() != (#[trigger] last_by_key(s)[b]).key_of(),
    decreases s.len(),
{
    if s.len() > 0 {
        let t = s.drop_first();
        lemma_last_by_key_unique(t);
        lemma_last_by_key_keys(t);
        let r = last_by_key(t);
        if !has_key(t, s[0].key_of()) {
            let x = seq![s[0]] + r;
            assert forall|a: int, b: int| 0 <= a < b < x.len() implies (#[trigger] x[a]).key_of() != (#[trigger] x[b]).key_of() by {
                assert(x[b] == r[b - 1]);
                if a == 0 {
                    assert(!has_key(r, s[0].key_of()));
                } else {
                    assert(x[a] == r[a - 1]);
                }
            }
        }
    }
}

/// The stored-album cache keeps an album for every pair of name and artist id among
/// the stored albums, so albums of one name by different artists are all kept; and no
/// two kept albums share both their name and their artist id.
pub proof fn lemma_album_cache_keeps_each_name_and_artist(albums: Seq<Album>)
    ensures
        forall|i: int| #![trigger albums[i]] 0 <= i < albums.len() ==> exists|j: int| {
            &&& 0 <= j < last_by_key(albums).len()
            &&& (#[trigger] last_by_key(albums)[j])@.name == albums[i]@.name
            &&& last_by_key(albums)[j]@.artist_id == albums[i]@.artist_id
        },
        forall|a: int, b: int| 0 <= a < b < last_by_key(albums).len() ==> {
            ||| (#[trigger] last_by_key(albums)[a])@.name != (#[trigger] last_by_key(albums)[b])@.name
            ||| last_by_key(albums)[a]@.artist_id != last_by_key(albums)[b]@.artist_id
        },
{
    let kept = last_by_key(albums);
    lemma_last_by_key_keys(albums);
    lemma_last_by_key_unique(albums);
    assert forall|i: int| #![trigger albums[i]] 0 <= i < albums.len() implies exists|j: int| {
        &&& 0 <= j < kept.len()
        &&& (#[trigger] kept[j])@.name == albums[i]@.name
        &&& kept[j]@.artist_id == albums[i]@.artist_id
    } by {
        let k = albums[i].key_of();
        assert(has_key(albums, k));
        assert(has_key(kept, k));
        let j = choose|j: int| 0 <= j < kept.len() && (#[trigger] kept[j]).key_of() == k;
        assert(kept[j].key_of() == k);
    }
    assert forall|a: int, b: int| 0 <= a < b < kept.len() implies {
        ||| (#[trigger] kept[a])@.name != (#[trigger] kept[b])@.name
        ||| kept[a]@.artist_id != kept[b]@.artist_id
    } by {
        assert(kept[a].key_of() != kept[b].key_of());
    }
}

fn has_key_in<T: Keyed>(out: &Vec<T>, item: &T) -> (res: bool)
    ensures
        res == has_key(out@, item.key_of()),
{
    let n = out.len();
    for j in 0..n
        invariant
            n == out@.len(),
            forall|m: int| 0 <= m < j ==> (#[trigger] out@[m]).key_of() != item.key_of(),
    {
        if out[j].same_key(item) {
            assert(out@[j as int].key_of() == item.key_of());
            return true;
        }
    }
    false
}

proof fn lemma_reverse_keys<T: Keyed>(s: Seq<T>)
    ensures
        forall|k: T::Key| has_key(s.reverse(), k) <==> has_key(s, k),
{
    assert forall|k: T::Key| has_key(s.reverse(), k) <==> has_key(s, k) by {
        if has_key(s, k) {
            let i = choose|i: int| 0 <= i < s.len() && (#[trigger] s[i]).key_of() == k;
            assert(s.reverse()[s.len() - 1 - i] == s[i]);
        }
        if has_key(s.reverse(), k) {
            let i = choose|i: int| 0 <= i < s.reverse().len() && (#[trigger] s.reverse()[i]).key_of() == k;
            assert(s.reverse()[i] == s[s.len() - 1 - i]);
        }
    }
}

/// Keeps, for each key, the last item filed under it.
pub fn collect_by_key<T: Keyed>(input: Vec<T>) -> (res: Vec<T>)
    ensures
        res@ == last_by_key(input@),
{
    let ghost whole = input@;
    let mut rest = input;
    let mut rev: Vec<T> = Vec::new();
    assert(whole.skip(whole.len() as int) =~= Seq::<T>::empty());
    assert(rest@ =~= whole.take(rest@.len() as int));
    while rest.len() > 0
        invariant
            rest@ == whole.take(rest@.len() as int),
            rest@.len() <= whole.len(),
            rev@.reverse() == last_by_key(whole.skip(rest@.len() as int)),
        decreases rest.len(),
    {
        let ghost m = rest@.len() - 1;
        let ghost suffix0 = whole.skip(m + 1);
        let ghost rest0 = rest@;
        let item = rest.pop().unwrap();
        assert(rest@ =~= whole.take(m));
        let ghost suffix = whole.skip(m);
        assert(suffix.drop_first() =~= suffix0);
        assert(suffix[0] == item) by {
            assert(rest0[m] == whole[m]);
        }
        proof {
            lemma_last_by_key_keys(suffix0);
            lemma_reverse_keys(rev@);
        }
        if !has_key_in(&rev, &item) {
            let ghost before = rev@;
            rev.push(item);
            assert(rev@.reverse() =~= seq![item] + before.reverse());
        }
    }
    assert(whole.skip(0) =~= whole);
    let ghost target = rev@.reverse();
    let mut out: Vec<T> = Vec::new();
    while rev.len() > 0
        invariant
            out@ + rev@.reverse() == target,
        decreases rev.len(),
    {
        let ghost rev0 = rev@;
        let x = rev.pop().unwrap();
        assert(rev0 == rev@.push(x));
        assert(rev0.reverse() =~= seq![x] + rev@.reverse());
        out.push(x);
        assert(out@ + rev@.reverse() =~= target);
    }
    assert(out@ =~= target);
    out
}

/// The stored library as a synchronisation sees it: each stored track, album and
/// artist under its key.
pub struct DatabaseCache {
    pub tracks: Vec<Track>,
    pub albums: Vec<Album>,
    pub artists: Vec<Artist>,
}

impl DatabaseCache {
    /// Files the stored entities by key: tracks by file path, albums by name and
    /// artist, artists by name; for a key held twice the later entity stays.
    pub fn new(tracks: Vec<Track>, albums: Vec<Album>, artists: Vec<Artist>) -> (res: Self)
        ensures
            res.tracks@ == last_by_key(tracks@),
            res.albums@ == last_by_key(albums@),
            res.artists@ == last_by_key(artists@),
    {
        DatabaseCache {
            tracks: collect_by_key(tracks),
            albums: collect_by_key(albums),
            artists: collect_by_key(artists),
        }
    }
}

/// The ids of the stored entities that a synchronisation removes.
pub struct PendingDeletions {
    pub track_ids: Vec<Id>,
    pub album_ids: Vec<Id>,
    pub artist_ids: Vec<Id>,
}

impl PendingDeletions {
    pub fn new() -> (res: Self)
        ensures
            res.track_ids@.len() == 0,
            res.album_ids@.len() == 0,
            res.artist_ids@.len() == 0,
    {
        PendingDeletions { track_ids: Vec::new(), album_ids: Vec::new(), artist_ids: Vec::new() }
    }

    pub fn is_empty(&self) -> (res: bool)
        ensures
            res == (self.track_ids@.len() == 0 && self.album_ids@.len() == 0 && self.artist_ids@.len() == 0),
    {
        self.track_ids.len() == 0 && self.album_ids.len() == 0 && self.artist_ids.len() == 0
    }
}

/// Whether `d` removes exactly what a synchronisation of `cache` with `files` removes:
/// the stored tracks whose files are gone; the albums all of whose stored tracks go;
/// the artists all of whose stored albums go.
pub open spec fn deletions_of(cache: DatabaseCache, files: Seq<AudioFileDescriptor>, d: PendingDeletions) -> bool {
    &&& d.track_ids@ == missing_track_ids(cache.tracks@, files)
    &&& d.album_ids@.no_duplicates()
    &&& forall|g: Id| d.album_ids@.contains(g) <==> group_orphaned(album_track_pairs(cache.tracks@), d.track_ids@, g)
    &&& d.artist_ids@.no_duplicates()
    &&& forall|g: Id| d.artist_ids@.contains(g) <==> group_orphaned(artist_album_pairs(cache.albums@), d.album_ids@, g)
}

fn track_pairs(tracks: &Vec<Track>) -> (res: Vec<(Id, Id)>)
    ensures
        res@ == album_track_pairs(tracks@),
{
    let mut res: Vec<(Id, Id)> = Vec::new();
    let n = tracks.len();
    for i in 0..n
        invariant
            n == tracks@.len(),
            res@ == album_track_pairs(tracks@.take(i as int)),
    {
        res.push((tracks[i].album_id(), tracks[i].id()));
        assert(album_track_pairs(tracks@.take(i + 1)) =~= album_track_pairs(tracks@.take(i as int)).push((tracks@[i as int]@.album_id, tracks@[i as int]@.id)));
    }
    assert(tracks@.take(n as int) =~= tracks@);
    res
}

fn album_pairs(albums: &Vec<Album>) -> (res: Vec<(Id, Id)>)
    ensures
        res@ == artist_album_pairs(albums@),
{
    let mut res: Vec<(Id, Id)> = Vec::new();
    let n = albums.len();
    for i in 0..n
        invariant
            n == albums@.len(),
            res@ == artist_album_pairs(albums@.take(i as int)),
    {
        res.push((albums[i].artist_id(), albums[i].id()));
        assert(artist_album_pairs(albums@.take(i + 1)) =~= artist_album_pairs(albums@.take(i as int)).push((albums@[i as int]@.artist_id, albums@[i as int]@.id)));
    }
    assert(albums@.take(n as int) =~= albums@);
    res
}

impl DatabaseCache {
    /// What a synchronisation with the scanned `files` removes: first the stored tracks
    /// whose files are gone, then the albums left without tracks, then the artists left
    /// without albums.
    pub fn find_orphaned_entities(&self, files: &Vec<AudioFileDescriptor>) -> (res: PendingDeletions)
        ensures
            deletions_of(*self, files@, res),
    {
        let paths = normalized_paths(files);
        let mut track_ids: Vec<Id> = Vec::new();
        let n = self.tracks.len();
        for i in 0..n
            invariant
                n == self.tracks@.len(),
                paths@.len() == files@.len(),
                forall|k: int| 0 <= k < files@.len() ==> (#[trigger] paths@[k])@ == normalized_path(files@[k].path@),
                track_ids@ == missing_track_ids(self.tracks@.take(i as int), files@),
        {
            let t = &self.tracks[i];
            if !file_is_listed(&paths, Ghost(files@), t.file_path()) {
                track_ids.push(t.id());
            }
            assert(self.tracks@.take(i + 1).drop_last() =~= self.tracks@.take(i as int));
        }
        assert(self.tracks@.take(n as int) =~= self.tracks@);
        let album_ids = orphaned_groups(&track_pairs(&self.tracks), &track_ids);
        let artist_ids = orphaned_groups(&album_pairs(&self.albums), &album_ids);
        PendingDeletions { track_ids, album_ids, artist_ids }
    }
}

/// Calls `Local::now` and takes its local date and time.
/// Trusted: nothing; the value is the clock's.
#[verifier::external_body]
fn local_now() -> (res: chrono::NaiveDateTime) {
    chrono::Local::now().naive_local()
}

/// Calls `PartialEq::eq` on two optional dates, which `chrono` derives field by field.
/// Trusted: the result is whether the two values are the same.
#[verifier::external_body]
fn same_date(a: Option<chrono::NaiveDateTime>, b: Option<chrono::NaiveDateTime>) -> (res: bool)
    ensures
        res == (a == b),
{
    a == b
}

/// Whether some track of `s` is identical to `t`.
pub open spec fn has_identical(s: Seq<Track>, t: TrackView) -> bool {
    exists|m: int| 0 <= m < s.len() && (#[trigger] s[m])@ == t
}

/// The new artists, albums and tracks that a synchronisation adds.
pub struct PendingAdditions {
    pub artists: Vec<Artist>,
    pub albums: Vec<Album>,
    pub tracks: Vec<Track>,
}

/// Whether some artist of `s` has the name `name`.
pub open spec fn artist_named(s: Seq<Artist>, name: Seq<char>) -> bool {
    exists|i: int| 0 <= i < s.len() && (#[trigger] s[i])@.name == name
}

/// Whether some album of `s` has the name `name` and the artist `artist_id`.
pub open spec fn album_keyed(s: Seq<Album>, name: Seq<char>, artist_id: Id) -> bool {
    exists|i: int| 0 <= i < s.len() && (#[trigger] s[i])@.name == name && s[i]@.artist_id == artist_id
}

/// Whether some track of `s` has its file at `path`.
pub open spec fn track_at(s: Seq<Track>, path: Seq<char>) -> bool {
    exists|i: int| 0 <= i < s.len() && (#[trigger] s[i])@.file_path == path
}

/// Whether a scanned file is not yet stored (its path, as scanned, is no stored track's).
pub open spec fn file_uncached(cache: DatabaseCache, f: AudioFileDescriptor) -> bool {
    !track_at(cache.tracks@, normalized_path(f.path@))
}

/// Whether the metadata of a file yields an artist, an album and a track.
pub open spec fn file_valid(f: AudioFileDescriptor) -> bool {
    &&& normalized_name(f.metadata.artist_name@).len() > 0
    &&& normalized_name(f.metadata.album_name@).len() > 0
    &&& track_refusal(f.metadata.track_name@, f.metadata.track_duration, f.file_size) is None
}

/// Why the metadata of a file yields no artist, album or track, if it does not.
pub open spec fn file_refusal(f: AudioFileDescriptor) -> Option<ValidationError> {
    if normalized_name(f.metadata.artist_name@).len() == 0 {
        Some(ValidationError::NameIsEmptyString)
    } else if normalized_name(f.metadata.album_name@).len() == 0 {
        Some(ValidationError::NameIsEmptyString)
    } else {
        track_refusal(f.metadata.track_name@, f.metadata.track_duration, f.file_size)
    }
}

/// Whether `k` is the first scanned file, not stored yet, whose metadata is refused.
pub open spec fn first_invalid(cache: DatabaseCache, files: Seq<AudioFileDescriptor>, k: int) -> bool {
    &&& 0 <= k < files.len()
    &&& file_uncached(cache, files[k])
    &&& !file_valid(files[k])
    &&& forall|j: int| 0 <= j < k && file_uncached(cache, #[trigger] files[j]) ==> file_valid(files[j])
}

/// Whether `t` is the track made for the file `f`.
pub open spec fn track_of_file(t: TrackView, f: AudioFileDescriptor) -> bool {
    &&& t.name == normalized_name(f.metadata.track_name@)
    &&& t.duration == f.metadata.track_duration
    &&& t.file_path == normalized_path(f.path@)
    &&& t.file_size == f.file_size
    &&& t.file_type == f.file_type
    &&& t.uploaded == Uploaded::Denis
    &&& t.date_added is Some
}

/// Whether `name` is the text or its normalised form.
pub open spec fn named_after(name: Seq<char>, text: Seq<char>) -> bool {
    name == text || name == normalized_name(text)
}

/// Whether, among `artists`, the artist `id` is named after `text`.
pub open spec fn artist_after(artists: Seq<Artist>, id: Id, text: Seq<char>) -> bool {
    exists|i: int| 0 <= i < artists.len() && (#[trigger] artists[i])@.id == id && named_after(artists[i]@.name, text)
}

/// Whether, among `albums`, the album `id` is named after the file's album and
/// belongs to an artist named after the file's artist.
pub open spec fn album_after(albums: Seq<Album>, artists: Seq<Artist>, id: Id, f: AudioFileDescriptor) -> bool {
    exists|i: int| 0 <= i < albums.len() && (#[trigger] albums[i])@.id == id
        && named_after(albums[i]@.name, f.metadata.album_name@)
        && artist_after(artists, albums[i]@.artist_id, f.metadata.artist_name@)
}

/// Whether the names of `s` are all different.
pub open spec fn artist_names_unique(s: Seq<Artist>) -> bool {
    forall|a: int, b: int| 0 <= a < b < s.len() ==> (#[trigger] s[a])@.name != (#[trigger] s[b])@.name
}

/// Whether the (name, artist) keys of `s` are all different.
pub open spec fn album_keys_unique(s: Seq<Album>) -> bool {
    forall|a: int, b: int| 0 <= a < b < s.len() ==> (#[trigger] s[a])@.name != (#[trigger] s[b])@.name
        || s[a]@.artist_id != s[b]@.artist_id
}

/// Whether `adds` is what a synchronisation of `cache` with the scanned files adds:
/// a track for each file that is not stored yet, made from the file's metadata; new
/// artists and albums only where the stored ones lack them, each key once.
pub open spec fn additions_of(cache: DatabaseCache, files: Seq<AudioFileDescriptor>, adds: PendingAdditions) -> bool {
    &&& additions_hold(cache, files, adds.artists@, adds.albums@, adds.tracks@)
    &&& tracks_from_distinct_files(cache, files, adds.tracks@)
    &&& forall|j: int| 0 <= j < adds.albums@.len() ==> album_holds_track(adds.tracks@, #[trigger] adds.albums@[j])
}

/// Whether `origin[j]` is the index of the scanned file that the new track `j` was
/// made from, each a file not stored yet, the indices rising with `j`.
pub open spec fn track_origins(cache: DatabaseCache, files: Seq<AudioFileDescriptor>, tracks: Seq<Track>, origin: Seq<int>) -> bool {
    &&& origin.len() == tracks.len()
    &&& forall|j: int| 0 <= j < tracks.len() ==> {
        &&& 0 <= #[trigger] origin[j] < files.len()
        &&& file_uncached(cache, files[origin[j]])
        &&& track_of_file(tracks[j]@, files[origin[j]])
    }
    &&& forall|a: int, b: int| 0 <= a < b < origin.len() ==> #[trigger] origin[a] < #[trigger] origin[b]
}

/// Whether each new track was made from a scanned file of its own: no file yields
/// two tracks.
pub open spec fn tracks_from_distinct_files(cache: DatabaseCache, files: Seq<AudioFileDescriptor>, tracks: Seq<Track>) -> bool {
    exists|origin: Seq<int>| #[trigger] track_origins(cache, files, tracks, origin)
}

/// Whether some track of `tracks` is in the album `al`.
pub open spec fn album_holds_track(tracks: Seq<Track>, al: Album) -> bool {
    exists|m: int| 0 <= m < tracks.len() && (#[trigger] tracks[m])@.album_id == al@.id
}

/// Whether the new track `t` was made from a scanned file that is not stored yet.
pub open spec fn track_traced(cache: DatabaseCache, files: Seq<AudioFileDescriptor>, t: Track) -> bool {
    exists|k: int| 0 <= k < files.len() && file_uncached(cache, #[trigger] files[k]) && track_of_file(t@, files[k])
}

/// Whether the new artist `a` is named after the artist tag of a scanned file that is
/// not stored yet, and no stored artist bears its name.
pub open spec fn artist_traced(cache: DatabaseCache, files: Seq<AudioFileDescriptor>, a: Artist) -> bool {
    exists|k: int| 0 <= k < files.len() && file_uncached(cache, #[trigger] files[k])
        && a@.name == normalized_name(files[k].metadata.artist_name@)
        && !artist_named(cache.artists@, a@.name)
}

/// Whether the new album `al` is named after the album tag of a scanned file that is
/// not stored yet, with that file's year, and no stored album of its artist bears its
/// name.
pub open spec fn album_traced(cache: DatabaseCache, files: Seq<AudioFileDescriptor>, al: Album) -> bool {
    exists|k: int| 0 <= k < files.len() && file_uncached(cache, #[trigger] files[k])
        && al@.name == normalized_name(files[k].metadata.album_name@)
        && al@.year == files[k].metadata.album_year
        && !album_keyed(cache.albums@, al@.name, al@.artist_id)
}

/// `additions_of` over the three sequences of new entities.
pub open spec fn additions_hold(
    cache: DatabaseCache,
    files: Seq<AudioFileDescriptor>,
    artists: Seq<Artist>,
    albums: Seq<Album>,
    tracks: Seq<Track>,
) -> bool {
    &&& forall|j: int| 0 <= j < tracks.len() ==> track_traced(cache, files, #[trigger] tracks[j])
    &&& forall|k: int| 0 <= k < files.len() && file_uncached(cache, #[trigger] files[k]) ==> track_at(tracks, normalized_path(files[k].path@))
    &&& forall|j: int| 0 <= j < artists.len() ==> artist_traced(cache, files, #[trigger] artists[j])
    &&& forall|j: int| 0 <= j < albums.len() ==> album_traced(cache, files, #[trigger] albums[j])
    &&& artist_names_unique(artists)
    &&& album_keys_unique(albums)
}

fn artist_id_named(s: &Vec<Artist>, name: &str) -> (res: Option<Id>)
    ensures
        match res {
            Some(id) => exists|i: int| 0 <= i < s@.len() && (#[trigger] s@[i])@.name == name@ && s@[i]@.id == id,
            None => !artist_named(s@, name@),
        },
        res is Some ==> name@.len() > 0,
{
    let n = s.len();
    for i in 0..n
        invariant
            n == s@.len(),
            forall|m: int| 0 <= m < i ==> (#[trigger] s@[m])@.name != name@,
    {
        let here = s[i].name();
        if same_text(here, name) {
            assert(s@[i as int]@.name == name@);
            return Some(s[i].id());
        }
    }
    None
}

fn album_id_keyed(s: &Vec<Album>, name: &str, artist_id: Id) -> (res: Option<Id>)
    ensures
        match res {
            Some(id) => exists|i: int| 0 <= i < s@.len() && (#[trigger] s@[i])@.name == name@ && s@[i]@.artist_id == artist_id && s@[i]@.id == id,
            None => !album_keyed(s@, name@, artist_id),
        },
        res is Some ==> name@.len() > 0,
{
    let n = s.len();
    for i in 0..n
        invariant
            n == s@.len(),
            forall|m: int| 0 <= m < i ==> (#[trigger] s@[m])@.name != name@ || s@[m]@.artist_id != artist_id,
    {
        let here = s[i].name();
        if same_text(here, name) && s[i].artist_id() == artist_id {
            assert(s@[i as int]@.name == name@);
            return Some(s[i].id());
        }
    }
    None
}

impl DatabaseCache {
    /// Whether a stored track has its file at `path`.
    pub fn has_track_at(&self, path: &str) -> (res: bool)
        ensures
            res == track_at(self.tracks@, path@),
    {
        let n = self.tracks.len();
        for i in 0..n
            invariant
                n == self.tracks@.len(),
                forall|m: int| 0 <= m < i ==> (#[trigger] self.tracks@[m])@.file_path != path@,
        {
            if same_text(self.tracks[i].file_path(), path) {
                assert(self.tracks@[i as int]@.file_path == path@);
                return true;
            }
        }
        false
    }
}

impl PendingAdditions {
    pub fn new() -> (res: Self)
        ensures
            res.artists@.len() == 0,
            res.albums@.len() == 0,
            res.tracks@.len() == 0,
    {
        PendingAdditions { artists: Vec::new(), albums: Vec::new(), tracks: Vec::new() }
    }

    pub fn is_empty(&self) -> (res: bool)
        ensures
            res == (self.artists@.len() == 0 && self.albums@.len() == 0 && self.tracks@.len() == 0),
    {
        self.artists.len() == 0 && self.albums.len() == 0 && self.tracks.len() == 0
    }

    /// Adds the track unless an identical track is already pending.
    pub fn add_track(&mut self, track: Track)
        ensures
            final(self).artists@ == old(self).artists@,
            final(self).albums@ == old(self).albums@,
            has_identical(old(self).tracks@, track@) ==> final(self).tracks@ == old(self).tracks@,
            !has_identical(old(self).tracks@, track@) ==> final(self).tracks@ == old(self).tracks@.push(track),
            track_at(final(self).tracks@, track@.file_path),
    {
        let n = self.tracks.len();
        let mut found = false;
        for i in 0..n
            invariant
                n == self.tracks@.len(),
                found <==> exists|m: int| 0 <= m < i && (#[trigger] self.tracks@[m])@ == track@,
        {
            let t = &self.tracks[i];
            if t.id() == track.id() && same_text(t.name(), track.name()) && t.album_id() == track.album_id()
                && t.duration() == track.duration() && same_text(t.file_path(), track.file_path())
                && t.file_size() == track.file_size() && t.file_type() == track.file_type()
                && t.uploaded() == track.uploaded() && same_date(t.date_added(), track.date_added()) {
                assert(self.tracks@[i as int]@ == track@);
                found = true;
            } else {
                assert(self.tracks@[i as int]@ != track@);
            }
        }
        if !found {
            self.tracks.push(track);
            assert(self.tracks@[n as int]@.file_path == track@.file_path);
        } else {
            proof {
                let m = choose|m: int| 0 <= m < n && (#[trigger] self.tracks@[m])@ == track@;
                assert(self.tracks@[m]@.file_path == track@.file_path);
            }
        }
    }

    /// Adds the album unless one with its name and artist is already pending.
    pub fn add_album(&mut self, album: Album)
        ensures
            final(self).artists@ == old(self).artists@,
            final(self).tracks@ == old(self).tracks@,
            album_keyed(old(self).albums@, album@.name, album@.artist_id) ==> final(self).albums@ == old(self).albums@,
            !album_keyed(old(self).albums@, album@.name, album@.artist_id) ==> final(self).albums@ == old(self).albums@.push(album),
    {
        if album_id_keyed(&self.albums, album.name(), album.artist_id()).is_none() {
            self.albums.push(album);
        }
    }

    /// Adds the artist unless one with its name is already pending.
    pub fn add_artist(&mut self, artist: Artist)
        ensures
            final(self).albums@ == old(self).albums@,
            final(self).tracks@ == old(self).tracks@,
            artist_named(old(self).artists@, artist@.name) ==> final(self).artists@ == old(self).artists@,
            !artist_named(old(self).artists@, artist@.name) ==> final(self).artists@ == old(self).artists@.push(artist),
    {
        if artist_id_named(&self.artists, artist.name()).is_none() {
            self.artists.push(artist);
        }
    }
}

/// Whether every new track sits in a stored or new album named after its file's album
/// tag, whose artist is a stored or new artist named after the file's artist tag; and
/// every new album's artist is a stored or new artist.
pub open spec fn additions_linked(cache: DatabaseCache, files: Seq<AudioFileDescriptor>, adds: PendingAdditions) -> bool {
    linked_hold(cache, files, adds.artists@, adds.albums@, adds.tracks@)
}

/// Whether the new track `t` was made from a scanned file and sits in an album named
/// after that file's tags.
pub open spec fn track_linked(files: Seq<AudioFileDescriptor>, albums: Seq<Album>, artists: Seq<Artist>, t: Track) -> bool {
    exists|k: int| 0 <= k < files.len() && track_of_file(t@, #[trigger] files[k])
        && album_after(albums, artists, t@.album_id, files[k])
}

/// Whether some artist of `artists` has the id `id`.
pub open spec fn artist_id_known(artists: Seq<Artist>, id: Id) -> bool {
    exists|i: int| 0 <= i < artists.len() && (#[trigger] artists[i])@.id == id
}

/// `additions_linked` over the three sequences of new entities.
pub open spec fn linked_hold(
    cache: DatabaseCache,
    files: Seq<AudioFileDescriptor>,
    artists: Seq<Artist>,
    albums: Seq<Album>,
    tracks: Seq<Track>,
) -> bool {
    &&& forall|j: int| 0 <= j < tracks.len() ==> track_linked(files, cache.albums@ + albums, cache.artists@ + artists, #[trigger] tracks[j])
    &&& forall|j: int| 0 <= j < albums.len() ==> artist_id_known(cache.artists@ + artists, (#[trigger] albums[j])@.artist_id)
}

proof fn lemma_artist_after_grow(a: Seq<Artist>, b: Seq<Artist>, c: Seq<Artist>, id: Id, text: Seq<char>)
    requires
        artist_after(a + b, id, text),
        b.is_prefix_of(c),
    ensures
        artist_after(a + c, id, text),
{
    let i = choose|i: int| 0 <= i < (a + b).len() && (#[trigger] (a + b)[i])@.id == id && named_after((a + b)[i]@.name, text);
    assert((a + c)[i] == (a + b)[i]);
}

proof fn lemma_album_after_grow(
    al: Seq<Album>, bl: Seq<Album>, cl: Seq<Album>,
    ar: Seq<Artist>, br: Seq<Artist>, cr: Seq<Artist>,
    id: Id, f: AudioFileDescriptor,
)
    requires
        album_after(al + bl, ar + br, id, f),
        bl.is_prefix_of(cl),
        br.is_prefix_of(cr),
    ensures
        album_after(al + cl, ar + cr, id, f),
{
    let i = choose|i: int| 0 <= i < (al + bl).len() && (#[trigger] (al + bl)[i])@.id == id
        && named_after((al + bl)[i]@.name, f.metadata.album_name@)
        && artist_after(ar + br, (al + bl)[i]@.artist_id, f.metadata.artist_name@);
    assert((al + cl)[i] == (al + bl)[i]);
    lemma_artist_after_grow(ar, br, cr, (al + bl)[i]@.artist_id, f.metadata.artist_name@);
}

proof fn lemma_hold_skip(cache: DatabaseCache, files: Seq<AudioFileDescriptor>, f: AudioFileDescriptor, a: Seq<Artist>, l: Seq<Album>, t: Seq<Track>)
    requires
        additions_hold(cache, files, a, l, t),
        !file_uncached(cache, f),
    ensures
        additions_hold(cache, files.push(f), a, l, t),
{
    let g = files.push(f);
    assert(g[files.len() as int] == f);
    assert forall|j: int| 0 <= j < t.len() implies track_traced(cache, g, #[trigger] t[j]) by {
        let k = choose|k: int| 0 <= k < files.len() && file_uncached(cache, #[trigger] files[k]) && track_of_file(t[j]@, files[k]);
        assert(g[k] == files[k]);
    }
    assert forall|j: int| 0 <= j < a.len() implies artist_traced(cache, g, #[trigger] a[j]) by {
        let k = choose|k: int| 0 <= k < files.len() && file_uncached(cache, #[trigger] files[k])
            && a[j]@.name == normalized_name(files[k].metadata.artist_name@)
            && !artist_named(cache.artists@, a[j]@.name);
        assert(g[k] == files[k]);
    }
    assert forall|j: int| 0 <= j < l.len() implies album_traced(cache, g, #[trigger] l[j]) by {
        let k = choose|k: int| 0 <= k < files.len() && file_uncached(cache, #[trigger] files[k])
            && l[j]@.name == normalized_name(files[k].metadata.album_name@)
            && l[j]@.year == files[k].metadata.album_year
            && !album_keyed(cache.albums@, l[j]@.name, l[j]@.artist_id);
        assert(g[k] == files[k]);
    }
    assert forall|k: int| 0 <= k < g.len() && file_uncached(cache, #[trigger] g[k]) implies track_at(t, normalized_path(g[k].path@)) by {
        if k < files.len() {
            assert(g[k] == files[k]);
        }
    }
}

proof fn lemma_linked_skip(cache: DatabaseCache, files: Seq<AudioFileDescriptor>, f: AudioFileDescriptor, a: Seq<Artist>, l: Seq<Album>, t: Seq<Track>)
    requires
        linked_hold(cache, files, a, l, t),
    ensures
        linked_hold(cache, files.push(f), a, l, t),
{
    let g = files.push(f);
    assert forall|j: int| 0 <= j < t.len() implies track_linked(g, cache.albums@ + l, cache.artists@ + a, #[trigger] t[j]) by {
        let k = choose|k: int| 0 <= k < files.len() && track_of_file(t[j]@, #[trigger] files[k])
            && album_after(cache.albums@ + l, cache.artists@ + a, t[j]@.album_id, files[k]);
        assert(g[k] == files[k]);
    }
}

proof fn lemma_hold_step(
    cache: DatabaseCache,
    files: Seq<AudioFileDescriptor>,
    f: AudioFileDescriptor,
    a0: Seq<Artist>, a1: Seq<Artist>,
    l0: Seq<Album>, l1: Seq<Album>,
    t0: Seq<Track>, t1: Seq<Track>,
    track: Track,
)
    requires
        additions_hold(cache, files, a0, l0, t0),
        file_uncached(cache, f),
        a0.is_prefix_of(a1),
        a1.len() <= a0.len() + 1,
        a1.len() > a0.len() ==> {
            &&& a1.last()@.name == normalized_name(f.metadata.artist_name@)
            &&& !artist_named(cache.artists@, a1.last()@.name)
            &&& !artist_named(a0, a1.last()@.name)
        },
        l0.is_prefix_of(l1),
        l1.len() <= l0.len() + 1,
        l1.len() > l0.len() ==> {
            &&& l1.last()@.name == normalized_name(f.metadata.album_name@)
            &&& l1.last()@.year == f.metadata.album_year
            &&& !album_keyed(cache.albums@, l1.last()@.name, l1.last()@.artist_id)
            &&& !album_keyed(l0, l1.last()@.name, l1.last()@.artist_id)
        },
        t1 == t0 || t1 == t0.push(track),
        track_of_file(track@, f),
        track_at(t1, normalized_path(f.path@)),
    ensures
        additions_hold(cache, files.push(f), a1, l1, t1),
{
    let g = files.push(f);
    let n = files.len() as int;
    assert(g[n] == f);
    assert forall|j: int| 0 <= j < t1.len() implies track_traced(cache, g, #[trigger] t1[j]) by {
        if j < t0.len() {
            assert(t1[j] == t0[j]);
            assert(track_traced(cache, files, t0[j]));
            let k = choose|k: int| 0 <= k < files.len() && file_uncached(cache, #[trigger] files[k]) && track_of_file(t0[j]@, files[k]);
            assert(g[k] == files[k]);
        } else {
            assert(t1[j] == track);
        }
    }
    assert forall|k: int| 0 <= k < g.len() && file_uncached(cache, #[trigger] g[k]) implies track_at(t1, normalized_path(g[k].path@)) by {
        if k < n {
            assert(g[k] == files[k]);
            let w = choose|w: int| 0 <= w < t0.len() && (#[trigger] t0[w])@.file_path == normalized_path(files[k].path@);
            assert(t1[w] == t0[w]);
        }
    }
    assert forall|j: int| 0 <= j < a1.len() implies artist_traced(cache, g, #[trigger] a1[j]) by {
        if j < a0.len() {
            assert(a1[j] == a0[j]);
            assert(artist_traced(cache, files, a0[j]));
            let k = choose|k: int| 0 <= k < files.len() && file_uncached(cache, #[trigger] files[k])
                && a0[j]@.name == normalized_name(files[k].metadata.artist_name@)
                && !artist_named(cache.artists@, a0[j]@.name);
            assert(g[k] == files[k]);
        } else {
            assert(a1[j] == a1.last());
        }
    }
    assert forall|j: int| 0 <= j < l1.len() implies album_traced(cache, g, #[trigger] l1[j]) by {
        if j < l0.len() {
            assert(l1[j] == l0[j]);
            assert(album_traced(cache, files, l0[j]));
            let k = choose|k: int| 0 <= k < files.len() && file_uncached(cache, #[trigger] files[k])
                && l0[j]@.name == normalized_name(files[k].metadata.album_name@)
                && l0[j]@.year == files[k].metadata.album_year
                && !album_keyed(cache.albums@, l0[j]@.name, l0[j]@.artist_id);
            assert(g[k] == files[k]);
        } else {
            assert(l1[j] == l1.last());
        }
    }
    assert forall|x: int, y: int| 0 <= x < y < a1.len() implies (#[trigger] a1[x])@.name != (#[trigger] a1[y])@.name by {
        assert(a1[x] == a0[x]);
        if y < a0.len() {
            assert(a1[y] == a0[y]);
        } else {
            assert(a1[y] == a1.last());
        }
    }
    assert forall|x: int, y: int| 0 <= x < y < l1.len() implies (#[trigger] l1[x])@.name != (#[trigger] l1[y])@.name
        || l1[x]@.artist_id != l1[y]@.artist_id by {
        assert(l1[x] == l0[x]);
        if y < l0.len() {
            assert(l1[y] == l0[y]);
        } else {
            assert(l1[y] == l1.last());
        }
    }
}

proof fn lemma_linked_step(
    cache: DatabaseCache,
    files: Seq<AudioFileDescriptor>,
    f: AudioFileDescriptor,
    a0: Seq<Artist>, a1: Seq<Artist>,
    l0: Seq<Album>, l1: Seq<Album>,
    t0: Seq<Track>, t1: Seq<Track>,
    track: Track,
    art_id: Id,
)
    requires
        linked_hold(cache, files, a0, l0, t0),
        a0.is_prefix_of(a1),
        l0.is_prefix_of(l1),
        l1.len() <= l0.len() + 1,
        l1.len() > l0.len() ==> l1.last()@.artist_id == art_id,
        artist_after(cache.artists@ + a1, art_id, f.metadata.artist_name@),
        exists|i: int| 0 <= i < (cache.albums@ + l1).len()
            && (#[trigger] (cache.albums@ + l1)[i])@.id == track@.album_id
            && named_after((cache.albums@ + l1)[i]@.name, f.metadata.album_name@)
            && (cache.albums@ + l1)[i]@.artist_id == art_id,
        t1 == t0 || t1 == t0.push(track),
        track_of_file(track@, f),
    ensures
        linked_hold(cache, files.push(f), a1, l1, t1),
{
    let g = files.push(f);
    let n = files.len() as int;
    assert(g[n] == f);
    let al = cache.albums@ + l1;
    let ar = cache.artists@ + a1;
    assert(album_after(al, ar, track@.album_id, f));
    assert forall|j: int| 0 <= j < t1.len() implies track_linked(g, al, ar, #[trigger] t1[j]) by {
        if j < t0.len() {
            assert(t1[j] == t0[j]);
            assert(track_linked(files, cache.albums@ + l0, cache.artists@ + a0, t0[j]));
            let k = choose|k: int| 0 <= k < files.len() && track_of_file(t0[j]@, #[trigger] files[k])
                && album_after(cache.albums@ + l0, cache.artists@ + a0, t0[j]@.album_id, files[k]);
            assert(g[k] == files[k]);
            lemma_album_after_grow(cache.albums@, l0, l1, cache.artists@, a0, a1, t0[j]@.album_id, files[k]);
        } else {
            assert(t1[j] == track);
        }
    }
    assert forall|j: int| 0 <= j < l1.len() implies artist_id_known(ar, (#[trigger] l1[j])@.artist_id) by {
        if j < l0.len() {
            assert(l1[j] == l0[j]);
            assert(artist_id_known(cache.artists@ + a0, l0[j]@.artist_id));
            let i = choose|i: int| 0 <= i < (cache.artists@ + a0).len() && (#[trigger] (cache.artists@ + a0)[i])@.id == l0[j]@.artist_id;
            assert(ar[i] == (cache.artists@ + a0)[i]);
        } else {
            assert(l1[j] == l1.last());
            let i = choose|i: int| 0 <= i < ar.len() && (#[trigger] ar[i])@.id == art_id && named_after(ar[i]@.name, f.metadata.artist_name@);
        }
    }
}

/// The synchronisation of the music library under `music_lib_path` with the stored
/// library that `db_cache` holds.
pub struct MusicLibSyncService {
    pub artists_repo: SqliteArtistsRepository,
    pub albums_repo: SqliteAlbumsRepository,
    pub tracks_repo: SqliteTracksRepository,
    pub music_lib_path: String,
    pub db_cache: DatabaseCache,
}

impl MusicLibSyncService {
    /// A synchronisation of the library under `music_lib_path` with the stored tracks,
    /// albums and artists, which it files by key.
    pub fn new(music_lib_path: String, tracks: Vec<Track>, albums: Vec<Album>, artists: Vec<Artist>) -> (res: Self)
        ensures
            res.music_lib_path@ == music_lib_path@,
            res.db_cache.tracks@ == last_by_key(tracks@),
            res.db_cache.albums@ == last_by_key(albums@),
            res.db_cache.artists@ == last_by_key(artists@),
    {
        MusicLibSyncService {
            artists_repo: SqliteArtistsRepository::new(),
            albums_repo: SqliteAlbumsRepository::new(),
            tracks_repo: SqliteTracksRepository::new(),
            music_lib_path,
            db_cache: DatabaseCache::new(tracks, albums, artists),
        }
    }

    /// The id of the artist whose name is the normalised `artist_name`: a stored one,
    /// else a pending one, else a new one that joins the pending artists.
    fn resolve_artist_id(&self, new_files: &mut PendingAdditions, artist_name: &str) -> (res: Result<Id, SyncServiceError>)
        ensures
            final(new_files).albums@ == old(new_files).albums@,
            final(new_files).tracks@ == old(new_files).tracks@,
            old(new_files).artists@.is_prefix_of(final(new_files).artists@),
            final(new_files).artists@.len() <= old(new_files).artists@.len() + 1,
            final(new_files).artists@.len() > old(new_files).artists@.len() ==> {
                &&& final(new_files).artists@.last()@.name == normalized_name(artist_name@)
                &&& !artist_named(self.db_cache.artists@, final(new_files).artists@.last()@.name)
                &&& !artist_named(old(new_files).artists@, final(new_files).artists@.last()@.name)
                &&& res == Ok::<Id, SyncServiceError>(final(new_files).artists@.last()@.id)
            },
            res is Ok <==> normalized_name(artist_name@).len() > 0,
            match res {
                Ok(id) => artist_after(self.db_cache.artists@ + final(new_files).artists@, id, artist_name@),
                Err(e) => e == SyncServiceError::DomainStructValidationError(ValidationError::NameIsEmptyString)
                    && final(new_files).artists@ == old(new_files).artists@,
            },
    {
        let ghost cached = self.db_cache.artists@;
        let ghost before = new_files.artists@;
        assert(before.is_prefix_of(before));
        let key = normalize_name(artist_name);
        if let Some(id) = artist_id_named(&self.db_cache.artists, key.as_str()) {
            proof {
                let i = choose|i: int| 0 <= i < cached.len() && (#[trigger] cached[i])@.name == key@ && cached[i]@.id == id;
                assert((cached + before)[i] == cached[i]);
            }
            return Ok(id);
        }
        if let Some(id) = artist_id_named(&new_files.artists, key.as_str()) {
            proof {
                let i = choose|i: int| 0 <= i < before.len() && (#[trigger] before[i])@.name == key@ && before[i]@.id == id;
                assert((cached + before)[cached.len() + i] == before[i]);
            }
            return Ok(id);
        }
        let new_id = new_id();
        let new_artist = match Artist::new(new_id, artist_name) {
            Ok(a) => a,
            Err(v) => return Err(SyncServiceError::DomainStructValidationError(v)),
        };
        let ghost made = new_artist@;
        new_files.add_artist(new_artist);
        proof {
            assert(new_files.artists@ == before.push(new_artist));
            assert(new_files.artists@.last()@ == made);
            assert(before.is_prefix_of(new_files.artists@));
            assert((cached + new_files.artists@)[(cached.len() + before.len()) as int]@ == made);
        }
        Ok(new_id)
    }

    /// The artists, albums and tracks that the scanned files add: each file that no
    /// stored track sits at yields a track, in the album and of the artist that the
    /// file's tags name once normalised, found among the stored and the pending ones,
    /// or made anew. The first such file whose tags are refused stops the search.
    #[verifier::rlimit(50)]
    pub fn find_new_files(&self, music_lib_files: &Vec<AudioFileDescriptor>) -> (res: Result<PendingAdditions, SyncServiceError>)
        ensures
            match res {
                Ok(adds) => additions_of(self.db_cache, music_lib_files@, adds)
                    && additions_linked(self.db_cache, music_lib_files@, adds),
                Err(e) => exists|k: int| #[trigger] first_invalid(self.db_cache, music_lib_files@, k)
                    && e == SyncServiceError::DomainStructValidationError(file_refusal(music_lib_files@[k])->0),
            },
            (forall|k: int| 0 <= k < music_lib_files@.len() && file_uncached(self.db_cache, #[trigger] music_lib_files@[k])
                ==> file_valid(music_lib_files@[k])) ==> res is Ok,
    {
        let ghost files = music_lib_files@;
        let ghost cache = self.db_cache;
        let mut new_files = PendingAdditions::new();
        let n = music_lib_files.len();
        let ghost mut origin: Seq<int> = Seq::empty();
        assert(files.take(0) =~= Seq::<AudioFileDescriptor>::empty());
        for i in 0..n
            invariant
                n == files.len(),
                files == music_lib_files@,
                cache == self.db_cache,
                track_origins(cache, files, new_files.tracks@, origin),
                forall|j: int| 0 <= j < origin.len() ==> #[trigger] origin[j] < i,
                forall|j: int| 0 <= j < new_files.albums@.len() ==> album_holds_track(new_files.tracks@, #[trigger] new_files.albums@[j]),
                additions_hold(cache, files.take(i as int), new_files.artists@, new_files.albums@, new_files.tracks@),
                linked_hold(cache, files.take(i as int), new_files.artists@, new_files.albums@, new_files.tracks@),
                forall|j: int| 0 <= j < i && file_uncached(cache, #[trigger] files[j]) ==> file_valid(files[j]),
        {
            let file = &music_lib_files[i];
            let ghost f = files[i as int];
            assert(files.take(i + 1) =~= files.take(i as int).push(f));
            let ghost a0 = new_files.artists@;
            let ghost l0 = new_files.albums@;
            let ghost t0 = new_files.tracks@;
            if self.db_cache.has_track_at(normalize_path(file.path.as_str()).as_str()) {
                proof {
                    lemma_hold_skip(cache, files.take(i as int), f, a0, l0, t0);
                    lemma_linked_skip(cache, files.take(i as int), f, a0, l0, t0);
                }
            } else {
                let art_id = match self.resolve_artist_id(&mut new_files, file.metadata.artist_name.as_str()) {
                    Ok(id) => id,
                    Err(e) => {
                        assert(first_invalid(cache, files, i as int));
                        return Err(e);
                    },
                };
                let ghost a1 = new_files.artists@;
                let alb_id = match self.resolve_album_id(&mut new_files, file.metadata.album_name.as_str(), art_id, file.metadata.album_year) {
                    Ok(id) => id,
                    Err(e) => {
                        assert(first_invalid(cache, files, i as int));
                        return Err(e);
                    },
                };
                let ghost l1 = new_files.albums@;
                let track = match Track::new(
                    new_id(),
                    file.metadata.track_name.as_str(),
                    alb_id,
                    file.metadata.track_duration,
                    file.path.as_str(),
                    file.file_size,
                    file.file_type,
                    Uploaded::Denis,
                    Some(local_now()),
                ) {
                    Ok(t) => t,
                    Err(v) => {
                        assert(first_invalid(cache, files, i as int));
                        assert(file_refusal(f) == Some(v));
                        return Err(SyncServiceError::DomainStructValidationError(v));
                    },
                };
                assert(file_valid(f));
                let ghost made = track;
                assert(track_of_file(made@, f));
                new_files.add_track(track);
                proof {
                    let t1 = new_files.tracks@;
                    if t1 == t0.push(made) && !has_identical(t0, made@) {
                        let o1 = origin.push(i as int);
                        assert(t1.last() == made);
                        assert forall|j: int| 0 <= j < t1.len() implies {
                            &&& 0 <= #[trigger] o1[j] < files.len()
                            &&& file_uncached(cache, files[o1[j]])
                            &&& track_of_file(t1[j]@, files[o1[j]])
                        } by {
                            if j < t0.len() {
                                assert(t1[j] == t0[j]);
                                assert(o1[j] == origin[j]);
                            }
                        }
                        assert forall|a: int, b: int| 0 <= a < b < o1.len() implies #[trigger] o1[a] < #[trigger] o1[b] by {
                            if b < origin.len() {
                                assert(o1[a] == origin[a] && o1[b] == origin[b]);
                            } else {
                                assert(o1[a] == origin[a]);
                                assert(origin[a] < i);
                            }
                        }
                        origin = o1;
                    }
                    assert(track_origins(cache, files, t1, origin));
                    assert forall|j: int| 0 <= j < origin.len() implies #[trigger] origin[j] < i + 1 by {}
                    assert(exists|m: int| 0 <= m < t1.len() && (#[trigger] t1[m])@.album_id == alb_id) by {
                        if has_identical(t0, made@) {
                            let m = choose|m: int| 0 <= m < t0.len() && (#[trigger] t0[m])@ == made@;
                            assert(t1 == t0);
                            assert(t1[m]@.album_id == alb_id);
                        } else {
                            assert(t1[t0.len() as int] == made);
                        }
                    }
                    assert forall|j: int| 0 <= j < new_files.albums@.len() implies album_holds_track(t1, #[trigger] new_files.albums@[j]) by {
                        if j < l0.len() {
                            assert(new_files.albums@[j] == l0[j]);
                            assert(album_holds_track(t0, l0[j]));
                            let m = choose|m: int| 0 <= m < t0.len() && (#[trigger] t0[m])@.album_id == l0[j]@.id;
                            assert(t1[m] == t0[m]);
                        } else {
                            assert(new_files.albums@[j]@.id == alb_id);
                        }
                    }
                    lemma_hold_step(cache, files.take(i as int), f, a0, a1, l0, l1, t0, new_files.tracks@, made);
                    lemma_linked_step(cache, files.take(i as int), f, a0, a1, l0, l1, t0, new_files.tracks@, made, art_id);
                }
            }
        }
        assert(files.take(n as int) =~= files);
        assert(tracks_from_distinct_files(cache, files, new_files.tracks@));
        Ok(new_files)
    }

    /// The stored tracks, albums and artists that the scanned files leave orphaned.
    pub fn find_orphaned_entities(&self, music_lib_files: &Vec<AudioFileDescriptor>) -> (res: PendingDeletions)
        ensures
            deletions_of(self.db_cache, music_lib_files@, res),
    {
        self.db_cache.find_orphaned_entities(music_lib_files)
    }

    /// What the scanned files change in the stored library: the additions, then the
    /// deletions.
    pub fn difference(&self, music_lib_files: &Vec<AudioFileDescriptor>) -> (res: Result<(PendingAdditions, PendingDeletions), SyncServiceError>)
        ensures
            match res {
                Ok((adds, dels)) => {
                    &&& additions_of(self.db_cache, music_lib_files@, adds)
                    &&& additions_linked(self.db_cache, music_lib_files@, adds)
                    &&& deletions_of(self.db_cache, music_lib_files@, dels)
                },
                Err(e) => exists|k: int| #[trigger] first_invalid(self.db_cache, music_lib_files@, k)
                    && e == SyncServiceError::DomainStructValidationError(file_refusal(music_lib_files@[k])->0),
            },
            (forall|k: int| 0 <= k < music_lib_files@.len() && file_uncached(self.db_cache, #[trigger] music_lib_files@[k])
                ==> file_valid(music_lib_files@[k])) ==> res is Ok,
    {
        let additions = match self.find_new_files(music_lib_files) {
            Ok(a) => a,
            Err(e) => return Err(e),
        };
        let deletions = self.find_orphaned_entities(music_lib_files);
        Ok((additions, deletions))
    }

    /// The id of the album of the artist `art_id` whose name is the normalised
    /// `alb_name`: a stored one, else a pending one, else a new one that joins the
    /// pending albums.
    fn resolve_album_id(&self, new_files: &mut PendingAdditions, alb_name: &str, art_id: Id, alb_year: Option<u32>) -> (res: Result<Id, SyncServiceError>)
        ensures
            final(new_files).artists@ == old(new_files).artists@,
            final(new_files).tracks@ == old(new_files).tracks@,
            old(new_files).albums@.is_prefix_of(final(new_files).albums@),
            final(new_files).albums@.len() <= old(new_files).albums@.len() + 1,
            final(new_files).albums@.len() > old(new_files).albums@.len() ==> {
                &&& final(new_files).albums@.last()@.name == normalized_name(alb_name@)
                &&& final(new_files).albums@.last()@.artist_id == art_id
                &&& final(new_files).albums@.last()@.year == alb_year
                &&& !album_keyed(self.db_cache.albums@, final(new_files).albums@.last()@.name, art_id)
                &&& !album_keyed(old(new_files).albums@, final(new_files).albums@.last()@.name, art_id)
                &&& res == Ok::<Id, SyncServiceError>(final(new_files).albums@.last()@.id)
            },
            res is Ok <==> normalized_name(alb_name@).len() > 0,
            match res {
                Ok(id) => exists|i: int| 0 <= i < (self.db_cache.albums@ + final(new_files).albums@).len()
                    && (#[trigger] (self.db_cache.albums@ + final(new_files).albums@)[i])@.id == id
                    && named_after((self.db_cache.albums@ + final(new_files).albums@)[i]@.name, alb_name@)
                    && (self.db_cache.albums@ + final(new_files).albums@)[i]@.artist_id == art_id,
                Err(e) => e == SyncServiceError::DomainStructValidationError(ValidationError::NameIsEmptyString)
                    && final(new_files).albums@ == old(new_files).albums@,
            },
    {
        let ghost cached = self.db_cache.albums@;
        let ghost before = new_files.albums@;
        assert(before.is_prefix_of(before));
        let key = normalize_name(alb_name);
        if let Some(id) = album_id_keyed(&self.db_cache.albums, key.as_str(), art_id) {
            proof {
                let i = choose|i: int| 0 <= i < cached.len() && (#[trigger] cached[i])@.name == key@ && cached[i]@.artist_id == art_id && cached[i]@.id == id;
                assert((cached + before)[i] == cached[i]);
            }
            return Ok(id);
        }
        if let Some(id) = album_id_keyed(&new_files.albums, key.as_str(), art_id) {
            proof {
                let i = choose|i: int| 0 <= i < before.len() && (#[trigger] before[i])@.name == key@ && before[i]@.artist_id == art_id && before[i]@.id == id;
                assert((cached + before)[cached.len() + i] == before[i]);
            }
            return Ok(id);
        }
        let new_id = new_id();
        let new_album = match Album::new(new_id, alb_name, art_id, alb_year) {
            Ok(a) => a,
            Err(v) => return Err(SyncServiceError::DomainStructValidationError(v)),
        };
        let ghost made = new_album@;
        new_files.add_album(new_album);
        proof {
            assert(new_files.albums@ == before.push(new_album));
            assert(new_files.albums@.last()@ == made);
            assert(made.id == new_id);
            assert(before.is_prefix_of(new_files.albums@));
            assert((cached + new_files.albums@)[(cached.len() + before.len()) as int]@ == made);
        }
        Ok(new_id)
    }
}

/// One database step of a synchronisation, all inside one transaction.
#[derive(Debug, Clone, Copy, PartialEq, Eq, Structural)]
pub enum SyncStep {
    DeleteTracks,
    DeleteAlbums,
    DeleteArtists,
    SaveArtists,
    SaveAlbums,
    SaveTracks,
    Commit,
}

/// The steps in the order a synchronisation takes them: the deletions, when there are
/// any, tracks before albums before artists; then the additions, when there are any,
/// artists before albums before tracks; then the commit.
pub open spec fn planned_steps(additions_empty: bool, deletions_empty: bool) -> Seq<SyncStep> {
    let deletes = if deletions_empty {
        Seq::<SyncStep>::empty()
    } else {
        seq![SyncStep::DeleteTracks, SyncStep::DeleteAlbums, SyncStep::DeleteArtists]
    };
    let saves = if additions_empty {
        Seq::<SyncStep>::empty()
    } else {
        seq![SyncStep::SaveArtists, SyncStep::SaveAlbums, SyncStep::SaveTracks]
    };
    deletes + saves + seq![SyncStep::Commit]
}

/// The database steps that apply `additions` and `deletions`.
pub fn sync_steps(additions: &PendingAdditions, deletions: &PendingDeletions) -> (res: Vec<SyncStep>)
    ensures
        res@ == planned_steps(
            additions.artists@.len() == 0 && additions.albums@.len() == 0 && additions.tracks@.len() == 0,
            deletions.track_ids@.len() == 0 && deletions.album_ids@.len() == 0 && deletions.artist_ids@.len() == 0,
        ),
{
    let mut steps: Vec<SyncStep> = Vec::new();
    if !deletions.is_empty() {
        steps.push(SyncStep::DeleteTracks);
        steps.push(SyncStep::DeleteAlbums);
        steps.push(SyncStep::DeleteArtists);
    }
    if !additions.is_empty() {
        steps.push(SyncStep::SaveArtists);
        steps.push(SyncStep::SaveAlbums);
        steps.push(SyncStep::SaveTracks);
    }
    steps.push(SyncStep::Commit);
    proof {
        let ae = additions.artists@.len() == 0 && additions.albums@.len() == 0 && additions.tracks@.len() == 0;
        let de = deletions.track_ids@.len() == 0 && deletions.album_ids@.len() == 0 && deletions.artist_ids@.len() == 0;
        assert(steps@ =~= planned_steps(ae, de));
    }
    steps
}

/// What a synchronisation did: the outcome of each batch, and when it ran.
#[derive(Debug)]
pub struct SyncServiceReport {
    pub deleted_tracks: BatchDeleteReport,
    pub deleted_albums: BatchDeleteReport,
    pub deleted_artists: BatchDeleteReport,
    pub added_tracks: BatchSaveReport,
    pub added_albums: BatchSaveReport,
    pub added_artists: BatchSaveReport,
    pub timestamp: chrono::NaiveDateTime,
}

impl SyncServiceReport {
    /// A report of nothing done, stamped with `timestamp`.
    pub fn new(timestamp: chrono::NaiveDateTime) -> (res: Self)
        ensures
            res.deleted_tracks.deleted_ids@.len() == 0 && res.deleted_tracks.failed@.len() == 0,
            res.deleted_albums.deleted_ids@.len() == 0 && res.deleted_albums.failed@.len() == 0,
            res.deleted_artists.deleted_ids@.len() == 0 && res.deleted_artists.failed@.len() == 0,
            res.added_tracks.outcomes@.len() == 0,
            res.added_albums.outcomes@.len() == 0,
            res.added_artists.outcomes@.len() == 0,
            res.timestamp == timestamp,
    {
        SyncServiceReport {
            deleted_tracks: BatchDeleteReport::new(),
            deleted_albums: BatchDeleteReport::new(),
            deleted_artists: BatchDeleteReport::new(),
            added_tracks: BatchSaveReport::new(),
            added_albums: BatchSaveReport::new(),
            added_artists: BatchSaveReport::new(),
            timestamp,
        }
    }
}

/// A stored track's id is among the ids that a synchronisation removes exactly when
/// some stored track with that id has lost its file.
pub proof fn lemma_missing_track_ids(tracks: Seq<Track>, files: Seq<AudioFileDescriptor>, id: Id)
    ensures
        missing_track_ids(tracks, files).contains(id) <==> exists|i: int| 0 <= i < tracks.len()
            && (#[trigger] tracks[i])@.id == id && !file_listed(files, tracks[i]@.file_path),
    decreases tracks.len(),
{
    broadcast use vstd::seq_lib::group_seq_properties;
    if tracks.len() > 0 {
        let rest = tracks.drop_last();
        lemma_missing_track_ids(rest, files, id);
        let last = tracks.last();
        let r = missing_track_ids(rest, files);
        assert(missing_track_ids(tracks, files) == match missing_track_id(files, last) {
            Some(x) => r + seq![x],
            None => r,
        });
        if exists|i: int| 0 <= i < tracks.len() && (#[trigger] tracks[i])@.id == id && !file_listed(files, tracks[i]@.file_path) {
            let i = choose|i: int| 0 <= i < tracks.len() && (#[trigger] tracks[i])@.id == id && !file_listed(files, tracks[i]@.file_path);
            if i < rest.len() {
                assert(rest[i] == tracks[i]);
                lemma_push_contains(r, last@.id);
            } else {
                assert((r + seq![id])[r.len() as int] == id);
            }
        }
        if missing_track_ids(tracks, files).contains(id) {
            if missing_track_id(files, last) is Some {
                lemma_push_contains(r, last@.id);
                assert(r + seq![last@.id] == r.push(last@.id));
                if r.contains(id) {
                    let i = choose|i: int| 0 <= i < rest.len() && (#[trigger] rest[i])@.id == id && !file_listed(files, rest[i]@.file_path);
                    assert(tracks[i] == rest[i]);
                } else {
                    assert(tracks[tracks.len() - 1] == last);
                }
            } else {
                let i = choose|i: int| 0 <= i < rest.len() && (#[trigger] rest[i])@.id == id && !file_listed(files, rest[i]@.file_path);
                assert(tracks[i] == rest[i]);
            }
        }
    }
}

/// When every stored track's file is still there and every scanned file is stored
/// already, a synchronisation changes nothing: nothing is added and nothing removed.
pub proof fn lemma_sync_no_op(cache: DatabaseCache, files: Seq<AudioFileDescriptor>, adds: PendingAdditions, dels: PendingDeletions)
    requires
        additions_of(cache, files, adds),
        deletions_of(cache, files, dels),
        forall|i: int| 0 <= i < cache.tracks@.len() ==> file_listed(files, (#[trigger] cache.tracks@[i])@.file_path),
        forall|k: int| 0 <= k < files.len() ==> !file_uncached(cache, #[trigger] files[k]),
    ensures
        adds.artists@.len() == 0,
        adds.albums@.len() == 0,
        adds.tracks@.len() == 0,
        dels.track_ids@.len() == 0,
        dels.album_ids@.len() == 0,
        dels.artist_ids@.len() == 0,
{
    if adds.tracks@.len() > 0 {
        assert(track_traced(cache, files, adds.tracks@[0]));
    }
    if adds.artists@.len() > 0 {
        assert(artist_traced(cache, files, adds.artists@[0]));
    }
    if adds.albums@.len() > 0 {
        assert(album_traced(cache, files, adds.albums@[0]));
    }
    if dels.track_ids@.len() > 0 {
        let id = dels.track_ids@[0];
        assert(dels.track_ids@.contains(id));
        lemma_missing_track_ids(cache.tracks@, files, id);
    }
    assert(dels.track_ids@.len() == 0);
    if dels.album_ids@.len() > 0 {
        let g = dels.album_ids@[0];
        assert(dels.album_ids@.contains(g));
        let pairs = album_track_pairs(cache.tracks@);
        let i = choose|i: int| 0 <= i < pairs.len() && (#[trigger] pairs[i]).0 == g;
        assert(dels.track_ids@.contains(pairs[i].1));
    }
    assert(dels.album_ids@.len() == 0);
    if dels.artist_ids@.len() > 0 {
        let g = dels.artist_ids@[0];
        assert(dels.artist_ids@.contains(g));
        let pairs = artist_album_pairs(cache.albums@);
        let i = choose|i: int| 0 <= i < pairs.len() && (#[trigger] pairs[i]).0 == g;
        assert(dels.album_ids@.contains(pairs[i].1));
    }
}

/// An album whose stored tracks have all lost their files goes with them.
pub proof fn lemma_album_goes_with_its_last_track(cache: DatabaseCache, files: Seq<AudioFileDescriptor>, dels: PendingDeletions, g: Id)
    requires
        deletions_of(cache, files, dels),
        exists|i: int| 0 <= i < cache.tracks@.len() && (#[trigger] cache.tracks@[i])@.album_id == g,
        forall|i: int| 0 <= i < cache.tracks@.len() && (#[trigger] cache.tracks@[i])@.album_id == g
            ==> !file_listed(files, cache.tracks@[i]@.file_path),
    ensures
        dels.album_ids@.contains(g),
{
    let pairs = album_track_pairs(cache.tracks@);
    let w = choose|i: int| 0 <= i < cache.tracks@.len() && (#[trigger] cache.tracks@[i])@.album_id == g;
    assert(pairs[w].0 == g);
    assert forall|i: int| 0 <= i < pairs.len() && (#[trigger] pairs[i]).0 == g implies dels.track_ids@.contains(pairs[i].1) by {
        assert(pairs[i] == (cache.tracks@[i]@.album_id, cache.tracks@[i]@.id));
        lemma_missing_track_ids(cache.tracks@, files, pairs[i].1);
    }
}

/// While one stored track of an album keeps its file, the album stays, provided the
/// stored tracks have distinct ids.
pub proof fn lemma_album_kept_while_a_track_remains(cache: DatabaseCache, files: Seq<AudioFileDescriptor>, dels: PendingDeletions, i: int)
    requires
        deletions_of(cache, files, dels),
        forall|a: int, b: int| 0 <= a < b < cache.tracks@.len() ==> (#[trigger] cache.tracks@[a])@.id != (#[trigger] cache.tracks@[b])@.id,
        0 <= i < cache.tracks@.len(),
        file_listed(files, cache.tracks@[i]@.file_path),
    ensures
        !dels.album_ids@.contains(cache.tracks@[i]@.album_id),
{
    let t = cache.tracks@[i]@;
    lemma_missing_track_ids(cache.tracks@, files, t.id);
    if dels.track_ids@.contains(t.id) {
        let j = choose|j: int| 0 <= j < cache.tracks@.len() && (#[trigger] cache.tracks@[j])@.id == t.id && !file_listed(files, cache.tracks@[j]@.file_path);
        if j < i {
            assert(cache.tracks@[j]@.id != cache.tracks@[i]@.id);
        } else if j > i {
            assert(cache.tracks@[i]@.id != cache.tracks@[j]@.id);
        }
    }
    let pairs = album_track_pairs(cache.tracks@);
    assert(pairs[i] == (t.album_id, t.id));
}

/// An artist whose stored albums all go goes with them.
pub proof fn lemma_artist_goes_with_its_last_album(cache: DatabaseCache, files: Seq<AudioFileDescriptor>, dels: PendingDeletions, r: Id)
    requires
        deletions_of(cache, files, dels),
        exists|j: int| 0 <= j < cache.albums@.len() && (#[trigger] cache.albums@[j])@.artist_id == r,
        forall|j: int| 0 <= j < cache.albums@.len() && (#[trigger] cache.albums@[j])@.artist_id == r
            ==> dels.album_ids@.contains(cache.albums@[j]@.id),
    ensures
        dels.artist_ids@.contains(r),
{
    let pairs = artist_album_pairs(cache.albums@);
    let w = choose|j: int| 0 <= j < cache.albums@.len() && (#[trigger] cache.albums@[j])@.artist_id == r;
    assert(pairs[w].0 == r);
    assert forall|j: int| 0 <= j < pairs.len() && (#[trigger] pairs[j]).0 == r implies dels.album_ids@.contains(pairs[j].1) by {
        assert(pairs[j] == (cache.albums@[j]@.artist_id, cache.albums@[j]@.id));
    }
}

/// While one stored album of an artist stays, the artist stays.
pub proof fn lemma_artist_kept_while_an_album_remains(cache: DatabaseCache, files: Seq<AudioFileDescriptor>, dels: PendingDeletions, j: int)
    requires
        deletions_of(cache, files, dels),
        0 <= j < cache.albums@.len(),
        !dels.album_ids@.contains(cache.albums@[j]@.id),
    ensures
        !dels.artist_ids@.contains(cache.albums@[j]@.artist_id),
{
    let pairs = artist_album_pairs(cache.albums@);
    assert(pairs[j] == (cache.albums@[j]@.artist_id, cache.albums@[j]@.id));
}

/// When the artist tag of every new file, once normalised, names a stored artist, no
/// artist is added.
pub proof fn lemma_known_artists_are_reused(cache: DatabaseCache, files: Seq<AudioFileDescriptor>, adds: PendingAdditions)
    requires
        additions_of(cache, files, adds),
        forall|k: int| 0 <= k < files.len() && file_uncached(cache, #[trigger] files[k])
            ==> artist_named(cache.artists@, normalized_name(files[k].metadata.artist_name@)),
    ensures
        adds.artists@.len() == 0,
{
    if adds.artists@.len() > 0 {
        assert(artist_traced(cache, files, adds.artists@[0]));
    }
}

} // verus!
