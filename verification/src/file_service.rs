use vstd::prelude::*;
use crate::db_service::{
    add_playlist, add_song, add_song_to_playlist, get_playlist_by_name, get_song_by_path,
    is_path_unique, is_playlist_unique, is_song_in_playlist, next_pos, spec_add_playlist,
    spec_add_song, spec_add_song_to_playlist, spec_get_playlist_by_name,
    spec_get_song_by_path, spec_is_path_unique, spec_is_playlist_unique,
    spec_is_song_in_playlist, DbError, DbView, JunctionRow, MusicDb, Playlist, Song, max_pos, next_row_id, law_add_song_read_back, law_add_playlist_read_back,
    first_match, lemma_first_match, lemma_first_match_facts, list_has_name, song_has_path, row_links, next_position,
};

verus! {

// ---------------------------------------------------------------------------
// Directory listings
// ---------------------------------------------------------------------------

/// One entry of a directory listing, as read from the file system: a
/// sub-directory with its own listing, a file, or an entry that could not be
/// read.  Paths are full paths, components separated by `/`.
#[derive(Debug)]
pub enum DirEntry {
    Dir { path: String, entries: Vec<DirEntry> },
    File { path: String },
    Unreadable,
}

/// Errors of a scan.
#[derive(Debug, PartialEq, Eq, Structural)]
pub enum ScanError {
    /// An entry of the scanned directory could not be read.
    UnreadableEntry,
}

// ---------------------------------------------------------------------------
// Path components
// ---------------------------------------------------------------------------

/// The index of the last occurrence of `c` in `s`.
pub open spec fn last_index(s: Seq<char>, c: char) -> Option<int>
    decreases s.len(),
{
    if s.len() == 0 {
        None
    } else if s.last() == c {
        Some(s.len() - 1)
    } else {
        last_index(s.drop_last(), c)
    }
}

/// The part of a path after its last `/`: the last of the pieces that
/// splitting at `/` gives.
pub open spec fn last_component(p: Seq<char>) -> Seq<char> {
    match last_index(p, '/') {
        Some(k) => p.subrange(k + 1, p.len() as int),
        None => p,
    }
}

/// The extension of a file name: the part after its final `.`; none when the
/// name holds no `.` or its only `.` is the first character.
pub open spec fn extension_of(name: Seq<char>) -> Option<Seq<char>> {
    match last_index(name, '.') {
        Some(k) => if k == 0 { None } else { Some(name.subrange(k + 1, name.len() as int)) },
        None => None,
    }
}

proof fn lemma_last_index_bounds(s: Seq<char>, c: char)
    ensures
        last_index(s, c) matches Some(k) ==> 0 <= k < s.len() && s[k] == c,
    decreases s.len(),
{
    if s.len() > 0 && s.last() != c {
        lemma_last_index_bounds(s.drop_last(), c);
    }
}

fn find_last(s: &str, c: char) -> (r: Option<usize>)
    ensures
        r matches Some(k) ==> last_index(s@, c) == Some(k as int),
        r is None ==> last_index(s@, c) is None,
        r matches Some(k) ==> k < s@.len(),
{
    let n = s.unicode_len();
    let mut last: Option<usize> = None;
    let mut i: usize = 0;
    while i < n
        invariant
            0 <= i <= n,
            n == s@.len(),
            last matches Some(k) ==> last_index(s@.take(i as int), c) == Some(k as int) && k < i,
            last is None ==> last_index(s@.take(i as int), c) is None,
        decreases n - i,
    {
        assert(s@.take(i + 1).drop_last() =~= s@.take(i as int));
        if s.get_char(i) == c {
            last = Some(i);
        }
        i = i + 1;
    }
    assert(s@.take(n as int) =~= s@);
    last
}

/// The part of `path` after its last `/`.
pub fn file_name_of(path: &str) -> (r: String)
    ensures
        r@ == last_component(path@),
{
    let n = path.unicode_len();
    match find_last(path, '/') {
        Some(k) => String::from_str(path.substring_char(k + 1, n)),
        None => String::from_str(path),
    }
}

/// The extension of the file name `name`.
pub fn extension_from(name: &str) -> (r: Option<String>)
    ensures
        r matches Some(e) ==> extension_of(name@) == Some(e@),
        r is None ==> extension_of(name@) is None,
{
    let n = name.unicode_len();
    match find_last(name, '.') {
        Some(k) => {
            if k == 0 {
                None
            } else {
                Some(String::from_str(name.substring_char(k + 1, n)))
            }
        },
        None => None,
    }
}

// ---------------------------------------------------------------------------
// What a scan does
// ---------------------------------------------------------------------------

/// The state of the database and the outcome after scanning a listing.
pub struct Scan {
    pub db: DbView,
    pub out: Result<Seq<i64>, ScanError>,
}

pub open spec fn mp3() -> Seq<char> {
    seq!['m', 'p', '3']
}

/// A file path whose file name has the extension `mp3`.
pub open spec fn is_mp3(path: Seq<char>) -> bool {
    extension_of(last_component(path)) == Some(mp3())
}

pub open spec fn ok_or_keep(r: Result<DbView, DbError>, db: DbView) -> DbView {
    match r {
        Ok(d) => d,
        Err(_) => db,
    }
}

/// Scanning a music file: it is added unless some song has its path already,
/// and the id of the first song with its path is reported.
pub open spec fn scan_file(db: DbView, path: Seq<char>) -> (DbView, Option<i64>) {
    if is_mp3(path) {
        let db1 = if spec_is_path_unique(db, path) {
            ok_or_keep(spec_add_song(db, last_component(path), path), db)
        } else {
            db
        };
        let id = match spec_get_song_by_path(db1, path) {
            Ok(s) => s.song_id,
            Err(_) => 0,
        };
        (db1, Some(id))
    } else {
        (db, None)
    }
}

/// Adding each song of `ids`, in order, to the playlist unless it stands there.
pub open spec fn link_all(db: DbView, ids: Seq<i64>, list_id: i64) -> DbView
    decreases ids.len(),
{
    if ids.len() == 0 {
        db
    } else {
        let d = link_all(db, ids.drop_last(), list_id);
        if spec_is_song_in_playlist(d, ids.last(), list_id) {
            d
        } else {
            ok_or_keep(spec_add_song_to_playlist(d, ids.last(), list_id, None), d)
        }
    }
}

/// What finishing a sub-directory does once its listing gave the ids `ids` of
/// the music files directly in it: when there are any, a playlist named after
/// the directory is added unless one of that name exists, and the songs are
/// put into the first playlist of that name.
pub open spec fn dir_tail(db: DbView, path: Seq<char>, ids: Seq<i64>) -> DbView {
    if ids.len() > 0 {
        let name = last_component(path);
        let db1 = if spec_is_playlist_unique(db, name) {
            ok_or_keep(spec_add_playlist(db, name, false), db)
        } else {
            db
        };
        let list_id = match spec_get_playlist_by_name(db1, name) {
            Ok(p) => p.list_id,
            Err(_) => 0,
        };
        link_all(db1, ids, list_id)
    } else {
        db
    }
}

pub open spec fn ids_of(out: Result<Seq<i64>, ScanError>) -> Seq<i64> {
    match out {
        Ok(ids) => ids,
        Err(_) => Seq::empty(),
    }
}

pub open spec fn scan_entry(db: DbView, e: DirEntry) -> (DbView, Result<Option<i64>, ScanError>)
    decreases e,
{
    match e {
        DirEntry::Dir { path, entries } => {
            let r = scan_list(db, entries@);
            (dir_tail(r.db, path@, ids_of(r.out)), Ok(None))
        },
        DirEntry::File { path } => {
            let (d, id) = scan_file(db, path@);
            (d, Ok(id))
        },
        DirEntry::Unreadable => (db, Err(ScanError::UnreadableEntry)),
    }
}

/// Scanning a listing entry by entry, collecting the ids of its music files;
/// the scan stops at the first entry that could not be read.
pub open spec fn scan_list(db: DbView, es: Seq<DirEntry>) -> Scan
    decreases es,
{
    if es.len() == 0 {
        Scan { db, out: Ok(Seq::empty()) }
    } else {
        let r = scan_list(db, es.drop_last());
        match r.out {
            Err(e) => r,
            Ok(ids) => {
                let (d, step) = scan_entry(r.db, es.last());
                match step {
                    Err(e) => Scan { db: d, out: Err(e) },
                    Ok(Some(id)) => Scan { db: d, out: Ok(ids.push(id)) },
                    Ok(None) => Scan { db: d, out: Ok(ids) },
                }
            },
        }
    }
}

// ---------------------------------------------------------------------------
// When a scan can run
// ---------------------------------------------------------------------------

/// Whether the listing holds an entry that could not be read.
pub open spec fn has_unreadable(es: Seq<DirEntry>) -> bool {
    exists|i: int| 0 <= i < es.len() && #[trigger] es[i] is Unreadable
}

/// The entries a scan looks at hold no file without an extension, and the
/// listings of sub-directories no unreadable entry.
pub open spec fn scannable_list(es: Seq<DirEntry>) -> bool
    decreases es,
{
    if es.len() == 0 {
        true
    } else {
        &&& scannable_list(es.drop_last())
        &&& (!has_unreadable(es.drop_last()) ==> scannable_entry(es.last()))
    }
}

pub open spec fn scannable_entry(e: DirEntry) -> bool
    decreases e,
{
    match e {
        DirEntry::Dir { entries, .. } => !has_unreadable(entries@) && scannable_list(entries@),
        DirEntry::File { path } => extension_of(last_component(path@)) is Some,
        DirEntry::Unreadable => true,
    }
}

// ---------------------------------------------------------------------------
// What a scan leaves behind
// ---------------------------------------------------------------------------

/// `p` is the path of a music file in the entry or below it.
pub open spec fn music_in_entry(e: DirEntry, p: Seq<char>) -> bool
    decreases e,
{
    match e {
        DirEntry::File { path } => path@ == p && is_mp3(p),
        DirEntry::Dir { entries, .. } => music_in_list(entries@, p),
        DirEntry::Unreadable => false,
    }
}

/// `p` is the path of a music file in the listing or below it.
pub open spec fn music_in_list(es: Seq<DirEntry>, p: Seq<char>) -> bool
    decreases es,
{
    es.len() > 0 && (music_in_list(es.drop_last(), p) || music_in_entry(es.last(), p))
}

/// The listing holds a music file directly.
pub open spec fn has_direct_music(es: Seq<DirEntry>) -> bool {
    exists|i: int| 0 <= i < es.len() && #[trigger] is_music_file(es[i])
}

pub open spec fn is_music_file(e: DirEntry) -> bool {
    e matches DirEntry::File { path } && is_mp3(path@)
}

/// A directory named `name` that directly holds music files is the entry or
/// lies below it.
pub open spec fn album_in_entry(e: DirEntry, name: Seq<char>) -> bool
    decreases e,
{
    match e {
        DirEntry::Dir { path, entries } => (has_direct_music(entries@) && last_component(path@) == name)
            || album_in_list(entries@, name),
        _ => false,
    }
}

/// A directory named `name` that directly holds music files lies in the
/// listing or below it.
pub open spec fn album_in_list(es: Seq<DirEntry>, name: Seq<char>) -> bool
    decreases es,
{
    es.len() > 0 && (album_in_list(es.drop_last(), name) || album_in_entry(es.last(), name))
}

/// `b` holds every song and playlist of `a`, in the same places.
pub open spec fn grows(a: DbView, b: DbView) -> bool {
    &&& a.songs.len() <= b.songs.len()
    &&& forall|i: int| 0 <= i < a.songs.len() ==> #[trigger] b.songs[i] == a.songs[i]
    &&& a.playlists.len() <= b.playlists.len()
    &&& forall|i: int| 0 <= i < a.playlists.len() ==> #[trigger] b.playlists[i] == a.playlists[i]
}

pub proof fn lemma_grows_trans(a: DbView, b: DbView, c: DbView)
    requires
        grows(a, b),
        grows(b, c),
    ensures
        grows(a, c),
{
    assert forall|i: int| 0 <= i < a.songs.len() implies #[trigger] c.songs[i] == a.songs[i] by {
        assert(c.songs[i] == b.songs[i]);
    }
    assert forall|i: int| 0 <= i < a.playlists.len() implies #[trigger] c.playlists[i] == a.playlists[i] by {
        assert(c.playlists[i] == b.playlists[i]);
    }
}

/// What a database holds stays once it grows.
pub proof fn lemma_grows_keeps(a: DbView, b: DbView)
    requires
        grows(a, b),
    ensures
        forall|p: Seq<char>| !spec_is_path_unique(a, p) ==> !#[trigger] spec_is_path_unique(b, p),
        forall|n: Seq<char>| !spec_is_playlist_unique(a, n) ==> !#[trigger] spec_is_playlist_unique(b, n),
{
    assert forall|p: Seq<char>| !spec_is_path_unique(a, p) implies !#[trigger] spec_is_path_unique(b, p) by {
        let i = choose|i: int| 0 <= i < a.songs.len() && a.songs[i].path == p;
        assert(b.songs[i] == a.songs[i]);
    }
    assert forall|n: Seq<char>| !spec_is_playlist_unique(a, n) implies !#[trigger] spec_is_playlist_unique(b, n) by {
        let i = choose|i: int| 0 <= i < a.playlists.len() && a.playlists[i].list_name == n;
        assert(b.playlists[i] == a.playlists[i]);
    }
}

// ---------------------------------------------------------------------------
// Lemmas on scans
// ---------------------------------------------------------------------------

/// Once a scan has stopped at an unreadable entry, the rest of the listing
/// changes nothing.
pub proof fn lemma_scan_stops(db: DbView, es: Seq<DirEntry>, k: int, j: int)
    requires
        0 <= k <= j <= es.len(),
        scan_list(db, es.take(k)).out is Err,
    ensures
        scan_list(db, es.take(j)) == scan_list(db, es.take(k)),
    decreases j - k,
{
    if j > k {
        lemma_scan_stops(db, es, k, j - 1);
        assert(es.take(j).drop_last() =~= es.take(j - 1));
    }
}

/// An entry the scan reaches is scannable.
pub proof fn lemma_scannable_at(es: Seq<DirEntry>, i: int)
    requires
        scannable_list(es),
        0 <= i < es.len(),
        !has_unreadable(es.take(i)),
    ensures
        scannable_entry(es[i]),
    decreases es.len(),
{
    let t = es.drop_last();
    if i < es.len() - 1 {
        assert(t.take(i) =~= es.take(i));
        lemma_scannable_at(t, i);
    } else {
        assert(t =~= es.take(i));
    }
}

/// A listing with no unreadable entry never makes a scan stop.
pub proof fn lemma_scan_ok(db: DbView, es: Seq<DirEntry>)
    requires
        !has_unreadable(es),
    ensures
        scan_list(db, es).out is Ok,
    decreases es,
{
    if es.len() > 0 {
        let t = es.drop_last();
        assert forall|i: int| 0 <= i < t.len() implies !(#[trigger] t[i] is Unreadable) by {
            assert(t[i] == es[i]);
        }
        lemma_scan_ok(db, t);
        assert(es[es.len() - 1] == es.last());
        let r = scan_list(db, t);
        let e = es.last();
        assert(!(e is Unreadable));
        let (d, step) = scan_entry(r.db, e);
        assert(step is Ok);
    }
}

// ---------------------------------------------------------------------------
// Scanning again
// ---------------------------------------------------------------------------

/// `b` extends `a` the way inserts do: every table keeps its rows and may gain
/// rows at its end, the id counters do not go down, and a table whose counter
/// (for the junction table: whose last row id) has reached the largest `i64`
/// gains nothing.
pub open spec fn extends(a: DbView, b: DbView) -> bool {
    &&& a.songs.len() <= b.songs.len()
    &&& forall|i: int| 0 <= i < a.songs.len() ==> #[trigger] b.songs[i] == a.songs[i]
    &&& a.playlists.len() <= b.playlists.len()
    &&& forall|i: int| 0 <= i < a.playlists.len() ==> #[trigger] b.playlists[i] == a.playlists[i]
    &&& a.junction.len() <= b.junction.len()
    &&& forall|i: int| 0 <= i < a.junction.len() ==> #[trigger] b.junction[i] == a.junction[i]
    &&& a.song_seq <= b.song_seq
    &&& a.playlist_seq <= b.playlist_seq
    &&& a.song_seq == i64::MAX ==> b.songs == a.songs
    &&& a.playlist_seq == i64::MAX ==> b.playlists == a.playlists
    &&& next_row_id(a.junction) is None ==> b.junction == a.junction
}

proof fn lemma_extends_refl(a: DbView)
    ensures
        extends(a, a),
{
}

proof fn lemma_extends_trans(a: DbView, b: DbView, c: DbView)
    requires
        extends(a, b),
        extends(b, c),
    ensures
        extends(a, c),
{
    assert forall|i: int| 0 <= i < a.songs.len() implies #[trigger] c.songs[i] == a.songs[i] by {
        assert(c.songs[i] == b.songs[i]);
    }
    assert forall|i: int| 0 <= i < a.playlists.len() implies #[trigger] c.playlists[i] == a.playlists[i] by {
        assert(c.playlists[i] == b.playlists[i]);
    }
    assert forall|i: int| 0 <= i < a.junction.len() implies #[trigger] c.junction[i] == a.junction[i] by {
        assert(c.junction[i] == b.junction[i]);
    }
}

proof fn lemma_add_song_extends(db: DbView, name: Seq<char>, path: Seq<char>)
    ensures
        extends(db, ok_or_keep(spec_add_song(db, name, path), db)),
{
}

proof fn lemma_add_playlist_extends(db: DbView, name: Seq<char>, user_created: bool)
    ensures
        extends(db, ok_or_keep(spec_add_playlist(db, name, user_created), db)),
{
}

proof fn lemma_link_extends(db: DbView, song_id: i64, list_id: i64)
    ensures
        extends(db, ok_or_keep(spec_add_song_to_playlist(db, song_id, list_id, None), db)),
{
}

proof fn lemma_scan_file_extends(db: DbView, path: Seq<char>)
    ensures
        extends(db, scan_file(db, path).0),
{
    lemma_add_song_extends(db, last_component(path), path);
}

proof fn lemma_link_all_extends(db: DbView, ids: Seq<i64>, list_id: i64)
    ensures
        extends(db, link_all(db, ids, list_id)),
    decreases ids.len(),
{
    if ids.len() > 0 {
        let d = link_all(db, ids.drop_last(), list_id);
        lemma_link_all_extends(db, ids.drop_last(), list_id);
        lemma_link_extends(d, ids.last(), list_id);
        lemma_extends_trans(db, d, link_all(db, ids, list_id));
    }
}

proof fn lemma_dir_tail_extends(db: DbView, path: Seq<char>, ids: Seq<i64>)
    ensures
        extends(db, dir_tail(db, path, ids)),
{
    if ids.len() > 0 {
        let name = last_component(path);
        let db1 = if spec_is_playlist_unique(db, name) {
            ok_or_keep(spec_add_playlist(db, name, false), db)
        } else {
            db
        };
        lemma_add_playlist_extends(db, name, false);
        let list_id = match spec_get_playlist_by_name(db1, name) {
            Ok(p) => p.list_id,
            Err(_) => 0,
        };
        lemma_link_all_extends(db1, ids, list_id);
        lemma_extends_trans(db, db1, dir_tail(db, path, ids));
    }
}

proof fn lemma_scan_entry_extends(db: DbView, e: DirEntry)
    ensures
        extends(db, scan_entry(db, e).0),
    decreases e,
{
    match e {
        DirEntry::Dir { path, entries } => {
            let r = scan_list(db, entries@);
            lemma_scan_list_extends(db, entries@);
            lemma_dir_tail_extends(r.db, path@, ids_of(r.out));
            lemma_extends_trans(db, r.db, scan_entry(db, e).0);
        },
        DirEntry::File { path } => {
            lemma_scan_file_extends(db, path@);
        },
        DirEntry::Unreadable => {},
    }
}

proof fn lemma_scan_list_extends(db: DbView, es: Seq<DirEntry>)
    ensures
        extends(db, scan_list(db, es).db),
    decreases es,
{
    if es.len() > 0 {
        let r = scan_list(db, es.drop_last());
        lemma_scan_list_extends(db, es.drop_last());
        if r.out is Ok {
            lemma_scan_entry_extends(r.db, es.last());
            lemma_extends_trans(db, r.db, scan_list(db, es).db);
        }
    }
}

/// A scan of a listing extends the scan of any of its prefixes.
proof fn lemma_scan_step_extends(db: DbView, es: Seq<DirEntry>)
    requires
        es.len() > 0,
    ensures
        extends(scan_list(db, es.drop_last()).db, scan_list(db, es).db),
{
    let r = scan_list(db, es.drop_last());
    if r.out is Ok {
        lemma_scan_entry_extends(r.db, es.last());
    } else {
        lemma_extends_refl(r.db);
    }
}

/// The first match in a sequence stays the first match once elements are
/// appended.
proof fn lemma_first_match_prefix<T>(a: Seq<T>, b: Seq<T>, p: spec_fn(T) -> bool)
    requires
        a.len() <= b.len(),
        forall|i: int| 0 <= i < a.len() ==> #[trigger] b[i] == a[i],
        first_match(a, p) is Some,
    ensures
        first_match(b, p) == first_match(a, p),
{
    lemma_first_match_facts(a, p);
    let i = first_match(a, p).unwrap();
    assert forall|j: int| 0 <= j < i implies !p(#[trigger] b[j]) by {
        assert(b[j] == a[j]);
    }
    assert(b[i] == a[i]);
    lemma_first_match(b, p, i);
}

/// Scanning a file again in a database that extends the one the first scan
/// left changes nothing and reports the same id.
proof fn lemma_rescan_file(db: DbView, path: Seq<char>, d: DbView)
    requires
        extends(scan_file(db, path).0, d),
    ensures
        scan_file(d, path) == (d, scan_file(db, path).1),
{
    if is_mp3(path) {
        let db1 = scan_file(db, path).0;
        lemma_first_match_facts(db1.songs, song_has_path(path));
        lemma_first_match_facts(d.songs, song_has_path(path));
        if spec_is_path_unique(db1, path) {
            // the insert failed: the songs table is full and stays as it is
            if spec_is_path_unique(db, path) && db.song_seq != i64::MAX {
                assert(db1.songs[db1.songs.len() - 1].path == path);
            }
            if !spec_is_path_unique(db, path) {
                let i = choose|i: int| 0 <= i < db.songs.len() && db.songs[i].path == path;
                assert(db1.songs[i] == db.songs[i]);
            }
            assert(db1 == db);
            assert(db.song_seq == i64::MAX);
            assert(d.songs == db1.songs);
            assert(spec_add_song(d, last_component(path), path) is Err);
        } else {
            let i = choose|i: int| 0 <= i < db1.songs.len() && db1.songs[i].path == path;
            assert(d.songs[i] == db1.songs[i]);
            assert(song_has_path(path)(db1.songs[i]));
            lemma_first_match_prefix(db1.songs, d.songs, song_has_path(path));
        }
    }
}

/// The song stands in the playlist, or no row can be added any more.
pub open spec fn linked(db: DbView, song_id: i64, list_id: i64) -> bool {
    spec_is_song_in_playlist(db, song_id, list_id) || next_row_id(db.junction) is None
}

proof fn lemma_linked_extends(a: DbView, b: DbView, song_id: i64, list_id: i64)
    requires
        linked(a, song_id, list_id),
        extends(a, b),
    ensures
        linked(b, song_id, list_id),
{
    if spec_is_song_in_playlist(a, song_id, list_id) {
        let i = choose|i: int| 0 <= i < a.junction.len() && #[trigger] row_links(song_id, list_id)(a.junction[i]);
        assert(b.junction[i] == a.junction[i]);
        assert(row_links(song_id, list_id)(b.junction[i]));
    }
}

proof fn lemma_link_all_covers(db: DbView, ids: Seq<i64>, list_id: i64)
    ensures
        forall|k: int| 0 <= k < ids.len() ==> linked(link_all(db, ids, list_id), #[trigger] ids[k], list_id),
    decreases ids.len(),
{
    if ids.len() > 0 {
        let t = ids.drop_last();
        let d = link_all(db, t, list_id);
        let d2 = link_all(db, ids, list_id);
        lemma_link_all_covers(db, t, list_id);
        lemma_link_extends(d, ids.last(), list_id);
        assert forall|k: int| 0 <= k < ids.len() implies linked(d2, #[trigger] ids[k], list_id) by {
            if k < ids.len() - 1 {
                assert(ids[k] == t[k]);
                lemma_linked_extends(d, d2, ids[k], list_id);
            } else {
                assert(ids[k] == ids.last());
                if !spec_is_song_in_playlist(d, ids.last(), list_id) {
                    if let Ok(d3) = spec_add_song_to_playlist(d, ids.last(), list_id, None) {
                        let w = d3.junction.len() - 1;
                        assert(row_links(ids.last(), list_id)(d3.junction[w]));
                    }
                }
            }
        }
    }
}

proof fn lemma_rescan_link_all(d: DbView, ids: Seq<i64>, list_id: i64)
    requires
        forall|k: int| 0 <= k < ids.len() ==> linked(d, #[trigger] ids[k], list_id),
    ensures
        link_all(d, ids, list_id) == d,
    decreases ids.len(),
{
    if ids.len() > 0 {
        let t = ids.drop_last();
        assert forall|k: int| 0 <= k < t.len() implies linked(d, #[trigger] t[k], list_id) by {
            assert(t[k] == ids[k]);
        }
        lemma_rescan_link_all(d, t, list_id);
        assert(linked(d, ids[ids.len() - 1], list_id));
    }
}

/// Finishing a directory again, in a database that extends the one the first
/// pass left, changes nothing.
proof fn lemma_rescan_dir_tail(db: DbView, path: Seq<char>, ids: Seq<i64>, d: DbView)
    requires
        extends(dir_tail(db, path, ids), d),
    ensures
        dir_tail(d, path, ids) == d,
{
    if ids.len() > 0 {
        let name = last_component(path);
        let db1 = if spec_is_playlist_unique(db, name) {
            ok_or_keep(spec_add_playlist(db, name, false), db)
        } else {
            db
        };
        let list_id = match spec_get_playlist_by_name(db1, name) {
            Ok(p) => p.list_id,
            Err(_) => 0,
        };
        let d2 = link_all(db1, ids, list_id);
        assert(d2 == dir_tail(db, path, ids));
        lemma_link_all_extends(db1, ids, list_id);
        lemma_extends_trans(db1, d2, d);
        lemma_first_match_facts(db1.playlists, list_has_name(name));
        lemma_first_match_facts(d.playlists, list_has_name(name));
        if spec_is_playlist_unique(db1, name) {
            // the insert failed: the playlist table is full and stays as it is
            if spec_is_playlist_unique(db, name) && db.playlist_seq != i64::MAX {
                assert(db1.playlists[db1.playlists.len() - 1].list_name == name);
            }
            if !spec_is_playlist_unique(db, name) {
                let i = choose|i: int| 0 <= i < db.playlists.len() && db.playlists[i].list_name == name;
                assert(db1.playlists[i] == db.playlists[i]);
            }
            assert(db1 == db);
            assert(db.playlist_seq == i64::MAX);
            assert(d.playlists == db1.playlists);
            assert(spec_add_playlist(d, name, false) is Err);
        } else {
            let i = choose|i: int| 0 <= i < db1.playlists.len() && db1.playlists[i].list_name == name;
            assert(d.playlists[i] == db1.playlists[i]);
            assert(list_has_name(name)(db1.playlists[i]));
            lemma_first_match_prefix(db1.playlists, d.playlists, list_has_name(name));
        }
        let d1 = if spec_is_playlist_unique(d, name) {
            ok_or_keep(spec_add_playlist(d, name, false), d)
        } else {
            d
        };
        assert(d1 == d);
        lemma_link_all_covers(db1, ids, list_id);
        assert forall|k: int| 0 <= k < ids.len() implies linked(d, #[trigger] ids[k], list_id) by {
            lemma_linked_extends(d2, d, ids[k], list_id);
        }
        lemma_rescan_link_all(d, ids, list_id);
    }
}

proof fn lemma_rescan_entry(db: DbView, e: DirEntry, d: DbView)
    requires
        extends(scan_entry(db, e).0, d),
    ensures
        scan_entry(d, e) == (d, scan_entry(db, e).1),
    decreases e,
{
    match e {
        DirEntry::Dir { path, entries } => {
            let r = scan_list(db, entries@);
            lemma_dir_tail_extends(r.db, path@, ids_of(r.out));
            lemma_extends_trans(r.db, scan_entry(db, e).0, d);
            lemma_rescan_list(db, entries@, d);
            lemma_rescan_dir_tail(r.db, path@, ids_of(r.out), d);
        },
        DirEntry::File { path } => {
            lemma_rescan_file(db, path@, d);
        },
        DirEntry::Unreadable => {},
    }
}

proof fn lemma_rescan_list(db: DbView, es: Seq<DirEntry>, d: DbView)
    requires
        extends(scan_list(db, es).db, d),
    ensures
        scan_list(d, es) == (Scan { db: d, out: scan_list(db, es).out }),
    decreases es,
{
    if es.len() > 0 {
        let t = es.drop_last();
        let r = scan_list(db, t);
        lemma_scan_step_extends(db, es);
        lemma_extends_trans(r.db, scan_list(db, es).db, d);
        lemma_rescan_list(db, t, d);
        if r.out is Ok {
            lemma_rescan_entry(r.db, es.last(), d);
        }
    }
}

/// Scanning the same listing a second time changes nothing: the database the
/// first scan left stays as it is, and the outcome is the same.
pub proof fn law_rescan_changes_nothing(db: DbView, es: Seq<DirEntry>)
    ensures
        scan_list(scan_list(db, es).db, es) == (Scan { db: scan_list(db, es).db, out: scan_list(db, es).out }),
{
    lemma_extends_refl(scan_list(db, es).db);
    lemma_rescan_list(db, es, scan_list(db, es).db);
}

// ---------------------------------------------------------------------------
// Albums
// ---------------------------------------------------------------------------

/// The entry is the music file at `p`.
pub open spec fn music_file_at(e: DirEntry, p: Seq<char>) -> bool {
    e matches DirEntry::File { path } && path@ == p && is_mp3(p)
}

/// The listing holds the music file at `p` directly.
pub open spec fn direct_music(es: Seq<DirEntry>, p: Seq<char>) -> bool {
    exists|i: int| 0 <= i < es.len() && #[trigger] music_file_at(es[i], p)
}

/// The entry is, or holds below it, a directory named `nm` that directly holds
/// the music file at `p`.
pub open spec fn album_track_in_entry(e: DirEntry, nm: Seq<char>, p: Seq<char>) -> bool
    decreases e,
{
    match e {
        DirEntry::Dir { path, entries } => (last_component(path@) == nm && direct_music(entries@, p))
            || album_track_in_list(entries@, nm, p),
        _ => false,
    }
}

/// The listing holds, at some depth, a directory named `nm` that directly holds
/// the music file at `p`.
pub open spec fn album_track_in_list(es: Seq<DirEntry>, nm: Seq<char>, p: Seq<char>) -> bool
    decreases es,
{
    es.len() > 0 && (album_track_in_list(es.drop_last(), nm, p) || album_track_in_entry(es.last(), nm, p))
}

/// The id of the first song with path `p`; 0 when there is none.
pub open spec fn song_id_at(db: DbView, p: Seq<char>) -> i64 {
    match spec_get_song_by_path(db, p) {
        Ok(s) => s.song_id,
        Err(_) => 0,
    }
}

/// The first song with path `p` stands in the first playlist named `nm`.
pub open spec fn in_album(db: DbView, nm: Seq<char>, p: Seq<char>) -> bool {
    match (spec_get_song_by_path(db, p), spec_get_playlist_by_name(db, nm)) {
        (Ok(s), Ok(l)) => spec_is_song_in_playlist(db, s.song_id, l.list_id),
        _ => false,
    }
}

proof fn lemma_song_lookup_extends(a: DbView, b: DbView, p: Seq<char>)
    requires
        extends(a, b),
        spec_get_song_by_path(a, p) is Ok,
    ensures
        spec_get_song_by_path(b, p) == spec_get_song_by_path(a, p),
{
    lemma_first_match_prefix(a.songs, b.songs, song_has_path(p));
    lemma_first_match_facts(a.songs, song_has_path(p));
    let i = first_match(a.songs, song_has_path(p)).unwrap();
    assert(b.songs[i] == a.songs[i]);
}

proof fn lemma_list_lookup_extends(a: DbView, b: DbView, nm: Seq<char>)
    requires
        extends(a, b),
        spec_get_playlist_by_name(a, nm) is Ok,
    ensures
        spec_get_playlist_by_name(b, nm) == spec_get_playlist_by_name(a, nm),
{
    lemma_first_match_prefix(a.playlists, b.playlists, list_has_name(nm));
    lemma_first_match_facts(a.playlists, list_has_name(nm));
    let i = first_match(a.playlists, list_has_name(nm)).unwrap();
    assert(b.playlists[i] == a.playlists[i]);
}

proof fn lemma_member_extends(a: DbView, b: DbView, song_id: i64, list_id: i64)
    requires
        extends(a, b),
        spec_is_song_in_playlist(a, song_id, list_id),
    ensures
        spec_is_song_in_playlist(b, song_id, list_id),
{
    let i = choose|i: int| 0 <= i < a.junction.len() && #[trigger] row_links(song_id, list_id)(a.junction[i]);
    assert(b.junction[i] == a.junction[i]);
    assert(row_links(song_id, list_id)(b.junction[i]));
}

proof fn lemma_in_album_extends(a: DbView, b: DbView, nm: Seq<char>, p: Seq<char>)
    requires
        extends(a, b),
        in_album(a, nm, p),
    ensures
        in_album(b, nm, p),
{
    lemma_song_lookup_extends(a, b, p);
    lemma_list_lookup_extends(a, b, nm);
    let s = spec_get_song_by_path(a, p).unwrap();
    let l = spec_get_playlist_by_name(a, nm).unwrap();
    lemma_member_extends(a, b, s.song_id, l.list_id);
}

// ---------------------------------------------------------------------------
// Scans whose inserts all succeed
// ---------------------------------------------------------------------------

/// Adding the music file, when the scan adds it, finds room in the songs table.
pub open spec fn file_clean(db: DbView, path: Seq<char>) -> bool {
    is_mp3(path) && spec_is_path_unique(db, path) ==> db.song_seq < i64::MAX
}

/// Putting the song into the playlist, when the scan does, finds room for
/// the row and for its position.
pub open spec fn link_fits(db: DbView, song_id: i64, list_id: i64) -> bool {
    !spec_is_song_in_playlist(db, song_id, list_id) ==> next_row_id(db.junction) is Some
        && next_pos(db, list_id) <= i64::MAX
}

/// Every insert of `link_all` succeeds.
pub open spec fn links_clean(db: DbView, ids: Seq<i64>, list_id: i64) -> bool
    decreases ids.len(),
{
    ids.len() == 0 || (links_clean(db, ids.drop_last(), list_id)
        && link_fits(link_all(db, ids.drop_last(), list_id), ids.last(), list_id))
}

/// The playlist `dir_tail` picks for a directory named `name`, once it made
/// sure one exists.
pub open spec fn album_db(db: DbView, name: Seq<char>) -> DbView {
    if spec_is_playlist_unique(db, name) {
        ok_or_keep(spec_add_playlist(db, name, false), db)
    } else {
        db
    }
}

pub open spec fn album_id(db: DbView, name: Seq<char>) -> i64 {
    match spec_get_playlist_by_name(album_db(db, name), name) {
        Ok(p) => p.list_id,
        Err(_) => 0,
    }
}

/// Every insert of `dir_tail` succeeds.
pub open spec fn tail_clean(db: DbView, path: Seq<char>, ids: Seq<i64>) -> bool {
    ids.len() > 0 ==> {
        let name = last_component(path);
        &&& spec_is_playlist_unique(db, name) ==> db.playlist_seq < i64::MAX
        &&& links_clean(album_db(db, name), ids, album_id(db, name))
    }
}

/// Every insert the scan of the entry makes succeeds.
pub open spec fn entry_clean(db: DbView, e: DirEntry) -> bool
    decreases e,
{
    match e {
        DirEntry::Dir { path, entries } => list_clean(db, entries@) && tail_clean(
            scan_list(db, entries@).db,
            path@,
            ids_of(scan_list(db, entries@).out),
        ),
        DirEntry::File { path } => file_clean(db, path@),
        DirEntry::Unreadable => true,
    }
}

/// Every insert the scan of the listing makes succeeds: songs, playlists and
/// junction rows find a free id, and appended positions stay within `i64`.
pub open spec fn list_clean(db: DbView, es: Seq<DirEntry>) -> bool
    decreases es,
{
    es.len() == 0 || (list_clean(db, es.drop_last()) && (scan_list(db, es.drop_last()).out is Ok
        ==> entry_clean(scan_list(db, es.drop_last()).db, es.last())))
}

proof fn lemma_dir_tail_is(db: DbView, path: Seq<char>, ids: Seq<i64>)
    requires
        ids.len() > 0,
    ensures
        dir_tail(db, path, ids) == link_all(album_db(db, last_component(path)), ids, album_id(db, last_component(path))),
{
}

proof fn lemma_links_clean_prefix(db: DbView, ids: Seq<i64>, list_id: i64, k: int)
    requires
        links_clean(db, ids, list_id),
        0 <= k <= ids.len(),
    ensures
        links_clean(db, ids.take(k), list_id),
    decreases ids.len(),
{
    if k < ids.len() {
        assert(ids.drop_last().take(k) =~= ids.take(k));
        lemma_links_clean_prefix(db, ids.drop_last(), list_id, k);
    } else {
        assert(ids.take(k) =~= ids);
    }
}

proof fn lemma_list_clean_prefix(db: DbView, es: Seq<DirEntry>, k: int)
    requires
        list_clean(db, es),
        0 <= k <= es.len(),
    ensures
        list_clean(db, es.take(k)),
    decreases es.len(),
{
    if k < es.len() {
        assert(es.drop_last().take(k) =~= es.take(k));
        lemma_list_clean_prefix(db, es.drop_last(), k);
    } else {
        assert(es.take(k) =~= es);
    }
}

/// Once a scan has stopped, the rest of the listing adds nothing to check.
proof fn lemma_clean_after_stop(db: DbView, es: Seq<DirEntry>, k: int, j: int)
    requires
        0 <= k <= j <= es.len(),
        scan_list(db, es.take(k)).out is Err,
        list_clean(db, es.take(k)),
    ensures
        list_clean(db, es.take(j)),
    decreases j - k,
{
    if j > k {
        lemma_clean_after_stop(db, es, k, j - 1);
        assert(es.take(j).drop_last() =~= es.take(j - 1));
        lemma_scan_stops(db, es, k, j - 1);
    }
}

/// With every insert succeeding, each song of `ids` stands in the playlist
/// afterwards.
proof fn lemma_links_members(db: DbView, ids: Seq<i64>, list_id: i64)
    requires
        links_clean(db, ids, list_id),
    ensures
        forall|k: int| 0 <= k < ids.len() ==> spec_is_song_in_playlist(link_all(db, ids, list_id), #[trigger] ids[k], list_id),
    decreases ids.len(),
{
    if ids.len() > 0 {
        let t = ids.drop_last();
        let d = link_all(db, t, list_id);
        let d2 = link_all(db, ids, list_id);
        lemma_links_members(db, t, list_id);
        lemma_link_extends(d, ids.last(), list_id);
        assert forall|k: int| 0 <= k < ids.len() implies spec_is_song_in_playlist(d2, #[trigger] ids[k], list_id) by {
            if k < ids.len() - 1 {
                assert(ids[k] == t[k]);
                lemma_member_extends(d, d2, ids[k], list_id);
            } else {
                assert(ids[k] == ids.last());
                if !spec_is_song_in_playlist(d, ids.last(), list_id) {
                    let w = d2.junction.len() - 1;
                    assert(row_links(ids.last(), list_id)(d2.junction[w]));
                }
            }
        }
    }
}

/// In a database where every song of `ids` stands in the playlist, linking
/// them again needs no insert.
proof fn lemma_links_clean_again(d: DbView, ids: Seq<i64>, list_id: i64)
    requires
        forall|k: int| 0 <= k < ids.len() ==> spec_is_song_in_playlist(d, #[trigger] ids[k], list_id),
    ensures
        links_clean(d, ids, list_id),
    decreases ids.len(),
{
    if ids.len() > 0 {
        let t = ids.drop_last();
        assert forall|k: int| 0 <= k < t.len() implies spec_is_song_in_playlist(d, #[trigger] t[k], list_id) by {
            assert(t[k] == ids[k]);
        }
        lemma_links_clean_again(d, t, list_id);
        assert forall|k: int| 0 <= k < t.len() implies linked(d, #[trigger] t[k], list_id) by {}
        lemma_rescan_link_all(d, t, list_id);
        assert(spec_is_song_in_playlist(d, ids[ids.len() - 1], list_id));
    }
}

proof fn lemma_rescan_clean_entry(db: DbView, e: DirEntry, d: DbView)
    requires
        entry_clean(db, e),
        extends(scan_entry(db, e).0, d),
    ensures
        entry_clean(d, e),
    decreases e,
{
    match e {
        DirEntry::Dir { path, entries } => {
            let r = scan_list(db, entries@);
            let ids = ids_of(r.out);
            lemma_dir_tail_extends(r.db, path@, ids);
            lemma_extends_trans(r.db, scan_entry(db, e).0, d);
            lemma_rescan_clean_list(db, entries@, d);
            lemma_rescan_list(db, entries@, d);
            if ids.len() > 0 {
                let name = last_component(path@);
                let db1 = album_db(r.db, name);
                let l = album_id(r.db, name);
                let d2 = link_all(db1, ids, l);
                lemma_dir_tail_is(r.db, path@, ids);
                lemma_add_playlist_extends(r.db, name, false);
                lemma_link_all_extends(db1, ids, l);
                lemma_extends_trans(db1, d2, d);
                // the playlist of that name stands in db1, so in d, first at the same place
                lemma_first_match_facts(db1.playlists, list_has_name(name));
                if spec_is_playlist_unique(r.db, name) {
                    assert(db1.playlists[db1.playlists.len() - 1].list_name == name);
                    assert(list_has_name(name)(db1.playlists[db1.playlists.len() - 1]));
                } else {
                    let i = choose|i: int| 0 <= i < r.db.playlists.len() && r.db.playlists[i].list_name == name;
                    assert(db1.playlists[i] == r.db.playlists[i]);
                    assert(list_has_name(name)(db1.playlists[i]));
                }
                lemma_list_lookup_extends(db1, d, name);
                let i = first_match(db1.playlists, list_has_name(name)).unwrap();
                assert(d.playlists[i] == db1.playlists[i]);
                assert(!spec_is_playlist_unique(d, name));
                assert(album_db(d, name) == d);
                assert(album_id(d, name) == l);
                lemma_links_members(db1, ids, l);
                assert forall|k: int| 0 <= k < ids.len() implies spec_is_song_in_playlist(d, #[trigger] ids[k], l) by {
                    lemma_member_extends(d2, d, ids[k], l);
                }
                lemma_links_clean_again(d, ids, l);
            }
        },
        DirEntry::File { path } => {
            let db1 = scan_file(db, path@).0;
            lemma_scan_file_extends(db, path@);
            if is_mp3(path@) {
                if spec_is_path_unique(db, path@) {
                    assert(db1.songs[db1.songs.len() - 1].path == path@);
                    assert(d.songs[db1.songs.len() - 1] == db1.songs[db1.songs.len() - 1]);
                } else {
                    let i = choose|i: int| 0 <= i < db.songs.len() && db.songs[i].path == path@;
                    assert(db1.songs[i] == db.songs[i]);
                    assert(d.songs[i] == db1.songs[i]);
                }
            }
        },
        DirEntry::Unreadable => {},
    }
}

proof fn lemma_rescan_clean_list(db: DbView, es: Seq<DirEntry>, d: DbView)
    requires
        list_clean(db, es),
        extends(scan_list(db, es).db, d),
    ensures
        list_clean(d, es),
    decreases es,
{
    if es.len() > 0 {
        let t = es.drop_last();
        let r = scan_list(db, t);
        lemma_scan_step_extends(db, es);
        lemma_extends_trans(r.db, scan_list(db, es).db, d);
        lemma_rescan_clean_list(db, t, d);
        lemma_rescan_list(db, t, d);
        if r.out is Ok {
            lemma_rescan_clean_entry(r.db, es.last(), d);
        }
    }
}

/// A scan whose inserts all succeed leaves a database in which scanning the
/// same listing again has nothing to insert: a second `update_songs` on the
/// same listing is allowed, and by `law_rescan_changes_nothing` it changes
/// nothing.
pub proof fn law_rescan_is_clean(db: DbView, es: Seq<DirEntry>)
    requires
        list_clean(db, es),
    ensures
        list_clean(scan_list(db, es).db, es),
{
    lemma_extends_refl(scan_list(db, es).db);
    lemma_rescan_clean_list(db, es, scan_list(db, es).db);
}

// ---------------------------------------------------------------------------
// Scanning
// ---------------------------------------------------------------------------

/// Scans one file; see `scan_file`.  `None` when the songs table has no
/// free id for a file the scan would add; the database is then unchanged.
fn scan_one_file(db: &mut MusicDb, path: &String) -> (r: Option<Option<i64>>)
    requires
        old(db)@.wf(),
    ensures
        final(db)@.wf(),
        r is None <==> !file_clean(old(db)@, path@),
        r is None ==> final(db)@ == old(db)@,
        r matches Some(found) ==> {
            &&& (final(db)@, found) == scan_file(old(db)@, path@)
            &&& found is None ==> final(db)@ == old(db)@
            &&& found is Some <==> is_mp3(path@)
            &&& is_mp3(path@) ==> !spec_is_path_unique(final(db)@, path@)
        },
        grows(old(db)@, final(db)@),
        final(db)@.playlists == old(db)@.playlists,
{
    let name = file_name_of(path.as_str());
    let ext = extension_from(name.as_str());
    let is_music = match ext {
        Some(e) => e == String::from_str("mp3"),
        None => false,
    };
    proof {
        reveal_strlit("mp3");
        assert("mp3"@ =~= mp3());
    }
    if !is_music {
        return Some(None);
    }
    let song = Song { song_id: 0, song_name: name, path: path.clone() };
    let ghost before = db@;
    if is_path_unique(db, path.as_str()) {
        if db.song_seq() == i64::MAX {
            return None;
        }
        proof { law_add_song_read_back(db@, song.song_name@, song.path@); }
        let _ = add_song(db, &song);
        proof {
            assert forall|i: int| 0 <= i < before.songs.len() implies #[trigger] db@.songs[i] == before.songs[i] by {}
        }
    }
    let id = match get_song_by_path(db, path.as_str()) {
        Ok(s) => s.song_id,
        Err(_) => 0,
    };
    Some(Some(id))
}

/// Whether a junction row can still get an id.
fn row_id_free(db: &MusicDb) -> (r: bool)
    ensures
        r == (next_row_id(db@.junction) is Some),
{
    let rows = db.junction_table();
    if rows.len() == 0 {
        true
    } else {
        assert(rows@[rows@.len() - 1] == rows@.last());
        rows[rows.len() - 1].id != i64::MAX
    }
}

/// Adds each song of `ids` to the playlist unless it stands there; see
/// `link_all`.  False when an insert would find no free row id or position;
/// the database is then well formed but otherwise unspecified.
fn link_songs(db: &mut MusicDb, ids: &Vec<i64>, list_id: i64) -> (ok: bool)
    requires
        old(db)@.wf(),
    ensures
        final(db)@.wf(),
        ok == links_clean(old(db)@, ids@, list_id),
        ok ==> {
            &&& final(db)@ == link_all(old(db)@, ids@, list_id)
            &&& final(db)@.songs == old(db)@.songs
            &&& final(db)@.playlists == old(db)@.playlists
            &&& forall|k: int| 0 <= k < ids@.len() ==> spec_is_song_in_playlist(final(db)@, #[trigger] ids@[k], list_id)
        },
{
    let ghost start = db@;
    let mut i: usize = 0;
    assert(ids@.take(0) =~= Seq::<i64>::empty());
    while i < ids.len()
        invariant
            0 <= i <= ids@.len(),
            db@.wf(),
            start == old(db)@,
            db@ == link_all(start, ids@.take(i as int), list_id),
            links_clean(start, ids@.take(i as int), list_id),
            db@.songs == start.songs,
            db@.playlists == start.playlists,
            forall|k: int| 0 <= k < i ==> spec_is_song_in_playlist(db@, #[trigger] ids@[k], list_id),
        decreases ids@.len() - i,
    {
        assert(ids@.take(i + 1).drop_last() =~= ids@.take(i as int));
        assert(ids@.take(i + 1).last() == ids@[i as int]);
        let id = ids[i];
        let ghost before = db@;
        if !is_song_in_playlist(db, &id, &list_id) {
            if !row_id_free(db) || next_position(db, list_id).is_none() {
                proof {
                    assert(!links_clean(start, ids@.take(i + 1), list_id));
                    if links_clean(start, ids@, list_id) {
                        lemma_links_clean_prefix(start, ids@, list_id, i + 1);
                    }
                }
                return false;
            }
            let _ = add_song_to_playlist(db, id, list_id, None);
            proof {
                let w = db@.junction.len() - 1;
                assert(row_links(id, list_id)(db@.junction[w]));
                assert forall|k: int| 0 <= k < i implies spec_is_song_in_playlist(db@, #[trigger] ids@[k], list_id) by {
                    lemma_link_extends(before, id, list_id);
                    lemma_member_extends(before, db@, ids@[k], list_id);
                }
            }
        }
        i = i + 1;
    }
    assert(ids@.take(ids@.len() as int) =~= ids@);
    true
}

/// Finishes a sub-directory whose listing gave `ids`; see `dir_tail`.  False
/// when an insert would find no free id or position; the database is then
/// well formed but otherwise unspecified.
fn finish_dir(db: &mut MusicDb, path: &String, ids: &Vec<i64>) -> (ok: bool)
    requires
        old(db)@.wf(),
    ensures
        final(db)@.wf(),
        ok == tail_clean(old(db)@, path@, ids@),
        ok ==> {
            &&& final(db)@ == dir_tail(old(db)@, path@, ids@)
            &&& grows(old(db)@, final(db)@)
            &&& final(db)@.songs == old(db)@.songs
            &&& ids@.len() > 0 ==> !spec_is_playlist_unique(final(db)@, last_component(path@))
            &&& ids@.len() > 0 ==> (spec_get_playlist_by_name(final(db)@, last_component(path@)) matches Ok(l)
                && forall|k: int| 0 <= k < ids@.len() ==> spec_is_song_in_playlist(final(db)@, #[trigger] ids@[k], l.list_id))
        },
{
    if ids.len() == 0 {
        return true;
    }
    let name = file_name_of(path.as_str());
    let ghost before = db@;
    if is_playlist_unique(db, name.as_str()) {
        if db.playlist_seq() == i64::MAX {
            return false;
        }
        let playlist = Playlist { list_id: 0, list_name: name.clone(), is_user_created: false };
        proof { law_add_playlist_read_back(db@, name@, false); }
        let _ = add_playlist(db, playlist);
    }
    proof {
        assert forall|i: int| 0 <= i < before.playlists.len() implies #[trigger] db@.playlists[i] == before.playlists[i] by {}
        assert(grows(before, db@));
        assert(db@ == album_db(before, name@));
    }
    let list_id = match get_playlist_by_name(db, name.as_str()) {
        Ok(p) => p.list_id,
        Err(_) => 0,
    };
    let ghost mid = db@;
    proof {
        let i = choose|i: int| 0 <= i < mid.playlists.len() && mid.playlists[i].list_name == name@;
        assert(list_has_name(name@)(mid.playlists[i]));
        lemma_first_match_facts(mid.playlists, list_has_name(name@));
        assert(spec_get_playlist_by_name(mid, name@) is Ok);
        assert(list_id == album_id(before, name@));
    }
    let ok = link_songs(db, ids, list_id);
    if !ok {
        return false;
    }
    proof {
        assert(grows(mid, db@));
        lemma_grows_trans(before, mid, db@);
        lemma_grows_keeps(mid, db@);
    }
    true
}

/// Scans a listing; see `scan_list`.  `None` exactly when some insert of the
/// scan would find no free id or position (`list_clean`); the database is
/// then well formed but otherwise unspecified.
fn scan_entries(db: &mut MusicDb, es: &Vec<DirEntry>) -> (res: Option<Result<Vec<i64>, ScanError>>)
    requires
        old(db)@.wf(),
        scannable_list(es@),
    ensures
        final(db)@.wf(),
        res is None <==> !list_clean(old(db)@, es@),
        res matches Some(r) ==> final(db)@ == scan_list(old(db)@, es@).db,
        res matches Some(r) ==> (r matches Ok(ids) ==> scan_list(old(db)@, es@).out == Ok::<Seq<i64>, ScanError>(ids@)),
        res matches Some(r) ==> (r matches Err(e) ==> scan_list(old(db)@, es@).out == Err::<Seq<i64>, ScanError>(e)),
        res matches Some(r) ==> grows(old(db)@, final(db)@),
        res matches Some(Ok(ids)) ==> {
            &&& forall|p: Seq<char>| music_in_list(es@, p) ==> !#[trigger] spec_is_path_unique(final(db)@, p)
            &&& forall|nm: Seq<char>| album_in_list(es@, nm) ==> !#[trigger] spec_is_playlist_unique(final(db)@, nm)
            &&& has_direct_music(es@) ==> ids@.len() > 0
            &&& forall|p: Seq<char>| #[trigger] direct_music(es@, p) ==> spec_get_song_by_path(final(db)@, p) is Ok
                && ids@.contains(song_id_at(final(db)@, p))
            &&& forall|nm: Seq<char>, p: Seq<char>| #[trigger] album_track_in_list(es@, nm, p) ==> in_album(final(db)@, nm, p)
        },
    decreases es@,
{
    let ghost start = db@;
    let mut ids: Vec<i64> = Vec::new();
    let mut i: usize = 0;
    proof {
        assert(es@.take(0) =~= Seq::<DirEntry>::empty());
    }
    while i < es.len()
        invariant
            0 <= i <= es@.len(),
            db@.wf(),
            scannable_list(es@),
            start == old(db)@,
            !has_unreadable(es@.take(i as int)),
            scan_list(start, es@.take(i as int)) == (Scan { db: db@, out: Ok(ids@) }),
            list_clean(start, es@.take(i as int)),
            grows(start, db@),
            forall|p: Seq<char>| music_in_list(es@.take(i as int), p) ==> !#[trigger] spec_is_path_unique(db@, p),
            forall|nm: Seq<char>| album_in_list(es@.take(i as int), nm) ==> !#[trigger] spec_is_playlist_unique(db@, nm),
            has_direct_music(es@.take(i as int)) ==> ids@.len() > 0,
            forall|p: Seq<char>| #[trigger] direct_music(es@.take(i as int), p) ==> spec_get_song_by_path(db@, p) is Ok
                && ids@.contains(song_id_at(db@, p)),
            forall|nm: Seq<char>, p: Seq<char>| #[trigger] album_track_in_list(es@.take(i as int), nm, p) ==> in_album(db@, nm, p),
        decreases es@.len() - i,
    {
        let ghost prefix = es@.take(i as int);
        let ghost db_i = db@;
        let ghost ids_i = ids@;
        proof {
            assert(es@.take(i + 1).drop_last() =~= prefix);
            assert(es@.take(i + 1).last() == es@[i as int]);
            lemma_scannable_at(es@, i as int);
        }
        match &es[i] {
            DirEntry::Unreadable => {
                proof {
                    let (d, step) = scan_entry(db@, es@[i as int]);
                    assert(step is Err);
                    assert(scan_list(start, es@.take(i + 1)) == (Scan { db: db@, out: Err::<Seq<i64>, ScanError>(ScanError::UnreadableEntry) }));
                    lemma_scan_stops(start, es@, i + 1, es@.len() as int);
                    assert(es@.take(es@.len() as int) =~= es@);
                    assert(scan_list(start, es@) == scan_list(start, es@.take(i + 1)));
                    assert(entry_clean(db_i, es@[i as int]));
                    assert(list_clean(start, es@.take(i + 1)));
                    lemma_clean_after_stop(start, es@, i + 1, es@.len() as int);
                }
                return Some(Err(ScanError::UnreadableEntry));
            },
            DirEntry::File { path } => {
                let found = match scan_one_file(db, path) {
                    Some(f) => f,
                    None => {
                        proof {
                            assert(!entry_clean(db_i, es@[i as int]));
                            assert(!list_clean(start, es@.take(i + 1)));
                            if list_clean(start, es@) {
                                lemma_list_clean_prefix(start, es@, i + 1);
                            }
                        }
                        return None;
                    },
                };
                assert(scan_entry(db_i, es@[i as int]) == (db@, Ok::<Option<i64>, ScanError>(found)));
                proof {
                    assert forall|p: Seq<char>| music_in_entry(es@[i as int], p) implies !#[trigger] spec_is_path_unique(db@, p) by {}
                    assert forall|nm: Seq<char>| album_in_entry(es@[i as int], nm) implies !#[trigger] spec_is_playlist_unique(db@, nm) by {}
                }
                proof {
                    lemma_scan_file_extends(db_i, path@);
                    if is_mp3(path@) {
                        let k = choose|k: int| 0 <= k < db@.songs.len() && db@.songs[k].path == path@;
                        assert(song_has_path(path@)(db@.songs[k]));
                        lemma_first_match_facts(db@.songs, song_has_path(path@));
                        assert(spec_get_song_by_path(db@, path@) is Ok);
                        assert(found == Some(song_id_at(db@, path@)));
                    }
                }
                match found {
                    Some(id) => {
                        ids.push(id);
                        proof {
                            assert(ids@[ids@.len() - 1] == id);
                        }
                    },
                    None => {},
                }
                proof {
                    assert(file_clean(db_i, path@));
                    assert forall|p: Seq<char>| music_file_at(es@[i as int], p) implies spec_get_song_by_path(db@, p) is Ok
                        && ids@.contains(song_id_at(db@, p)) by {
                        assert(p == path@);
                    }
                    assert forall|nm: Seq<char>, p: Seq<char>| album_track_in_entry(es@[i as int], nm, p)
                        implies in_album(db@, nm, p) by {}
                }
            },
            DirEntry::Dir { path, entries } => {
                proof {
                    lemma_scan_ok(db@, entries@);
                }
                let inner = scan_entries(db, entries);
                match inner {
                    None => {
                        proof {
                            assert(!entry_clean(db_i, es@[i as int]));
                            assert(!list_clean(start, es@.take(i + 1)));
                            if list_clean(start, es@) {
                                lemma_list_clean_prefix(start, es@, i + 1);
                            }
                        }
                        return None;
                    },
                    Some(Ok(sub)) => {
                        let ghost db_mid = db@;
                        proof { assert(list_clean(db_i, entries@)); }
                        if !finish_dir(db, path, &sub) {
                            proof {
                                assert(!entry_clean(db_i, es@[i as int]));
                                assert(!list_clean(start, es@.take(i + 1)));
                                if list_clean(start, es@) {
                                    lemma_list_clean_prefix(start, es@, i + 1);
                                }
                            }
                            return None;
                        }
                        proof {
                            lemma_grows_trans(db_i, db_mid, db@);
                            lemma_grows_keeps(db_mid, db@);
                            assert forall|p: Seq<char>| music_in_entry(es@[i as int], p) implies !#[trigger] spec_is_path_unique(db@, p) by {
                                assert(!spec_is_path_unique(db_mid, p));
                            }
                            assert forall|nm: Seq<char>| album_in_entry(es@[i as int], nm) implies !#[trigger] spec_is_playlist_unique(db@, nm) by {
                                if album_in_list(entries@, nm) {
                                    assert(!spec_is_playlist_unique(db_mid, nm));
                                } else {
                                    assert(has_direct_music(entries@));
                                    assert(sub@.len() > 0);
                                }
                            }
                        }
                        assert(scan_entry(db_i, es@[i as int]) == (db@, Ok::<Option<i64>, ScanError>(None)));
                        proof {
                            lemma_scan_list_extends(db_i, entries@);
                            lemma_dir_tail_extends(db_mid, path@, sub@);
                            lemma_extends_trans(db_i, db_mid, db@);
                            assert forall|nm: Seq<char>, p: Seq<char>| album_track_in_entry(es@[i as int], nm, p)
                                implies in_album(db@, nm, p) by {
                                if album_track_in_list(entries@, nm, p) {
                                    lemma_in_album_extends(db_mid, db@, nm, p);
                                } else {
                                    assert(direct_music(entries@, p));
                                    assert(last_component(path@) == nm);
                                    let k = choose|k: int| 0 <= k < sub@.len() && sub@[k] == song_id_at(db_mid, p);
                                    assert(spec_is_song_in_playlist(db@, sub@[k], spec_get_playlist_by_name(db@, nm).unwrap().list_id));
                                    lemma_song_lookup_extends(db_mid, db@, p);
                                }
                            }
                        }
                    },
                    Some(Err(_)) => {
                        assert(false);
                    },
                }
            },
        }
        proof {
            assert forall|k: int| 0 <= k < i + 1 implies !(#[trigger] es@.take(i + 1)[k] is Unreadable) by {
                if k < i {
                    assert(es@.take(i + 1)[k] == prefix[k]);
                }
            }
            lemma_grows_trans(start, db_i, db@);
            lemma_grows_keeps(db_i, db@);
            let t = es@.take(i + 1);
            assert(t.drop_last() == prefix);
            assert(t.last() == es@[i as int]);
            assert forall|p: Seq<char>| music_in_list(t, p) implies !#[trigger] spec_is_path_unique(db@, p) by {
                if music_in_list(prefix, p) {
                    assert(!spec_is_path_unique(db_i, p));
                }
            }
            assert forall|nm: Seq<char>| album_in_list(t, nm) implies !#[trigger] spec_is_playlist_unique(db@, nm) by {
                if album_in_list(prefix, nm) {
                    assert(!spec_is_playlist_unique(db_i, nm));
                }
            }
            if has_direct_music(t) {
                let k = choose|k: int| 0 <= k < t.len() && #[trigger] is_music_file(t[k]);
                if k < i {
                    assert(prefix[k] == t[k]);
                    assert(has_direct_music(prefix));
                }
            }
            assert forall|x: i64| ids_i.contains(x) implies ids@.contains(x) by {
                let j = choose|j: int| 0 <= j < ids_i.len() && ids_i[j] == x;
                assert(ids@[j] == ids_i[j]);
            }
            assert forall|p: Seq<char>| #[trigger] direct_music(t, p) implies spec_get_song_by_path(db@, p) is Ok
                && ids@.contains(song_id_at(db@, p)) by {
                let k = choose|k: int| 0 <= k < t.len() && #[trigger] music_file_at(t[k], p);
                if k < i {
                    assert(prefix[k] == t[k]);
                    assert(direct_music(prefix, p));
                    lemma_song_lookup_extends(db_i, db@, p);
                } else {
                    assert(t[k] == es@[i as int]);
                }
            }
            assert forall|nm: Seq<char>, p: Seq<char>| #[trigger] album_track_in_list(t, nm, p) implies in_album(db@, nm, p) by {
                if album_track_in_list(prefix, nm, p) {
                    lemma_in_album_extends(db_i, db@, nm, p);
                } else {
                    assert(album_track_in_entry(es@[i as int], nm, p));
                }
            }
        }
        proof {
            assert(entry_clean(db_i, es@[i as int]));
            assert(list_clean(start, es@.take(i + 1)));
        }
        i = i + 1;
    }
    assert(es@.take(es@.len() as int) =~= es@);
    Some(Ok(ids))
}

/// Scans the listing of the music directory: every music file (extension
/// `mp3`) becomes a song unless one has its path, and every sub-directory that
/// directly holds music files becomes a playlist of them.  Returns the ids of
/// the music files directly in the listing.
pub fn update_songs(db: &mut MusicDb, listing: &Vec<DirEntry>) -> (r: Result<Vec<i64>, ScanError>)
    requires
        old(db)@.wf(),
        scannable_list(listing@),
        list_clean(old(db)@, listing@),
    ensures
        final(db)@.wf(),
        final(db)@ == scan_list(old(db)@, listing@).db,
        r matches Ok(ids) ==> scan_list(old(db)@, listing@).out == Ok::<Seq<i64>, ScanError>(ids@),
        r matches Err(e) ==> scan_list(old(db)@, listing@).out == Err::<Seq<i64>, ScanError>(e),
        grows(old(db)@, final(db)@),
        r is Ok ==> forall|p: Seq<char>| music_in_list(listing@, p) ==> !#[trigger] spec_is_path_unique(final(db)@, p),
        r is Ok ==> forall|nm: Seq<char>| album_in_list(listing@, nm) ==> !#[trigger] spec_is_playlist_unique(final(db)@, nm),
        r matches Ok(ids) ==> forall|p: Seq<char>| #[trigger] direct_music(listing@, p)
            ==> spec_get_song_by_path(final(db)@, p) is Ok && ids@.contains(song_id_at(final(db)@, p)),
        r is Ok ==> forall|nm: Seq<char>, p: Seq<char>| #[trigger] album_track_in_list(listing@, nm, p) ==> in_album(final(db)@, nm, p),
{
    match scan_entries(db, listing) {
        Some(r) => r,
        None => {
            proof { assert(false); }
            Ok(Vec::new())
        },
    }
}

/// Scans nothing: a placeholder of the player's file service that does no work.
pub fn extract_songs() {
}

// ---------------------------------------------------------------------------
// Testing whether a scan can run
// ---------------------------------------------------------------------------

fn any_unreadable(es: &Vec<DirEntry>) -> (r: bool)
    ensures
        r == has_unreadable(es@),
{
    let mut i: usize = 0;
    while i < es.len()
        invariant
            0 <= i <= es@.len(),
            forall|k: int| 0 <= k < i ==> !(#[trigger] es@[k] is Unreadable),
        decreases es@.len() - i,
    {
        if let DirEntry::Unreadable = &es[i] {
            assert(es@[i as int] is Unreadable);
            return true;
        }
        i = i + 1;
    }
    false
}

/// A listing whose scan reads only entries it can handle has prefixes that do
/// the same.
proof fn lemma_scannable_prefix(es: Seq<DirEntry>, k: int)
    requires
        0 <= k <= es.len(),
        scannable_list(es),
    ensures
        scannable_list(es.take(k)),
    decreases es.len() - k,
{
    if k < es.len() {
        let t = es.drop_last();
        assert(t.take(k) =~= es.take(k));
        lemma_scannable_prefix_drop(es);
        lemma_scannable_prefix(t, k);
    } else {
        assert(es.take(k) =~= es);
    }
}

proof fn lemma_scannable_prefix_drop(es: Seq<DirEntry>)
    requires
        es.len() > 0,
        scannable_list(es),
    ensures
        scannable_list(es.drop_last()),
{
}

/// Whether one entry, reached by the scan, can be handled.
fn entry_scannable(e: &DirEntry) -> (r: bool)
    ensures
        r == scannable_entry(*e),
    decreases *e,
{
    match e {
        DirEntry::Dir { entries, .. } => !any_unreadable(entries) && is_scannable(entries),
        DirEntry::File { path } => {
            let name = file_name_of(path.as_str());
            extension_from(name.as_str()).is_some()
        },
        DirEntry::Unreadable => true,
    }
}

/// Whether a scan of the listing reads only entries it can handle; see
/// `scannable_list`.
pub fn is_scannable(es: &Vec<DirEntry>) -> (r: bool)
    ensures
        r == scannable_list(es@),
    decreases es@,
{
    let mut i: usize = 0;
    let mut seen_unreadable = false;
    assert(es@.take(0) =~= Seq::<DirEntry>::empty());
    while i < es.len()
        invariant
            0 <= i <= es@.len(),
            scannable_list(es@.take(i as int)),
            seen_unreadable == has_unreadable(es@.take(i as int)),
        decreases es@.len() - i,
    {
        let ghost prefix = es@.take(i as int);
        let ghost t = es@.take(i + 1);
        assert(t.drop_last() =~= prefix);
        assert(t.last() == es@[i as int]);
        if !seen_unreadable {
            let ok = entry_scannable(&es[i]);
            if !ok {
                proof {
                    assert(!scannable_list(t));
                    if scannable_list(es@) {
                        lemma_scannable_prefix(es@, i + 1);
                    }
                }
                return false;
            }
        }
        let now = match &es[i] {
            DirEntry::Unreadable => true,
            _ => false,
        };
        proof {
            if has_unreadable(t) && !has_unreadable(prefix) {
                let k = choose|k: int| 0 <= k < t.len() && #[trigger] t[k] is Unreadable;
                if k < i {
                    assert(prefix[k] == t[k]);
                }
            }
            if has_unreadable(prefix) {
                let k = choose|k: int| 0 <= k < prefix.len() && #[trigger] prefix[k] is Unreadable;
                assert(t[k] == prefix[k]);
            }
            if now {
                assert(t[i as int] is Unreadable);
            }
            assert(scannable_list(t));
        }
        seen_unreadable = seen_unreadable || now;
        i = i + 1;
    }
    assert(es@.take(es@.len() as int) =~= es@);
    true
}

/// Whether the listing can be scanned into the database: the scan reads only
/// entries it can handle, and every insert it makes finds a free id and
/// position.  The scan is tried on a copy of the database.
pub fn scan_ready(db: &MusicDb, listing: &Vec<DirEntry>) -> (r: bool)
    requires
        db@.wf(),
    ensures
        r == (scannable_list(listing@) && list_clean(db@, listing@)),
{
    if !is_scannable(listing) {
        return false;
    }
    let mut copy = db.duplicate();
    scan_entries(&mut copy, listing).is_some()
}

} // verus!
