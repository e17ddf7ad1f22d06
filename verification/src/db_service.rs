use vstd::prelude::*;

verus! {

// ---------------------------------------------------------------------------
// Rows and their views
// ---------------------------------------------------------------------------

/// A row of the `songs` table.
#[derive(Debug)]
pub struct Song {
    pub song_id: i64,
    pub song_name: String,
    pub path: String,
}

/// The mathematical value of a `Song`.
pub struct SongView {
    pub song_id: i64,
    pub song_name: Seq<char>,
    pub path: Seq<char>,
}

impl View for Song {
    type V = SongView;

    open spec fn view(&self) -> SongView {
        SongView { song_id: self.song_id, song_name: self.song_name@, path: self.path@ }
    }
}

impl Song {
    /// A copy of the song.
    pub fn duplicate(&self) -> (r: Song)
        ensures
            r@ == self@,
    {
        Song { song_id: self.song_id, song_name: self.song_name.clone(), path: self.path.clone() }
    }
}

/// A playlist as the queries hand it out.
#[derive(Debug)]
pub struct Playlist {
    pub list_id: i64,
    pub list_name: String,
    pub is_user_created: bool,
}

pub struct PlaylistView {
    pub list_id: i64,
    pub list_name: Seq<char>,
    pub is_user_created: bool,
}

impl View for Playlist {
    type V = PlaylistView;

    open spec fn view(&self) -> PlaylistView {
        PlaylistView {
            list_id: self.list_id,
            list_name: self.list_name@,
            is_user_created: self.is_user_created,
        }
    }
}

impl Default for Playlist {
    fn default() -> (r: Playlist)
        ensures
            r.list_id == 0,
            r.list_name@ == Seq::<char>::empty(),
            !r.is_user_created,
    {
        Playlist { list_id: 0, list_name: String::new(), is_user_created: false }
    }
}

/// A row of the `playlist` table, as stored: the flag column is an integer.
#[derive(Debug)]
pub struct PlaylistRow {
    pub list_id: i64,
    pub list_name: String,
    pub is_user_created: i64,
}

pub struct PlaylistRowView {
    pub list_id: i64,
    pub list_name: Seq<char>,
    pub is_user_created: i64,
}

impl View for PlaylistRow {
    type V = PlaylistRowView;

    open spec fn view(&self) -> PlaylistRowView {
        PlaylistRowView {
            list_id: self.list_id,
            list_name: self.list_name@,
            is_user_created: self.is_user_created,
        }
    }
}

/// A row of the `song_playlist_junction` table: song `song_id` stands in
/// playlist `playlist_id` at position `playlist_pos`, which may be NULL
/// (`None`) in a table written by another program.
#[derive(Clone, Copy, Debug, PartialEq, Eq, Structural)]
pub struct JunctionRow {
    pub id: i64,
    pub song_id: i64,
    pub playlist_id: i64,
    pub playlist_pos: Option<i64>,
}

/// Errors of the database operations.
#[derive(Debug, PartialEq, Eq, Structural)]
pub enum DbError {
    /// No song matches the query.
    SongNotFound,
    /// No playlist matches the query.
    PlaylistNotFound,
    /// The song stands in no playlist.
    PositionNotFound,
    /// No further row id can be handed out.
    Full,
}

// ---------------------------------------------------------------------------
// The database and its view
// ---------------------------------------------------------------------------

/// The three tables of the player's database, each in row-id order, and the
/// last row ids handed out by the two auto-incrementing tables.
#[derive(Debug)]
pub struct MusicDb {
    songs: Vec<Song>,
    playlists: Vec<PlaylistRow>,
    junction: Vec<JunctionRow>,
    song_seq: i64,
    playlist_seq: i64,
}

pub struct DbView {
    pub songs: Seq<SongView>,
    pub playlists: Seq<PlaylistRowView>,
    pub junction: Seq<JunctionRow>,
    pub song_seq: i64,
    pub playlist_seq: i64,
}

pub open spec fn songs_view(v: Seq<Song>) -> Seq<SongView> {
    v.map_values(|s: Song| s@)
}

pub open spec fn playlists_view(v: Seq<PlaylistRow>) -> Seq<PlaylistRowView> {
    v.map_values(|p: PlaylistRow| p@)
}

impl View for MusicDb {
    type V = DbView;

    closed spec fn view(&self) -> DbView {
        DbView {
            songs: songs_view(self.songs@),
            playlists: playlists_view(self.playlists@),
            junction: self.junction@,
            song_seq: self.song_seq,
            playlist_seq: self.playlist_seq,
        }
    }
}

/// Row ids of an auto-incrementing table: positive, strictly increasing in
/// table order, and never above the last id handed out.
pub open spec fn autoinc_ids_ok(ids: Seq<i64>, seq: i64) -> bool {
    &&& seq >= 0
    &&& forall|i: int| 0 <= i < ids.len() ==> 1 <= #[trigger] ids[i] <= seq
    &&& forall|i: int, j: int| 0 <= i < j < ids.len() ==> ids[i] < ids[j]
}

pub open spec fn song_ids(s: Seq<SongView>) -> Seq<i64> {
    s.map_values(|x: SongView| x.song_id)
}

pub open spec fn playlist_ids(s: Seq<PlaylistRowView>) -> Seq<i64> {
    s.map_values(|x: PlaylistRowView| x.list_id)
}

/// Junction rows are in strictly increasing id order.
pub open spec fn junction_ids_increasing(s: Seq<JunctionRow>) -> bool {
    forall|i: int, j: int| 0 <= i < j < s.len() ==> s[i].id < s[j].id
}

impl DbView {
    pub open spec fn song_ids(self) -> Seq<i64> {
        song_ids(self.songs)
    }

    pub open spec fn playlist_ids(self) -> Seq<i64> {
        playlist_ids(self.playlists)
    }

    /// The tables are in row-id order and the ids are unique.
    pub open spec fn wf(self) -> bool {
        &&& autoinc_ids_ok(self.song_ids(), self.song_seq)
        &&& autoinc_ids_ok(self.playlist_ids(), self.playlist_seq)
        &&& junction_ids_increasing(self.junction)
    }
}

// ---------------------------------------------------------------------------
// First match
// ---------------------------------------------------------------------------

/// The index of the first element of `s` that satisfies `p`.
pub open spec fn first_match<T>(s: Seq<T>, p: spec_fn(T) -> bool) -> Option<int>
    decreases s.len(),
{
    if s.len() == 0 {
        None
    } else if p(s[0]) {
        Some(0)
    } else {
        match first_match(s.drop_first(), p) {
            Some(i) => Some(i + 1),
            None => None,
        }
    }
}

/// A scan that found no match before `i` finds the first match at `i`, or none
/// when it reaches the end.
pub proof fn lemma_first_match<T>(s: Seq<T>, p: spec_fn(T) -> bool, i: int)
    requires
        0 <= i <= s.len(),
        forall|j: int| 0 <= j < i ==> !p(#[trigger] s[j]),
    ensures
        i < s.len() && p(s[i]) ==> first_match(s, p) == Some(i),
        i == s.len() ==> first_match(s, p) is None,
    decreases i,
{
    if i > 0 {
        let t = s.drop_first();
        assert forall|j: int| 0 <= j < i - 1 implies !p(#[trigger] t[j]) by {
            assert(t[j] == s[j + 1]);
        }
        lemma_first_match(t, p, i - 1);
    }
}

/// What `first_match` returns is a match, and nothing before it is.
pub proof fn lemma_first_match_facts<T>(s: Seq<T>, p: spec_fn(T) -> bool)
    ensures
        first_match(s, p) matches Some(i) ==> {
            &&& 0 <= i < s.len()
            &&& p(s[i])
            &&& forall|j: int| 0 <= j < i ==> !p(#[trigger] s[j])
        },
        first_match(s, p) is None ==> forall|j: int| 0 <= j < s.len() ==> !p(#[trigger] s[j]),
    decreases s.len(),
{
    if s.len() > 0 {
        let t = s.drop_first();
        lemma_first_match_facts(t, p);
        if !p(s[0]) {
            match first_match(t, p) {
                Some(k) => {
                    assert forall|j: int| 0 <= j < k + 1 implies !p(#[trigger] s[j]) by {
                        if j > 0 {
                            assert(s[j] == t[j - 1]);
                        }
                    }
                },
                None => {
                    assert forall|j: int| 0 <= j < s.len() implies !p(#[trigger] s[j]) by {
                        if j > 0 {
                            assert(s[j] == t[j - 1]);
                        }
                    }
                },
            }
        }
    }
}

// ---------------------------------------------------------------------------
// Predicates on rows
// ---------------------------------------------------------------------------

pub open spec fn song_has_id(id: i64) -> spec_fn(SongView) -> bool {
    |s: SongView| s.song_id == id
}

pub open spec fn song_has_name(name: Seq<char>) -> spec_fn(SongView) -> bool {
    |s: SongView| s.song_name == name
}

pub open spec fn song_has_path(p: Seq<char>) -> spec_fn(SongView) -> bool {
    |s: SongView| s.path == p
}

pub open spec fn list_has_name(name: Seq<char>) -> spec_fn(PlaylistRowView) -> bool {
    |p: PlaylistRowView| p.list_name == name
}

pub open spec fn list_has_id(id: i64) -> spec_fn(PlaylistRowView) -> bool {
    |p: PlaylistRowView| p.list_id == id
}

pub open spec fn row_of_song(song_id: i64) -> spec_fn(JunctionRow) -> bool {
    |r: JunctionRow| r.song_id == song_id
}

pub open spec fn row_of_list(list_id: i64) -> spec_fn(JunctionRow) -> bool {
    |r: JunctionRow| r.playlist_id == list_id
}

pub open spec fn row_at(pos: i64, list_id: i64) -> spec_fn(JunctionRow) -> bool {
    |r: JunctionRow| r.playlist_pos == Some(pos) && r.playlist_id == list_id
}

pub open spec fn row_links(song_id: i64, list_id: i64) -> spec_fn(JunctionRow) -> bool {
    |r: JunctionRow| r.song_id == song_id && r.playlist_id == list_id
}


// ---------------------------------------------------------------------------
// What each query means
// ---------------------------------------------------------------------------

pub open spec fn empty_db() -> DbView {
    DbView {
        songs: Seq::empty(),
        playlists: Seq::empty(),
        junction: Seq::empty(),
        song_seq: 0,
        playlist_seq: 0,
    }
}

/// Inserting a song: it gets the next id of the auto-incrementing counter and
/// comes last in row-id order.
pub open spec fn spec_add_song(db: DbView, name: Seq<char>, path: Seq<char>) -> Result<DbView, DbError> {
    if db.song_seq == i64::MAX {
        Err(DbError::Full)
    } else {
        let id = (db.song_seq + 1) as i64;
        Ok(DbView {
            songs: db.songs.push(SongView { song_id: id, song_name: name, path }),
            song_seq: id,
            ..db
        })
    }
}

pub open spec fn rename_song(id: i64, name: Seq<char>) -> spec_fn(SongView) -> SongView {
    |s: SongView| if s.song_id == id { SongView { song_id: s.song_id, song_name: name, path: s.path } } else { s }
}

pub open spec fn spec_update_song(db: DbView, id: i64, name: Seq<char>) -> DbView {
    DbView { songs: db.songs.map_values(rename_song(id, name)), ..db }
}

pub open spec fn default_song(id: i64) -> SongView {
    SongView { song_id: id, song_name: "default"@, path: Seq::empty() }
}

/// The song with the given id, or a placeholder named `default` with an empty
/// path.
pub open spec fn spec_get_song_info(db: DbView, id: i64) -> SongView {
    match first_match(db.songs, song_has_id(id)) {
        Some(i) => db.songs[i],
        None => default_song(id),
    }
}

pub open spec fn spec_get_song_by_name(db: DbView, name: Seq<char>) -> Result<SongView, DbError> {
    match first_match(db.songs, song_has_name(name)) {
        Some(i) => Ok(db.songs[i]),
        None => Err(DbError::SongNotFound),
    }
}

pub open spec fn spec_get_song_by_path(db: DbView, p: Seq<char>) -> Result<SongView, DbError> {
    match first_match(db.songs, song_has_path(p)) {
        Some(i) => Ok(db.songs[i]),
        None => Err(DbError::SongNotFound),
    }
}

pub open spec fn spec_is_path_unique(db: DbView, p: Seq<char>) -> bool {
    forall|i: int| 0 <= i < db.songs.len() ==> db.songs[i].path != p
}

// ---------------------------------------------------------------------------
// Building and reading the tables
// ---------------------------------------------------------------------------

pub proof fn lemma_ids_lower_bound(ids: Seq<i64>, seq: i64)
    requires
        autoinc_ids_ok(ids, seq),
    ensures
        forall|i: int| 0 <= i < ids.len() ==> #[trigger] ids[i] >= i + 1,
        ids.len() <= seq,
{
    assert forall|i: int| 0 <= i < ids.len() implies #[trigger] ids[i] >= i + 1 by {
        lemma_id_at_least(ids, seq, i);
    }
    if ids.len() > 0 {
        assert(ids[ids.len() - 1] >= ids.len());
    }
}

proof fn lemma_id_at_least(ids: Seq<i64>, seq: i64, i: int)
    requires
        autoinc_ids_ok(ids, seq),
        0 <= i < ids.len(),
    ensures
        ids[i] >= i + 1,
    decreases i,
{
    if i > 0 {
        lemma_id_at_least(ids, seq, i - 1);
        assert(ids[i - 1] < ids[i]);
    }
}

/// A new, empty database.
pub fn init() -> (db: MusicDb)
    ensures
        db@ == empty_db(),
        db@.wf(),
{
    let db = MusicDb {
        songs: Vec::new(),
        playlists: Vec::new(),
        junction: Vec::new(),
        song_seq: 0,
        playlist_seq: 0,
    };
    assert(db@.songs =~= Seq::empty());
    assert(db@.playlists =~= Seq::empty());
    db
}

fn autoinc_song_ids_ok(songs: &Vec<Song>, seq: i64) -> (b: bool)
    ensures
        b == autoinc_ids_ok(song_ids(songs_view(songs@)), seq),
{
    let ghost ids = song_ids(songs_view(songs@));
    if seq < 0 {
        return false;
    }
    let mut i: usize = 0;
    while i < songs.len()
        invariant
            0 <= i <= songs@.len(),
            seq >= 0,
            ids.len() == songs@.len(),
            forall|k: int| 0 <= k < ids.len() ==> #[trigger] ids[k] == songs@[k].song_id,
            forall|k: int| 0 <= k < i ==> 1 <= #[trigger] ids[k] <= seq,
            forall|k: int, l: int| 0 <= k < l < i ==> ids[k] < ids[l],
        decreases songs@.len() - i,
    {
        let id = songs[i].song_id;
        if id < 1 || id > seq {
            assert(!(1 <= ids[i as int] <= seq));
            assert(!autoinc_ids_ok(ids, seq));
            assert(ids == song_ids(songs_view(songs@)));
            return false;
        }
        if i > 0 && songs[i - 1].song_id >= id {
            assert(!(ids[i - 1] < ids[i as int]));
            assert(!autoinc_ids_ok(ids, seq));
            assert(ids == song_ids(songs_view(songs@)));
            return false;
        }
        assert forall|k: int| 0 <= k < i implies ids[k] < ids[i as int] by {
            if k < i - 1 {
                assert(ids[k] < ids[i - 1]);
            }
        }
        i = i + 1;
    }
    true
}

fn autoinc_playlist_ids_ok(rows: &Vec<PlaylistRow>, seq: i64) -> (b: bool)
    ensures
        b == autoinc_ids_ok(playlist_ids(playlists_view(rows@)), seq),
{
    let ghost ids = playlist_ids(playlists_view(rows@));
    if seq < 0 {
        return false;
    }
    let mut i: usize = 0;
    while i < rows.len()
        invariant
            0 <= i <= rows@.len(),
            seq >= 0,
            ids.len() == rows@.len(),
            forall|k: int| 0 <= k < ids.len() ==> #[trigger] ids[k] == rows@[k].list_id,
            forall|k: int| 0 <= k < i ==> 1 <= #[trigger] ids[k] <= seq,
            forall|k: int, l: int| 0 <= k < l < i ==> ids[k] < ids[l],
        decreases rows@.len() - i,
    {
        let id = rows[i].list_id;
        if id < 1 || id > seq {
            assert(!(1 <= ids[i as int] <= seq));
            assert(!autoinc_ids_ok(ids, seq));
            assert(ids == playlist_ids(playlists_view(rows@)));
            return false;
        }
        if i > 0 && rows[i - 1].list_id >= id {
            assert(!(ids[i - 1] < ids[i as int]));
            assert(!autoinc_ids_ok(ids, seq));
            assert(ids == playlist_ids(playlists_view(rows@)));
            return false;
        }
        assert forall|k: int| 0 <= k < i implies ids[k] < ids[i as int] by {
            if k < i - 1 {
                assert(ids[k] < ids[i - 1]);
            }
        }
        i = i + 1;
    }
    true
}

fn junction_ids_ok(rows: &Vec<JunctionRow>) -> (b: bool)
    ensures
        b == junction_ids_increasing(rows@),
{
    let mut i: usize = 0;
    while i < rows.len()
        invariant
            0 <= i <= rows@.len(),
            forall|k: int, l: int| 0 <= k < l < i ==> rows@[k].id < rows@[l].id,
        decreases rows@.len() - i,
    {
        if i > 0 && rows[i - 1].id >= rows[i].id {
            return false;
        }
        i = i + 1;
    }
    true
}

impl MusicDb {
    /// The database holding the given tables, each in row-id order, when they
    /// are well formed; `None` otherwise.
    pub fn from_tables(
        songs: Vec<Song>,
        playlists: Vec<PlaylistRow>,
        junction: Vec<JunctionRow>,
        song_seq: i64,
        playlist_seq: i64,
    ) -> (r: Option<MusicDb>)
        ensures
            ({
                let v = DbView {
                    songs: songs_view(songs@),
                    playlists: playlists_view(playlists@),
                    junction: junction@,
                    song_seq,
                    playlist_seq,
                };
                &&& r is Some <==> v.wf()
                &&& r matches Some(db) ==> db@ == v
            }),
    {
        let ghost v = DbView {
            songs: songs_view(songs@),
            playlists: playlists_view(playlists@),
            junction: junction@,
            song_seq,
            playlist_seq,
        };
        let a = autoinc_song_ids_ok(&songs, song_seq);
        let b = autoinc_playlist_ids_ok(&playlists, playlist_seq);
        let c = junction_ids_ok(&junction);
        assert(a == autoinc_ids_ok(v.song_ids(), v.song_seq));
        assert(b == autoinc_ids_ok(v.playlist_ids(), v.playlist_seq));
        if a && b && c {
            Some(MusicDb { songs, playlists, junction, song_seq, playlist_seq })
        } else {
            None
        }
    }

    /// A copy of the database.
    pub fn duplicate(&self) -> (r: MusicDb)
        ensures
            r@ == self@,
    {
        let mut songs: Vec<Song> = Vec::new();
        let mut i: usize = 0;
        while i < self.songs.len()
            invariant
                0 <= i <= self.songs@.len(),
                songs@.len() == i,
                forall|k: int| 0 <= k < i ==> (#[trigger] songs@[k])@ == self.songs@[k]@,
            decreases self.songs@.len() - i,
        {
            songs.push(self.songs[i].duplicate());
            i = i + 1;
        }
        let mut playlists: Vec<PlaylistRow> = Vec::new();
        let mut i: usize = 0;
        while i < self.playlists.len()
            invariant
                0 <= i <= self.playlists@.len(),
                playlists@.len() == i,
                forall|k: int| 0 <= k < i ==> (#[trigger] playlists@[k])@ == self.playlists@[k]@,
            decreases self.playlists@.len() - i,
        {
            let row = &self.playlists[i];
            playlists.push(PlaylistRow { list_id: row.list_id, list_name: row.list_name.clone(), is_user_created: row.is_user_created });
            i = i + 1;
        }
        let mut junction: Vec<JunctionRow> = Vec::new();
        let mut i: usize = 0;
        while i < self.junction.len()
            invariant
                0 <= i <= self.junction@.len(),
                junction@ == self.junction@.take(i as int),
            decreases self.junction@.len() - i,
        {
            junction.push(self.junction[i]);
            assert(junction@ =~= self.junction@.take(i + 1));
            i = i + 1;
        }
        assert(junction@ =~= self.junction@);
        let r = MusicDb { songs, playlists, junction, song_seq: self.song_seq, playlist_seq: self.playlist_seq };
        assert(r@.songs =~= self@.songs);
        assert(r@.playlists =~= self@.playlists);
        r
    }

    /// The songs table in row-id order.
    pub fn songs_table(&self) -> (r: &Vec<Song>)
        ensures
            songs_view(r@) == self@.songs,
    {
        &self.songs
    }

    /// The playlist table in row-id order.
    pub fn playlist_table(&self) -> (r: &Vec<PlaylistRow>)
        ensures
            playlists_view(r@) == self@.playlists,
    {
        &self.playlists
    }

    /// The junction table in row-id order.
    pub fn junction_table(&self) -> (r: &Vec<JunctionRow>)
        ensures
            r@ == self@.junction,
    {
        &self.junction
    }

    /// The last id handed out by the songs table.
    pub fn song_seq(&self) -> (r: i64)
        ensures
            r == self@.song_seq,
    {
        self.song_seq
    }

    /// The last id handed out by the playlist table.
    pub fn playlist_seq(&self) -> (r: i64)
        ensures
            r == self@.playlist_seq,
    {
        self.playlist_seq
    }
}

// ---------------------------------------------------------------------------
// Songs
// ---------------------------------------------------------------------------

fn find_song_by_id(songs: &Vec<Song>, id: i64) -> (r: Option<usize>)
    ensures
        r matches Some(i) ==> i < songs@.len() && first_match(songs_view(songs@), song_has_id(id)) == Some(i as int),
        r is None ==> first_match(songs_view(songs@), song_has_id(id)) is None,
{
    let ghost v = songs_view(songs@);
    let mut i: usize = 0;
    while i < songs.len()
        invariant
            0 <= i <= songs@.len(),
            v == songs_view(songs@),
            forall|j: int| 0 <= j < i ==> !song_has_id(id)(#[trigger] v[j]),
        decreases songs@.len() - i,
    {
        if songs[i].song_id == id {
            proof { lemma_first_match(v, song_has_id(id), i as int); }
            return Some(i);
        }
        i = i + 1;
    }
    proof { lemma_first_match(v, song_has_id(id), i as int); }
    None
}

fn find_song_by_name(songs: &Vec<Song>, name: &String) -> (r: Option<usize>)
    ensures
        r matches Some(i) ==> i < songs@.len() && first_match(songs_view(songs@), song_has_name(name@)) == Some(i as int),
        r is None ==> first_match(songs_view(songs@), song_has_name(name@)) is None,
{
    let ghost v = songs_view(songs@);
    let mut i: usize = 0;
    while i < songs.len()
        invariant
            0 <= i <= songs@.len(),
            v == songs_view(songs@),
            forall|j: int| 0 <= j < i ==> !song_has_name(name@)(#[trigger] v[j]),
        decreases songs@.len() - i,
    {
        if songs[i].song_name == *name {
            proof { lemma_first_match(v, song_has_name(name@), i as int); }
            return Some(i);
        }
        i = i + 1;
    }
    proof { lemma_first_match(v, song_has_name(name@), i as int); }
    None
}

fn find_song_by_path(songs: &Vec<Song>, p: &String) -> (r: Option<usize>)
    ensures
        r matches Some(i) ==> i < songs@.len() && first_match(songs_view(songs@), song_has_path(p@)) == Some(i as int),
        r is None ==> first_match(songs_view(songs@), song_has_path(p@)) is None,
{
    let ghost v = songs_view(songs@);
    let mut i: usize = 0;
    while i < songs.len()
        invariant
            0 <= i <= songs@.len(),
            v == songs_view(songs@),
            forall|j: int| 0 <= j < i ==> !song_has_path(p@)(#[trigger] v[j]),
        decreases songs@.len() - i,
    {
        if songs[i].path == *p {
            proof { lemma_first_match(v, song_has_path(p@), i as int); }
            return Some(i);
        }
        i = i + 1;
    }
    proof { lemma_first_match(v, song_has_path(p@), i as int); }
    None
}

/// Inserts a song under the next id; its own id is ignored.
pub fn add_song(db: &mut MusicDb, song: &Song) -> (r: Result<(), DbError>)
    requires
        old(db)@.wf(),
    ensures
        final(db)@.wf(),
        r matches Ok(_) ==> spec_add_song(old(db)@, song.song_name@, song.path@) == Ok::<DbView, DbError>(final(db)@),
        r matches Err(e) ==> spec_add_song(old(db)@, song.song_name@, song.path@) == Err::<DbView, DbError>(e)
            && final(db)@ == old(db)@,
{
    if db.song_seq == i64::MAX {
        return Err(DbError::Full);
    }
    let id = db.song_seq + 1;
    let ghost old_songs = db@.songs;
    let ghost old_ids = db@.song_ids();
    db.songs.push(Song { song_id: id, song_name: song.song_name.clone(), path: song.path.clone() });
    db.song_seq = id;
    proof {
        assert(db@.songs =~= old_songs.push(SongView { song_id: id, song_name: song.song_name@, path: song.path@ }));
        assert(db@.song_ids() =~= old_ids.push(id));
    }
    Ok(())
}

/// Renames every song with the song's id to the song's name.
pub fn update_song(db: &mut MusicDb, song: &Song)
    requires
        old(db)@.wf(),
    ensures
        final(db)@.wf(),
        final(db)@ == spec_update_song(old(db)@, song.song_id, song.song_name@),
{
    let ghost old_songs = db@.songs;
    let ghost old_db = db@;
    let ghost f = rename_song(song.song_id, song.song_name@);
    let mut out: Vec<Song> = Vec::new();
    let mut i: usize = 0;
    while i < db.songs.len()
        invariant
            0 <= i <= db.songs@.len(),
            db@ == old_db,
            old_db.wf(),
            old_songs == songs_view(db.songs@),
            f == rename_song(song.song_id, song.song_name@),
            out@.len() == i,
            forall|k: int| 0 <= k < i ==> (#[trigger] out@[k])@ == f(old_songs[k]),
        decreases db.songs@.len() - i,
    {
        let s = &db.songs[i];
        if s.song_id == song.song_id {
            out.push(Song { song_id: s.song_id, song_name: song.song_name.clone(), path: s.path.clone() });
        } else {
            out.push(s.duplicate());
        }
        i = i + 1;
    }
    let ghost old_ids = db@.song_ids();
    db.songs = out;
    proof {
        assert(db@.songs =~= old_songs.map_values(f));
        assert(db@.song_ids() =~= old_ids);
        assert(autoinc_ids_ok(old_ids, db@.song_seq));
        assert(autoinc_ids_ok(db@.song_ids(), db@.song_seq));
        assert(db@.junction == old_db.junction);
        assert(db@.playlists == old_db.playlists);
    }
}

/// The song with the given id, or a placeholder named `default` with an empty
/// path and that id.
pub fn get_song_info(db: &MusicDb, index: &i64) -> (r: Song)
    ensures
        r@ == spec_get_song_info(db@, *index),
{
    match find_song_by_id(&db.songs, *index) {
        Some(i) => db.songs[i].duplicate(),
        None => Song { song_id: *index, song_name: String::from_str("default"), path: String::new() },
    }
}

/// The first song, in row-id order, with the given name.
pub fn get_song_by_name(db: &MusicDb, song_name: &str) -> (r: Result<Song, DbError>)
    ensures
        r matches Ok(s) ==> spec_get_song_by_name(db@, song_name@) == Ok::<SongView, DbError>(s@),
        r matches Err(e) ==> spec_get_song_by_name(db@, song_name@) == Err::<SongView, DbError>(e),
{
    let key = String::from_str(song_name);
    match find_song_by_name(&db.songs, &key) {
        Some(i) => Ok(db.songs[i].duplicate()),
        None => Err(DbError::SongNotFound),
    }
}

/// Whether no song has the given path.
pub fn is_path_unique(db: &MusicDb, song_path: &str) -> (r: bool)
    ensures
        r == spec_is_path_unique(db@, song_path@),
{
    let key = String::from_str(song_path);
    let found = find_song_by_path(&db.songs, &key);
    proof { lemma_first_match_facts(db@.songs, song_has_path(song_path@)); }
    found.is_none()
}

/// The first song, in row-id order, with the given path.
pub fn get_song_by_path(db: &MusicDb, song_path: &str) -> (r: Result<Song, DbError>)
    ensures
        r matches Ok(s) ==> spec_get_song_by_path(db@, song_path@) == Ok::<SongView, DbError>(s@),
        r matches Err(e) ==> spec_get_song_by_path(db@, song_path@) == Err::<SongView, DbError>(e),
{
    let key = String::from_str(song_path);
    match find_song_by_path(&db.songs, &key) {
        Some(i) => Ok(db.songs[i].duplicate()),
        None => Err(DbError::SongNotFound),
    }
}

/// The number of songs.
pub fn get_song_count(db: &MusicDb) -> (r: i64)
    requires
        db@.wf(),
    ensures
        r == db@.songs.len(),
{
    proof { lemma_ids_lower_bound(db@.song_ids(), db@.song_seq); }
    db.songs.len() as i64
}


// ---------------------------------------------------------------------------
// Filters
// ---------------------------------------------------------------------------

/// One more step of a left-to-right filtering scan.
pub proof fn lemma_filter_take_step<T>(s: Seq<T>, p: spec_fn(T) -> bool, i: int)
    requires
        0 <= i < s.len(),
    ensures
        s.take(i + 1).filter(p) == (if p(s[i]) {
            s.take(i).filter(p).push(s[i])
        } else {
            s.take(i).filter(p)
        }),
{
    reveal_with_fuel(Seq::filter, 1);
    assert(s.take(i + 1).drop_last() =~= s.take(i));
}

pub proof fn lemma_map_push<A, B>(s: Seq<A>, a: A, f: spec_fn(A) -> B)
    ensures
        s.push(a).map_values(f) == s.map_values(f).push(f(a)),
{
    assert(s.push(a).map_values(f) =~= s.map_values(f).push(f(a)));
}

// ---------------------------------------------------------------------------
// Playlists: meaning
// ---------------------------------------------------------------------------

pub open spec fn rename_list(id: i64, name: Seq<char>) -> spec_fn(PlaylistRowView) -> PlaylistRowView {
    |p: PlaylistRowView|
        if p.list_id == id {
            PlaylistRowView { list_id: p.list_id, list_name: name, is_user_created: p.is_user_created }
        } else {
            p
        }
}

pub open spec fn spec_update_playlist(db: DbView, id: i64, name: Seq<char>) -> DbView {
    DbView { playlists: db.playlists.map_values(rename_list(id, name)), ..db }
}

pub open spec fn spec_is_playlist_unique(db: DbView, name: Seq<char>) -> bool {
    forall|i: int| 0 <= i < db.playlists.len() ==> db.playlists[i].list_name != name
}

/// The flag column stores 1 for a playlist that a user created, 0 otherwise.
pub open spec fn flag_of(user_created: bool) -> i64 {
    if user_created { 1 } else { 0 }
}

pub open spec fn spec_add_playlist(db: DbView, name: Seq<char>, user_created: bool) -> Result<DbView, DbError> {
    if db.playlist_seq == i64::MAX {
        Err(DbError::Full)
    } else {
        let id = (db.playlist_seq + 1) as i64;
        Ok(DbView {
            playlists: db.playlists.push(
                PlaylistRowView { list_id: id, list_name: name, is_user_created: flag_of(user_created) },
            ),
            playlist_seq: id,
            ..db
        })
    }
}

/// How the full listing reports a row: the flag is not read.
pub open spec fn listed(r: PlaylistRowView) -> PlaylistView {
    PlaylistView { list_id: r.list_id, list_name: r.list_name, is_user_created: false }
}

/// How a lookup by name or id reports a row: the flag reads as set when the
/// stored integer is 0.
pub open spec fn looked_up(r: PlaylistRowView) -> PlaylistView {
    PlaylistView { list_id: r.list_id, list_name: r.list_name, is_user_created: r.is_user_created == 0 }
}

/// How the listing of user-created playlists reports a row.
pub open spec fn user_listed(r: PlaylistRowView) -> PlaylistView {
    PlaylistView { list_id: r.list_id, list_name: r.list_name, is_user_created: true }
}

pub open spec fn is_user_row() -> spec_fn(PlaylistRowView) -> bool {
    |r: PlaylistRowView| r.is_user_created == 1
}

pub open spec fn name_differs(name: Seq<char>) -> spec_fn(PlaylistRowView) -> bool {
    |r: PlaylistRowView| r.list_name != name
}

pub open spec fn spec_get_all_playlist(db: DbView) -> Seq<PlaylistView> {
    db.playlists.map_values(|r: PlaylistRowView| listed(r))
}

pub open spec fn spec_get_playlist_by_name(db: DbView, name: Seq<char>) -> Result<PlaylistView, DbError> {
    match first_match(db.playlists, list_has_name(name)) {
        Some(i) => Ok(looked_up(db.playlists[i])),
        None => Err(DbError::PlaylistNotFound),
    }
}

pub open spec fn spec_get_playlist_by_id(db: DbView, id: i64) -> Result<PlaylistView, DbError> {
    match first_match(db.playlists, list_has_id(id)) {
        Some(i) => Ok(looked_up(db.playlists[i])),
        None => Err(DbError::PlaylistNotFound),
    }
}

pub open spec fn spec_get_user_created_playlist(db: DbView) -> Seq<PlaylistView> {
    db.playlists.filter(is_user_row()).map_values(|r: PlaylistRowView| user_listed(r))
}

pub open spec fn spec_remove_playlist(db: DbView, name: Seq<char>) -> DbView {
    DbView { playlists: db.playlists.filter(name_differs(name)), ..db }
}

pub open spec fn playlists_out(v: Seq<Playlist>) -> Seq<PlaylistView> {
    v.map_values(|p: Playlist| p@)
}

// ---------------------------------------------------------------------------
// Playlists: operations
// ---------------------------------------------------------------------------

fn find_list_by_name(rows: &Vec<PlaylistRow>, name: &String) -> (r: Option<usize>)
    ensures
        r matches Some(i) ==> i < rows@.len() && first_match(playlists_view(rows@), list_has_name(name@)) == Some(i as int),
        r is None ==> first_match(playlists_view(rows@), list_has_name(name@)) is None,
{
    let ghost v = playlists_view(rows@);
    let mut i: usize = 0;
    while i < rows.len()
        invariant
            0 <= i <= rows@.len(),
            v == playlists_view(rows@),
            forall|j: int| 0 <= j < i ==> !list_has_name(name@)(#[trigger] v[j]),
        decreases rows@.len() - i,
    {
        if rows[i].list_name == *name {
            proof { lemma_first_match(v, list_has_name(name@), i as int); }
            return Some(i);
        }
        i = i + 1;
    }
    proof { lemma_first_match(v, list_has_name(name@), i as int); }
    None
}

fn find_list_by_id(rows: &Vec<PlaylistRow>, id: i64) -> (r: Option<usize>)
    ensures
        r matches Some(i) ==> i < rows@.len() && first_match(playlists_view(rows@), list_has_id(id)) == Some(i as int),
        r is None ==> first_match(playlists_view(rows@), list_has_id(id)) is None,
{
    let ghost v = playlists_view(rows@);
    let mut i: usize = 0;
    while i < rows.len()
        invariant
            0 <= i <= rows@.len(),
            v == playlists_view(rows@),
            forall|j: int| 0 <= j < i ==> !list_has_id(id)(#[trigger] v[j]),
        decreases rows@.len() - i,
    {
        if rows[i].list_id == id {
            proof { lemma_first_match(v, list_has_id(id), i as int); }
            return Some(i);
        }
        i = i + 1;
    }
    proof { lemma_first_match(v, list_has_id(id), i as int); }
    None
}

fn lookup_row(row: &PlaylistRow) -> (r: Playlist)
    ensures
        r@ == looked_up(row@),
{
    Playlist {
        list_id: row.list_id,
        list_name: row.list_name.clone(),
        is_user_created: row.is_user_created == 0,
    }
}

/// Renames every playlist with the playlist's id to the playlist's name.
pub fn update_playlist(db: &mut MusicDb, playlist: &Playlist)
    requires
        old(db)@.wf(),
    ensures
        final(db)@.wf(),
        final(db)@ == spec_update_playlist(old(db)@, playlist.list_id, playlist.list_name@),
{
    let ghost old_db = db@;
    let ghost f = rename_list(playlist.list_id, playlist.list_name@);
    let mut out: Vec<PlaylistRow> = Vec::new();
    let mut i: usize = 0;
    while i < db.playlists.len()
        invariant
            0 <= i <= db.playlists@.len(),
            db@ == old_db,
            old_db.wf(),
            f == rename_list(playlist.list_id, playlist.list_name@),
            out@.len() == i,
            forall|k: int| 0 <= k < i ==> (#[trigger] out@[k])@ == f(old_db.playlists[k]),
        decreases db.playlists@.len() - i,
    {
        let r = &db.playlists[i];
        if r.list_id == playlist.list_id {
            out.push(PlaylistRow {
                list_id: r.list_id,
                list_name: playlist.list_name.clone(),
                is_user_created: r.is_user_created,
            });
        } else {
            out.push(PlaylistRow {
                list_id: r.list_id,
                list_name: r.list_name.clone(),
                is_user_created: r.is_user_created,
            });
        }
        i = i + 1;
    }
    let ghost old_ids = db@.playlist_ids();
    db.playlists = out;
    proof {
        assert(db@.playlists =~= old_db.playlists.map_values(f));
        assert(db@.playlist_ids() =~= old_ids);
        assert(autoinc_ids_ok(old_ids, db@.playlist_seq));
        assert(autoinc_ids_ok(db@.playlist_ids(), db@.playlist_seq));
        assert(db@.junction == old_db.junction);
        assert(db@.songs == old_db.songs);
    }
}

/// Whether no playlist has the given name.
pub fn is_playlist_unique(db: &MusicDb, playlist_name: &str) -> (r: bool)
    ensures
        r == spec_is_playlist_unique(db@, playlist_name@),
{
    let key = String::from_str(playlist_name);
    let found = find_list_by_name(&db.playlists, &key);
    proof { lemma_first_match_facts(db@.playlists, list_has_name(playlist_name@)); }
    found.is_none()
}

/// Inserts a playlist under the next id; its own id is ignored.
pub fn add_playlist(db: &mut MusicDb, playlist: Playlist) -> (r: Result<(), DbError>)
    requires
        old(db)@.wf(),
    ensures
        final(db)@.wf(),
        r matches Ok(_) ==> spec_add_playlist(old(db)@, playlist.list_name@, playlist.is_user_created)
            == Ok::<DbView, DbError>(final(db)@),
        r matches Err(e) ==> spec_add_playlist(old(db)@, playlist.list_name@, playlist.is_user_created)
            == Err::<DbView, DbError>(e) && final(db)@ == old(db)@,
{
    if db.playlist_seq == i64::MAX {
        return Err(DbError::Full);
    }
    let id = db.playlist_seq + 1;
    let ghost old_db = db@;
    let flag: i64 = if playlist.is_user_created { 1 } else { 0 };
    let ghost row = PlaylistRowView { list_id: id, list_name: playlist.list_name@, is_user_created: flag };
    db.playlists.push(PlaylistRow { list_id: id, list_name: playlist.list_name, is_user_created: flag });
    db.playlist_seq = id;
    proof {
        assert(db@.playlists =~= old_db.playlists.push(row));
        assert(db@.playlist_ids() =~= old_db.playlist_ids().push(id));
        assert(db@.songs == old_db.songs);
        assert(db@.junction == old_db.junction);
    }
    Ok(())
}

/// Every playlist in row-id order; the flag is reported unset.
pub fn get_all_playlist(db: &MusicDb) -> (r: Vec<Playlist>)
    ensures
        playlists_out(r@) == spec_get_all_playlist(db@),
{
    let mut out: Vec<Playlist> = Vec::new();
    let mut i: usize = 0;
    while i < db.playlists.len()
        invariant
            0 <= i <= db.playlists@.len(),
            out@.len() == i,
            forall|k: int| 0 <= k < i ==> (#[trigger] out@[k])@ == listed(db@.playlists[k]),
        decreases db.playlists@.len() - i,
    {
        out.push(Playlist {
            list_id: db.playlists[i].list_id,
            list_name: db.playlists[i].list_name.clone(),
            is_user_created: false,
        });
        i = i + 1;
    }
    assert(playlists_out(out@) =~= spec_get_all_playlist(db@));
    out
}

/// The first playlist, in row-id order, with the given name.
pub fn get_playlist_by_name(db: &MusicDb, list_name: &str) -> (r: Result<Playlist, DbError>)
    ensures
        r matches Ok(p) ==> spec_get_playlist_by_name(db@, list_name@) == Ok::<PlaylistView, DbError>(p@),
        r matches Err(e) ==> spec_get_playlist_by_name(db@, list_name@) == Err::<PlaylistView, DbError>(e),
{
    let key = String::from_str(list_name);
    match find_list_by_name(&db.playlists, &key) {
        Some(i) => Ok(lookup_row(&db.playlists[i])),
        None => Err(DbError::PlaylistNotFound),
    }
}

/// The first playlist, in row-id order, with the given id.
pub fn get_playlist_by_id(db: &MusicDb, id: i64) -> (r: Result<Playlist, DbError>)
    ensures
        r matches Ok(p) ==> spec_get_playlist_by_id(db@, id) == Ok::<PlaylistView, DbError>(p@),
        r matches Err(e) ==> spec_get_playlist_by_id(db@, id) == Err::<PlaylistView, DbError>(e),
{
    match find_list_by_id(&db.playlists, id) {
        Some(i) => Ok(lookup_row(&db.playlists[i])),
        None => Err(DbError::PlaylistNotFound),
    }
}

/// The playlists whose flag column holds 1, in row-id order.
pub fn get_user_created_playlist(db: &MusicDb) -> (r: Vec<Playlist>)
    ensures
        playlists_out(r@) == spec_get_user_created_playlist(db@),
{
    let ghost rows = db@.playlists;
    let ghost g = |r: PlaylistRowView| user_listed(r);
    let mut out: Vec<Playlist> = Vec::new();
    let mut i: usize = 0;
    while i < db.playlists.len()
        invariant
            0 <= i <= db.playlists@.len(),
            rows == db@.playlists,
            g == (|r: PlaylistRowView| user_listed(r)),
            playlists_out(out@) == rows.take(i as int).filter(is_user_row()).map_values(g),
        decreases db.playlists@.len() - i,
    {
        proof { lemma_filter_take_step(rows, is_user_row(), i as int); }
        if db.playlists[i].is_user_created == 1 {
            let ghost before = out@;
            out.push(Playlist {
                list_id: db.playlists[i].list_id,
                list_name: db.playlists[i].list_name.clone(),
                is_user_created: true,
            });
            proof {
                lemma_map_push(before, out@.last(), |p: Playlist| p@);
                lemma_map_push(rows.take(i as int).filter(is_user_row()), rows[i as int], g);
            }
        }
        i = i + 1;
    }
    assert(rows.take(rows.len() as int) =~= rows);
    out
}

/// Deletes every playlist with the given name.
pub fn remove_playlist(db: &mut MusicDb, name: &str)
    requires
        old(db)@.wf(),
    ensures
        final(db)@.wf(),
        final(db)@ == spec_remove_playlist(old(db)@, name@),
{
    let key = String::from_str(name);
    let ghost old_db = db@;
    let ghost rows = db@.playlists;
    let mut out: Vec<PlaylistRow> = Vec::new();
    let mut i: usize = 0;
    while i < db.playlists.len()
        invariant
            0 <= i <= db.playlists@.len(),
            db@ == old_db,
            rows == old_db.playlists,
            key@ == name@,
            playlists_view(out@) == rows.take(i as int).filter(name_differs(name@)),
        decreases db.playlists@.len() - i,
    {
        proof { lemma_filter_take_step(rows, name_differs(name@), i as int); }
        if db.playlists[i].list_name != key {
            let ghost before = out@;
            out.push(PlaylistRow {
                list_id: db.playlists[i].list_id,
                list_name: db.playlists[i].list_name.clone(),
                is_user_created: db.playlists[i].is_user_created,
            });
            proof { lemma_map_push(before, out@.last(), |p: PlaylistRow| p@); }
        }
        i = i + 1;
    }
    assert(rows.take(rows.len() as int) =~= rows);
    db.playlists = out;
    proof {
        lemma_filter_keeps_ids(rows, name@, old_db.playlist_seq);
        assert(db@.songs == old_db.songs);
        assert(db@.junction == old_db.junction);
    }
}

/// Each element of a filtered sequence comes from the sequence.
pub proof fn lemma_filter_from<T>(s: Seq<T>, p: spec_fn(T) -> bool)
    ensures
        forall|k: int| 0 <= k < s.filter(p).len() ==> exists|m: int| 0 <= m < s.len() && s[m] == #[trigger] s.filter(p)[k],
    decreases s.len(),
{
    reveal_with_fuel(Seq::filter, 1);
    if s.len() > 0 {
        let front = s.drop_last();
        lemma_filter_from(front, p);
        assert forall|k: int| 0 <= k < s.filter(p).len() implies exists|m: int| 0 <= m < s.len() && s[m] == #[trigger] s.filter(p)[k] by {
            if k < front.filter(p).len() {
                let m = choose|m: int| 0 <= m < front.len() && front[m] == front.filter(p)[k];
                assert(s[m] == front[m]);
            } else {
                assert(s[s.len() - 1] == s.filter(p)[k]);
            }
        }
    }
}

/// Dropping rows keeps the ids of an auto-incrementing table in order.
proof fn lemma_filter_keeps_ids(rows: Seq<PlaylistRowView>, name: Seq<char>, seq: i64)
    requires
        autoinc_ids_ok(playlist_ids(rows), seq),
    ensures
        autoinc_ids_ok(playlist_ids(rows.filter(name_differs(name))), seq),
    decreases rows.len(),
{
    reveal_with_fuel(Seq::filter, 1);
    if rows.len() > 0 {
        let front = rows.drop_last();
        assert(playlist_ids(front) =~= playlist_ids(rows).drop_last());
        lemma_filter_keeps_ids(front, name, seq);
        let f = front.filter(name_differs(name));
        if name_differs(name)(rows.last()) {
            let ids = playlist_ids(f.push(rows.last()));
            assert(ids =~= playlist_ids(f).push(rows.last().list_id));
            assert forall|k: int| 0 <= k < f.len() implies f[k].list_id < rows.last().list_id by {
                lemma_filter_from(front, name_differs(name));
                let m = choose|m: int| 0 <= m < front.len() && front[m] == f[k];
                assert(playlist_ids(rows)[m] == f[k].list_id);
                assert(playlist_ids(rows)[rows.len() - 1] == rows.last().list_id);
            }
            assert forall|k: int| 0 <= k < ids.len() implies 1 <= #[trigger] ids[k] <= seq by {
                if k < f.len() {
                    assert(ids[k] == playlist_ids(f)[k]);
                } else {
                    assert(playlist_ids(rows)[rows.len() - 1] == rows.last().list_id);
                }
            }
            assert forall|k: int, l: int| 0 <= k < l < ids.len() implies ids[k] < ids[l] by {
                assert(ids[k] == f[k].list_id);
                if l < f.len() {
                    assert(ids[l] == playlist_ids(f)[l]);
                    assert(playlist_ids(f)[k] < playlist_ids(f)[l]);
                }
            }
        }
    } else {
        assert(rows.filter(name_differs(name)) =~= rows);
    }
}


// ---------------------------------------------------------------------------
// Playlist membership and order: meaning
// ---------------------------------------------------------------------------

/// The position of the first junction row of the song, in row-id order; a
/// NULL position reads as -1.
pub open spec fn spec_get_song_pos(db: DbView, song_id: i64) -> Result<i64, DbError> {
    match first_match(db.junction, row_of_song(song_id)) {
        Some(i) => Ok(pos_or_null(db.junction[i].playlist_pos)),
        None => Err(DbError::PositionNotFound),
    }
}

/// The number of rows of the playlist at the position.
pub open spec fn count_at(db: DbView, pos: i64, list_id: i64) -> nat {
    db.junction.filter(row_at(pos, list_id)).len()
}

pub open spec fn spec_is_pos_unique(db: DbView, pos: i64, list_id: i64) -> bool {
    count_at(db, pos, list_id) == 1
}

pub open spec fn spec_is_song_at_pos(db: DbView, pos: i64, list_id: i64) -> bool {
    count_at(db, pos, list_id) > 0
}

pub open spec fn spec_is_song_in_playlist(db: DbView, song_id: i64, list_id: i64) -> bool {
    exists|i: int| 0 <= i < db.junction.len() && #[trigger] row_links(song_id, list_id)(db.junction[i])
}

pub open spec fn set_pos(r: JunctionRow, pos: i64) -> JunctionRow {
    JunctionRow { id: r.id, song_id: r.song_id, playlist_id: r.playlist_id, playlist_pos: Some(pos) }
}

/// The rows of the playlist at position `at` move to position `to`.
pub open spec fn move_rows_at(list_id: i64, at: i64, to: i64) -> spec_fn(JunctionRow) -> JunctionRow {
    |r: JunctionRow| if r.playlist_id == list_id && r.playlist_pos == Some(at) { set_pos(r, to) } else { r }
}

/// The song's rows in the playlist move to position `to`.
pub open spec fn move_song_rows(song_id: i64, list_id: i64, to: i64) -> spec_fn(JunctionRow) -> JunctionRow {
    |r: JunctionRow| if r.song_id == song_id && r.playlist_id == list_id { set_pos(r, to) } else { r }
}

/// The position of the song's first row in the playlist; a NULL position
/// reads as -1.
pub open spec fn spec_song_pos_in(db: DbView, song_id: i64, list_id: i64) -> Result<i64, DbError> {
    match first_match(db.junction, row_links(song_id, list_id)) {
        Some(i) => Ok(pos_or_null(db.junction[i].playlist_pos)),
        None => Err(DbError::PositionNotFound),
    }
}

/// Moving a song by `increment` inside the playlist.  A song in no playlist
/// at all is an error; a song with no row in this playlist stays where it is.
/// Otherwise, when some row of the playlist stands at the target position and
/// that position is positive, the rows of the playlist there take the song's
/// position, then the song's rows in the playlist take the target position.
/// Rows of other playlists stay.
pub open spec fn spec_mov_song_up(db: DbView, song_id: i64, list_id: i64, increment: i64) -> Result<DbView, DbError> {
    match (spec_get_song_pos(db, song_id), spec_song_pos_in(db, song_id, list_id)) {
        (Err(e), _) => Err(e),
        (Ok(_), Err(_)) => Ok(db),
        (Ok(_), Ok(pos)) => {
            let target = (pos + increment) as i64;
            if spec_is_song_at_pos(db, target, list_id) && target > 0 {
                Ok(DbView {
                    junction: db.junction.map_values(move_rows_at(list_id, target, pos)).map_values(
                        move_song_rows(song_id, list_id, target),
                    ),
                    ..db
                })
            } else {
                Ok(db)
            }
        },
    }
}

/// The largest position in the playlist, if it has rows with a position;
/// NULL positions are left out, as `MAX` does.
pub open spec fn max_pos(s: Seq<JunctionRow>, list_id: i64) -> Option<i64>
    decreases s.len(),
{
    if s.len() == 0 {
        None
    } else {
        let m = max_pos(s.drop_last(), list_id);
        match (s.last().playlist_id == list_id, s.last().playlist_pos) {
            (true, Some(v)) => match m {
                Some(x) => Some(if x >= v { x } else { v }),
                None => Some(v),
            },
            _ => m,
        }
    }
}

/// How a position is reported: a NULL position reads as -1.
pub open spec fn pos_or_null(p: Option<i64>) -> i64 {
    match p {
        Some(x) => x,
        None => -1i64,
    }
}

/// The key rows are ordered by: NULL positions come before all others.
pub open spec fn pos_key(r: JunctionRow) -> int {
    match r.playlist_pos {
        Some(x) => x as int,
        None => i64::MIN as int - 1,
    }
}

/// Whether `a` sorts after `b`.
fn pos_after(a: &JunctionRow, b: &JunctionRow) -> (r: bool)
    ensures
        r == (pos_key(*a) > pos_key(*b)),
{
    match (a.playlist_pos, b.playlist_pos) {
        (Some(x), Some(y)) => x > y,
        (Some(_), None) => true,
        (None, _) => false,
    }
}

/// The position a song appended without one gets: one past the largest, with
/// an empty playlist counting as largest position 0.
pub open spec fn next_pos(db: DbView, list_id: i64) -> int {
    match max_pos(db.junction, list_id) {
        Some(x) => x + 1,
        None => 1,
    }
}

/// The id of the next junction row: one past the last, 1 for an empty table.
pub open spec fn next_row_id(s: Seq<JunctionRow>) -> Option<i64> {
    if s.len() == 0 {
        Some(1)
    } else if s.last().id == i64::MAX {
        None
    } else {
        Some((s.last().id + 1) as i64)
    }
}

pub open spec fn spec_add_song_to_playlist(db: DbView, song_id: i64, list_id: i64, pos: Option<i64>) -> Result<DbView, DbError> {
    let p: i64 = match pos {
        Some(e) => e,
        None => next_pos(db, list_id) as i64,
    };
    match next_row_id(db.junction) {
        None => Err(DbError::Full),
        Some(id) => Ok(DbView {
            junction: db.junction.push(JunctionRow { id, song_id, playlist_id: list_id, playlist_pos: Some(p) }),
            ..db
        }),
    }
}

pub open spec fn not_link(song_id: i64, list_id: i64) -> spec_fn(JunctionRow) -> bool {
    |r: JunctionRow| !(r.playlist_id == list_id && r.song_id == song_id)
}

pub open spec fn spec_remove_song_from_playlist(db: DbView, list_id: i64, song_id: i64) -> Result<DbView, DbError> {
    match spec_get_playlist_by_id(db, list_id) {
        Err(e) => Err(e),
        Ok(_) => Ok(DbView { junction: db.junction.filter(not_link(song_id, list_id)), ..db }),
    }
}

/// Inserts `r` after every row whose position is not above its own.
pub open spec fn insert_by_pos(s: Seq<JunctionRow>, r: JunctionRow) -> Seq<JunctionRow>
    decreases s.len(),
{
    if s.len() == 0 {
        seq![r]
    } else if pos_key(s.last()) <= pos_key(r) {
        s.push(r)
    } else {
        insert_by_pos(s.drop_last(), r).push(s.last())
    }
}

/// The rows ordered by position; rows with equal positions keep their order.
pub open spec fn sort_by_pos(s: Seq<JunctionRow>) -> Seq<JunctionRow>
    decreases s.len(),
{
    if s.len() == 0 {
        s
    } else {
        insert_by_pos(sort_by_pos(s.drop_last()), s.last())
    }
}

pub open spec fn song_of_row(db: DbView) -> spec_fn(JunctionRow) -> SongView {
    |r: JunctionRow| spec_get_song_info(db, r.song_id)
}

/// The songs of the first playlist with the given name, in position order.
pub open spec fn spec_get_songs_from_playlist(db: DbView, name: Seq<char>) -> Result<Seq<SongView>, DbError> {
    match spec_get_playlist_by_name(db, name) {
        Err(e) => Err(e),
        Ok(pl) => Ok(sort_by_pos(db.junction.filter(row_of_list(pl.list_id))).map_values(song_of_row(db))),
    }
}

// ---------------------------------------------------------------------------
// Playlist membership and order: operations
// ---------------------------------------------------------------------------

/// The position of the first junction row of the song; -1 when it is NULL.
pub fn get_song_pos(db: &MusicDb, song: i64) -> (r: Result<i64, DbError>)
    ensures
        r == spec_get_song_pos(db@, song),
{
    let mut i: usize = 0;
    while i < db.junction.len()
        invariant
            0 <= i <= db.junction@.len(),
            forall|j: int| 0 <= j < i ==> !row_of_song(song)(#[trigger] db@.junction[j]),
        decreases db.junction@.len() - i,
    {
        if db.junction[i].song_id == song {
            proof { lemma_first_match(db@.junction, row_of_song(song), i as int); }
            return Ok(match db.junction[i].playlist_pos { Some(x) => x, None => -1 });
        }
        i = i + 1;
    }
    proof { lemma_first_match(db@.junction, row_of_song(song), i as int); }
    Err(DbError::PositionNotFound)
}

fn count_rows_at(db: &MusicDb, pos: i64, playlist: i64) -> (r: usize)
    ensures
        r == count_at(db@, pos, playlist),
{
    let ghost s = db@.junction;
    let mut n: usize = 0;
    let mut i: usize = 0;
    while i < db.junction.len()
        invariant
            0 <= i <= db.junction@.len(),
            s == db@.junction,
            n == s.take(i as int).filter(row_at(pos, playlist)).len(),
            n <= i,
        decreases db.junction@.len() - i,
    {
        proof { lemma_filter_take_step(s, row_at(pos, playlist), i as int); }
        if db.junction[i].playlist_pos == Some(pos) && db.junction[i].playlist_id == playlist {
            n = n + 1;
        }
        i = i + 1;
    }
    assert(s.take(s.len() as int) =~= s);
    n
}

/// Whether exactly one row of the playlist stands at the position.
pub fn is_pos_unique(db: &MusicDb, pos: i64, playlist: i64) -> (r: bool)
    ensures
        r == spec_is_pos_unique(db@, pos, playlist),
{
    count_rows_at(db, pos, playlist) == 1
}

/// Whether some row of the playlist stands at the position.
pub fn is_song_at_pos(db: &MusicDb, pos: i64, playlist_id: i64) -> (r: bool)
    ensures
        r == spec_is_song_at_pos(db@, pos, playlist_id),
{
    count_rows_at(db, pos, playlist_id) > 0
}

/// Whether the song stands in the playlist.
pub fn is_song_in_playlist(db: &MusicDb, song_id: &i64, list_id: &i64) -> (r: bool)
    ensures
        r == spec_is_song_in_playlist(db@, *song_id, *list_id),
{
    let mut i: usize = 0;
    while i < db.junction.len()
        invariant
            0 <= i <= db.junction@.len(),
            forall|j: int| 0 <= j < i ==> !row_links(*song_id, *list_id)(#[trigger] db@.junction[j]),
        decreases db.junction@.len() - i,
    {
        if db.junction[i].playlist_id == *list_id && db.junction[i].song_id == *song_id {
            assert(row_links(*song_id, *list_id)(db@.junction[i as int]));
            return true;
        }
        i = i + 1;
    }
    false
}

/// The position of the song's first row in the playlist.
pub fn song_pos_in(db: &MusicDb, song: i64, list_id: i64) -> (r: Result<i64, DbError>)
    ensures
        r == spec_song_pos_in(db@, song, list_id),
{
    let mut i: usize = 0;
    while i < db.junction.len()
        invariant
            0 <= i <= db.junction@.len(),
            forall|j: int| 0 <= j < i ==> !row_links(song, list_id)(#[trigger] db@.junction[j]),
        decreases db.junction@.len() - i,
    {
        if db.junction[i].song_id == song && db.junction[i].playlist_id == list_id {
            proof { lemma_first_match(db@.junction, row_links(song, list_id), i as int); }
            return Ok(match db.junction[i].playlist_pos { Some(x) => x, None => -1 });
        }
        i = i + 1;
    }
    proof { lemma_first_match(db@.junction, row_links(song, list_id), i as int); }
    Err(DbError::PositionNotFound)
}

/// Moves the song within the playlist by `increment` positions; see
/// `spec_mov_song_up`.
pub fn mov_song_up(db: &mut MusicDb, song: &Song, playlist_id: i64, increment: i64) -> (r: Result<(), DbError>)
    requires
        old(db)@.wf(),
        spec_song_pos_in(old(db)@, song.song_id, playlist_id) matches Ok(p) ==> i64::MIN <= p + increment <= i64::MAX,
    ensures
        final(db)@.wf(),
        r matches Ok(_) ==> spec_mov_song_up(old(db)@, song.song_id, playlist_id, increment) == Ok::<DbView, DbError>(final(db)@),
        r matches Err(e) ==> spec_mov_song_up(old(db)@, song.song_id, playlist_id, increment) == Err::<DbView, DbError>(e)
            && final(db)@ == old(db)@,
{
    match get_song_pos(db, song.song_id) {
        Ok(_) => {},
        Err(e) => return Err(e),
    }
    let pos = match song_pos_in(db, song.song_id, playlist_id) {
        Ok(p) => p,
        Err(_) => return Ok(()),
    };
    let new_pos = pos + increment;
    if is_song_at_pos(db, new_pos, playlist_id) && new_pos > 0 {
        let ghost old_db = db@;
        let ghost f = move_rows_at(playlist_id, new_pos, pos);
        let ghost g = move_song_rows(song.song_id, playlist_id, new_pos);
        let mut out: Vec<JunctionRow> = Vec::new();
        let mut i: usize = 0;
        while i < db.junction.len()
            invariant
                0 <= i <= db.junction@.len(),
                db@ == old_db,
                f == move_rows_at(playlist_id, new_pos, pos),
                g == move_song_rows(song.song_id, playlist_id, new_pos),
                out@.len() == i,
                forall|k: int| 0 <= k < i ==> #[trigger] out@[k] == g(f(old_db.junction[k])),
            decreases db.junction@.len() - i,
        {
            let mut row = db.junction[i];
            if row.playlist_id == playlist_id && row.playlist_pos == Some(new_pos) {
                row.playlist_pos = Some(pos);
            }
            if row.song_id == song.song_id && row.playlist_id == playlist_id {
                row.playlist_pos = Some(new_pos);
            }
            out.push(row);
            i = i + 1;
        }
        db.junction = out;
        proof {
            assert(db@.junction =~= old_db.junction.map_values(f).map_values(g));
            assert(db@.songs == old_db.songs);
            assert(db@.playlists == old_db.playlists);
            assert forall|k: int, l: int| 0 <= k < l < db@.junction.len() implies db@.junction[k].id < db@.junction[l].id by {
                assert(db@.junction[k].id == old_db.junction[k].id);
                assert(db@.junction[l].id == old_db.junction[l].id);
            }
        }
    }
    Ok(())
}

fn max_pos_of(db: &MusicDb, list_id: i64) -> (r: Option<i64>)
    ensures
        r == max_pos(db@.junction, list_id),
{
    let ghost s = db@.junction;
    let mut m: Option<i64> = None;
    let mut i: usize = 0;
    while i < db.junction.len()
        invariant
            0 <= i <= db.junction@.len(),
            s == db@.junction,
            m == max_pos(s.take(i as int), list_id),
        decreases db.junction@.len() - i,
    {
        let row = db.junction[i];
        assert(s.take(i + 1).drop_last() =~= s.take(i as int));
        if row.playlist_id == list_id {
            if let Some(v) = row.playlist_pos {
                m = match m {
                    Some(x) => Some(if x >= v { x } else { v }),
                    None => Some(v),
                };
            }
        }
        i = i + 1;
    }
    assert(s.take(s.len() as int) =~= s);
    m
}

/// The position a song appended to the playlist without one would get, when
/// it stays within `i64`.
pub fn next_position(db: &MusicDb, list_id: i64) -> (r: Option<i64>)
    ensures
        r matches Some(p) ==> p == next_pos(db@, list_id),
        r is None <==> next_pos(db@, list_id) > i64::MAX,
{
    match max_pos_of(db, list_id) {
        Some(x) => if x == i64::MAX { None } else { Some(x + 1) },
        None => Some(1),
    }
}

/// Appends the song to the playlist at the given position, or, without one,
/// one past the largest position of the playlist.
pub fn add_song_to_playlist(db: &mut MusicDb, song_id: i64, list_id: i64, playlist_pos: Option<i64>) -> (r: Result<(), DbError>)
    requires
        old(db)@.wf(),
        playlist_pos is None ==> next_pos(old(db)@, list_id) <= i64::MAX,
    ensures
        final(db)@.wf(),
        r matches Ok(_) ==> spec_add_song_to_playlist(old(db)@, song_id, list_id, playlist_pos) == Ok::<DbView, DbError>(final(db)@),
        r matches Err(e) ==> spec_add_song_to_playlist(old(db)@, song_id, list_id, playlist_pos) == Err::<DbView, DbError>(e)
            && final(db)@ == old(db)@,
{
    let pos: i64 = match playlist_pos {
        Some(e) => e,
        None => match max_pos_of(db, list_id) {
            Some(x) => x + 1,
            None => 1,
        },
    };
    let n = db.junction.len();
    let id: i64 = if n == 0 {
        1
    } else if db.junction[n - 1].id == i64::MAX {
        return Err(DbError::Full);
    } else {
        db.junction[n - 1].id + 1
    };
    let ghost old_db = db@;
    db.junction.push(JunctionRow { id, song_id, playlist_id: list_id, playlist_pos: Some(pos) });
    proof {
        assert(db@.songs == old_db.songs);
        assert(db@.playlists == old_db.playlists);
        assert forall|k: int, l: int| 0 <= k < l < db@.junction.len() implies db@.junction[k].id < db@.junction[l].id by {
            if l == db@.junction.len() - 1 && k < l {
                if k < n - 1 {
                    assert(old_db.junction[k].id < old_db.junction[n - 1].id);
                }
            } else {
                assert(db@.junction[k] == old_db.junction[k]);
                assert(db@.junction[l] == old_db.junction[l]);
            }
        }
    }
    Ok(())
}

/// Inserting by bubbling from the end: `r` lands after the last row whose
/// position is not above its own.
proof fn lemma_insert_by_pos_at(s: Seq<JunctionRow>, r: JunctionRow, k: int)
    requires
        0 <= k <= s.len(),
        forall|j: int| k <= j < s.len() ==> pos_key(#[trigger] s[j]) > pos_key(r),
        k > 0 ==> pos_key(s[k - 1]) <= pos_key(r),
    ensures
        insert_by_pos(s, r) == s.insert(k, r),
    decreases s.len(),
{
    if s.len() == 0 {
        assert(s.insert(k, r) =~= seq![r]);
    } else if k == s.len() {
        assert(s.insert(k, r) =~= s.push(r));
    } else {
        let t = s.drop_last();
        assert forall|j: int| k <= j < t.len() implies pos_key(#[trigger] t[j]) > pos_key(r) by {
            assert(t[j] == s[j]);
        }
        lemma_insert_by_pos_at(t, r, k);
        assert(s.insert(k, r) =~= t.insert(k, r).push(s.last()));
    }
}

fn sort_rows_by_pos(rows: &Vec<JunctionRow>) -> (out: Vec<JunctionRow>)
    ensures
        out@ == sort_by_pos(rows@),
{
    let mut out: Vec<JunctionRow> = Vec::new();
    let mut i: usize = 0;
    while i < rows.len()
        invariant
            0 <= i <= rows@.len(),
            out@ == sort_by_pos(rows@.take(i as int)),
        decreases rows@.len() - i,
    {
        let r = rows[i];
        let mut k: usize = out.len();
        while k > 0 && pos_after(&out[k - 1], &r)
            invariant
                0 <= k <= out@.len(),
                forall|j: int| k <= j < out@.len() ==> pos_key(#[trigger] out@[j]) > pos_key(r),
            decreases k,
        {
            k = k - 1;
        }
        proof {
            lemma_insert_by_pos_at(out@, r, k as int);
            assert(rows@.take(i + 1).drop_last() =~= rows@.take(i as int));
        }
        out.insert(k, r);
        i = i + 1;
    }
    assert(rows@.take(rows@.len() as int) =~= rows@);
    out
}

/// The songs of the first playlist with the given name, in position order.
pub fn get_songs_from_playlist(db: &MusicDb, p_playlist_name: &str) -> (r: Result<Vec<Song>, DbError>)
    ensures
        r matches Ok(v) ==> spec_get_songs_from_playlist(db@, p_playlist_name@) == Ok::<Seq<SongView>, DbError>(songs_view(v@)),
        r matches Err(e) ==> spec_get_songs_from_playlist(db@, p_playlist_name@) == Err::<Seq<SongView>, DbError>(e),
{
    let playlist = match get_playlist_by_name(db, p_playlist_name) {
        Ok(p) => p,
        Err(e) => return Err(e),
    };
    let ghost s = db@.junction;
    let mut members: Vec<JunctionRow> = Vec::new();
    let mut i: usize = 0;
    while i < db.junction.len()
        invariant
            0 <= i <= db.junction@.len(),
            s == db@.junction,
            members@ == s.take(i as int).filter(row_of_list(playlist.list_id)),
        decreases db.junction@.len() - i,
    {
        proof { lemma_filter_take_step(s, row_of_list(playlist.list_id), i as int); }
        if db.junction[i].playlist_id == playlist.list_id {
            members.push(db.junction[i]);
        }
        i = i + 1;
    }
    assert(s.take(s.len() as int) =~= s);
    let ordered = sort_rows_by_pos(&members);
    let mut songs: Vec<Song> = Vec::new();
    let mut j: usize = 0;
    while j < ordered.len()
        invariant
            0 <= j <= ordered@.len(),
            songs@.len() == j,
            forall|k: int| 0 <= k < j ==> (#[trigger] songs@[k])@ == song_of_row(db@)(ordered@[k]),
        decreases ordered@.len() - j,
    {
        let song = get_song_info(db, &ordered[j].song_id);
        songs.push(song);
        j = j + 1;
    }
    assert(songs_view(songs@) =~= ordered@.map_values(song_of_row(db@)));
    Ok(songs)
}

/// Takes the song out of the playlist, which must exist.
pub fn remove_song_from_playlist(db: &mut MusicDb, playlist_id: i64, song_id: i64) -> (r: Result<(), DbError>)
    requires
        old(db)@.wf(),
    ensures
        final(db)@.wf(),
        r matches Ok(_) ==> spec_remove_song_from_playlist(old(db)@, playlist_id, song_id) == Ok::<DbView, DbError>(final(db)@),
        r matches Err(e) ==> spec_remove_song_from_playlist(old(db)@, playlist_id, song_id) == Err::<DbView, DbError>(e)
            && final(db)@ == old(db)@,
{
    let song = get_song_info(db, &song_id);
    let playlist = match get_playlist_by_id(db, playlist_id) {
        Ok(p) => p,
        Err(e) => return Err(e),
    };
    proof {
        lemma_first_match_facts(db@.songs, song_has_id(song_id));
        lemma_first_match_facts(db@.playlists, list_has_id(playlist_id));
    }
    let ghost old_db = db@;
    let ghost s = db@.junction;
    let mut out: Vec<JunctionRow> = Vec::new();
    let mut i: usize = 0;
    while i < db.junction.len()
        invariant
            0 <= i <= db.junction@.len(),
            db@ == old_db,
            s == old_db.junction,
            song.song_id == song_id,
            playlist.list_id == playlist_id,
            out@ == s.take(i as int).filter(not_link(song_id, playlist_id)),
        decreases db.junction@.len() - i,
    {
        proof { lemma_filter_take_step(s, not_link(song_id, playlist_id), i as int); }
        let row = db.junction[i];
        if !(row.playlist_id == playlist.list_id && row.song_id == song.song_id) {
            out.push(row);
        }
        i = i + 1;
    }
    assert(s.take(s.len() as int) =~= s);
    db.junction = out;
    proof {
        lemma_filter_keeps_row_order(s, not_link(song_id, playlist_id));
        assert(db@.songs == old_db.songs);
        assert(db@.playlists == old_db.playlists);
    }
    Ok(())
}

/// Dropping junction rows keeps the rest in id order.
proof fn lemma_filter_keeps_row_order(s: Seq<JunctionRow>, p: spec_fn(JunctionRow) -> bool)
    requires
        junction_ids_increasing(s),
    ensures
        junction_ids_increasing(s.filter(p)),
    decreases s.len(),
{
    reveal_with_fuel(Seq::filter, 1);
    if s.len() > 0 {
        let front = s.drop_last();
        lemma_filter_keeps_row_order(front, p);
        let f = front.filter(p);
        if p(s.last()) {
            lemma_filter_from(front, p);
            assert forall|k: int, l: int| 0 <= k < l < f.len() + 1 implies f.push(s.last())[k].id < f.push(s.last())[l].id by {
                if l == f.len() {
                    let m = choose|m: int| 0 <= m < front.len() && front[m] == f[k];
                    assert(s[m] == front[m]);
                }
            }
        }
    }
}


// ---------------------------------------------------------------------------
// Laws
// ---------------------------------------------------------------------------

/// The first match in a sequence extended at the end is the old first match,
/// or the new element when nothing matched before and it matches.
pub proof fn lemma_first_match_push<T>(s: Seq<T>, x: T, p: spec_fn(T) -> bool)
    ensures
        first_match(s.push(x), p) == (match first_match(s, p) {
            Some(i) => Some(i),
            None => if p(x) { Some(s.len() as int) } else { None },
        }),
{
    let t = s.push(x);
    lemma_first_match_facts(s, p);
    match first_match(s, p) {
        Some(i) => {
            assert forall|j: int| 0 <= j < i implies !p(#[trigger] t[j]) by {
                assert(t[j] == s[j]);
            }
            assert(t[i] == s[i]);
            lemma_first_match(t, p, i);
        },
        None => {
            assert forall|j: int| 0 <= j < s.len() implies !p(#[trigger] t[j]) by {
                assert(t[j] == s[j]);
            }
            assert(t[s.len() as int] == x);
            if p(x) {
                lemma_first_match(t, p, s.len() as int);
            } else {
                lemma_first_match(t, p, t.len() as int);
            }
        },
    }
}

/// A song added is found again: by the id it got, with its name and path; by
/// its path, which is no longer free; and the song count grows by one.
pub proof fn law_add_song_read_back(db: DbView, name: Seq<char>, path: Seq<char>)
    requires
        db.wf(),
        db.song_seq < i64::MAX,
    ensures
        spec_add_song(db, name, path) matches Ok(d) && {
            &&& d.wf()
            &&& d.songs.len() == db.songs.len() + 1
            &&& spec_get_song_info(d, d.song_seq) == (SongView { song_id: d.song_seq, song_name: name, path })
            &&& !spec_is_path_unique(d, path)
            &&& spec_is_path_unique(db, path) ==> spec_get_song_by_path(d, path)
                == Ok::<SongView, DbError>(SongView { song_id: d.song_seq, song_name: name, path })
        },
{
    let id = (db.song_seq + 1) as i64;
    let new = SongView { song_id: id, song_name: name, path };
    let d = DbView { songs: db.songs.push(new), song_seq: id, ..db };
    assert(spec_add_song(db, name, path) == Ok::<DbView, DbError>(d));
    assert(song_ids(d.songs) =~= song_ids(db.songs).push(id));
    assert(d.songs[db.songs.len() as int] == new);
    lemma_first_match_push(db.songs, new, song_has_id(id));
    lemma_first_match_facts(db.songs, song_has_id(id));
    if let Some(i) = first_match(db.songs, song_has_id(id)) {
        assert(song_ids(db.songs)[i] == db.songs[i].song_id);
    }
    lemma_first_match_push(db.songs, new, song_has_path(path));
    lemma_first_match_facts(db.songs, song_has_path(path));
}

/// Renaming a song that exists: reading it back by id gives the new name and
/// the old path.
pub proof fn law_update_song_read_back(db: DbView, id: i64, name: Seq<char>)
    requires
        db.wf(),
        exists|i: int| 0 <= i < db.songs.len() && db.songs[i].song_id == id,
    ensures
        spec_get_song_info(spec_update_song(db, id, name), id)
            == (SongView { song_id: id, song_name: name, path: spec_get_song_info(db, id).path }),
{
    let d = spec_update_song(db, id, name);
    lemma_first_match_facts(db.songs, song_has_id(id));
    let i = first_match(db.songs, song_has_id(id)).unwrap();
    assert forall|j: int| 0 <= j < i implies !song_has_id(id)(#[trigger] d.songs[j]) by {
        assert(d.songs[j] == rename_song(id, name)(db.songs[j]));
    }
    assert(d.songs[i] == rename_song(id, name)(db.songs[i]));
    lemma_first_match(d.songs, song_has_id(id), i);
}

/// A playlist added is no longer a free name, and it is listed among the
/// user-created playlists exactly when it was added as user-created.
pub proof fn law_add_playlist_read_back(db: DbView, name: Seq<char>, user_created: bool)
    requires
        db.wf(),
        db.playlist_seq < i64::MAX,
    ensures
        spec_add_playlist(db, name, user_created) matches Ok(d) && {
            &&& !spec_is_playlist_unique(d, name)
            &&& spec_get_user_created_playlist(d) == spec_get_user_created_playlist(db) + (if user_created {
                seq![PlaylistView { list_id: d.playlist_seq, list_name: name, is_user_created: true }]
            } else {
                Seq::empty()
            })
        },
{
    let id = (db.playlist_seq + 1) as i64;
    let row = PlaylistRowView { list_id: id, list_name: name, is_user_created: flag_of(user_created) };
    let d = DbView { playlists: db.playlists.push(row), playlist_seq: id, ..db };
    assert(spec_add_playlist(db, name, user_created) == Ok::<DbView, DbError>(d));
    assert(d.playlists[db.playlists.len() as int] == row);
    reveal_with_fuel(Seq::filter, 1);
    assert(d.playlists.drop_last() =~= db.playlists);
    let f = db.playlists.filter(is_user_row());
    let g = |r: PlaylistRowView| user_listed(r);
    if user_created {
        assert(d.playlists.filter(is_user_row()) == f.push(row));
        lemma_map_push(f, row, g);
        assert(f.map_values(g).push(g(row)) =~= f.map_values(g) + seq![g(row)]);
    } else {
        assert(d.playlists.filter(is_user_row()) == f);
        assert(f.map_values(g) + Seq::<PlaylistView>::empty() =~= f.map_values(g));
    }
}

/// After removing the playlists of a name, the name is free.
pub proof fn law_remove_playlist_frees_name(db: DbView, name: Seq<char>)
    ensures
        spec_is_playlist_unique(spec_remove_playlist(db, name), name),
{
    broadcast use vstd::seq_lib::group_filter_ensures;
    let f = db.playlists.filter(name_differs(name));
    assert forall|i: int| 0 <= i < f.len() implies f[i].list_name != name by {
        assert(name_differs(name)(f[i]));
    }
}

/// After a song is taken out of a playlist, it no longer stands there.
pub proof fn law_remove_song_from_playlist(db: DbView, list_id: i64, song_id: i64)
    ensures
        spec_remove_song_from_playlist(db, list_id, song_id) matches Ok(d) ==> !spec_is_song_in_playlist(d, song_id, list_id),
{
    broadcast use vstd::seq_lib::group_filter_ensures;
    if let Ok(d) = spec_remove_song_from_playlist(db, list_id, song_id) {
        let f = db.junction.filter(not_link(song_id, list_id));
        assert(d.junction == f);
        assert forall|i: int| 0 <= i < f.len() implies !#[trigger] row_links(song_id, list_id)(f[i]) by {
            assert(not_link(song_id, list_id)(f[i]));
        }
    }
}

/// Every element of `insert_by_pos(s, r)` and `sort_by_pos(s)` comes from
/// the input, and sorting keeps the length.
proof fn lemma_sort_elements(s: Seq<JunctionRow>)
    ensures
        sort_by_pos(s).len() == s.len(),
        forall|k: int| 0 <= k < sort_by_pos(s).len() ==> s.contains(#[trigger] sort_by_pos(s)[k]),
    decreases s.len(),
{
    if s.len() > 0 {
        let t = s.drop_last();
        lemma_sort_elements(t);
        lemma_insert_elements(sort_by_pos(t), s.last());
        assert forall|k: int| 0 <= k < sort_by_pos(s).len() implies s.contains(#[trigger] sort_by_pos(s)[k]) by {
            let x = sort_by_pos(s)[k];
            if x != s.last() {
                assert(sort_by_pos(t).contains(x));
                let m = choose|m: int| 0 <= m < sort_by_pos(t).len() && sort_by_pos(t)[m] == x;
                assert(t.contains(x));
                let j = choose|j: int| 0 <= j < t.len() && t[j] == x;
                assert(s[j] == x);
            } else {
                assert(s[s.len() - 1] == x);
            }
        }
    }
}

proof fn lemma_insert_elements(s: Seq<JunctionRow>, r: JunctionRow)
    ensures
        insert_by_pos(s, r).len() == s.len() + 1,
        forall|k: int| 0 <= k < insert_by_pos(s, r).len() ==> #[trigger] insert_by_pos(s, r)[k] == r || s.contains(insert_by_pos(s, r)[k]),
    decreases s.len(),
{
    if s.len() > 0 && pos_key(s.last()) > pos_key(r) {
        let t = s.drop_last();
        lemma_insert_elements(t, r);
        assert forall|k: int| 0 <= k < insert_by_pos(s, r).len() implies #[trigger] insert_by_pos(s, r)[k] == r || s.contains(insert_by_pos(s, r)[k]) by {
            let x = insert_by_pos(s, r)[k];
            if k < insert_by_pos(t, r).len() {
                if x != r {
                    let j = choose|j: int| 0 <= j < t.len() && t[j] == x;
                    assert(s[j] == x);
                }
            } else {
                assert(s[s.len() - 1] == x);
            }
        }
    } else if s.len() > 0 {
        assert forall|k: int| 0 <= k < insert_by_pos(s, r).len() implies #[trigger] insert_by_pos(s, r)[k] == r || s.contains(insert_by_pos(s, r)[k]) by {
            if k < s.len() {
                assert(insert_by_pos(s, r)[k] == s[k]);
            }
        }
    }
}

/// Rows in ascending position order.
pub open spec fn sorted_by_pos(s: Seq<JunctionRow>) -> bool {
    forall|i: int, j: int| 0 <= i < j < s.len() ==> pos_key(s[i]) <= pos_key(s[j])
}

proof fn lemma_insert_sorted(s: Seq<JunctionRow>, r: JunctionRow)
    requires
        sorted_by_pos(s),
    ensures
        sorted_by_pos(insert_by_pos(s, r)),
    decreases s.len(),
{
    lemma_insert_elements(s, r);
    if s.len() > 0 && pos_key(s.last()) > pos_key(r) {
        let t = s.drop_last();
        lemma_insert_sorted(t, r);
        lemma_insert_elements(t, r);
        let u = insert_by_pos(t, r);
        assert forall|i: int, j: int| 0 <= i < j < u.len() + 1 implies pos_key(u.push(s.last())[i]) <= pos_key(u.push(s.last())[j]) by {
            if j == u.len() {
                let x = u[i];
                if x != r {
                    let m = choose|m: int| 0 <= m < t.len() && t[m] == x;
                    assert(s[m] == x);
                    assert(s[s.len() - 1] == s.last());
                }
            }
        }
    }
}

/// The songs of a playlist come in ascending position order: the ordering of
/// rows is sorted and drops or invents no row.
pub proof fn law_sort_by_pos(s: Seq<JunctionRow>)
    ensures
        sorted_by_pos(sort_by_pos(s)),
        sort_by_pos(s).len() == s.len(),
        forall|k: int| 0 <= k < sort_by_pos(s).len() ==> s.contains(#[trigger] sort_by_pos(s)[k]),
    decreases s.len(),
{
    lemma_sort_elements(s);
    if s.len() > 0 {
        law_sort_by_pos(s.drop_last());
        lemma_insert_sorted(sort_by_pos(s.drop_last()), s.last());
    }
}


/// The largest position of the playlist, 0 when it has none.
pub open spec fn max_or_zero(s: Seq<JunctionRow>, l: i64) -> int {
    match max_pos(s, l) {
        Some(x) => x as int,
        None => 0,
    }
}

/// Every row of the playlist sorts at or below the largest position, and a
/// row with a position has one.
pub proof fn lemma_max_pos_upper(s: Seq<JunctionRow>, l: i64)
    ensures
        forall|i: int| #![trigger s[i]] 0 <= i < s.len() && s[i].playlist_id == l ==>
            pos_key(s[i]) <= max_or_zero(s, l) && (s[i].playlist_pos is Some ==> max_pos(s, l) is Some),
    decreases s.len(),
{
    if s.len() > 0 {
        let t = s.drop_last();
        lemma_max_pos_upper(t, l);
        assert forall|i: int| #![trigger s[i]] 0 <= i < s.len() && s[i].playlist_id == l implies
            pos_key(s[i]) <= max_or_zero(s, l) && (s[i].playlist_pos is Some ==> max_pos(s, l) is Some) by {
            if i < s.len() - 1 {
                assert(s[i] == t[i]);
                assert(t[i].playlist_id == l);
            } else {
                assert(s[i] == s.last());
            }
        }
    }
}

/// A song appended to a playlist without a position comes last in that
/// playlist: its song list is the old one with the song at the end.
pub proof fn law_append_song_comes_last(db: DbView, name: Seq<char>, song_id: i64)
    requires
        db.wf(),
        spec_get_playlist_by_name(db, name) is Ok,
        next_pos(db, spec_get_playlist_by_name(db, name).unwrap().list_id) <= i64::MAX,
        next_row_id(db.junction) is Some,
    ensures
        ({
            let l = spec_get_playlist_by_name(db, name).unwrap().list_id;
            spec_add_song_to_playlist(db, song_id, l, None) matches Ok(d) && {
                &&& spec_is_song_in_playlist(d, song_id, l)
                &&& spec_get_songs_from_playlist(d, name) == Ok::<Seq<SongView>, DbError>(
                    spec_get_songs_from_playlist(db, name).unwrap().push(spec_get_song_info(db, song_id)))
            }
        }),
{
    let l = spec_get_playlist_by_name(db, name).unwrap().list_id;
    let p = next_pos(db, l) as i64;
    let id = next_row_id(db.junction).unwrap();
    let r = JunctionRow { id, song_id, playlist_id: l, playlist_pos: Some(p) };
    let d = DbView { junction: db.junction.push(r), ..db };
    assert(spec_add_song_to_playlist(db, song_id, l, None) == Ok::<DbView, DbError>(d));
    assert(d.junction[db.junction.len() as int] == r);
    assert(row_links(song_id, l)(d.junction[db.junction.len() as int]));
    let f = db.junction.filter(row_of_list(l));
    reveal_with_fuel(Seq::filter, 1);
    assert(d.junction.drop_last() =~= db.junction);
    assert(d.junction.filter(row_of_list(l)) == f.push(r));
    assert(f.push(r).drop_last() =~= f);
    let sorted = sort_by_pos(f);
    assert(sort_by_pos(f.push(r)) == insert_by_pos(sorted, r));
    if sorted.len() > 0 {
        lemma_sort_elements(f);
        assert(f.contains(sorted[sorted.len() - 1]));
        let m = choose|m: int| 0 <= m < f.len() && f[m] == sorted[sorted.len() - 1];
        lemma_filter_from(db.junction, row_of_list(l));
        let k = choose|k: int| 0 <= k < db.junction.len() && db.junction[k] == f[m];
        broadcast use vstd::seq_lib::group_filter_ensures;
        assert(row_of_list(l)(f[m]));
        lemma_max_pos_upper(db.junction, l);
        assert(pos_key(db.junction[k]) <= max_or_zero(db.junction, l));
        assert(sorted.last() == sorted[sorted.len() - 1]);
    }
    assert(insert_by_pos(sorted, r) == sorted.push(r));
    assert(song_of_row(d) =~= song_of_row(db));
    lemma_map_push(sorted, r, song_of_row(db));
}


/// Some row satisfies the predicate exactly when the filter keeps one.
pub proof fn lemma_filter_nonempty<T>(s: Seq<T>, p: spec_fn(T) -> bool)
    ensures
        (s.filter(p).len() > 0) == (exists|i: int| 0 <= i < s.len() && #[trigger] p(s[i])),
{
    broadcast use vstd::seq_lib::group_filter_ensures;
    if s.filter(p).len() > 0 {
        lemma_filter_from(s, p);
        let m = choose|m: int| 0 <= m < s.len() && s[m] == s.filter(p)[0];
        assert(p(s.filter(p)[0]));
        assert(p(s[m]));
    }
    if exists|i: int| 0 <= i < s.len() && #[trigger] p(s[i]) {
        let i = choose|i: int| 0 <= i < s.len() && #[trigger] p(s[i]);
        assert(s.filter(p).contains(s[i]));
    }
}

/// Moving a song by any amount and back again restores the table, when the
/// song has one row in the playlist, no other row of the playlist shares its
/// positive position, and some row of the playlist stands at the positive
/// target position.
pub proof fn law_move_round_trip(db: DbView, song_id: i64, l: i64, k: int, inc: i64)
    requires
        db.wf(),
        0 <= k < db.junction.len(),
        db.junction[k].song_id == song_id,
        db.junction[k].playlist_id == l,
        db.junction[k].playlist_pos is Some,
        pos_or_null(db.junction[k].playlist_pos) >= 1,
        1 <= pos_or_null(db.junction[k].playlist_pos) + inc <= i64::MAX,
        forall|j: int| 0 <= j < db.junction.len() && j != k ==>
            !(#[trigger] db.junction[j].song_id == song_id && db.junction[j].playlist_id == l),
        forall|j: int| 0 <= j < db.junction.len() && j != k ==>
            !(#[trigger] db.junction[j].playlist_id == l && db.junction[j].playlist_pos == db.junction[k].playlist_pos),
        exists|j: int| 0 <= j < db.junction.len() && #[trigger] row_at((pos_or_null(db.junction[k].playlist_pos) + inc) as i64, l)(db.junction[j]),
    ensures
        spec_mov_song_up(db, song_id, l, inc) matches Ok(d1)
            && spec_mov_song_up(d1, song_id, l, (-inc) as i64) == Ok::<DbView, DbError>(db),
{
    let jn = db.junction;
    let p = pos_or_null(jn[k].playlist_pos);
    let t = (p + inc) as i64;
    assert forall|j: int| 0 <= j < k implies !row_links(song_id, l)(#[trigger] jn[j]) by {}
    lemma_first_match(jn, row_links(song_id, l), k);
    assert(spec_song_pos_in(db, song_id, l) == Ok::<i64, DbError>(p));
    lemma_first_match_facts(jn, row_of_song(song_id));
    assert(row_of_song(song_id)(jn[k]));
    assert(spec_get_song_pos(db, song_id) is Ok);
    lemma_filter_nonempty(jn, row_at(t, l));
    assert(spec_is_song_at_pos(db, t, l));
    let f1 = move_rows_at(l, t, p);
    let g1 = move_song_rows(song_id, l, t);
    let j1 = jn.map_values(f1).map_values(g1);
    let d1 = DbView { junction: j1, ..db };
    assert(spec_mov_song_up(db, song_id, l, inc) == Ok::<DbView, DbError>(d1));
    // After the first move the song's row is at t, the other rows of the
    // playlist that were at t are at p, the rest is unchanged.
    assert(j1[k] == set_pos(jn[k], t));
    assert forall|j: int| 0 <= j < k implies !row_links(song_id, l)(#[trigger] j1[j]) by {
        assert(j1[j].song_id == jn[j].song_id);
        assert(j1[j].playlist_id == jn[j].playlist_id);
    }
    lemma_first_match(j1, row_links(song_id, l), k);
    assert(spec_song_pos_in(d1, song_id, l) == Ok::<i64, DbError>(t));
    lemma_first_match_facts(j1, row_of_song(song_id));
    assert(row_of_song(song_id)(j1[k]));
    assert(spec_get_song_pos(d1, song_id) is Ok);
    assert(row_at(p, l)(j1[k]) || exists|j: int| 0 <= j < j1.len() && #[trigger] row_at(p, l)(j1[j])) by {
        let w = choose|j: int| 0 <= j < jn.len() && #[trigger] row_at(t, l)(jn[j]);
        if w != k {
            assert(row_at(p, l)(j1[w]));
        } else {
            assert(row_at(p, l)(j1[k]));
        }
    }
    lemma_filter_nonempty(j1, row_at(p, l));
    assert(spec_is_song_at_pos(d1, p, l));
    assert((t + (-inc) as i64) as i64 == p);
    let f2 = move_rows_at(l, p, t);
    let g2 = move_song_rows(song_id, l, p);
    let j2 = j1.map_values(f2).map_values(g2);
    assert forall|j: int| 0 <= j < jn.len() implies #[trigger] j2[j] == jn[j] by {
        if j != k {
            assert(!(jn[j].song_id == song_id && jn[j].playlist_id == l));
        }
    }
    assert(j2 =~= jn);
    assert(spec_mov_song_up(d1, song_id, l, (-inc) as i64) == Ok::<DbView, DbError>(DbView { junction: j2, ..d1 }));
}

/// Moving a song changes only rows of that playlist: every row of another
/// playlist stays as it was, and no row is added, dropped or reordered.
pub proof fn law_move_stays_in_playlist(db: DbView, song_id: i64, l: i64, inc: i64)
    requires
        spec_mov_song_up(db, song_id, l, inc) is Ok,
    ensures
        ({
            let d = spec_mov_song_up(db, song_id, l, inc).unwrap();
            &&& d.junction.len() == db.junction.len()
            &&& forall|j: int| 0 <= j < db.junction.len() ==> (#[trigger] d.junction[j]).id == db.junction[j].id
                && d.junction[j].song_id == db.junction[j].song_id
                && d.junction[j].playlist_id == db.junction[j].playlist_id
            &&& forall|j: int| 0 <= j < db.junction.len() && db.junction[j].playlist_id != l
                ==> #[trigger] d.junction[j] == db.junction[j]
            &&& d.songs == db.songs && d.playlists == db.playlists
        }),
{
}

/// The positions held by rows of the playlist.
pub open spec fn positions_of(s: Seq<JunctionRow>, l: i64) -> Set<i64> {
    Set::new(|x: i64| exists|j: int| 0 <= j < s.len() && #[trigger] row_at(x, l)(s[j]))
}

/// No two rows of the playlist share a position.
pub open spec fn distinct_positions(s: Seq<JunctionRow>, l: i64) -> bool {
    forall|i: int, j: int|
        0 <= i < s.len() && 0 <= j < s.len() && i != j && #[trigger] s[i].playlist_id == l
            && #[trigger] s[j].playlist_id == l ==> s[i].playlist_pos != s[j].playlist_pos
}

/// When the positions of a playlist are distinct and the song has one row in
/// it, moving the song keeps the set of positions of the playlist and their
/// distinctness, and every row keeps its song and playlist: the song only
/// trades places with the row at the target.
pub proof fn law_move_keeps_positions(db: DbView, song_id: i64, l: i64, k: int, inc: i64)
    requires
        0 <= k < db.junction.len(),
        db.junction[k].song_id == song_id,
        db.junction[k].playlist_id == l,
        forall|j: int| 0 <= j < db.junction.len() && j != k ==>
            !(#[trigger] db.junction[j].song_id == song_id && db.junction[j].playlist_id == l),
        distinct_positions(db.junction, l),
        db.junction[k].playlist_pos is Some,
        i64::MIN <= pos_or_null(db.junction[k].playlist_pos) + inc <= i64::MAX,
    ensures
        spec_mov_song_up(db, song_id, l, inc) matches Ok(d) && {
            &&& d.junction.len() == db.junction.len()
            &&& forall|j: int| 0 <= j < db.junction.len() ==> (#[trigger] d.junction[j]).song_id == db.junction[j].song_id
                && d.junction[j].playlist_id == db.junction[j].playlist_id
            &&& positions_of(d.junction, l) == positions_of(db.junction, l)
            &&& distinct_positions(d.junction, l)
        },
{
    let jn = db.junction;
    let p = pos_or_null(jn[k].playlist_pos);
    let t = (p + inc) as i64;
    assert forall|j: int| 0 <= j < k implies !row_links(song_id, l)(#[trigger] jn[j]) by {}
    lemma_first_match(jn, row_links(song_id, l), k);
    lemma_first_match_facts(jn, row_of_song(song_id));
    assert(row_of_song(song_id)(jn[k]));
    assert(spec_get_song_pos(db, song_id) is Ok);
    assert(spec_song_pos_in(db, song_id, l) == Ok::<i64, DbError>(p));
    lemma_filter_nonempty(jn, row_at(t, l));
    if spec_is_song_at_pos(db, t, l) && t > 0 {
        let w = choose|j: int| 0 <= j < jn.len() && #[trigger] row_at(t, l)(jn[j]);
        let d = spec_mov_song_up(db, song_id, l, inc).unwrap();
        let jd = d.junction;
        assert(jd == jn.map_values(move_rows_at(l, t, p)).map_values(move_song_rows(song_id, l, t)));
        assert(jd[k].playlist_pos == Some(t));
        assert(jd[w].playlist_pos == Some(p));
        // only w stands at t, only k at p
        assert forall|j: int| 0 <= j < jn.len() && j != k && j != w && jn[j].playlist_id == l
            implies #[trigger] jd[j] == jn[j] && jn[j].playlist_pos != Some(t) && jn[j].playlist_pos != Some(p) by {
            assert(jn[j].playlist_pos != jn[w].playlist_pos);
            assert(jn[j].playlist_pos != jn[k].playlist_pos);
        }
        assert forall|x: i64| positions_of(jd, l).contains(x) <==> positions_of(jn, l).contains(x) by {
            if positions_of(jn, l).contains(x) {
                let j = choose|j: int| 0 <= j < jn.len() && #[trigger] row_at(x, l)(jn[j]);
                if j == k {
                    assert(row_at(x, l)(jd[w]));
                } else if j == w {
                    assert(row_at(x, l)(jd[k]));
                } else {
                    assert(row_at(x, l)(jd[j]));
                }
            }
            if positions_of(jd, l).contains(x) {
                let j = choose|j: int| 0 <= j < jd.len() && #[trigger] row_at(x, l)(jd[j]);
                if j == k {
                    assert(row_at(x, l)(jn[w]));
                } else if j == w {
                    assert(row_at(x, l)(jn[k]));
                } else {
                    assert(row_at(x, l)(jn[j]));
                }
            }
        }
        assert(positions_of(jd, l) =~= positions_of(jn, l));
        assert forall|i: int, j: int|
            0 <= i < jd.len() && 0 <= j < jd.len() && i != j && #[trigger] jd[i].playlist_id == l
                && #[trigger] jd[j].playlist_id == l implies jd[i].playlist_pos != jd[j].playlist_pos by {
            assert(jn[i].playlist_id == l && jn[j].playlist_id == l);
            if w == k {
                assert(jd[i] == jn[i] || i == k);
                assert(jd[j] == jn[j] || j == k);
            }
        }
    } else {
        assert(positions_of(jn, l) =~= positions_of(jn, l));
    }
}

/// Taking a song out of a playlist removes exactly its rows in that playlist:
/// every other row, of this or any other playlist, stays, and no row appears.
pub proof fn law_remove_song_keeps_other_rows(db: DbView, list_id: i64, song_id: i64)
    ensures
        spec_remove_song_from_playlist(db, list_id, song_id) matches Ok(d) ==> {
            &&& forall|i: int| 0 <= i < db.junction.len()
                && !(db.junction[i].playlist_id == list_id && db.junction[i].song_id == song_id)
                ==> d.junction.contains(#[trigger] db.junction[i])
            &&& forall|i: int| 0 <= i < d.junction.len() ==> db.junction.contains(#[trigger] d.junction[i])
                && !(d.junction[i].playlist_id == list_id && d.junction[i].song_id == song_id)
        },
        spec_remove_song_from_playlist(db, list_id, song_id) is Err <==> spec_get_playlist_by_id(db, list_id) is Err,
{
    broadcast use vstd::seq_lib::group_filter_ensures;
    if let Ok(d) = spec_remove_song_from_playlist(db, list_id, song_id) {
        let p = not_link(song_id, list_id);
        assert(d.junction == db.junction.filter(p));
        assert forall|i: int| 0 <= i < db.junction.len()
            && !(db.junction[i].playlist_id == list_id && db.junction[i].song_id == song_id)
            implies d.junction.contains(#[trigger] db.junction[i]) by {
            assert(p(db.junction[i]));
        }
        assert forall|i: int| 0 <= i < d.junction.len() implies db.junction.contains(#[trigger] d.junction[i])
            && !(d.junction[i].playlist_id == list_id && d.junction[i].song_id == song_id) by {
            assert(p(d.junction[i]));
            lemma_filter_from(db.junction, p);
            let m = choose|m: int| 0 <= m < db.junction.len() && db.junction[m] == d.junction[i];
            assert(db.junction[m] == d.junction[i]);
        }
    }
}

/// Removing the playlists of a name removes exactly those: every playlist of
/// another name stays, and no playlist appears.
pub proof fn law_remove_playlist_keeps_others(db: DbView, name: Seq<char>)
    ensures
        ({
            let d = spec_remove_playlist(db, name);
            &&& forall|i: int| 0 <= i < db.playlists.len() && db.playlists[i].list_name != name
                ==> d.playlists.contains(#[trigger] db.playlists[i])
            &&& forall|i: int| 0 <= i < d.playlists.len() ==> db.playlists.contains(#[trigger] d.playlists[i])
                && d.playlists[i].list_name != name
            &&& d.songs == db.songs && d.junction == db.junction
        }),
{
    broadcast use vstd::seq_lib::group_filter_ensures;
    let d = spec_remove_playlist(db, name);
    let p = name_differs(name);
    assert forall|i: int| 0 <= i < db.playlists.len() && db.playlists[i].list_name != name
        implies d.playlists.contains(#[trigger] db.playlists[i]) by {
        assert(p(db.playlists[i]));
    }
    assert forall|i: int| 0 <= i < d.playlists.len() implies db.playlists.contains(#[trigger] d.playlists[i])
        && d.playlists[i].list_name != name by {
        assert(p(d.playlists[i]));
        lemma_filter_from(db.playlists, p);
        let m = choose|m: int| 0 <= m < db.playlists.len() && db.playlists[m] == d.playlists[i];
        assert(db.playlists[m] == d.playlists[i]);
    }
}

/// Renaming a playlist changes the name of the rows with that id and nothing
/// else: other rows, ids, flags, songs and the junction table stay.
pub proof fn law_update_playlist_renames_only(db: DbView, id: i64, name: Seq<char>)
    ensures
        ({
            let d = spec_update_playlist(db, id, name);
            &&& d.playlists.len() == db.playlists.len()
            &&& forall|i: int| 0 <= i < db.playlists.len() && db.playlists[i].list_id != id
                ==> #[trigger] d.playlists[i] == db.playlists[i]
            &&& forall|i: int| 0 <= i < db.playlists.len() && db.playlists[i].list_id == id
                ==> (#[trigger] d.playlists[i]).list_name == name && d.playlists[i].list_id == id
                && d.playlists[i].is_user_created == db.playlists[i].is_user_created
            &&& d.songs == db.songs && d.junction == db.junction
            &&& d.song_seq == db.song_seq && d.playlist_seq == db.playlist_seq
        }),
{
}

/// Renaming a song changes the name of the songs with that id and nothing
/// else: other songs, ids, paths, playlists and the junction table stay.
pub proof fn law_update_song_renames_only(db: DbView, id: i64, name: Seq<char>)
    ensures
        ({
            let d = spec_update_song(db, id, name);
            &&& d.songs.len() == db.songs.len()
            &&& forall|i: int| 0 <= i < db.songs.len() && db.songs[i].song_id != id
                ==> #[trigger] d.songs[i] == db.songs[i]
            &&& forall|i: int| 0 <= i < db.songs.len() && db.songs[i].song_id == id
                ==> (#[trigger] d.songs[i]).song_name == name && d.songs[i].song_id == id
                && d.songs[i].path == db.songs[i].path
            &&& d.playlists == db.playlists && d.junction == db.junction
            &&& d.song_seq == db.song_seq && d.playlist_seq == db.playlist_seq
        }),
{
}

/// The songs of a playlist are the songs of its junction rows in position
/// order: there is an ordering of exactly the playlist's rows, ascending by
/// position (NULL first), whose songs are the list.
pub proof fn law_playlist_songs_in_position_order(db: DbView, name: Seq<char>)
    requires
        spec_get_songs_from_playlist(db, name) is Ok,
    ensures
        ({
            let l = spec_get_playlist_by_name(db, name).unwrap().list_id;
            let v = spec_get_songs_from_playlist(db, name).unwrap();
            exists|rs: Seq<JunctionRow>| {
                &&& #[trigger] sorted_by_pos(rs)
                &&& rs.len() == db.junction.filter(row_of_list(l)).len()
                &&& rs.to_multiset() == db.junction.filter(row_of_list(l)).to_multiset()
                &&& v.len() == rs.len()
                &&& forall|k: int| 0 <= k < rs.len() ==> rs[k].playlist_id == l
                    && #[trigger] v[k] == spec_get_song_info(db, rs[k].song_id)
            }
        }),
{
    broadcast use vstd::seq_lib::group_filter_ensures;
    let l = spec_get_playlist_by_name(db, name).unwrap().list_id;
    let f = db.junction.filter(row_of_list(l));
    let rs = sort_by_pos(f);
    law_sort_by_pos(f);
    lemma_sort_multiset(f);
    assert forall|k: int| 0 <= k < rs.len() implies rs[k].playlist_id == l by {
        let m = choose|m: int| 0 <= m < f.len() && f[m] == rs[k];
        assert(row_of_list(l)(f[m]));
    }
    assert(sorted_by_pos(rs));
}

/// Sorting by position keeps the rows, each as often as before.
proof fn lemma_sort_multiset(s: Seq<JunctionRow>)
    ensures
        sort_by_pos(s).to_multiset() == s.to_multiset(),
    decreases s.len(),
{
    broadcast use vstd::seq_lib::group_to_multiset_ensures;
    if s.len() > 0 {
        let t = s.drop_last();
        lemma_sort_multiset(t);
        lemma_insert_multiset(sort_by_pos(t), s.last());
        assert(s =~= t.push(s.last()));
    }
}

proof fn lemma_insert_multiset(s: Seq<JunctionRow>, r: JunctionRow)
    ensures
        insert_by_pos(s, r).to_multiset() == s.to_multiset().insert(r),
    decreases s.len(),
{
    broadcast use vstd::seq_lib::group_to_multiset_ensures;
    if s.len() > 0 && pos_key(s.last()) > pos_key(r) {
        let t = s.drop_last();
        lemma_insert_multiset(t, r);
        assert(s =~= t.push(s.last()));
        assert(insert_by_pos(t, r).push(s.last()).to_multiset() =~= t.to_multiset().insert(r).insert(s.last()));
        assert(s.to_multiset().insert(r) =~= t.to_multiset().insert(s.last()).insert(r));
    }
}

/// Looking a song up by name gives the first song, in row-id order, with
/// that name; it fails exactly when no song has the name.
pub proof fn law_song_by_name_is_first(db: DbView, name: Seq<char>)
    ensures
        spec_get_song_by_name(db, name) matches Ok(s) ==> exists|i: int| 0 <= i < db.songs.len() && #[trigger] db.songs[i] == s
            && s.song_name == name && forall|j: int| 0 <= j < i ==> (#[trigger] db.songs[j]).song_name != name,
        spec_get_song_by_name(db, name) is Err <==> forall|i: int| 0 <= i < db.songs.len() ==> (#[trigger] db.songs[i]).song_name != name,
{
    lemma_first_match_facts(db.songs, song_has_name(name));
    if let Some(i) = first_match(db.songs, song_has_name(name)) {
        assert(song_has_name(name)(db.songs[i]));
        assert forall|j: int| 0 <= j < i implies (#[trigger] db.songs[j]).song_name != name by {
            assert(!song_has_name(name)(db.songs[j]));
        }
    } else {
        assert forall|i: int| 0 <= i < db.songs.len() implies (#[trigger] db.songs[i]).song_name != name by {
            assert(!song_has_name(name)(db.songs[i]));
        }
    }
}

/// Looking a song up by path gives the first song, in row-id order, with that
/// path; it fails exactly when the path is free.
pub proof fn law_song_by_path_is_first(db: DbView, path: Seq<char>)
    ensures
        spec_get_song_by_path(db, path) matches Ok(s) ==> exists|i: int| 0 <= i < db.songs.len() && #[trigger] db.songs[i] == s
            && s.path == path && forall|j: int| 0 <= j < i ==> (#[trigger] db.songs[j]).path != path,
        spec_get_song_by_path(db, path) is Err <==> spec_is_path_unique(db, path),
{
    lemma_first_match_facts(db.songs, song_has_path(path));
    if let Some(i) = first_match(db.songs, song_has_path(path)) {
        assert(song_has_path(path)(db.songs[i]));
        assert forall|j: int| 0 <= j < i implies (#[trigger] db.songs[j]).path != path by {
            assert(!song_has_path(path)(db.songs[j]));
        }
    } else {
        assert forall|i: int| 0 <= i < db.songs.len() implies db.songs[i].path != path by {
            assert(!song_has_path(path)(db.songs[i]));
        }
    }
}

/// The song with an id is that song when it exists, and otherwise a
/// placeholder named `default` with an empty path and that id.
pub proof fn law_song_info_by_id(db: DbView, id: i64)
    ensures
        spec_get_song_info(db, id).song_id == id,
        (exists|i: int| 0 <= i < db.songs.len() && (#[trigger] db.songs[i]).song_id == id)
            ==> db.songs.contains(spec_get_song_info(db, id)),
        (forall|i: int| 0 <= i < db.songs.len() ==> (#[trigger] db.songs[i]).song_id != id)
            ==> spec_get_song_info(db, id).song_name == "default"@ && spec_get_song_info(db, id).path.len() == 0,
{
    lemma_first_match_facts(db.songs, song_has_id(id));
    if let Some(i) = first_match(db.songs, song_has_id(id)) {
        assert(song_has_id(id)(db.songs[i]));
    } else {
        if exists|i: int| 0 <= i < db.songs.len() && (#[trigger] db.songs[i]).song_id == id {
            let i = choose|i: int| 0 <= i < db.songs.len() && (#[trigger] db.songs[i]).song_id == id;
            assert(song_has_id(id)(db.songs[i]));
        }
    }
}

/// Looking a playlist up by name gives the first playlist of that name, with
/// its id and name; it fails exactly when the name is free.
pub proof fn law_playlist_by_name_is_first(db: DbView, name: Seq<char>)
    ensures
        spec_get_playlist_by_name(db, name) matches Ok(p) ==> exists|i: int| 0 <= i < db.playlists.len()
            && (#[trigger] db.playlists[i]).list_id == p.list_id && db.playlists[i].list_name == name
            && p.list_name == name && forall|j: int| 0 <= j < i ==> (#[trigger] db.playlists[j]).list_name != name,
        spec_get_playlist_by_name(db, name) is Err <==> spec_is_playlist_unique(db, name),
{
    lemma_first_match_facts(db.playlists, list_has_name(name));
    if let Some(i) = first_match(db.playlists, list_has_name(name)) {
        assert(list_has_name(name)(db.playlists[i]));
        assert forall|j: int| 0 <= j < i implies (#[trigger] db.playlists[j]).list_name != name by {
            assert(!list_has_name(name)(db.playlists[j]));
        }
    } else {
        assert forall|i: int| 0 <= i < db.playlists.len() implies db.playlists[i].list_name != name by {
            assert(!list_has_name(name)(db.playlists[i]));
        }
    }
}

/// Looking a playlist up by id gives the playlist with that id, when there is
/// one.
pub proof fn law_playlist_by_id(db: DbView, id: i64)
    ensures
        spec_get_playlist_by_id(db, id) matches Ok(p) ==> p.list_id == id && exists|i: int| 0 <= i < db.playlists.len()
            && (#[trigger] db.playlists[i]).list_id == id && db.playlists[i].list_name == p.list_name,
        spec_get_playlist_by_id(db, id) is Err <==> forall|i: int| 0 <= i < db.playlists.len() ==> (#[trigger] db.playlists[i]).list_id != id,
{
    lemma_first_match_facts(db.playlists, list_has_id(id));
    if let Some(i) = first_match(db.playlists, list_has_id(id)) {
        assert(list_has_id(id)(db.playlists[i]));
    } else {
        assert forall|i: int| 0 <= i < db.playlists.len() implies (#[trigger] db.playlists[i]).list_id != id by {
            assert(!list_has_id(id)(db.playlists[i]));
        }
    }
}

/// Adding a song to a playlist appends exactly one row linking them, at the
/// given position or one past the largest position of the playlist; nothing
/// else changes.
pub proof fn law_add_to_playlist_appends_one_row(db: DbView, song_id: i64, list_id: i64, pos: Option<i64>)
    ensures
        spec_add_song_to_playlist(db, song_id, list_id, pos) matches Ok(d) ==> {
            &&& d.junction.len() == db.junction.len() + 1
            &&& d.junction.drop_last() == db.junction
            &&& d.junction.last().song_id == song_id
            &&& d.junction.last().playlist_id == list_id
            &&& d.junction.last().playlist_pos == Some(match pos {
                Some(e) => e,
                None => (max_or_zero(db.junction, list_id) + 1) as i64,
            })
            &&& d.songs == db.songs && d.playlists == db.playlists
        },
        spec_add_song_to_playlist(db, song_id, list_id, pos) is Err <==> next_row_id(db.junction) is None,
{
    if let Ok(d) = spec_add_song_to_playlist(db, song_id, list_id, pos) {
        assert(d.junction.drop_last() =~= db.junction);
    }
}

/// The list of all playlists has one entry per playlist row, in row-id
/// order, with the row's id and name.
pub proof fn law_all_playlists_lists_every_row(db: DbView)
    ensures
        spec_get_all_playlist(db).len() == db.playlists.len(),
        forall|i: int| 0 <= i < db.playlists.len() ==> (#[trigger] spec_get_all_playlist(db)[i]).list_id == db.playlists[i].list_id
            && spec_get_all_playlist(db)[i].list_name == db.playlists[i].list_name,
{
}

/// The user-created playlists are exactly the rows flagged 1, each reported
/// as user-created.
pub proof fn law_user_created_are_flagged(db: DbView)
    ensures
        forall|k: int| 0 <= k < spec_get_user_created_playlist(db).len() ==> (#[trigger] spec_get_user_created_playlist(db)[k]).is_user_created
            && exists|i: int| 0 <= i < db.playlists.len() && (#[trigger] db.playlists[i]).is_user_created == 1
                && db.playlists[i].list_id == spec_get_user_created_playlist(db)[k].list_id
                && db.playlists[i].list_name == spec_get_user_created_playlist(db)[k].list_name,
        forall|i: int| 0 <= i < db.playlists.len() && (#[trigger] db.playlists[i]).is_user_created == 1
            ==> spec_get_user_created_playlist(db).contains(user_listed(db.playlists[i])),
{
    broadcast use vstd::seq_lib::group_filter_ensures;
    let f = db.playlists.filter(is_user_row());
    let v = spec_get_user_created_playlist(db);
    assert(v == f.map_values(|r: PlaylistRowView| user_listed(r)));
    lemma_filter_from(db.playlists, is_user_row());
    assert forall|k: int| 0 <= k < v.len() implies (#[trigger] v[k]).is_user_created
        && exists|i: int| 0 <= i < db.playlists.len() && (#[trigger] db.playlists[i]).is_user_created == 1
            && db.playlists[i].list_id == v[k].list_id && db.playlists[i].list_name == v[k].list_name by {
        assert(v[k] == user_listed(f[k]));
        assert(is_user_row()(f[k]));
        let m = choose|m: int| 0 <= m < db.playlists.len() && db.playlists[m] == #[trigger] f[k];
        assert(db.playlists[m] == f[k]);
    }
    assert forall|i: int| 0 <= i < db.playlists.len() && (#[trigger] db.playlists[i]).is_user_created == 1
        implies v.contains(user_listed(db.playlists[i])) by {
        assert(is_user_row()(db.playlists[i]));
        assert(f.contains(db.playlists[i]));
        let k = choose|k: int| 0 <= k < f.len() && f[k] == db.playlists[i];
        assert(v[k] == user_listed(f[k]));
    }
}

/// A position is taken in a playlist exactly when some row of that playlist
/// stands there; NULL positions take none.
pub proof fn law_song_at_pos_means_a_row(db: DbView, pos: i64, list_id: i64)
    ensures
        spec_is_song_at_pos(db, pos, list_id) <==> exists|i: int| 0 <= i < db.junction.len()
            && (#[trigger] db.junction[i]).playlist_id == list_id && db.junction[i].playlist_pos == Some(pos),
{
    lemma_filter_nonempty(db.junction, row_at(pos, list_id));
    if exists|i: int| 0 <= i < db.junction.len()
        && (#[trigger] db.junction[i]).playlist_id == list_id && db.junction[i].playlist_pos == Some(pos) {
        let i = choose|i: int| 0 <= i < db.junction.len()
            && (#[trigger] db.junction[i]).playlist_id == list_id && db.junction[i].playlist_pos == Some(pos);
        assert(row_at(pos, list_id)(db.junction[i]));
    }
}

/// The position of a song is that of its first junction row, -1 when that
/// row has none; it fails exactly when the song stands in no playlist.
pub proof fn law_song_pos_is_first_row(db: DbView, song_id: i64)
    ensures
        spec_get_song_pos(db, song_id) is Err <==> forall|i: int| 0 <= i < db.junction.len() ==> (#[trigger] db.junction[i]).song_id != song_id,
        spec_get_song_pos(db, song_id) matches Ok(p) ==> exists|i: int| 0 <= i < db.junction.len()
            && (#[trigger] db.junction[i]).song_id == song_id
            && p == (match db.junction[i].playlist_pos { Some(x) => x, None => -1i64 })
            && forall|j: int| 0 <= j < i ==> (#[trigger] db.junction[j]).song_id != song_id,
{
    lemma_first_match_facts(db.junction, row_of_song(song_id));
    if let Some(i) = first_match(db.junction, row_of_song(song_id)) {
        assert(row_of_song(song_id)(db.junction[i]));
        assert forall|j: int| 0 <= j < i implies (#[trigger] db.junction[j]).song_id != song_id by {
            assert(!row_of_song(song_id)(db.junction[j]));
        }
    } else {
        assert forall|i: int| 0 <= i < db.junction.len() implies (#[trigger] db.junction[i]).song_id != song_id by {
            assert(!row_of_song(song_id)(db.junction[i]));
        }
    }
}

} // verus!
