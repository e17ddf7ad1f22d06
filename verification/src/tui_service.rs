use vstd::prelude::*;
use crate::db_service::{
    song_pos_in, next_position, get_playlist_by_id, next_pos, get_all_playlist, get_playlist_by_name, get_song_by_name, get_songs_from_playlist,
    mov_song_up, remove_playlist, remove_song_from_playlist, spec_get_all_playlist,
    spec_get_playlist_by_name, spec_get_song_by_name, spec_song_pos_in,
    spec_get_songs_from_playlist, spec_mov_song_up, spec_remove_playlist,
    spec_remove_song_from_playlist, songs_view, DbView, MusicDb, PlaylistView, Song, SongView,
    spec_is_playlist_unique, spec_is_song_in_playlist, law_remove_playlist_keeps_others,
    law_remove_playlist_frees_name, law_remove_song_from_playlist, law_remove_song_keeps_other_rows,
};
use crate::editor::{
    cell_in_items, pre_key_editor, save_reads_ok, save_to_playlist_ok, spec_append, spec_back_space,
    spec_key_db, spec_key_editor, spec_new_editor, spec_save, next_row, previous_row, Editor,
    EditorType, EditorView, Key, TableSelection, UiError,
};
use crate::sound_service::{control_view, ControlView, SoundControlls};

verus! {

// ---------------------------------------------------------------------------
// The song list
// ---------------------------------------------------------------------------

/// What the main table shows: all playlists, or the songs of one playlist.
#[allow(non_camel_case_types)]
#[derive(Debug)]
pub enum Parent {
    playlist_name(String),
    default,
}

#[allow(non_camel_case_types)]
pub enum ParentView {
    playlist_name(Seq<char>),
    default,
}

pub open spec fn parent_view(p: Parent) -> ParentView {
    match p {
        Parent::playlist_name(n) => ParentView::playlist_name(n@),
        Parent::default => ParentView::default,
    }
}

/// The rows of the main table, what they belong to, and the selection.
#[allow(non_camel_case_types)]
#[derive(Debug)]
pub struct Song_List {
    pub rows: Vec<Vec<String>>,
    pub parent: Parent,
    pub table_state: TableSelection,
}

pub struct SongListView {
    pub rows: Seq<Seq<Seq<char>>>,
    pub parent: ParentView,
    pub table_state: TableSelection,
}

pub open spec fn row_view(r: Vec<String>) -> Seq<Seq<char>> {
    r@.map_values(|s: String| s@)
}

pub open spec fn rows_view(v: Seq<Vec<String>>) -> Seq<Seq<Seq<char>>> {
    v.map_values(|r: Vec<String>| row_view(r))
}

impl View for Song_List {
    type V = SongListView;

    open spec fn view(&self) -> SongListView {
        SongListView { rows: rows_view(self.rows@), parent: parent_view(self.parent), table_state: self.table_state }
    }
}

/// The selection of a fresh list: the first row.
pub open spec fn first_row() -> TableSelection {
    TableSelection { selected: Some(0), selected_column: None, offset: 0 }
}

pub open spec fn playlist_row(p: PlaylistView) -> Seq<Seq<char>> {
    seq![p.list_name]
}

pub open spec fn song_row(s: SongView) -> Seq<Seq<char>> {
    seq![s.song_name]
}

/// The list for a parent: one row per playlist named by it, or one row per
/// song of the playlist named by it, in playlist order.
pub open spec fn spec_song_list(db: DbView, parent: ParentView) -> Result<SongListView, UiError> {
    match parent {
        ParentView::default => Ok(SongListView {
            rows: spec_get_all_playlist(db).map_values(|p: PlaylistView| playlist_row(p)),
            parent,
            table_state: first_row(),
        }),
        ParentView::playlist_name(t) => match spec_get_songs_from_playlist(db, t) {
            Err(e) => Err(UiError::Db(e)),
            Ok(songs) => Ok(SongListView {
                rows: songs.map_values(|s: SongView| song_row(s)),
                parent,
                table_state: first_row(),
            }),
        },
    }
}

fn single(s: String) -> (r: Vec<String>)
    ensures
        row_view(r) == seq![s@],
{
    let mut r: Vec<String> = Vec::new();
    r.push(s);
    assert(row_view(r) =~= seq![s@]);
    r
}

impl Song_List {
    /// The list for the parent; see `spec_song_list`.
    pub fn new(parent: Parent, db: &MusicDb) -> (r: Result<Song_List, UiError>)
        ensures
            r matches Ok(l) ==> spec_song_list(db@, parent_view(parent)) == Ok::<SongListView, UiError>(l@),
            r matches Err(e) ==> spec_song_list(db@, parent_view(parent)) == Err::<SongListView, UiError>(e),
    {
        let state = TableSelection::new().with_selected(Some(0));
        match parent {
            Parent::default => {
                let v_playlists = get_all_playlist(db);
                let ghost lists = v_playlists@.map_values(|p: crate::db_service::Playlist| p@);
                let mut rows: Vec<Vec<String>> = Vec::new();
                let mut i: usize = 0;
                while i < v_playlists.len()
                    invariant
                        0 <= i <= v_playlists@.len(),
                        lists == v_playlists@.map_values(|p: crate::db_service::Playlist| p@),
                        rows@.len() == i,
                        forall|k: int| 0 <= k < i ==> row_view(#[trigger] rows@[k]) == playlist_row(lists[k]),
                    decreases v_playlists@.len() - i,
                {
                    rows.push(single(v_playlists[i].list_name.clone()));
                    i = i + 1;
                }
                let l = Song_List { rows, parent: Parent::default, table_state: state };
                assert(l@.rows =~= spec_get_all_playlist(db@).map_values(|p: PlaylistView| playlist_row(p)));
                Ok(l)
            },
            Parent::playlist_name(t) => {
                let songs = match get_songs_from_playlist(db, t.as_str()) {
                    Ok(s) => s,
                    Err(e) => return Err(UiError::Db(e)),
                };
                let ghost sv = songs_view(songs@);
                let mut rows: Vec<Vec<String>> = Vec::new();
                let mut i: usize = 0;
                while i < songs.len()
                    invariant
                        0 <= i <= songs@.len(),
                        sv == songs_view(songs@),
                        rows@.len() == i,
                        forall|k: int| 0 <= k < i ==> row_view(#[trigger] rows@[k]) == song_row(sv[k]),
                    decreases songs@.len() - i,
                {
                    rows.push(single(songs[i].song_name.clone()));
                    i = i + 1;
                }
                let l = Song_List { rows, parent: Parent::playlist_name(t), table_state: state };
                assert(l@.rows =~= sv.map_values(|s: SongView| song_row(s)));
                Ok(l)
            },
        }
    }
}


// ---------------------------------------------------------------------------
// The application state
// ---------------------------------------------------------------------------

/// The state of the player's screen: whether it is to close, the main list,
/// the pop-up editor and whether it shows, and the selection mode flag.
#[derive(Debug)]
pub struct App {
    pub is_exit: bool,
    pub song_list: Song_List,
    pub editor: Editor,
    pub show_edit: bool,
    pub show_selected_mode: bool,
}

pub struct AppView {
    pub is_exit: bool,
    pub song_list: SongListView,
    pub editor: EditorView,
    pub show_edit: bool,
    pub show_selected_mode: bool,
}

impl View for App {
    type V = AppView;

    open spec fn view(&self) -> AppView {
        AppView {
            is_exit: self.is_exit,
            song_list: self.song_list@,
            editor: self.editor@,
            show_edit: self.show_edit,
            show_selected_mode: self.show_selected_mode,
        }
    }
}

/// The database, the screen and the outcome after an action.
pub struct Step {
    pub db: DbView,
    pub app: AppView,
    pub out: Result<(), UiError>,
}

/// The database, the screen and the outcome after a key, the outcome holding
/// the request for the playback thread, if any.
pub struct KeyStep {
    pub db: DbView,
    pub app: AppView,
    pub out: Result<Option<ControlView>, UiError>,
}

pub open spec fn out_view(r: Result<Option<SoundControlls>, UiError>) -> Result<Option<ControlView>, UiError> {
    match r {
        Ok(Some(c)) => Ok(Some(control_view(c))),
        Ok(None) => Ok(None),
        Err(e) => Err(e),
    }
}

/// A row is selected and holds a name.
pub open spec fn row_selected(l: SongListView) -> bool {
    l.table_state.selected matches Some(i) && i < l.rows.len() && l.rows[i as int].len() > 0
}

pub open spec fn sel_index(l: SongListView) -> usize {
    l.table_state.selected.unwrap()
}

/// The name in the selected row.
pub open spec fn sel_name(l: SongListView) -> Seq<char> {
    l.rows[sel_index(l) as int][0]
}

pub open spec fn select_row(l: SongListView, i: usize) -> SongListView {
    SongListView { table_state: TableSelection { selected: Some(i), ..l.table_state }, ..l }
}

pub open spec fn with_list(a: AppView, l: SongListView) -> AppView {
    AppView { song_list: l, ..a }
}

pub open spec fn with_editor(a: AppView, e: EditorView, show: bool) -> AppView {
    AppView { editor: e, show_edit: show, ..a }
}

pub open spec fn done(db: DbView, a: AppView) -> Step {
    Step { db, app: a, out: Ok(()) }
}

pub open spec fn failed(db: DbView, a: AppView, e: UiError) -> Step {
    Step { db, app: a, out: Err(e) }
}

/// The song named by the selected row.
pub open spec fn selected_song(db: DbView, a: AppView) -> SongView {
    spec_get_song_by_name(db, sel_name(a.song_list)).unwrap()
}

pub open spec fn abs_usize(x: i64) -> usize {
    (if x < 0 { -x } else { x as int }) as usize
}

/// The screen for a parent, with the editor placeholder closed.
pub open spec fn spec_new_app(db: DbView, parent: ParentView) -> Result<AppView, UiError> {
    match spec_song_list(db, parent) {
        Err(e) => Err(e),
        Ok(l) => Ok(AppView {
            is_exit: false,
            song_list: l,
            editor: spec_new_editor(db, EditorType::Default).unwrap(),
            show_edit: false,
            show_selected_mode: false,
        }),
    }
}

/// Moving the selected song within the playlist shown: the song moves by
/// `increment` positions, the list is rebuilt and the selection follows the
/// song when it stays on the list.
pub open spec fn spec_move_song(db: DbView, a: AppView, increment: i64) -> Step {
    let l = a.song_list;
    let sel = sel_index(l);
    let song = selected_song(db, a);
    match l.parent {
        ParentView::default => done(db, a),
        ParentView::playlist_name(n) => match spec_get_playlist_by_name(db, n) {
            Err(e) => failed(db, a, UiError::Db(e)),
            Ok(pl) => match spec_mov_song_up(db, song.song_id, pl.list_id, increment) {
                Err(e) => failed(db, a, UiError::Db(e)),
                Ok(db1) => match spec_song_list(db1, ParentView::playlist_name(n)) {
                    Err(e) => failed(db1, a, e),
                    Ok(nl) => {
                        let off = abs_usize(increment);
                        let nl2 = if increment < 0 {
                            if sel > off { select_row(nl, (sel - off) as usize) } else { nl }
                        } else {
                            select_row(nl, (sel + off) as usize)
                        };
                        done(db1, with_list(a, nl2))
                    },
                },
            },
        },
    }
}

pub open spec fn pre_move_song(db: DbView, a: AppView, increment: i64) -> bool {
    &&& db.wf()
    &&& row_selected(a.song_list)
    &&& spec_get_song_by_name(db, sel_name(a.song_list)) is Ok
    &&& increment != i64::MIN
    &&& a.song_list.parent matches ParentView::playlist_name(n) ==> (
        spec_get_playlist_by_name(db, n) matches Ok(pl) ==> (
            (spec_song_pos_in(db, selected_song(db, a).song_id, pl.list_id) matches Ok(p) ==> i64::MIN <= p + increment <= i64::MAX)
            && (increment >= 0 ==> sel_index(a.song_list) + abs_usize(increment) <= usize::MAX)))
}

/// Deleting the selected row: in a playlist the song leaves the playlist,
/// among playlists every playlist of that name goes; the list is rebuilt and
/// keeps the selected index.
pub open spec fn spec_delete_current(db: DbView, a: AppView) -> Step {
    let l = a.song_list;
    let sel = sel_index(l);
    let changed = match l.parent {
        ParentView::playlist_name(n) => match spec_get_playlist_by_name(db, n) {
            Err(e) => Err(UiError::Db(e)),
            Ok(pl) => match spec_remove_song_from_playlist(db, pl.list_id, selected_song(db, a).song_id) {
                Err(e) => Err(UiError::Db(e)),
                Ok(d) => Ok(d),
            },
        },
        ParentView::default => Ok(spec_remove_playlist(db, sel_name(l))),
    };
    match changed {
        Err(e) => failed(db, a, e),
        Ok(db1) => match spec_song_list(db1, l.parent) {
            Err(e) => failed(db1, a, e),
            Ok(nl) => done(db1, with_list(a, select_row(nl, sel))),
        },
    }
}

pub open spec fn pre_delete_current(db: DbView, a: AppView) -> bool {
    &&& db.wf()
    &&& row_selected(a.song_list)
    &&& a.song_list.parent is playlist_name ==> spec_get_song_by_name(db, sel_name(a.song_list)) is Ok
}

/// Closing the editor: the edit is saved when it can be, the list is rebuilt
/// keeping the selected index, and the editor hides; when the list cannot be
/// rebuilt the editor hides only if the save went through.
pub open spec fn spec_exit_edit(db: DbView, a: AppView) -> Step {
    let l = a.song_list;
    let sel = sel_index(l);
    let (db1, saved) = match spec_save(db, a.editor) {
        Ok(d) => (d, true),
        Err(_) => (db, false),
    };
    let a1 = if saved { AppView { show_edit: false, ..a } } else { a };
    match spec_song_list(db1, l.parent) {
        Err(e) => failed(db1, a1, e),
        Ok(nl) => done(db1, AppView { song_list: select_row(nl, sel), show_edit: false, ..a }),
    }
}

pub open spec fn pre_exit_edit(db: DbView, a: AppView) -> bool {
    &&& db.wf()
    &&& a.song_list.table_state.selected is Some
    &&& save_reads_ok(db, a.editor)
}

/// Opening the editor for a new playlist.
pub open spec fn spec_create_playlist(db: DbView, a: AppView) -> Step {
    done(db, with_editor(a, spec_new_editor(db, EditorType::NewPlaylist).unwrap(), true))
}

/// Opening the editor for the selected row: the selected song within a
/// playlist, the first playlist of the selected name among playlists.  The
/// editor shows even when it cannot be opened.
pub open spec fn spec_i_pressed(db: DbView, a: AppView) -> Step {
    let a1 = AppView { show_edit: true, ..a };
    match a.song_list.parent {
        ParentView::playlist_name(_) => {
            let song = selected_song(db, a);
            let e = spec_new_editor(db, EditorType::Song(song.song_id)).unwrap();
            let e2 = EditorView { table_state: TableSelection { selected: Some(0), selected_column: Some(1), ..e.table_state }, ..e };
            done(db, with_editor(a, e2, true))
        },
        ParentView::default => match spec_get_playlist_by_name(db, sel_name(a.song_list)) {
            Err(err) => failed(db, a1, UiError::Db(err)),
            Ok(pl) => match spec_new_editor(db, EditorType::Playlist(pl.list_id)) {
                Err(err) => failed(db, a1, err),
                Ok(e) => done(db, with_editor(a, e, true)),
            },
        },
    }
}

pub open spec fn pre_i_pressed(db: DbView, a: AppView) -> bool {
    &&& row_selected(a.song_list)
    &&& a.song_list.parent is playlist_name ==> spec_get_song_by_name(db, sel_name(a.song_list)) is Ok
}

/// Opening the editor that adds the selected song to a playlist.
pub open spec fn spec_playlist_adder(db: DbView, a: AppView) -> Step {
    let song = selected_song(db, a);
    done(db, with_editor(a, spec_new_editor(db, EditorType::AddToPlaylist(song.song_id)).unwrap(), true))
}

pub open spec fn pre_playlist_adder(db: DbView, a: AppView) -> bool {
    &&& row_selected(a.song_list)
    &&& spec_get_song_by_name(db, sel_name(a.song_list)) is Ok
}

/// `q`: from a playlist back to the playlists, from the playlists out.
pub open spec fn spec_q_pressed(db: DbView, a: AppView) -> Step {
    match a.song_list.parent {
        ParentView::playlist_name(_) => done(db, with_list(a, spec_song_list(db, ParentView::default).unwrap())),
        ParentView::default => done(db, AppView { is_exit: true, ..a }),
    }
}

/// Enter: within a playlist the selected song is queued; among playlists the
/// selected playlist's songs are queued.
pub open spec fn spec_enter_pressed(db: DbView, a: AppView) -> KeyStep {
    let l = a.song_list;
    match l.parent {
        ParentView::playlist_name(_) => match spec_get_song_by_name(db, sel_name(l)) {
            Err(e) => KeyStep { db, app: a, out: Err(UiError::Db(e)) },
            Ok(s) => KeyStep { db, app: a, out: Ok(Some(ControlView::AddSong(s))) },
        },
        ParentView::default => if l.table_state.selected is None {
            KeyStep { db, app: a, out: Err(UiError::NoSelection) }
        } else {
            match spec_get_songs_from_playlist(db, sel_name(l)) {
                Err(e) => KeyStep { db, app: a, out: Err(UiError::Db(e)) },
                Ok(songs) => KeyStep { db, app: a, out: Ok(Some(ControlView::AddPlaylist(songs))) },
            }
        },
    }
}

/// The selected row, when there is one, holds a name; within a playlist a
/// row must be selected.
pub open spec fn pre_enter_pressed(a: AppView) -> bool {
    &&& a.song_list.table_state.selected is Some ==> row_selected(a.song_list)
    &&& a.song_list.parent is playlist_name ==> a.song_list.table_state.selected is Some
}

/// `e`: within a playlist the selected song is queued; among playlists the
/// selected playlist opens.
pub open spec fn spec_e_pressed(db: DbView, a: AppView) -> KeyStep {
    let l = a.song_list;
    match l.parent {
        ParentView::playlist_name(_) => spec_enter_pressed(db, a),
        ParentView::default => if l.table_state.selected is None {
            KeyStep { db, app: a, out: Err(UiError::NoSelection) }
        } else {
            match spec_get_playlist_by_name(db, sel_name(l)) {
                Err(e) => KeyStep { db, app: a, out: Err(UiError::Db(e)) },
                Ok(pl) => match spec_song_list(db, ParentView::playlist_name(pl.list_name)) {
                    Err(e) => KeyStep { db, app: a, out: Err(e) },
                    Ok(nl) => KeyStep { db, app: with_list(a, nl), out: Ok(None) },
                },
            }
        },
    }
}

pub open spec fn key_step(s: Step) -> KeyStep {
    KeyStep {
        db: s.db,
        app: s.app,
        out: match s.out {
            Ok(_) => Ok(None),
            Err(e) => Err(e),
        },
    }
}

/// What a key does on the main screen and in the editor.
pub open spec fn spec_handle_key_press(db: DbView, a: AppView, key: Key) -> KeyStep {
    if a.show_edit {
        match key {
            Key::Char('q') => key_step(spec_exit_edit(db, a)),
            _ => match spec_key_db(db, a.editor, key) {
                Err(e) => KeyStep { db, app: a, out: Err(e) },
                Ok(db1) => KeyStep { db: db1, app: AppView { editor: spec_key_editor(a.editor, key), ..a }, out: Ok(None) },
            },
        }
    } else if a.show_selected_mode {
        KeyStep { db, app: a, out: Ok(None) }
    } else {
        match key {
            Key::Char('D') => key_step(spec_delete_current(db, a)),
            Key::Char('a') => key_step(spec_playlist_adder(db, a)),
            Key::Char('q') => key_step(spec_q_pressed(db, a)),
            Key::Char('j') => KeyStep {
                db,
                app: with_list(a, select_row(a.song_list, next_row(a.song_list.table_state.selected))),
                out: Ok(None),
            },
            Key::Char('k') => KeyStep {
                db,
                app: with_list(a, select_row(a.song_list, previous_row(a.song_list.table_state.selected))),
                out: Ok(None),
            },
            Key::Char('e') => spec_e_pressed(db, a),
            Key::Char(' ') => KeyStep { db, app: a, out: Ok(Some(ControlView::PlayPause)) },
            Key::Char('J') => key_step(spec_move_song(db, a, 1)),
            Key::Char('K') => key_step(spec_move_song(db, a, -1i64)),
            Key::Enter => spec_enter_pressed(db, a),
            Key::Char('l') => KeyStep { db, app: a, out: Ok(Some(ControlView::SkipSong)) },
            Key::Char('i') => key_step(spec_i_pressed(db, a)),
            Key::Char('c') => key_step(spec_create_playlist(db, a)),
            _ => KeyStep { db, app: a, out: Ok(None) },
        }
    }
}

/// When a key can be handled: what the handler of that key needs, and for
/// the keys whose failure is fatal, that they succeed.
pub open spec fn pre_handle_key_press(db: DbView, a: AppView, key: Key) -> bool {
    &&& db.wf()
    &&& if a.show_edit {
        match key {
            Key::Char('q') => pre_exit_edit(db, a),
            _ => pre_key_editor(db, a.editor, key),
        }
    } else if a.show_selected_mode {
        true
    } else {
        match key {
            Key::Char('D') => pre_delete_current(db, a),
            Key::Char('a') => pre_playlist_adder(db, a),
            Key::Char('e') => pre_enter_pressed(a) && spec_e_pressed(db, a).out is Ok,
            Key::Char('J') => pre_move_song(db, a, 1),
            Key::Char('K') => pre_move_song(db, a, -1i64),
            Key::Enter => pre_enter_pressed(a) && spec_enter_pressed(db, a).out is Ok,
            Key::Char('i') => pre_i_pressed(db, a),
            _ => true,
        }
    }
}


// ---------------------------------------------------------------------------
// Handling keys
// ---------------------------------------------------------------------------

pub open spec fn step_is(s: Step, db: DbView, a: AppView, r: Result<(), UiError>) -> bool {
    s.db == db && s.app == a && s.out == r
}

pub open spec fn key_step_is(s: KeyStep, db: DbView, a: AppView, r: Result<Option<SoundControlls>, UiError>) -> bool {
    s.db == db && s.app == a && s.out == out_view(r)
}

fn copy_parent(p: &Parent) -> (r: Parent)
    ensures
        parent_view(r) == parent_view(*p),
{
    match p {
        Parent::playlist_name(n) => Parent::playlist_name(n.clone()),
        Parent::default => Parent::default,
    }
}

impl App {
    /// The screen for the parent; see `spec_new_app`.
    pub fn new(p_parent: Parent, db: &MusicDb) -> (r: Result<App, UiError>)
        ensures
            r matches Ok(a) ==> spec_new_app(db@, parent_view(p_parent)) == Ok::<AppView, UiError>(a@),
            r matches Err(e) ==> spec_new_app(db@, parent_view(p_parent)) == Err::<AppView, UiError>(e),
    {
        let song_list = Song_List::new(p_parent, db)?;
        let editor = Editor::new(EditorType::Default, db)?;
        Ok(App { is_exit: false, song_list, editor, show_edit: false, show_selected_mode: false })
    }

    fn selected_name(&self) -> (r: String)
        requires
            row_selected(self@.song_list),
        ensures
            r@ == sel_name(self@.song_list),
    {
        let selected = self.song_list.table_state.selected().unwrap();
        assert(row_view(self.song_list.rows@[selected as int])[0] == self.song_list.rows@[selected as int]@[0]@);
        self.song_list.rows[selected][0].clone()
    }

    /// Moves the selected song; see `spec_move_song`.
    pub fn move_song(&mut self, db: &mut MusicDb, increment: i64) -> (r: Result<(), UiError>)
        requires
            pre_move_song(old(db)@, old(self)@, increment),
        ensures
            final(db)@.wf(),
            step_is(spec_move_song(old(db)@, old(self)@, increment), final(db)@, final(self)@, r),
    {
        let selected = self.song_list.table_state.selected().unwrap();
        let name = self.selected_name();
        let song = match get_song_by_name(db, name.as_str()) {
            Ok(s) => s,
            Err(_) => {
                assert(false);
                return Ok(());
            },
        };
        match &self.song_list.parent {
            Parent::playlist_name(pname) => {
                let pname = pname.clone();
                let playlist = match get_playlist_by_name(db, pname.as_str()) {
                    Ok(p) => p,
                    Err(e) => return Err(UiError::Db(e)),
                };
                match mov_song_up(db, &song, playlist.list_id, increment) {
                    Ok(()) => {},
                    Err(e) => return Err(UiError::Db(e)),
                }
                let list = Song_List::new(Parent::playlist_name(pname), db)?;
                self.song_list = list;
                let offset: usize = if increment < 0 { (0 - increment) as usize } else { increment as usize };
                if increment < 0 {
                    if selected > offset {
                        self.song_list.table_state.select(Some(selected - offset));
                    } else {
                        return Ok(());
                    }
                } else {
                    self.song_list.table_state.select(Some(selected + offset));
                }
            },
            Parent::default => {},
        }
        Ok(())
    }

    /// Deletes the selected row; see `spec_delete_current`.
    pub fn delete_current(&mut self, db: &mut MusicDb) -> (r: Result<(), UiError>)
        requires
            pre_delete_current(old(db)@, old(self)@),
        ensures
            final(db)@.wf(),
            step_is(spec_delete_current(old(db)@, old(self)@), final(db)@, final(self)@, r),
    {
        let selected = self.song_list.table_state.selected().unwrap();
        let name = self.selected_name();
        match &self.song_list.parent {
            Parent::playlist_name(pname) => {
                let song = match get_song_by_name(db, name.as_str()) {
                    Ok(s) => s,
                    Err(_) => {
                        assert(false);
                        return Ok(());
                    },
                };
                let playlist = match get_playlist_by_name(db, pname.as_str()) {
                    Ok(p) => p,
                    Err(e) => return Err(UiError::Db(e)),
                };
                match remove_song_from_playlist(db, playlist.list_id, song.song_id) {
                    Ok(()) => {},
                    Err(e) => return Err(UiError::Db(e)),
                }
            },
            Parent::default => {
                remove_playlist(db, name.as_str());
            },
        }
        let parent = copy_parent(&self.song_list.parent);
        let list = Song_List::new(parent, db)?;
        self.song_list = list;
        self.song_list.table_state.select(Some(selected));
        Ok(())
    }

    /// Closes the editor; see `spec_exit_edit`.
    pub fn exit_edit(&mut self, db: &mut MusicDb) -> (r: Result<(), UiError>)
        requires
            pre_exit_edit(old(db)@, old(self)@),
        ensures
            final(db)@.wf(),
            step_is(spec_exit_edit(old(db)@, old(self)@), final(db)@, final(self)@, r),
    {
        let selected = self.song_list.table_state.selected().unwrap();
        match self.editor.save(db) {
            Ok(_) => self.show_edit = false,
            Err(_) => {},
        }
        let parent = copy_parent(&self.song_list.parent);
        let list = Song_List::new(parent, db)?;
        self.song_list = list;
        self.song_list.table_state.select(Some(selected));
        self.show_edit = false;
        Ok(())
    }

    /// Appends the character to the selected value of the editor.
    pub fn append_to_item(&mut self, c: char)
        requires
            cell_in_items(old(self)@.editor),
        ensures
            final(self)@ == (AppView { editor: spec_append(old(self)@.editor, c), ..old(self)@ }),
    {
        self.editor.append_to_item(c);
    }

    /// Removes the last character of the selected value of the editor.
    pub fn back_space(&mut self)
        requires
            cell_in_items(old(self)@.editor),
        ensures
            final(self)@ == (AppView { editor: spec_back_space(old(self)@.editor), ..old(self)@ }),
    {
        self.editor.back_space();
    }

    /// Opens the editor for a new playlist.
    pub fn create_playlist(&mut self, db: &MusicDb) -> (r: Result<(), UiError>)
        ensures
            step_is(spec_create_playlist(db@, old(self)@), db@, final(self)@, r),
    {
        self.show_edit = true;
        self.editor = Editor::new(EditorType::NewPlaylist, db)?;
        Ok(())
    }

    /// Opens the editor for the selected row; see `spec_i_pressed`.
    pub fn i_pressed(&mut self, db: &MusicDb) -> (r: Result<(), UiError>)
        requires
            pre_i_pressed(db@, old(self)@),
        ensures
            step_is(spec_i_pressed(db@, old(self)@), db@, final(self)@, r),
    {
        self.show_edit = true;
        let name = self.selected_name();
        match &self.song_list.parent {
            Parent::playlist_name(_p_name) => {
                let song = match get_song_by_name(db, name.as_str()) {
                    Ok(s) => s,
                    Err(_) => {
                        assert(false);
                        return Ok(());
                    },
                };
                self.editor = Editor::new(EditorType::Song(song.song_id), db)?;
                self.editor.table_state.select_cell(Some((0, 1)));
                return Ok(());
            },
            Parent::default => {
                let playlist = match get_playlist_by_name(db, name.as_str()) {
                    Ok(p) => p,
                    Err(e) => return Err(UiError::Db(e)),
                };
                self.editor = Editor::new(EditorType::Playlist(playlist.list_id), db)?;
            },
        }
        Ok(())
    }

    /// Opens the editor that adds the selected song to a playlist.
    pub fn playlist_adder(&mut self, db: &MusicDb) -> (r: Result<(), UiError>)
        requires
            pre_playlist_adder(db@, old(self)@),
        ensures
            step_is(spec_playlist_adder(db@, old(self)@), db@, final(self)@, r),
    {
        self.show_edit = true;
        let name = self.selected_name();
        let song = match get_song_by_name(db, name.as_str()) {
            Ok(s) => s,
            Err(_) => {
                assert(false);
                return Ok(());
            },
        };
        self.editor = Editor::new(EditorType::AddToPlaylist(song.song_id), db)?;
        Ok(())
    }

    /// `q`; see `spec_q_pressed`.
    pub fn q_pressed(&mut self, db: &MusicDb) -> (r: Result<(), UiError>)
        ensures
            step_is(spec_q_pressed(db@, old(self)@), db@, final(self)@, r),
    {
        match self.song_list.parent {
            Parent::playlist_name(_) => {
                match Song_List::new(Parent::default, db) {
                    Ok(l) => self.song_list = l,
                    Err(_) => {
                        assert(false);
                    },
                }
            },
            Parent::default => {
                self.is_exit = true;
            },
        }
        Ok(())
    }

    /// Enter; see `spec_enter_pressed`.
    pub fn enter_pressed(&mut self, db: &MusicDb) -> (r: Result<Option<SoundControlls>, UiError>)
        requires
            pre_enter_pressed(old(self)@),
        ensures
            key_step_is(spec_enter_pressed(db@, old(self)@), db@, final(self)@, r),
    {
        match self.song_list.parent {
            Parent::playlist_name(_) => {
                let name = self.selected_name();
                let song = match get_song_by_name(db, name.as_str()) {
                    Ok(s) => s,
                    Err(e) => return Err(UiError::Db(e)),
                };
                Ok(Some(SoundControlls::AddSong(song)))
            },
            Parent::default => {
                if self.song_list.table_state.selected().is_none() {
                    return Err(UiError::NoSelection);
                }
                let name = self.selected_name();
                let songs = match get_songs_from_playlist(db, name.as_str()) {
                    Ok(s) => s,
                    Err(e) => return Err(UiError::Db(e)),
                };
                Ok(Some(SoundControlls::AddPlaylist(songs)))
            },
        }
    }

    /// `e`; see `spec_e_pressed`.
    pub fn e_pressed(&mut self, db: &MusicDb) -> (r: Result<Option<SoundControlls>, UiError>)
        requires
            pre_enter_pressed(old(self)@),
        ensures
            key_step_is(spec_e_pressed(db@, old(self)@), db@, final(self)@, r),
    {
        match self.song_list.parent {
            Parent::playlist_name(_) => self.enter_pressed(db),
            Parent::default => {
                if self.song_list.table_state.selected().is_none() {
                    return Err(UiError::NoSelection);
                }
                let name = self.selected_name();
                let playlist = match get_playlist_by_name(db, name.as_str()) {
                    Ok(p) => p,
                    Err(e) => return Err(UiError::Db(e)),
                };
                let list = Song_List::new(Parent::playlist_name(playlist.list_name), db)?;
                self.song_list = list;
                Ok(None)
            },
        }
    }

    /// Handles a key; see `spec_handle_key_press`.  Returns the request for
    /// the playback thread, if any.
    pub fn handle_key_press(&mut self, db: &mut MusicDb, key: Key) -> (r: Result<Option<SoundControlls>, UiError>)
        requires
            pre_handle_key_press(old(db)@, old(self)@, key),
        ensures
            final(db)@.wf(),
            key_step_is(spec_handle_key_press(old(db)@, old(self)@, key), final(db)@, final(self)@, r),
    {
        if self.show_edit {
            match key {
                Key::Char('q') => {
                    self.exit_edit(db)?;
                },
                x => {
                    self.editor.handle_keys(db, x)?;
                },
            }
            Ok(None)
        } else if self.show_selected_mode {
            Ok(None)
        } else {
            match key {
                Key::Char('D') => {
                    self.delete_current(db)?;
                    Ok(None)
                },
                Key::Char('a') => {
                    self.playlist_adder(db)?;
                    Ok(None)
                },
                Key::Char('q') => {
                    self.q_pressed(db)?;
                    Ok(None)
                },
                Key::Char('j') => {
                    self.song_list.table_state.select_next();
                    Ok(None)
                },
                Key::Char('k') => {
                    self.song_list.table_state.select_previous();
                    Ok(None)
                },
                Key::Char('e') => self.e_pressed(db),
                Key::Char(' ') => Ok(Some(SoundControlls::PlayPause)),
                Key::Char('J') => {
                    self.move_song(db, 1)?;
                    Ok(None)
                },
                Key::Char('K') => {
                    self.move_song(db, -1)?;
                    Ok(None)
                },
                Key::Enter => self.enter_pressed(db),
                Key::Char('l') => Ok(Some(SoundControlls::SkipSong)),
                Key::Char('i') => {
                    self.i_pressed(db)?;
                    Ok(None)
                },
                Key::Char('c') => {
                    self.create_playlist(db)?;
                    Ok(None)
                },
                _ => Ok(None),
            }
        }
    }
}


// ---------------------------------------------------------------------------
// Laws
// ---------------------------------------------------------------------------

/// On the main screen, `j` and then `k` bring the selection back, and leave
/// the database alone.
pub proof fn law_down_then_up(db: DbView, a: AppView)
    requires
        !a.show_edit,
        !a.show_selected_mode,
        a.song_list.table_state.selected matches Some(i) && i < usize::MAX,
    ensures
        ({
            let s1 = spec_handle_key_press(db, a, Key::Char('j'));
            let s2 = spec_handle_key_press(s1.db, s1.app, Key::Char('k'));
            s1.out == Ok::<Option<ControlView>, UiError>(None) && s2.out == Ok::<Option<ControlView>, UiError>(None)
                && s2.db == db && s2.app == a
        }),
{
    let i = a.song_list.table_state.selected.unwrap();
    let s1 = spec_handle_key_press(db, a, Key::Char('j'));
    assert(s1.app.song_list.table_state.selected == Some((i + 1) as usize));
    let s2 = spec_handle_key_press(s1.db, s1.app, Key::Char('k'));
    assert(s2.app.song_list.table_state == a.song_list.table_state);
    assert(s2.app.song_list == a.song_list);
}

/// Opening a playlist with `e` and leaving it with `q` comes back to the list
/// of all playlists, first row selected.
pub proof fn law_open_then_back(db: DbView, a: AppView)
    requires
        !a.show_edit,
        !a.show_selected_mode,
        a.song_list.parent is default,
        spec_e_pressed(db, a).out is Ok,
    ensures
        ({
            let s1 = spec_handle_key_press(db, a, Key::Char('e'));
            let s2 = spec_handle_key_press(s1.db, s1.app, Key::Char('q'));
            &&& s1.app.song_list.parent is playlist_name
            &&& s2.db == db
            &&& s2.app == with_list(a, spec_song_list(db, ParentView::default).unwrap())
        }),
{
}

/// `q` among playlists closes the player.
pub proof fn law_quit(db: DbView, a: AppView)
    requires
        !a.show_edit,
        !a.show_selected_mode,
        a.song_list.parent is default,
    ensures
        spec_handle_key_press(db, a, Key::Char('q')).app.is_exit,
{
}

/// Enter on a selected playlist of the main screen queues exactly the songs
/// of that playlist, in their playlist order, and changes nothing else.
pub proof fn law_enter_queues_playlist(db: DbView, a: AppView)
    requires
        !a.show_edit,
        !a.show_selected_mode,
        a.song_list.parent is default,
        a.song_list.table_state.selected is Some,
        spec_get_songs_from_playlist(db, sel_name(a.song_list)) is Ok,
    ensures
        spec_handle_key_press(db, a, Key::Enter) == (KeyStep {
            db,
            app: a,
            out: Ok(Some(ControlView::AddPlaylist(spec_get_songs_from_playlist(db, sel_name(a.song_list)).unwrap()))),
        }),
{
}

/// `D` deletes what the selected row names: among playlists, every playlist
/// of that name goes and all others stay; within a playlist, the selected
/// song leaves that playlist and every other row stays.  Whatever the list
/// shows afterwards, the database change is this.
pub proof fn law_delete_removes_selected(db: DbView, a: AppView)
    requires
        row_selected(a.song_list),
    ensures
        ({
            let st = spec_delete_current(db, a);
            let n = sel_name(a.song_list);
            &&& a.song_list.parent is default ==> {
                &&& spec_is_playlist_unique(st.db, n)
                &&& forall|i: int| 0 <= i < db.playlists.len() && db.playlists[i].list_name != n
                    ==> st.db.playlists.contains(#[trigger] db.playlists[i])
                &&& st.db.junction == db.junction && st.db.songs == db.songs
            }
            &&& a.song_list.parent matches ParentView::playlist_name(pn) ==> (
                spec_get_playlist_by_name(db, pn) matches Ok(pl) ==> (st.db != db ==> {
                    &&& !spec_is_song_in_playlist(st.db, selected_song(db, a).song_id, pl.list_id)
                    &&& forall|i: int| 0 <= i < db.junction.len() && !(db.junction[i].playlist_id == pl.list_id
                        && db.junction[i].song_id == selected_song(db, a).song_id)
                        ==> st.db.junction.contains(#[trigger] db.junction[i])
                }))
        }),
{
    let n = sel_name(a.song_list);
    law_remove_playlist_frees_name(db, n);
    law_remove_playlist_keeps_others(db, n);
    if let ParentView::playlist_name(pn) = a.song_list.parent {
        if let Ok(pl) = spec_get_playlist_by_name(db, pn) {
            law_remove_song_from_playlist(db, pl.list_id, selected_song(db, a).song_id);
            law_remove_song_keeps_other_rows(db, pl.list_id, selected_song(db, a).song_id);
        }
    }
}

// ---------------------------------------------------------------------------
// Testing the preconditions
// ---------------------------------------------------------------------------

impl App {
    fn row_is_selected(&self) -> (r: bool)
        ensures
            r == row_selected(self@.song_list),
    {
        match self.song_list.table_state.selected() {
            Some(i) => i < self.song_list.rows.len() && self.song_list.rows[i].len() > 0,
            None => false,
        }
    }

    fn selected_song_known(&self, db: &MusicDb) -> (r: bool)
        requires
            row_selected(self@.song_list),
        ensures
            r == (spec_get_song_by_name(db@, sel_name(self@.song_list)) is Ok),
    {
        let name = self.selected_name();
        get_song_by_name(db, name.as_str()).is_ok()
    }

    fn can_move_song(&self, db: &MusicDb, increment: i64) -> (r: bool)
        requires
            db@.wf(),
            increment == 1 || increment == -1,
        ensures
            r == pre_move_song(db@, self@, increment),
    {
        if !self.row_is_selected() || !self.selected_song_known(db) {
            return false;
        }
        let name = self.selected_name();
        let song = match get_song_by_name(db, name.as_str()) {
            Ok(s) => s,
            Err(_) => return false,
        };
        match &self.song_list.parent {
            Parent::default => true,
            Parent::playlist_name(n) => match get_playlist_by_name(db, n.as_str()) {
                Err(_) => true,
                Ok(pl) => {
                    let pos_ok = match song_pos_in(db, song.song_id, pl.list_id) {
                        Ok(p) => if increment > 0 { p < i64::MAX } else { p > i64::MIN },
                        Err(_) => true,
                    };
                    let sel = self.song_list.table_state.selected().unwrap();
                    let sel_ok = if increment >= 0 { sel < usize::MAX } else { true };
                    pos_ok && sel_ok
                },
            },
        }
    }

    fn enter_would_succeed(&self, db: &MusicDb) -> (r: bool)
        requires
            pre_enter_pressed(self@),
        ensures
            r == (spec_enter_pressed(db@, self@).out is Ok),
    {
        match self.song_list.parent {
            Parent::playlist_name(_) => self.selected_song_known(db),
            Parent::default => {
                if self.song_list.table_state.selected().is_none() {
                    return false;
                }
                let name = self.selected_name();
                get_songs_from_playlist(db, name.as_str()).is_ok()
            },
        }
    }

    fn e_would_succeed(&self, db: &MusicDb) -> (r: bool)
        requires
            pre_enter_pressed(self@),
        ensures
            r == (spec_e_pressed(db@, self@).out is Ok),
    {
        match self.song_list.parent {
            Parent::playlist_name(_) => self.enter_would_succeed(db),
            Parent::default => {
                if self.song_list.table_state.selected().is_none() {
                    return false;
                }
                let name = self.selected_name();
                match get_playlist_by_name(db, name.as_str()) {
                    Err(_) => false,
                    Ok(p) => get_songs_from_playlist(db, p.list_name.as_str()).is_ok(),
                }
            },
        }
    }

    fn enter_ready(&self) -> (r: bool)
        ensures
            r == pre_enter_pressed(self@),
    {
        let selected_ok = match self.song_list.table_state.selected() {
            Some(_) => self.row_is_selected(),
            None => true,
        };
        let parent_ok = match self.song_list.parent {
            Parent::playlist_name(_) => self.song_list.table_state.selected().is_some(),
            Parent::default => true,
        };
        selected_ok && parent_ok
    }

    fn editor_ready(&self, db: &MusicDb, key: Key) -> (r: bool)
        ensures
            r == pre_key_editor(db@, self@.editor, key),
    {
        match self.editor.editor_type {
            EditorType::AddToPlaylist(_) => match key {
                Key::Enter => self.cell_ready() && self.save_target_ready(db),
                _ => true,
            },
            _ => match key {
                Key::Backspace => self.cell_ready(),
                Key::Char(_) => self.cell_ready(),
                _ => true,
            },
        }
    }

    fn save_target_ready(&self, db: &MusicDb) -> (r: bool)
        requires
            cell_in_items(self@.editor),
        ensures
            r == save_to_playlist_ok(db@, self@.editor),
    {
        match self.editor.table_state.selected_cell() {
            None => true,
            Some(cell) => {
                let name = &self.editor.items[cell.0].1;
                match get_playlist_by_name(db, name.as_str()) {
                    Err(_) => true,
                    Ok(p) => next_position(db, p.list_id).is_some(),
                }
            },
        }
    }

    fn cell_ready(&self) -> (r: bool)
        ensures
            r == cell_in_items(self@.editor),
    {
        match self.editor.table_state.selected_cell() {
            None => true,
            Some(cell) => cell.0 < self.editor.items.len(),
        }
    }

    fn save_ready(&self, db: &MusicDb) -> (r: bool)
        ensures
            r == save_reads_ok(db@, self@.editor),
    {
        match self.editor.editor_type {
            EditorType::Song(_) => self.editor.items.len() >= 3,
            EditorType::Playlist(id) => get_playlist_by_id(db, id).is_err() || self.editor.items.len() >= 3,
            EditorType::NewPlaylist => self.editor.items.len() >= 1,
            _ => true,
        }
    }

    /// Whether `handle_key_press` can take the key: false exactly where the
    /// key would find no selected row or song it needs, or where its handler
    /// would fail in a way that ends the player.
    pub fn can_handle_key(&self, db: &MusicDb, key: Key) -> (r: bool)
        requires
            db@.wf(),
        ensures
            r == pre_handle_key_press(db@, self@, key),
    {
        if self.show_edit {
            match key {
                Key::Char('q') => self.song_list.table_state.selected().is_some() && self.save_ready(db),
                _ => self.editor_ready(db, key),
            }
        } else if self.show_selected_mode {
            true
        } else {
            match key {
                Key::Char('D') => {
                    if !self.row_is_selected() {
                        return false;
                    }
                    match self.song_list.parent {
                        Parent::playlist_name(_) => self.selected_song_known(db),
                        Parent::default => true,
                    }
                },
                Key::Char('a') => self.row_is_selected() && self.selected_song_known(db),
                Key::Char('e') => self.enter_ready() && self.e_would_succeed(db),
                Key::Char('J') => self.can_move_song(db, 1),
                Key::Char('K') => self.can_move_song(db, -1),
                Key::Enter => self.enter_ready() && self.enter_would_succeed(db),
                Key::Char('i') => {
                    if !self.row_is_selected() {
                        return false;
                    }
                    match self.song_list.parent {
                        Parent::playlist_name(_) => self.selected_song_known(db),
                        Parent::default => true,
                    }
                },
                _ => true,
            }
        }
    }
}

} // verus!
