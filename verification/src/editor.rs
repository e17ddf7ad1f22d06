use vstd::prelude::*;
use crate::db_service::{
    add_playlist, add_song_to_playlist, get_playlist_by_id, get_playlist_by_name, get_song_info,
    get_user_created_playlist, next_pos, spec_add_playlist, spec_add_song_to_playlist,
    spec_get_playlist_by_id, spec_get_playlist_by_name, spec_get_song_info,
    spec_get_user_created_playlist, spec_update_playlist, spec_update_song, update_playlist,
    update_song, DbError, DbView, MusicDb, Playlist, PlaylistView, spec_is_playlist_unique,
    law_add_playlist_read_back, law_song_info_by_id, law_update_song_read_back, law_update_song_renames_only,
    law_playlist_by_id, law_update_playlist_renames_only, law_add_to_playlist_appends_one_row, row_links,
    spec_is_song_in_playlist,
};

verus! {

// ---------------------------------------------------------------------------
// Table selection
// ---------------------------------------------------------------------------

/// Which row and column of a table are selected, and the first row shown.
#[derive(Clone, Copy, Debug, PartialEq, Eq, Structural)]
pub struct TableSelection {
    pub selected: Option<usize>,
    pub selected_column: Option<usize>,
    pub offset: usize,
}

/// The row after the selected one, the first when none is selected; the last
/// index stays put.
pub open spec fn next_row(sel: Option<usize>) -> usize {
    match sel {
        Some(i) => if i == usize::MAX { i } else { (i + 1) as usize },
        None => 0,
    }
}

/// The row before the selected one, the last index when none is selected; the
/// first row stays put.
pub open spec fn previous_row(sel: Option<usize>) -> usize {
    match sel {
        Some(i) => if i == 0 { 0 } else { (i - 1) as usize },
        None => usize::MAX,
    }
}

/// `ratatui::widgets::TableState::select_next` on a state holding `sel`: the
/// selected row becomes `next_row`, column and offset stay.
#[verifier::external_body]
fn table_select_next(sel: TableSelection) -> (r: TableSelection)
    ensures
        r == (TableSelection { selected: Some(next_row(sel.selected)), ..sel }),
{
    let mut state = ratatui::widgets::TableState::new()
        .with_offset(sel.offset)
        .with_selected(sel.selected)
        .with_selected_column(sel.selected_column);
    state.select_next();
    TableSelection { selected: state.selected(), selected_column: state.selected_column(), offset: state.offset() }
}

/// `ratatui::widgets::TableState::select_previous` on a state holding `sel`:
/// the selected row becomes `previous_row`, column and offset stay.
#[verifier::external_body]
fn table_select_previous(sel: TableSelection) -> (r: TableSelection)
    ensures
        r == (TableSelection { selected: Some(previous_row(sel.selected)), ..sel }),
{
    let mut state = ratatui::widgets::TableState::new()
        .with_offset(sel.offset)
        .with_selected(sel.selected)
        .with_selected_column(sel.selected_column);
    state.select_previous();
    TableSelection { selected: state.selected(), selected_column: state.selected_column(), offset: state.offset() }
}

impl TableSelection {
    /// Nothing selected, first row shown.
    pub fn new() -> (r: TableSelection)
        ensures
            r == (TableSelection { selected: None, selected_column: None, offset: 0 }),
    {
        TableSelection { selected: None, selected_column: None, offset: 0 }
    }

    /// The given row selected.
    pub fn with_selected(self, selected: Option<usize>) -> (r: TableSelection)
        ensures
            r == (TableSelection { selected, ..self }),
    {
        TableSelection { selected, ..self }
    }

    /// The given cell selected, or no row and column.
    pub fn with_selected_cell(self, cell: Option<(usize, usize)>) -> (r: TableSelection)
        ensures
            r == (match cell {
                Some((row, col)) => TableSelection { selected: Some(row), selected_column: Some(col), ..self },
                None => TableSelection { selected: None, selected_column: None, ..self },
            }),
    {
        match cell {
            Some((row, col)) => TableSelection { selected: Some(row), selected_column: Some(col), ..self },
            None => TableSelection { selected: None, selected_column: None, ..self },
        }
    }

    /// Selects the row; selecting none also shows the first row.
    pub fn select(&mut self, index: Option<usize>)
        ensures
            final(self).selected == index,
            final(self).selected_column == old(self).selected_column,
            final(self).offset == (if index is None { 0 } else { old(self).offset }),
    {
        self.selected = index;
        if index.is_none() {
            self.offset = 0;
        }
    }

    /// Selects the cell; selecting none also shows the first row.
    pub fn select_cell(&mut self, cell: Option<(usize, usize)>)
        ensures
            *final(self) == (match cell {
                Some((row, col)) => TableSelection { selected: Some(row), selected_column: Some(col), ..*old(self) },
                None => TableSelection { selected: None, selected_column: None, offset: 0 },
            }),
    {
        match cell {
            Some((row, col)) => {
                self.selected = Some(row);
                self.selected_column = Some(col);
            },
            None => {
                self.offset = 0;
                self.selected = None;
                self.selected_column = None;
            },
        }
    }

    /// The selected row.
    pub fn selected(&self) -> (r: Option<usize>)
        ensures
            r == self.selected,
    {
        self.selected
    }

    /// The selected cell, when a row and a column are selected.
    pub fn selected_cell(&self) -> (r: Option<(usize, usize)>)
        ensures
            r == self.spec_selected_cell(),
    {
        match (self.selected, self.selected_column) {
            (Some(row), Some(col)) => Some((row, col)),
            _ => None,
        }
    }

    pub open spec fn spec_selected_cell(self) -> Option<(usize, usize)> {
        match (self.selected, self.selected_column) {
            (Some(row), Some(col)) => Some((row, col)),
            _ => None,
        }
    }

    /// Selects the next row; see `next_row`.
    pub fn select_next(&mut self)
        ensures
            *final(self) == (TableSelection { selected: Some(next_row(old(self).selected)), ..*old(self) }),
    {
        *self = table_select_next(*self);
    }

    /// Selects the previous row; see `previous_row`.
    pub fn select_previous(&mut self)
        ensures
            *final(self) == (TableSelection { selected: Some(previous_row(old(self).selected)), ..*old(self) }),
    {
        *self = table_select_previous(*self);
    }
}

// ---------------------------------------------------------------------------
// Keys and errors
// ---------------------------------------------------------------------------

/// The keys the player reacts to.
#[derive(Clone, Copy, Debug, PartialEq, Eq, Structural)]
pub enum Key {
    Char(char),
    Enter,
    Up,
    Down,
    Backspace,
    Other,
}

/// Errors of the editor and the screens.
#[derive(Debug, PartialEq, Eq, Structural)]
pub enum UiError {
    /// A database operation failed.
    Db(DbError),
    /// No row is selected.
    NoSelection,
    /// The operation is not available for this editor.
    NotImplemented,
}

// ---------------------------------------------------------------------------
// Text edits
// ---------------------------------------------------------------------------

/// `String::push`: the character goes at the end.
#[verifier::external_body]
fn push_char(s: &mut String, c: char)
    ensures
        final(s)@ == old(s)@.push(c),
{
    s.push(c);
}

/// `String::pop`: the last character is taken off, if any.
#[verifier::external_body]
fn pop_char(s: &mut String) -> (r: Option<char>)
    ensures
        old(s)@.len() == 0 ==> r is None && final(s)@ == old(s)@,
        old(s)@.len() > 0 ==> r == Some(old(s)@.last()) && final(s)@ == old(s)@.drop_last(),
{
    s.pop()
}

/// The text with its last character removed, if any.
pub open spec fn drop_last_char(s: Seq<char>) -> Seq<char> {
    if s.len() == 0 { s } else { s.drop_last() }
}

pub type Item = (String, String);

pub open spec fn items_view(v: Seq<Item>) -> Seq<(Seq<char>, Seq<char>)> {
    v.map_values(|p: Item| (p.0@, p.1@))
}

/// The item's value with a change applied.
pub open spec fn edit_value(items: Seq<(Seq<char>, Seq<char>)>, i: int, value: Seq<char>) -> Seq<(Seq<char>, Seq<char>)> {
    items.update(i, (items[i].0, value))
}

fn set_value(items: &mut Vec<Item>, i: usize, value: String)
    requires
        i < old(items)@.len(),
    ensures
        items_view(final(items)@) == edit_value(items_view(old(items)@), i as int, value@),
{
    let label = items[i].0.clone();
    let ghost before = items@;
    items.set(i, (label, value));
    assert(items_view(items@) =~= edit_value(items_view(before), i as int, value@));
}


// ---------------------------------------------------------------------------
// The editor
// ---------------------------------------------------------------------------

/// What an editor edits.
#[derive(Clone, Copy, Debug, PartialEq, Eq, Structural, Default)]
pub enum EditorType {
    Song(i64),
    Playlist(i64),
    #[default]
    Default,
    NewPlaylist,
    AddToPlaylist(i64),
}

/// A pop-up editor: labelled values, the selected cell, what is edited and a
/// header.
#[derive(Debug)]
pub struct Editor {
    pub table_state: TableSelection,
    pub items: Vec<Item>,
    pub editor_type: EditorType,
    pub editor_head: String,
}

pub struct EditorView {
    pub table_state: TableSelection,
    pub items: Seq<(Seq<char>, Seq<char>)>,
    pub editor_type: EditorType,
    pub editor_head: Seq<char>,
}

impl View for Editor {
    type V = EditorView;

    open spec fn view(&self) -> EditorView {
        EditorView {
            table_state: self.table_state,
            items: items_view(self.items@),
            editor_type: self.editor_type,
            editor_head: self.editor_head@,
        }
    }
}

/// The selection every new editor starts with: the value column of the first
/// row.
pub open spec fn first_value_cell() -> TableSelection {
    TableSelection { selected: Some(0), selected_column: Some(1), offset: 0 }
}

pub open spec fn pair(a: Seq<char>, b: Seq<char>) -> (Seq<char>, Seq<char>) {
    (a, b)
}

/// The choices of the add-to-playlist editor: an empty row, then one row per
/// user-created playlist holding its name.
pub open spec fn playlist_choices(lists: Seq<PlaylistView>) -> Seq<(Seq<char>, Seq<char>)> {
    seq![pair(Seq::empty(), Seq::empty())] + lists.map_values(|p: PlaylistView| pair(Seq::empty(), p.list_name))
}

/// The editor that opening an editor of the given type gives.
pub open spec fn spec_new_editor(db: DbView, typ: EditorType) -> Result<EditorView, UiError> {
    match typ {
        EditorType::Song(id) => Ok(EditorView {
            table_state: first_value_cell(),
            items: seq![
                pair("name"@, spec_get_song_info(db, id).song_name),
                pair("genre"@, Seq::empty()),
                pair("author"@, Seq::empty()),
                pair("date"@, Seq::empty())
            ],
            editor_type: typ,
            editor_head: "Edit Song"@,
        }),
        EditorType::AddToPlaylist(song_id) => Ok(EditorView {
            table_state: first_value_cell(),
            items: playlist_choices(spec_get_user_created_playlist(db)),
            editor_type: typ,
            editor_head: "To which playlist should "@ + spec_get_song_info(db, song_id).song_name + " be added"@,
        }),
        EditorType::Default => Ok(EditorView {
            table_state: first_value_cell(),
            items: seq![pair("name"@, "this is not supposed to happen"@)],
            editor_type: typ,
            editor_head: "why didnt i just use default trait"@,
        }),
        EditorType::Playlist(id) => match spec_get_playlist_by_id(db, id) {
            Err(e) => Err(UiError::Db(e)),
            Ok(p) => Ok(EditorView {
                table_state: first_value_cell(),
                items: seq![pair("name"@, p.list_name), pair("author"@, Seq::empty()), pair("genre"@, Seq::empty())],
                editor_type: typ,
                editor_head: "Edit"@,
            }),
        },
        EditorType::NewPlaylist => Ok(EditorView {
            table_state: first_value_cell(),
            items: seq![pair("name"@, "_"@), pair("Author"@, Seq::empty())],
            editor_type: typ,
            editor_head: "create new Playlist"@,
        }),
    }
}

/// The rows `save` reads are there: a song editor reads three rows, a
/// playlist editor three once its playlist is found, a new-playlist editor one.
pub open spec fn save_reads_ok(db: DbView, e: EditorView) -> bool {
    match e.editor_type {
        EditorType::Song(_) => e.items.len() >= 3,
        EditorType::Playlist(id) => spec_get_playlist_by_id(db, id) is Ok ==> e.items.len() >= 3,
        EditorType::NewPlaylist => e.items.len() >= 1,
        _ => true,
    }
}

/// What saving an editor does to the database: a song or playlist is renamed
/// to the first value, a new user-created playlist named by the first value
/// is added; the add-to-playlist editor saves nothing, the default editor
/// cannot be saved.
pub open spec fn spec_save(db: DbView, e: EditorView) -> Result<DbView, UiError> {
    match e.editor_type {
        EditorType::Song(id) => Ok(spec_update_song(db, spec_get_song_info(db, id).song_id, e.items[0].1)),
        EditorType::Playlist(id) => match spec_get_playlist_by_id(db, id) {
            Err(err) => Err(UiError::Db(err)),
            Ok(p) => Ok(spec_update_playlist(db, p.list_id, e.items[0].1)),
        },
        EditorType::NewPlaylist => match spec_add_playlist(db, e.items[0].1, true) {
            Err(err) => Err(UiError::Db(err)),
            Ok(d) => Ok(d),
        },
        EditorType::AddToPlaylist(_) => Ok(db),
        EditorType::Default => Err(UiError::NotImplemented),
    }
}

/// The selected row of the editor lies among its items, when a cell is
/// selected.
pub open spec fn cell_in_items(e: EditorView) -> bool {
    e.table_state.spec_selected_cell() matches Some((i, _)) ==> i < e.items.len()
}

/// Typing a character appends it to the value of the selected row.
pub open spec fn spec_append(e: EditorView, c: char) -> EditorView {
    match e.table_state.spec_selected_cell() {
        Some((i, _)) => EditorView { items: edit_value(e.items, i as int, e.items[i as int].1.push(c)), ..e },
        None => e,
    }
}

/// Backspace removes the last character of the value of the selected row.
pub open spec fn spec_back_space(e: EditorView) -> EditorView {
    match e.table_state.spec_selected_cell() {
        Some((i, _)) => EditorView { items: edit_value(e.items, i as int, drop_last_char(e.items[i as int].1)), ..e },
        None => e,
    }
}

/// What choosing a playlist in the add-to-playlist editor does: the song is
/// appended to the first playlist named by the selected row.
pub open spec fn spec_save_to_playlist(db: DbView, e: EditorView, song_id: i64) -> Result<DbView, UiError> {
    match e.table_state.spec_selected_cell() {
        None => Ok(db),
        Some((i, _)) => match spec_get_playlist_by_name(db, e.items[i as int].1) {
            Err(err) => Err(UiError::Db(err)),
            Ok(p) => match spec_add_song_to_playlist(db, song_id, p.list_id, None) {
                Err(err) => Err(UiError::Db(err)),
                Ok(d) => Ok(d),
            },
        },
    }
}

/// Appending to the chosen playlist stays within the position range.
pub open spec fn save_to_playlist_ok(db: DbView, e: EditorView) -> bool {
    e.table_state.spec_selected_cell() matches Some((i, _)) ==> (
        spec_get_playlist_by_name(db, e.items[i as int].1) matches Ok(p) ==> next_pos(db, p.list_id) <= i64::MAX)
}

/// What a key needs of the editor: in the add-to-playlist editor, Enter reads
/// the selected row and appends within the position range; elsewhere
/// Backspace and characters read the selected row.  Other keys need nothing.
pub open spec fn pre_key_editor(db: DbView, e: EditorView, key: Key) -> bool {
    match e.editor_type {
        EditorType::AddToPlaylist(_) => key is Enter ==> cell_in_items(e) && save_to_playlist_ok(db, e),
        _ => (key is Backspace || key is Char) ==> cell_in_items(e),
    }
}

/// The editor after a key: in the add-to-playlist editor `j` and `k` move the
/// selection and Enter adds the song; elsewhere the arrows move the
/// selection, Backspace and characters edit the selected value.
pub open spec fn spec_key_editor(e: EditorView, key: Key) -> EditorView {
    match e.editor_type {
        EditorType::AddToPlaylist(_) => match key {
            Key::Char('j') => EditorView { table_state: TableSelection { selected: Some(next_row(e.table_state.selected)), ..e.table_state }, ..e },
            Key::Char('k') => EditorView { table_state: TableSelection { selected: Some(previous_row(e.table_state.selected)), ..e.table_state }, ..e },
            _ => e,
        },
        _ => match key {
            Key::Down => EditorView { table_state: TableSelection { selected: Some(next_row(e.table_state.selected)), ..e.table_state }, ..e },
            Key::Up => EditorView { table_state: TableSelection { selected: Some(previous_row(e.table_state.selected)), ..e.table_state }, ..e },
            Key::Backspace => spec_back_space(e),
            Key::Char(c) => spec_append(e, c),
            _ => e,
        },
    }
}

/// What a key does to the database: only Enter in the add-to-playlist editor
/// changes it.
pub open spec fn spec_key_db(db: DbView, e: EditorView, key: Key) -> Result<DbView, UiError> {
    match (e.editor_type, key) {
        (EditorType::AddToPlaylist(song_id), Key::Enter) => spec_save_to_playlist(db, e, song_id),
        _ => Ok(db),
    }
}

fn label_item(a: &str) -> (r: Item)
    ensures
        r.0@ == a@,
        r.1@ == Seq::<char>::empty(),
{
    (String::from_str(a), String::new())
}

fn str_item(a: &str, b: &str) -> (r: Item)
    ensures
        r.0@ == a@,
        r.1@ == b@,
{
    (String::from_str(a), String::from_str(b))
}

impl Editor {
    /// Opens an editor of the given type; see `spec_new_editor`.
    pub fn new(typ: EditorType, db: &MusicDb) -> (r: Result<Editor, UiError>)
        ensures
            r matches Ok(e) ==> spec_new_editor(db@, typ) == Ok::<EditorView, UiError>(e@),
            r matches Err(err) ==> spec_new_editor(db@, typ) == Err::<EditorView, UiError>(err),
    {
        let cell = TableSelection::new().with_selected_cell(Some((0, 1)));
        match typ {
            EditorType::Song(p_song_id) => {
                let song = get_song_info(db, &p_song_id);
                let mut items: Vec<Item> = Vec::new();
                items.push((String::from_str("name"), song.song_name));
                items.push(label_item("genre"));
                items.push(label_item("author"));
                items.push(label_item("date"));
                let e = Editor {
                    items,
                    editor_type: EditorType::Song(p_song_id),
                    table_state: cell,
                    editor_head: String::from_str("Edit Song"),
                };
                proof {
                    assert(e@.items =~= spec_new_editor(db@, typ).unwrap().items);
                }
                Ok(e)
            },
            EditorType::AddToPlaylist(song_id) => {
                let playlists = get_user_created_playlist(db);
                let ghost lists = spec_get_user_created_playlist(db@);
                let mut items: Vec<Item> = Vec::new();
                items.push((String::new(), String::new()));
                assert(items_view(items@) =~= playlist_choices(lists).take(1));
                let mut i: usize = 0;
                while i < playlists.len()
                    invariant
                        0 <= i <= playlists@.len(),
                        lists == playlists@.map_values(|p: Playlist| p@),
                        items_view(items@) == playlist_choices(lists).take(i + 1),
                    decreases playlists@.len() - i,
                {
                    let ghost before = items@;
                    items.push((String::new(), playlists[i].list_name.clone()));
                    proof {
                        let x = pair(Seq::empty(), lists[i as int].list_name);
                        assert(items_view(items@) =~= items_view(before).push(x));
                        assert(playlist_choices(lists)[i + 1] == x);
                        assert(playlist_choices(lists).take(i + 2) =~= playlist_choices(lists).take(i + 1).push(x));
                    }
                    i = i + 1;
                }
                proof {
                    assert(playlist_choices(lists).take(i + 1) =~= playlist_choices(lists));
                }
                let song_name = get_song_info(db, &song_id).song_name;
                let head = String::from_str("To which playlist should ").concat(song_name.as_str()).concat(" be added");
                Ok(Editor { items, editor_type: EditorType::AddToPlaylist(song_id), editor_head: head, table_state: cell })
            },
            EditorType::Default => {
                let mut items: Vec<Item> = Vec::new();
                items.push(str_item("name", "this is not supposed to happen"));
                let e = Editor {
                    items,
                    editor_type: EditorType::Default,
                    table_state: cell,
                    editor_head: String::from_str("why didnt i just use default trait"),
                };
                assert(e@.items =~= spec_new_editor(db@, typ).unwrap().items);
                Ok(e)
            },
            EditorType::Playlist(p_list_id) => {
                let playlist = match get_playlist_by_id(db, p_list_id) {
                    Ok(p) => p,
                    Err(err) => return Err(UiError::Db(err)),
                };
                let mut items: Vec<Item> = Vec::new();
                items.push((String::from_str("name"), playlist.list_name.clone()));
                items.push(label_item("author"));
                items.push(label_item("genre"));
                let e = Editor {
                    items,
                    editor_type: EditorType::Playlist(p_list_id),
                    table_state: cell,
                    editor_head: String::from_str("Edit"),
                };
                proof {
                    assert(e@.items =~= spec_new_editor(db@, typ).unwrap().items);
                }
                Ok(e)
            },
            EditorType::NewPlaylist => {
                let mut items: Vec<Item> = Vec::new();
                items.push(str_item("name", "_"));
                items.push(label_item("Author"));
                let e = Editor {
                    items,
                    editor_type: EditorType::NewPlaylist,
                    table_state: cell,
                    editor_head: String::from_str("create new Playlist"),
                };
                proof {
                    assert(e@.items =~= spec_new_editor(db@, typ).unwrap().items);
                }
                Ok(e)
            },
        }
    }

    /// Saves the edit to the database; see `spec_save`.
    pub fn save(&mut self, db: &mut MusicDb) -> (r: Result<(), UiError>)
        requires
            old(db)@.wf(),
            save_reads_ok(old(db)@, old(self)@),
        ensures
            final(db)@.wf(),
            final(self)@ == old(self)@,
            r matches Ok(_) ==> spec_save(old(db)@, old(self)@) == Ok::<DbView, UiError>(final(db)@),
            r matches Err(e) ==> spec_save(old(db)@, old(self)@) == Err::<DbView, UiError>(e) && final(db)@ == old(db)@,
    {
        match self.editor_type {
            EditorType::Song(id) => {
                let mut song = get_song_info(db, &id);
                song.song_name = self.items[0].1.clone();
                update_song(db, &song);
                Ok(())
            },
            EditorType::Playlist(id) => {
                let mut playlist = match get_playlist_by_id(db, id) {
                    Ok(p) => p,
                    Err(e) => return Err(UiError::Db(e)),
                };
                playlist.list_name = self.items[0].1.clone();
                update_playlist(db, &playlist);
                Ok(())
            },
            EditorType::NewPlaylist => {
                let playlist = Playlist { list_id: 0, list_name: self.items[0].1.clone(), is_user_created: true };
                match add_playlist(db, playlist) {
                    Ok(()) => Ok(()),
                    Err(e) => Err(UiError::Db(e)),
                }
            },
            EditorType::AddToPlaylist(_song_id) => Ok(()),
            EditorType::Default => Err(UiError::NotImplemented),
        }
    }

    /// Removes the last character of the selected value.
    pub fn back_space(&mut self)
        requires
            cell_in_items(old(self)@),
        ensures
            final(self)@ == spec_back_space(old(self)@),
    {
        match self.table_state.selected_cell() {
            Some(tup) => {
                let i = tup.0;
                let mut value = self.items[i].1.clone();
                let _ = pop_char(&mut value);
                set_value(&mut self.items, i, value);
            },
            None => {},
        }
    }

    /// Appends the character to the selected value.
    pub fn append_to_item(&mut self, c: char)
        requires
            cell_in_items(old(self)@),
        ensures
            final(self)@ == spec_append(old(self)@, c),
    {
        match self.table_state.selected_cell() {
            Some(tup) => {
                let i = tup.0;
                let mut value = self.items[i].1.clone();
                push_char(&mut value, c);
                set_value(&mut self.items, i, value);
            },
            None => {},
        }
    }

    /// Handles a key; see `spec_key_editor` and `spec_key_db`.
    pub fn handle_keys(&mut self, db: &mut MusicDb, key: Key) -> (r: Result<(), UiError>)
        requires
            old(db)@.wf(),
            pre_key_editor(old(db)@, old(self)@, key),
        ensures
            final(db)@.wf(),
            r is Ok ==> final(self)@ == spec_key_editor(old(self)@, key)
                && spec_key_db(old(db)@, old(self)@, key) == Ok::<DbView, UiError>(final(db)@),
            r matches Err(e) ==> final(self)@ == old(self)@ && final(db)@ == old(db)@
                && spec_key_db(old(db)@, old(self)@, key) == Err::<DbView, UiError>(e),
    {
        match self.editor_type {
            EditorType::AddToPlaylist(song_id) => {
                match key {
                    Key::Enter => {
                        self.save_to_playlist(db, song_id)?;
                    },
                    Key::Char('j') => self.table_state.select_next(),
                    Key::Char('k') => self.table_state.select_previous(),
                    _ => {},
                }
            },
            _ => {
                match key {
                    Key::Down => self.table_state.select_next(),
                    Key::Up => self.table_state.select_previous(),
                    Key::Backspace => self.back_space(),
                    Key::Char(c) => self.append_to_item(c),
                    _ => {},
                }
            },
        }
        Ok(())
    }

    /// Adds the song to the playlist named by the selected row; see
    /// `spec_save_to_playlist`.
    pub fn save_to_playlist(&mut self, db: &mut MusicDb, song_id: i64) -> (r: Result<(), UiError>)
        requires
            old(db)@.wf(),
            cell_in_items(old(self)@),
            save_to_playlist_ok(old(db)@, old(self)@),
        ensures
            final(db)@.wf(),
            final(self)@ == old(self)@,
            r matches Ok(_) ==> spec_save_to_playlist(old(db)@, old(self)@, song_id) == Ok::<DbView, UiError>(final(db)@),
            r matches Err(e) ==> spec_save_to_playlist(old(db)@, old(self)@, song_id) == Err::<DbView, UiError>(e)
                && final(db)@ == old(db)@,
    {
        match self.table_state.selected_cell() {
            Some(tup) => {
                let i = tup.0;
                let list_name = &self.items[i].1;
                let playlist = match get_playlist_by_name(db, list_name.as_str()) {
                    Ok(p) => p,
                    Err(e) => return Err(UiError::Db(e)),
                };
                match add_song_to_playlist(db, song_id, playlist.list_id, None) {
                    Ok(()) => {},
                    Err(e) => return Err(UiError::Db(e)),
                }
            },
            None => {},
        }
        Ok(())
    }
}


// ---------------------------------------------------------------------------
// Laws
// ---------------------------------------------------------------------------

/// Typing a character and then Backspace leaves the editor as it was.
pub proof fn law_type_then_erase(e: EditorView, c: char)
    requires
        cell_in_items(e),
    ensures
        spec_back_space(spec_append(e, c)) == e,
{
    if let Some((i, _)) = e.table_state.spec_selected_cell() {
        let v = e.items[i as int].1;
        assert(v.push(c).drop_last() =~= v);
        let e1 = spec_append(e, c);
        assert(e1.items[i as int].1 == v.push(c));
        assert(edit_value(e1.items, i as int, drop_last_char(e1.items[i as int].1)) =~= e.items);
    }
}

/// Selecting the next row and then the previous one comes back to the row,
/// unless it is the last index.
pub proof fn law_next_then_previous(i: usize)
    requires
        i < usize::MAX,
    ensures
        previous_row(Some(next_row(Some(i)))) == i,
{
}

/// Selecting the previous row and then the next one comes back to the row,
/// unless it is the first.
pub proof fn law_previous_then_next(i: usize)
    requires
        0 < i,
    ensures
        next_row(Some(previous_row(Some(i)))) == i,
{
}

/// Saving a new-playlist editor creates a user-created playlist named by
/// its first value: the list of user-created playlists gains it at the end,
/// with the id just handed out, and nothing else changes in that list.
pub proof fn law_new_playlist_is_user_created(db: DbView, e: EditorView)
    requires
        db.wf(),
        e.editor_type == EditorType::NewPlaylist,
        e.items.len() >= 1,
    ensures
        spec_save(db, e) matches Ok(d) ==> {
            &&& spec_get_user_created_playlist(d) == spec_get_user_created_playlist(db).push(
                PlaylistView { list_id: d.playlist_seq, list_name: e.items[0].1, is_user_created: true })
            &&& !spec_is_playlist_unique(d, e.items[0].1)
        },
        spec_save(db, e) is Err <==> db.playlist_seq == i64::MAX,
{
    if db.playlist_seq < i64::MAX {
        law_add_playlist_read_back(db, e.items[0].1, true);
        let d = spec_save(db, e).unwrap();
        let pv = PlaylistView { list_id: d.playlist_seq, list_name: e.items[0].1, is_user_created: true };
        assert(spec_get_user_created_playlist(db) + seq![pv] =~= spec_get_user_created_playlist(db).push(pv));
    }
}

/// Saving a song editor renames the song to the first value and keeps its
/// path; for an id no song has, nothing changes.
pub proof fn law_song_editor_renames_song(db: DbView, e: EditorView, id: i64)
    requires
        db.wf(),
        e.editor_type == EditorType::Song(id),
        e.items.len() >= 1,
    ensures
        spec_save(db, e) matches Ok(d) && {
            &&& (exists|i: int| 0 <= i < db.songs.len() && (#[trigger] db.songs[i]).song_id == id) ==>
                spec_get_song_info(d, id).song_name == e.items[0].1
                && spec_get_song_info(d, id).path == spec_get_song_info(db, id).path
            &&& (forall|i: int| 0 <= i < db.songs.len() ==> (#[trigger] db.songs[i]).song_id != id) ==> d == db
            &&& d.playlists == db.playlists && d.junction == db.junction
        },
{
    law_song_info_by_id(db, id);
    if exists|i: int| 0 <= i < db.songs.len() && (#[trigger] db.songs[i]).song_id == id {
        law_update_song_read_back(db, id, e.items[0].1);
    } else {
        let d = spec_update_song(db, id, e.items[0].1);
        law_update_song_renames_only(db, id, e.items[0].1);
        assert(d.songs =~= db.songs);
    }
}

/// Saving a playlist editor renames the playlist with that id to the first
/// value and no other; it fails exactly when no playlist has the id.
pub proof fn law_playlist_editor_renames_playlist(db: DbView, e: EditorView, id: i64)
    requires
        e.editor_type == EditorType::Playlist(id),
        e.items.len() >= 1,
    ensures
        spec_save(db, e) matches Ok(d) ==> {
            &&& d.playlists.len() == db.playlists.len()
            &&& forall|i: int| 0 <= i < db.playlists.len() ==> (#[trigger] d.playlists[i]).list_id == db.playlists[i].list_id
                && (db.playlists[i].list_id == id ==> d.playlists[i].list_name == e.items[0].1)
                && (db.playlists[i].list_id != id ==> d.playlists[i] == db.playlists[i])
            &&& d.songs == db.songs && d.junction == db.junction
        },
        spec_save(db, e) is Err <==> forall|i: int| 0 <= i < db.playlists.len() ==> (#[trigger] db.playlists[i]).list_id != id,
{
    law_playlist_by_id(db, id);
    law_update_playlist_renames_only(db, id, e.items[0].1);
}

/// Choosing a playlist in the add-to-playlist editor puts the song into the
/// first playlist named by the selected row.
pub proof fn law_save_to_playlist_adds_song(db: DbView, e: EditorView, song_id: i64)
    requires
        cell_in_items(e),
        e.table_state.spec_selected_cell() is Some,
    ensures
        spec_save_to_playlist(db, e, song_id) matches Ok(d) ==> {
            let name = e.items[e.table_state.spec_selected_cell().unwrap().0 as int].1;
            spec_get_playlist_by_name(db, name) matches Ok(p) && spec_is_song_in_playlist(d, song_id, p.list_id)
                && d.junction.drop_last() == db.junction
        },
{
    if let Ok(d) = spec_save_to_playlist(db, e, song_id) {
        let name = e.items[e.table_state.spec_selected_cell().unwrap().0 as int].1;
        let p = spec_get_playlist_by_name(db, name).unwrap();
        law_add_to_playlist_appends_one_row(db, song_id, p.list_id, None);
        let w = d.junction.len() - 1;
        assert(d.junction[w] == d.junction.last());
        assert(row_links(song_id, p.list_id)(d.junction[w]));
    }
}

} // verus!
