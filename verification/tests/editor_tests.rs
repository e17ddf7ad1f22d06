use rusty_music::db_service::{
    add_playlist, add_song, get_playlist_by_id, get_song_info, get_songs_from_playlist, init,
    is_playlist_unique, MusicDb, Playlist, Song,
};
use rusty_music::editor::{Editor, EditorType, Key, TableSelection, UiError};

fn db() -> MusicDb {
    let mut db = init();
    add_song(&mut db, &Song { song_id: 0, song_name: "tune".to_string(), path: "/t.mp3".to_string() }).unwrap();
    add_playlist(&mut db, Playlist { list_id: 0, list_name: "auto".to_string(), is_user_created: false }).unwrap();
    add_playlist(&mut db, Playlist { list_id: 0, list_name: "faves".to_string(), is_user_created: true }).unwrap();
    db
}

fn items(e: &Editor) -> Vec<(&str, &str)> {
    e.items.iter().map(|(a, b)| (a.as_str(), b.as_str())).collect()
}

#[test]
fn song_editor_shows_the_name() {
    let e = Editor::new(EditorType::Song(1), &db()).unwrap();
    assert_eq!(items(&e), vec![("name", "tune"), ("genre", ""), ("author", ""), ("date", "")]);
    assert_eq!(e.editor_head, "Edit Song");
    assert_eq!(e.table_state.selected_cell(), Some((0, 1)));
}

#[test]
fn other_editors() {
    let d = db();
    let e = Editor::new(EditorType::Default, &d).unwrap();
    assert_eq!(items(&e), vec![("name", "this is not supposed to happen")]);
    assert_eq!(e.editor_head, "why didnt i just use default trait");
    let e = Editor::new(EditorType::Playlist(2), &d).unwrap();
    assert_eq!(items(&e), vec![("name", "faves"), ("author", ""), ("genre", "")]);
    assert_eq!(e.editor_head, "Edit");
    let e = Editor::new(EditorType::NewPlaylist, &d).unwrap();
    assert_eq!(items(&e), vec![("name", "_"), ("Author", "")]);
    assert_eq!(e.editor_head, "create new Playlist");
    let e = Editor::new(EditorType::AddToPlaylist(1), &d).unwrap();
    assert_eq!(items(&e), vec![("", ""), ("", "faves")]);
    assert_eq!(e.editor_head, "To which playlist should tune be added");
    assert_eq!(
        Editor::new(EditorType::Playlist(9), &d).unwrap_err(),
        UiError::Db(rusty_music::db_service::DbError::PlaylistNotFound)
    );
}

#[test]
fn typing_edits_the_selected_value() {
    let mut d = db();
    let mut e = Editor::new(EditorType::Song(1), &d).unwrap();
    e.handle_keys(&mut d, Key::Char('s')).unwrap();
    assert_eq!(e.items[0].1, "tunes");
    e.handle_keys(&mut d, Key::Backspace).unwrap();
    e.handle_keys(&mut d, Key::Backspace).unwrap();
    assert_eq!(e.items[0].1, "tun");
    e.handle_keys(&mut d, Key::Down).unwrap();
    e.append_to_item('x');
    assert_eq!(items(&e)[1], ("genre", "x"));
    e.handle_keys(&mut d, Key::Up).unwrap();
    e.back_space();
    assert_eq!(e.items[0].1, "tu");
    e.save(&mut d).unwrap();
    assert_eq!(get_song_info(&d, &1).song_name, "tu");
}

#[test]
fn backspace_on_an_empty_value_does_nothing() {
    let d = db();
    let mut e = Editor::new(EditorType::NewPlaylist, &d).unwrap();
    e.handle_keys(&mut init(), Key::Down).unwrap();
    e.back_space();
    assert_eq!(items(&e), vec![("name", "_"), ("Author", "")]);
}

#[test]
fn saving_editors() {
    let mut d = db();
    let mut e = Editor::new(EditorType::Playlist(1), &d).unwrap();
    e.append_to_item('!');
    e.save(&mut d).unwrap();
    assert_eq!(get_playlist_by_id(&d, 1).unwrap().list_name, "auto!");
    let mut e = Editor::new(EditorType::NewPlaylist, &d).unwrap();
    e.back_space();
    for c in "new".chars() {
        e.append_to_item(c);
    }
    e.save(&mut d).unwrap();
    assert!(!is_playlist_unique(&d, "new"));
    let mut e = Editor::new(EditorType::Default, &d).unwrap();
    assert_eq!(e.save(&mut d).unwrap_err(), UiError::NotImplemented);
    let mut e = Editor::new(EditorType::AddToPlaylist(1), &d).unwrap();
    assert!(e.save(&mut d).is_ok());
}

#[test]
fn adding_to_a_playlist_with_the_keys() {
    let mut d = db();
    let mut e = Editor::new(EditorType::AddToPlaylist(1), &d).unwrap();
    e.handle_keys(&mut d, Key::Char('j')).unwrap();
    assert_eq!(e.table_state.selected, Some(1));
    e.handle_keys(&mut d, Key::Enter).unwrap();
    let songs = get_songs_from_playlist(&d, "faves").unwrap();
    assert_eq!(songs.len(), 1);
    assert_eq!(songs[0].song_name, "tune");
    e.handle_keys(&mut d, Key::Char('k')).unwrap();
    assert_eq!(e.table_state.selected, Some(0));
    // the empty first row names no playlist
    assert_eq!(
        e.handle_keys(&mut d, Key::Enter).unwrap_err(),
        UiError::Db(rusty_music::db_service::DbError::PlaylistNotFound)
    );
}

#[test]
fn selection_moves_like_a_table() {
    let mut s = TableSelection::new();
    s.select_next();
    assert_eq!(s.selected(), Some(0));
    s.select_next();
    assert_eq!(s.selected(), Some(1));
    s.select_previous();
    s.select_previous();
    assert_eq!(s.selected(), Some(0));
    let mut none = TableSelection::new().with_selected(None);
    none.select_previous();
    assert_eq!(none.selected(), Some(usize::MAX));
    none.select_next();
    assert_eq!(none.selected(), Some(usize::MAX));
    let mut cell = TableSelection { selected: Some(3), selected_column: Some(1), offset: 2 };
    cell.select_next();
    assert_eq!(cell, TableSelection { selected: Some(4), selected_column: Some(1), offset: 2 });
    cell.select(None);
    assert_eq!(cell, TableSelection { selected: None, selected_column: Some(1), offset: 0 });
    assert_eq!(cell.selected_cell(), None);
    cell.select_cell(Some((2, 0)));
    assert_eq!(cell.selected_cell(), Some((2, 0)));
    cell.select_cell(None);
    assert_eq!(cell, TableSelection::new());
    assert_eq!(TableSelection::new().with_selected_cell(Some((0, 1))).selected_cell(), Some((0, 1)));
}
