use rusty_music::config::Config;
use rusty_music::confirm::Confirm;
use rusty_music::db_service::{
    add_playlist, add_song, add_song_to_playlist, get_all_playlist, get_songs_from_playlist, init,
    is_playlist_unique, DbError, MusicDb, Playlist, Song,
};
use rusty_music::editor::{Editor, EditorType, Key, TableSelection, UiError};
use rusty_music::sound_service::SoundControlls;
use rusty_music::tui_service::{App, Parent, Song_List};

fn db() -> MusicDb {
    let mut db = init();
    for n in ["a", "b", "c"] {
        add_song(&mut db, &Song { song_id: 0, song_name: n.to_string(), path: format!("/{}.mp3", n) }).unwrap();
    }
    add_playlist(&mut db, Playlist { list_id: 0, list_name: "rock".to_string(), is_user_created: false }).unwrap();
    add_playlist(&mut db, Playlist { list_id: 0, list_name: "pop".to_string(), is_user_created: true }).unwrap();
    for id in 1..=3 {
        add_song_to_playlist(&mut db, id, 1, None).unwrap();
    }
    db
}

fn rows(app: &App) -> Vec<String> {
    app.song_list.rows.iter().map(|r| r[0].clone()).collect()
}

#[test]
fn default_config() {
    let c = Config::default();
    assert_eq!(c.music_path, "music/");
    assert_eq!(c.db_path, "db.sqlite");
    assert_eq!(
        [c.exit, c.delete, c.add, c.down, c.up, c.edit, c.play_pause, c.move_down, c.move_up, c.skip, c.info, c.create],
        ['q', 'D', 'a', 'j', 'k', 'e', ' ', 'J', 'K', 'l', 'i', 'c']
    );
}

#[test]
fn confirm_keeps_its_header() {
    let c = Confirm::new("Delete?".to_string(), || {});
    assert_eq!(c.confirm_header(), "Delete?");
}

#[test]
fn song_lists() {
    let d = db();
    let l = Song_List::new(Parent::default, &d).unwrap();
    assert_eq!(l.rows, vec![vec!["rock".to_string()], vec!["pop".to_string()]]);
    assert_eq!(l.table_state.selected, Some(0));
    let l = Song_List::new(Parent::playlist_name("rock".to_string()), &d).unwrap();
    assert_eq!(l.rows.len(), 3);
    assert_eq!(
        Song_List::new(Parent::playlist_name("jazz".to_string()), &d).unwrap_err(),
        UiError::Db(DbError::PlaylistNotFound)
    );
}

#[test]
fn open_a_playlist_and_go_back() {
    let mut d = db();
    let mut app = App::new(Parent::default, &d).unwrap();
    assert!(!app.show_edit && !app.is_exit);
    assert_eq!(app.editor.editor_type, EditorType::Default);
    assert_eq!(rows(&app), vec!["rock", "pop"]);
    app.handle_key_press(&mut d, Key::Char('e')).unwrap();
    assert_eq!(rows(&app), vec!["a", "b", "c"]);
    app.handle_key_press(&mut d, Key::Char('q')).unwrap();
    assert_eq!(rows(&app), vec!["rock", "pop"]);
    assert!(!app.is_exit);
    app.handle_key_press(&mut d, Key::Char('q')).unwrap();
    assert!(app.is_exit);
}

#[test]
fn playback_requests() {
    let mut d = db();
    let mut app = App::new(Parent::default, &d).unwrap();
    match app.handle_key_press(&mut d, Key::Enter).unwrap() {
        Some(SoundControlls::AddPlaylist(v)) => assert_eq!(v.len(), 3),
        other => panic!("unexpected {:?}", other.is_some()),
    }
    assert!(matches!(app.handle_key_press(&mut d, Key::Char(' ')).unwrap(), Some(SoundControlls::PlayPause)));
    assert!(matches!(app.handle_key_press(&mut d, Key::Char('l')).unwrap(), Some(SoundControlls::SkipSong)));
    app.handle_key_press(&mut d, Key::Char('e')).unwrap();
    app.handle_key_press(&mut d, Key::Char('j')).unwrap();
    match app.handle_key_press(&mut d, Key::Enter).unwrap() {
        Some(SoundControlls::AddSong(s)) => assert_eq!(s.song_name, "b"),
        other => panic!("unexpected {:?}", other.is_some()),
    }
    match app.e_pressed(&d).unwrap() {
        Some(SoundControlls::AddSong(s)) => assert_eq!(s.song_name, "b"),
        other => panic!("unexpected {:?}", other.is_some()),
    }
    assert!(app.handle_key_press(&mut d, Key::Char('x')).unwrap().is_none());
}

#[test]
fn moving_songs_with_the_keys() {
    let mut d = db();
    let mut app = App::new(Parent::playlist_name("rock".to_string()), &d).unwrap();
    app.handle_key_press(&mut d, Key::Char('J')).unwrap();
    assert_eq!(rows(&app), vec!["b", "a", "c"]);
    assert_eq!(app.song_list.table_state.selected, Some(1));
    app.handle_key_press(&mut d, Key::Char('K')).unwrap();
    assert_eq!(rows(&app), vec!["a", "b", "c"]);
    assert_eq!(app.song_list.table_state.selected, Some(0));
    app.move_song(&mut d, -1).unwrap();
    assert_eq!(app.song_list.table_state.selected, Some(0));
}

#[test]
fn deleting_rows() {
    let mut d = db();
    let mut app = App::new(Parent::playlist_name("rock".to_string()), &d).unwrap();
    app.handle_key_press(&mut d, Key::Char('j')).unwrap();
    app.handle_key_press(&mut d, Key::Char('D')).unwrap();
    assert_eq!(rows(&app), vec!["a", "c"]);
    assert_eq!(app.song_list.table_state.selected, Some(1));
    let mut app = App::new(Parent::default, &d).unwrap();
    app.delete_current(&mut d).unwrap();
    assert!(is_playlist_unique(&d, "rock"));
    assert_eq!(rows(&app), vec!["pop"]);
}

#[test]
fn creating_a_playlist_through_the_editor() {
    let mut d = db();
    let mut app = App::new(Parent::default, &d).unwrap();
    app.handle_key_press(&mut d, Key::Char('c')).unwrap();
    assert!(app.show_edit);
    app.handle_key_press(&mut d, Key::Backspace).unwrap();
    for c in "jazz".chars() {
        app.handle_key_press(&mut d, Key::Char(c)).unwrap();
    }
    app.back_space();
    app.append_to_item('z');
    app.handle_key_press(&mut d, Key::Char('q')).unwrap();
    assert!(!app.show_edit);
    assert_eq!(rows(&app), vec!["rock", "pop", "jazz"]);
    assert_eq!(get_all_playlist(&d).len(), 3);
}

#[test]
fn editing_the_selected_song_and_adding_it_to_a_playlist() {
    let mut d = db();
    let mut app = App::new(Parent::playlist_name("rock".to_string()), &d).unwrap();
    app.handle_key_press(&mut d, Key::Char('i')).unwrap();
    assert!(app.show_edit);
    assert_eq!(app.editor.editor_type, EditorType::Song(1));
    app.handle_key_press(&mut d, Key::Char('!')).unwrap();
    app.exit_edit(&mut d).unwrap();
    assert_eq!(rows(&app), vec!["a!", "b", "c"]);
    app.handle_key_press(&mut d, Key::Char('j')).unwrap();
    app.handle_key_press(&mut d, Key::Char('a')).unwrap();
    assert_eq!(app.editor.editor_type, EditorType::AddToPlaylist(2));
    app.handle_key_press(&mut d, Key::Char('j')).unwrap();
    app.handle_key_press(&mut d, Key::Enter).unwrap();
    let pop: Vec<String> = get_songs_from_playlist(&d, "pop").unwrap().iter().map(|s| s.song_name.clone()).collect();
    assert_eq!(pop, vec!["b"]);
}

#[test]
fn info_on_a_playlist_and_errors() {
    let mut d = db();
    let mut app = App::new(Parent::default, &d).unwrap();
    app.i_pressed(&d).unwrap();
    assert_eq!(app.editor.editor_type, EditorType::Playlist(1));
    app.create_playlist(&d).unwrap();
    assert_eq!(app.editor.editor_type, EditorType::NewPlaylist);
    app.q_pressed(&d).unwrap();
    assert!(app.is_exit);
    let mut app = App::new(Parent::default, &d).unwrap();
    app.song_list.table_state.select(None);
    assert_eq!(app.enter_pressed(&d).unwrap_err(), UiError::NoSelection);
    assert!(app.handle_key_press(&mut d, Key::Char('j')).unwrap().is_none());
}

#[test]
fn editor_keys_past_the_last_row() {
    let mut d = db();
    let mut app = App::new(Parent::default, &d).unwrap();
    app.e_pressed(&d).unwrap();
    // open the add-to-playlist editor for song "a"
    assert!(app.can_handle_key(&d, Key::Char('a')));
    app.handle_key_press(&mut d, Key::Char('a')).unwrap();
    assert!(app.show_edit);
    assert!(matches!(app.editor.editor_type, EditorType::AddToPlaylist(1)));
    // move the selection past the last row, with no redraw in between
    for _ in 0..5 {
        assert!(app.can_handle_key(&d, Key::Char('j')));
        app.handle_key_press(&mut d, Key::Char('j')).unwrap();
    }
    // j, k and other keys are still handled; only Enter needs a row
    assert!(app.can_handle_key(&d, Key::Char('k')));
    assert!(app.can_handle_key(&d, Key::Char('x')));
    assert!(app.can_handle_key(&d, Key::Backspace));
    assert!(!app.can_handle_key(&d, Key::Enter));
    app.handle_key_press(&mut d, Key::Char('x')).unwrap();
    app.handle_key_press(&mut d, Key::Char('k')).unwrap();
}

#[test]
fn closing_an_editor_of_a_missing_playlist() {
    let mut d = db();
    let mut app = App::new(Parent::default, &d).unwrap();
    app.show_edit = true;
    app.editor = Editor {
        table_state: TableSelection::new(),
        items: vec![],
        editor_type: EditorType::Playlist(42),
        editor_head: String::new(),
    };
    // the save fails on the lookup before any row is read
    assert!(app.can_handle_key(&d, Key::Char('q')));
    app.handle_key_press(&mut d, Key::Char('q')).unwrap();
    assert!(!app.show_edit);
    assert_eq!(rows(&app), vec!["rock", "pop"]);
}
