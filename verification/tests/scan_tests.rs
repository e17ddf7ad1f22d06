use rusty_music::db_service::{
    get_all_playlist, get_playlist_by_name, get_song_by_path, get_song_count, get_songs_from_playlist, init,
    is_path_unique, is_playlist_unique, is_song_in_playlist, JunctionRow, MusicDb,
};
use rusty_music::file_service::{
    extension_from, extract_songs, file_name_of, is_scannable, scan_ready, update_songs, DirEntry, ScanError,
};

fn file(path: &str) -> DirEntry {
    DirEntry::File { path: path.to_string() }
}

fn dir(path: &str, entries: Vec<DirEntry>) -> DirEntry {
    DirEntry::Dir { path: path.to_string(), entries }
}

fn library() -> Vec<DirEntry> {
    vec![
        file("/music/intro.mp3"),
        dir(
            "/music/Album One",
            vec![file("/music/Album One/01 a.mp3"), file("/music/Album One/cover.jpg"), file("/music/Album One/02 b.mp3")],
        ),
        dir("/music/Empty", vec![file("/music/Empty/notes.txt")]),
        dir(
            "/music/Band",
            vec![dir("/music/Band/Live", vec![file("/music/Band/Live/x.mp3")])],
        ),
    ]
}

#[test]
fn file_names_are_the_last_path_component() {
    assert_eq!(file_name_of("/music/Album One/01 a.mp3"), "01 a.mp3");
    assert_eq!(file_name_of("plain"), "plain");
    assert_eq!(file_name_of("/trailing/"), "");
}

#[test]
fn extensions_follow_the_final_dot() {
    assert_eq!(extension_from("song.mp3").as_deref(), Some("mp3"));
    assert_eq!(extension_from("a.b.flac").as_deref(), Some("flac"));
    assert_eq!(extension_from("archive.").as_deref(), Some(""));
    assert_eq!(extension_from(".hidden"), None);
    assert_eq!(extension_from(".hidden.mp3").as_deref(), Some("mp3"));
    assert_eq!(extension_from("README"), None);
}

#[test]
fn scanning_adds_every_music_file_and_album() {
    let mut db = init();
    let ids = update_songs(&mut db, &library()).unwrap();
    // only the music files directly in the scanned directory are reported
    assert_eq!(ids, vec![1]);
    assert_eq!(get_song_count(&db), 4);
    let song = get_song_by_path(&db, "/music/Album One/02 b.mp3").unwrap();
    assert_eq!((song.song_id, song.song_name.as_str()), (3, "02 b.mp3"));
    assert!(is_path_unique(&db, "/music/Album One/cover.jpg"));
    // directories holding music directly become playlists, in the order they finish
    let names: Vec<String> = get_all_playlist(&db).iter().map(|p| p.list_name.clone()).collect();
    assert_eq!(names, vec!["Album One", "Live"]);
    assert!(is_playlist_unique(&db, "Empty"));
    assert!(is_playlist_unique(&db, "Band"));
    let album: Vec<String> = get_songs_from_playlist(&db, "Album One").unwrap().iter().map(|s| s.song_name.clone()).collect();
    assert_eq!(album, vec!["01 a.mp3", "02 b.mp3"]);
}

#[test]
fn scanning_twice_changes_nothing() {
    let mut db = init();
    update_songs(&mut db, &library()).unwrap();
    let before = snapshot(&db);
    let ids = update_songs(&mut db, &library()).unwrap();
    assert_eq!(ids, vec![1]);
    assert_eq!(snapshot(&db), before);
}

fn snapshot(db: &MusicDb) -> (Vec<(i64, String, String)>, Vec<(i64, String, i64)>, Vec<(i64, i64, i64, Option<i64>)>) {
    (
        db.songs_table().iter().map(|s| (s.song_id, s.song_name.clone(), s.path.clone())).collect(),
        db.playlist_table().iter().map(|p| (p.list_id, p.list_name.clone(), p.is_user_created)).collect(),
        db.junction_table().iter().map(|r| (r.id, r.song_id, r.playlist_id, r.playlist_pos)).collect(),
    )
}

#[test]
fn an_unreadable_entry_stops_the_scan() {
    let mut db = init();
    let listing = vec![file("/m/a.mp3"), DirEntry::Unreadable, file("/m/b.mp3")];
    assert_eq!(update_songs(&mut db, &listing).unwrap_err(), ScanError::UnreadableEntry);
    assert!(!is_path_unique(&db, "/m/a.mp3"));
    assert!(is_path_unique(&db, "/m/b.mp3"));
}

#[test]
fn files_already_known_keep_their_ids() {
    let mut db = init();
    update_songs(&mut db, &vec![file("/m/a.mp3")]).unwrap();
    let ids = update_songs(&mut db, &vec![file("/m/b.mp3"), file("/m/a.mp3")]).unwrap();
    assert_eq!(ids, vec![2, 1]);
}

#[test]
fn extract_songs_does_nothing() {
    extract_songs();
}

#[test]
fn album_songs_stand_in_the_album_playlist() {
    let mut db = init();
    update_songs(&mut db, &library()).unwrap();
    let live = get_playlist_by_name(&db, "Live").unwrap();
    let x = get_song_by_path(&db, "/music/Band/Live/x.mp3").unwrap();
    assert!(is_song_in_playlist(&db, &x.song_id, &live.list_id));
    let intro = get_song_by_path(&db, "/music/intro.mp3").unwrap();
    let album = get_playlist_by_name(&db, "Album One").unwrap();
    assert!(!is_song_in_playlist(&db, &intro.song_id, &album.list_id));
}

#[test]
fn two_directories_of_one_name_share_a_playlist() {
    let mut db = init();
    let listing = vec![
        dir("/a/Hits", vec![file("/a/Hits/1.mp3")]),
        dir("/b/Hits", vec![file("/b/Hits/2.mp3")]),
    ];
    update_songs(&mut db, &listing).unwrap();
    let names: Vec<String> = get_all_playlist(&db).iter().map(|p| p.list_name.clone()).collect();
    assert_eq!(names, vec!["Hits"]);
    let songs: Vec<String> = get_songs_from_playlist(&db, "Hits").unwrap().iter().map(|s| s.path.clone()).collect();
    assert_eq!(songs, vec!["/a/Hits/1.mp3", "/b/Hits/2.mp3"]);
}

#[test]
fn rescanning_after_an_unreadable_entry_changes_nothing() {
    let mut db = init();
    let listing = vec![file("/m/a.mp3"), DirEntry::Unreadable, file("/m/b.mp3")];
    let first = update_songs(&mut db, &listing);
    let before = snapshot(&db);
    let second = update_songs(&mut db, &listing);
    assert_eq!(first.unwrap_err(), ScanError::UnreadableEntry);
    assert_eq!(second.unwrap_err(), ScanError::UnreadableEntry);
    assert_eq!(snapshot(&db), before);
}

#[test]
fn listings_the_scan_can_handle() {
    assert!(is_scannable(&library()));
    assert!(is_scannable(&vec![]));
    // a file without an extension
    assert!(!is_scannable(&vec![file("/m/README")]));
    // an unreadable entry below the top level
    assert!(!is_scannable(&vec![dir("/m/d", vec![DirEntry::Unreadable])]));
    // nothing after a top-level unreadable entry is read
    assert!(is_scannable(&vec![file("/m/a.mp3"), DirEntry::Unreadable, file("/m/README")]));
    assert!(!is_scannable(&vec![file("/m/README"), DirEntry::Unreadable]));
}

#[test]
fn scan_ready_checks_room_for_new_ids() {
    let db = init();
    assert!(scan_ready(&db, &library()));
    assert!(!scan_ready(&db, &vec![file("/m/README")]));
    // one free song id left
    let nearly = MusicDb::from_tables(vec![], vec![], vec![], i64::MAX - 1, 0).unwrap();
    assert!(scan_ready(&nearly, &vec![]));
    assert!(scan_ready(&nearly, &vec![file("/m/a.mp3")]));
    assert!(!scan_ready(&nearly, &vec![file("/m/a.mp3"), file("/m/b.mp3")]));
    // a file already known needs no id
    assert!(scan_ready(&nearly, &vec![file("/m/a.mp3"), file("/m/a.mp3")]));
    // no free junction row id: an album cannot be filled
    let rows = vec![JunctionRow { id: i64::MAX, song_id: 9, playlist_id: 9, playlist_pos: Some(1) }];
    let frozen = MusicDb::from_tables(vec![], vec![], rows, 0, 0).unwrap();
    assert!(scan_ready(&frozen, &vec![file("/m/a.mp3")]));
    assert!(!scan_ready(&frozen, &vec![dir("/m/Al", vec![file("/m/Al/a.mp3")])]));
}

#[test]
fn rescanning_at_the_id_limit() {
    let mut db = MusicDb::from_tables(vec![], vec![], vec![], i64::MAX - 1, 0).unwrap();
    let listing = vec![file("/m/a.mp3")];
    assert!(scan_ready(&db, &listing));
    assert_eq!(update_songs(&mut db, &listing).unwrap(), vec![i64::MAX]);
    let before = snapshot(&db);
    // every id is used up, yet the same listing can be scanned again
    assert!(scan_ready(&db, &listing));
    assert_eq!(update_songs(&mut db, &listing).unwrap(), vec![i64::MAX]);
    assert_eq!(snapshot(&db), before);
}
