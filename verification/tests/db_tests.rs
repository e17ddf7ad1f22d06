use rusty_music::db_service::{
    add_playlist, add_song, add_song_to_playlist, get_all_playlist, get_playlist_by_id,
    get_playlist_by_name, get_song_by_name, get_song_by_path, get_song_count, get_song_info,
    get_song_pos, get_songs_from_playlist, get_user_created_playlist, init, is_path_unique,
    is_playlist_unique, is_pos_unique, is_song_at_pos, is_song_in_playlist, mov_song_up,
    remove_playlist, remove_song_from_playlist, update_playlist, update_song, DbError,
    JunctionRow, MusicDb, Playlist, PlaylistRow, Song,
};

fn song(name: &str, path: &str) -> Song {
    Song { song_id: 0, song_name: name.to_string(), path: path.to_string() }
}

fn playlist(name: &str, user: bool) -> Playlist {
    Playlist { list_id: 0, list_name: name.to_string(), is_user_created: user }
}

fn names(v: &[Song]) -> Vec<String> {
    v.iter().map(|s| s.song_name.clone()).collect()
}

/// Three songs a, b, c and a playlist "rock" holding a, b, c at positions 1, 2, 3.
fn sample() -> MusicDb {
    let mut db = init();
    add_song(&mut db, &song("a", "/m/a.mp3")).unwrap();
    add_song(&mut db, &song("b", "/m/b.mp3")).unwrap();
    add_song(&mut db, &song("c", "/m/c.mp3")).unwrap();
    add_playlist(&mut db, playlist("rock", false)).unwrap();
    for id in 1..=3 {
        add_song_to_playlist(&mut db, id, 1, None).unwrap();
    }
    db
}

#[test]
fn empty_database_has_no_songs() {
    let db = init();
    assert_eq!(get_song_count(&db), 0);
    assert!(get_all_playlist(&db).is_empty());
    assert_eq!(db.song_seq(), 0);
    assert_eq!(db.playlist_seq(), 0);
}

#[test]
fn added_songs_get_consecutive_ids() {
    let db = sample();
    assert_eq!(get_song_count(&db), 3);
    let ids: Vec<i64> = db.songs_table().iter().map(|s| s.song_id).collect();
    assert_eq!(ids, vec![1, 2, 3]);
    assert_eq!(db.song_seq(), 3);
}

#[test]
fn added_song_reads_back_by_path_id_and_name() {
    let db = sample();
    let s = get_song_by_path(&db, "/m/b.mp3").unwrap();
    assert_eq!((s.song_id, s.song_name.as_str()), (2, "b"));
    let s = get_song_info(&db, &3);
    assert_eq!((s.song_name.as_str(), s.path.as_str()), ("c", "/m/c.mp3"));
    let s = get_song_by_name(&db, "a").unwrap();
    assert_eq!(s.path, "/m/a.mp3");
    assert!(!is_path_unique(&db, "/m/a.mp3"));
    assert!(is_path_unique(&db, "/m/z.mp3"));
}

#[test]
fn unknown_song_info_is_a_placeholder() {
    let db = sample();
    let s = get_song_info(&db, &42);
    assert_eq!(s.song_id, 42);
    assert_eq!(s.song_name, "default");
    assert_eq!(s.path, "");
}

#[test]
fn missing_songs_and_playlists_are_errors() {
    let db = sample();
    assert_eq!(get_song_by_name(&db, "zzz").unwrap_err(), DbError::SongNotFound);
    assert_eq!(get_song_by_path(&db, "/nope").unwrap_err(), DbError::SongNotFound);
    assert_eq!(get_playlist_by_name(&db, "jazz").unwrap_err(), DbError::PlaylistNotFound);
    assert_eq!(get_playlist_by_id(&db, 9).unwrap_err(), DbError::PlaylistNotFound);
    assert_eq!(get_song_pos(&init(), 1).unwrap_err(), DbError::PositionNotFound);
    assert_eq!(get_songs_from_playlist(&db, "jazz").unwrap_err(), DbError::PlaylistNotFound);
}

#[test]
fn first_song_with_a_name_wins() {
    let mut db = init();
    add_song(&mut db, &song("same", "/1.mp3")).unwrap();
    add_song(&mut db, &song("same", "/2.mp3")).unwrap();
    assert_eq!(get_song_by_name(&db, "same").unwrap().path, "/1.mp3");
}

#[test]
fn update_song_renames_only_that_song() {
    let mut db = sample();
    update_song(&mut db, &Song { song_id: 2, song_name: "bee".to_string(), path: "ignored".to_string() });
    assert_eq!(get_song_info(&db, &2).song_name, "bee");
    assert_eq!(get_song_info(&db, &2).path, "/m/b.mp3");
    assert_eq!(get_song_info(&db, &1).song_name, "a");
}

#[test]
fn playlists_read_back() {
    let mut db = sample();
    add_playlist(&mut db, playlist("mine", true)).unwrap();
    assert!(!is_playlist_unique(&db, "mine"));
    assert!(is_playlist_unique(&db, "jazz"));
    let all = get_all_playlist(&db);
    let listed: Vec<(i64, String, bool)> =
        all.iter().map(|p| (p.list_id, p.list_name.clone(), p.is_user_created)).collect();
    assert_eq!(listed, vec![(1, "rock".to_string(), false), (2, "mine".to_string(), false)]);
    let user = get_user_created_playlist(&db);
    assert_eq!(user.len(), 1);
    assert_eq!((user[0].list_id, user[0].list_name.as_str(), user[0].is_user_created), (2, "mine", true));
    let by_name = get_playlist_by_name(&db, "mine").unwrap();
    assert_eq!(by_name.list_id, 2);
    // the lookup reads the flag as set when the stored integer is 0
    assert!(!by_name.is_user_created);
    assert!(get_playlist_by_id(&db, 1).unwrap().is_user_created);
    let rows = db.playlist_table();
    assert_eq!(rows[1].is_user_created, 1);
    assert_eq!(rows[0].is_user_created, 0);
}

#[test]
fn update_and_remove_playlist() {
    let mut db = sample();
    update_playlist(&mut db, &Playlist { list_id: 1, list_name: "metal".to_string(), is_user_created: false });
    assert!(is_playlist_unique(&db, "rock"));
    assert_eq!(get_playlist_by_id(&db, 1).unwrap().list_name, "metal");
    remove_playlist(&mut db, "metal");
    assert!(is_playlist_unique(&db, "metal"));
    assert!(get_all_playlist(&db).is_empty());
    // the junction rows stay
    assert_eq!(db.junction_table().len(), 3);
}

#[test]
fn appended_songs_come_last_in_playlist_order() {
    let db = sample();
    let songs = get_songs_from_playlist(&db, "rock").unwrap();
    assert_eq!(names(&songs), vec!["a", "b", "c"]);
    let positions: Vec<i64> = db.junction_table().iter().map(|r| r.playlist_pos.unwrap()).collect();
    assert_eq!(positions, vec![1, 2, 3]);
}

#[test]
fn explicit_positions_order_the_playlist() {
    let mut db = sample();
    add_playlist(&mut db, playlist("mix", true)).unwrap();
    add_song_to_playlist(&mut db, 1, 2, Some(5)).unwrap();
    add_song_to_playlist(&mut db, 2, 2, Some(-1)).unwrap();
    add_song_to_playlist(&mut db, 3, 2, Some(5)).unwrap();
    add_song_to_playlist(&mut db, 1, 2, None).unwrap();
    let songs = get_songs_from_playlist(&db, "mix").unwrap();
    // ordered by position, equal positions in insertion order, the appended one last at 6
    assert_eq!(names(&songs), vec!["b", "a", "c", "a"]);
    assert_eq!(db.junction_table().last().unwrap().playlist_pos, Some(6));
}

#[test]
fn songs_from_playlist_of_unknown_song_is_placeholder() {
    let mut db = sample();
    add_song_to_playlist(&mut db, 99, 1, None).unwrap();
    let songs = get_songs_from_playlist(&db, "rock").unwrap();
    assert_eq!(names(&songs), vec!["a", "b", "c", "default"]);
}

#[test]
fn membership_and_positions() {
    let db = sample();
    assert!(is_song_in_playlist(&db, &2, &1));
    assert!(!is_song_in_playlist(&db, &2, &5));
    assert!(is_song_at_pos(&db, 2, 1));
    assert!(!is_song_at_pos(&db, 4, 1));
    assert!(is_pos_unique(&db, 2, 1));
    assert!(!is_pos_unique(&db, 4, 1));
    assert_eq!(get_song_pos(&db, 3).unwrap(), 3);
}

#[test]
fn position_shared_by_two_rows_is_not_unique() {
    let mut db = sample();
    add_song_to_playlist(&mut db, 1, 1, Some(2)).unwrap();
    assert!(is_song_at_pos(&db, 2, 1));
    assert!(!is_pos_unique(&db, 2, 1));
}

#[test]
fn moving_a_song_swaps_it_with_its_neighbour() {
    let mut db = sample();
    let b = get_song_info(&db, &2);
    mov_song_up(&mut db, &b, 1, 1).unwrap();
    assert_eq!(names(&get_songs_from_playlist(&db, "rock").unwrap()), vec!["a", "c", "b"]);
    // and back again
    mov_song_up(&mut db, &b, 1, -1).unwrap();
    assert_eq!(names(&get_songs_from_playlist(&db, "rock").unwrap()), vec!["a", "b", "c"]);
    let positions: Vec<i64> = db.junction_table().iter().map(|r| r.playlist_pos.unwrap()).collect();
    assert_eq!(positions, vec![1, 2, 3]);
}

#[test]
fn moving_past_the_ends_changes_nothing() {
    let mut db = sample();
    let a = get_song_info(&db, &1);
    mov_song_up(&mut db, &a, 1, -1).unwrap();
    let c = get_song_info(&db, &3);
    mov_song_up(&mut db, &c, 1, 1).unwrap();
    assert_eq!(names(&get_songs_from_playlist(&db, "rock").unwrap()), vec!["a", "b", "c"]);
}

#[test]
fn moving_a_song_in_no_playlist_is_an_error() {
    let mut db = sample();
    add_song(&mut db, &song("d", "/m/d.mp3")).unwrap();
    let d = get_song_info(&db, &4);
    assert_eq!(mov_song_up(&mut db, &d, 1, 1).unwrap_err(), DbError::PositionNotFound);
}

#[test]
fn moving_a_song_leaves_other_playlists_alone() {
    let mut db = sample();
    // b also stands in "jazz", at position 7 there
    add_playlist(&mut db, playlist("jazz", false)).unwrap();
    add_song_to_playlist(&mut db, 2, 2, Some(7)).unwrap();
    let b = get_song_info(&db, &2);
    mov_song_up(&mut db, &b, 1, 1).unwrap();
    assert_eq!(names(&get_songs_from_playlist(&db, "rock").unwrap()), vec!["a", "c", "b"]);
    let rows: Vec<(i64, i64, i64)> = db.junction_table().iter().map(|r| (r.song_id, r.playlist_id, r.playlist_pos.unwrap())).collect();
    assert_eq!(rows, vec![(1, 1, 1), (2, 1, 3), (3, 1, 2), (2, 2, 7)]);
}

#[test]
fn moving_takes_the_position_in_the_given_playlist() {
    let mut db = sample();
    // c's first row is in "jazz" at position 1; in "rock" it is at 3
    add_playlist(&mut db, playlist("jazz", false)).unwrap();
    let mut rows: Vec<JunctionRow> = Vec::new();
    rows.push(JunctionRow { id: 1, song_id: 3, playlist_id: 2, playlist_pos: Some(1) });
    for r in db.junction_table() {
        rows.push(JunctionRow { id: r.id + 1, ..*r });
    }
    let songs: Vec<Song> = db.songs_table().iter().map(|s| s.duplicate()).collect();
    let lists: Vec<PlaylistRow> = db.playlist_table().iter().map(|p| PlaylistRow { list_id: p.list_id, list_name: p.list_name.clone(), is_user_created: p.is_user_created }).collect();
    let mut db = MusicDb::from_tables(songs, lists, rows, db.song_seq(), db.playlist_seq()).unwrap();
    let c = get_song_info(&db, &3);
    mov_song_up(&mut db, &c, 1, -1).unwrap();
    assert_eq!(names(&get_songs_from_playlist(&db, "rock").unwrap()), vec!["a", "c", "b"]);
    assert_eq!(db.junction_table()[0].playlist_pos, Some(1));
}

#[test]
fn moving_by_two_and_back() {
    let mut db = sample();
    let a = get_song_info(&db, &1);
    mov_song_up(&mut db, &a, 1, 2).unwrap();
    assert_eq!(names(&get_songs_from_playlist(&db, "rock").unwrap()), vec!["c", "b", "a"]);
    mov_song_up(&mut db, &a, 1, -2).unwrap();
    let positions: Vec<i64> = db.junction_table().iter().map(|r| r.playlist_pos.unwrap()).collect();
    assert_eq!(positions, vec![1, 2, 3]);
}

#[test]
fn removing_a_song_from_a_playlist() {
    let mut db = sample();
    remove_song_from_playlist(&mut db, 1, 2).unwrap();
    assert!(!is_song_in_playlist(&db, &2, &1));
    assert_eq!(names(&get_songs_from_playlist(&db, "rock").unwrap()), vec!["a", "c"]);
    assert_eq!(remove_song_from_playlist(&mut db, 7, 1).unwrap_err(), DbError::PlaylistNotFound);
    assert_eq!(db.junction_table().len(), 2);
}

#[test]
fn full_counters_refuse_new_rows() {
    let mut db = MusicDb::from_tables(Vec::new(), Vec::new(), Vec::new(), i64::MAX, i64::MAX).unwrap();
    assert_eq!(add_song(&mut db, &song("x", "/x.mp3")).unwrap_err(), DbError::Full);
    assert_eq!(add_playlist(&mut db, playlist("x", false)).unwrap_err(), DbError::Full);
    let rows = vec![JunctionRow { id: i64::MAX, song_id: 1, playlist_id: 1, playlist_pos: Some(1) }];
    let mut db = MusicDb::from_tables(Vec::new(), Vec::new(), rows, 0, 0).unwrap();
    assert_eq!(add_song_to_playlist(&mut db, 1, 1, Some(3)).unwrap_err(), DbError::Full);
    assert_eq!(get_song_count(&db), 0);
}

#[test]
fn from_tables_checks_row_ids() {
    let ok = MusicDb::from_tables(
        vec![Song { song_id: 2, song_name: "a".to_string(), path: "/a".to_string() }],
        vec![PlaylistRow { list_id: 1, list_name: "p".to_string(), is_user_created: 0 }],
        vec![
            JunctionRow { id: 1, song_id: 2, playlist_id: 1, playlist_pos: Some(1) },
            JunctionRow { id: 4, song_id: 2, playlist_id: 1, playlist_pos: Some(2) },
        ],
        5,
        1,
    );
    let mut db = ok.unwrap();
    add_song(&mut db, &song("b", "/b")).unwrap();
    assert_eq!(get_song_by_path(&db, "/b").unwrap().song_id, 6);
    add_song_to_playlist(&mut db, 6, 1, None).unwrap();
    assert_eq!(db.junction_table()[2], JunctionRow { id: 5, song_id: 6, playlist_id: 1, playlist_pos: Some(3) });
    // an id above the counter
    let bad = MusicDb::from_tables(
        vec![Song { song_id: 9, song_name: "a".to_string(), path: "/a".to_string() }],
        Vec::new(), Vec::new(), 5, 0);
    assert!(bad.is_none());
    // ids out of order
    let bad = MusicDb::from_tables(
        Vec::new(),
        vec![
            PlaylistRow { list_id: 2, list_name: "p".to_string(), is_user_created: 0 },
            PlaylistRow { list_id: 1, list_name: "q".to_string(), is_user_created: 0 },
        ],
        Vec::new(), 0, 3);
    assert!(bad.is_none());
    let bad = MusicDb::from_tables(
        Vec::new(), Vec::new(),
        vec![
            JunctionRow { id: 3, song_id: 1, playlist_id: 1, playlist_pos: Some(1) },
            JunctionRow { id: 3, song_id: 1, playlist_id: 1, playlist_pos: Some(1) },
        ],
        0, 0);
    assert!(bad.is_none());
}

fn with_rows(rows: Vec<JunctionRow>) -> MusicDb {
    let base = sample();
    let songs: Vec<Song> = base.songs_table().iter().map(|s| s.duplicate()).collect();
    let lists: Vec<PlaylistRow> = base
        .playlist_table()
        .iter()
        .map(|p| PlaylistRow { list_id: p.list_id, list_name: p.list_name.clone(), is_user_created: p.is_user_created })
        .collect();
    MusicDb::from_tables(songs, lists, rows, base.song_seq(), base.playlist_seq()).unwrap()
}

#[test]
fn null_positions() {
    let mut db = with_rows(vec![
        JunctionRow { id: 1, song_id: 1, playlist_id: 1, playlist_pos: Some(2) },
        JunctionRow { id: 2, song_id: 2, playlist_id: 1, playlist_pos: None },
        JunctionRow { id: 3, song_id: 3, playlist_id: 1, playlist_pos: Some(1) },
    ]);
    // a NULL position reads as -1
    assert_eq!(get_song_pos(&db, 2).unwrap(), -1);
    // it never matches a position and sorts first
    assert!(!is_song_at_pos(&db, -1, 1));
    assert_eq!(names(&get_songs_from_playlist(&db, "rock").unwrap()), vec!["b", "c", "a"]);
    // appending ignores it
    add_song_to_playlist(&mut db, 1, 1, None).unwrap();
    assert_eq!(db.junction_table().last().unwrap().playlist_pos, Some(3));
    // a playlist of NULL positions only starts at 1
    let mut db = with_rows(vec![JunctionRow { id: 1, song_id: 1, playlist_id: 1, playlist_pos: None }]);
    add_song_to_playlist(&mut db, 2, 1, None).unwrap();
    assert_eq!(db.junction_table().last().unwrap().playlist_pos, Some(1));
}
