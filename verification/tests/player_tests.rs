use rusty_music::db_service::Song;
use rusty_music::sound_service::{should_publish, PlaybackCommand, Player_service, SoundControlls};

fn song(id: i64) -> Song {
    Song { song_id: id, song_name: format!("s{}", id), path: format!("/s{}.mp3", id) }
}

#[test]
fn songs_start_in_the_order_queued() {
    let mut q = Player_service::new();
    q.add_song_to_queue(song(1));
    q.add_songs_to_queue(vec![song(2), song(3)]);
    assert_eq!(q.queued_ids(), vec![1, 2, 3]);
    assert!(q.update_current_song(false).is_none());
    let first = q.update_current_song(true).unwrap();
    assert_eq!(first.song_id, 1);
    assert_eq!(q.play_song(first).unwrap().song_id, 1);
    assert_eq!(q.update_current_song(true).unwrap().song_id, 2);
    assert_eq!(q.update_current_song(true).unwrap().song_id, 3);
    assert!(q.update_current_song(true).is_none());
}

#[test]
fn starting_a_song_files_the_current_one_away() {
    let mut q = Player_service::new();
    q.current_song = Some(song(7));
    let started = q.play_song(song(8)).unwrap();
    assert_eq!(started.song_id, 8);
    assert_eq!(q.current_song.as_ref().unwrap().song_id, 8);
    assert_eq!(q.prev_songs.iter().map(|s| s.song_id).collect::<Vec<_>>(), vec![7]);
    q.play_song(song(9));
    assert_eq!(q.current_song.as_ref().unwrap().song_id, 9);
    assert_eq!(q.prev_songs.iter().map(|s| s.song_id).collect::<Vec<_>>(), vec![7, 8]);
}

#[test]
fn controls() {
    let mut q = Player_service::new();
    assert_eq!(q.handle_control(SoundControlls::PlayPause, true), Some(PlaybackCommand::Play));
    assert_eq!(q.handle_control(SoundControlls::PlayPause, false), Some(PlaybackCommand::Pause));
    assert_eq!(q.play_pause(true), PlaybackCommand::Play);
    assert_eq!(q.handle_control(SoundControlls::SkipSong, false), Some(PlaybackCommand::Clear));
    assert_eq!(q.handle_control(SoundControlls::PrevSong, false), None);
    assert_eq!(q.handle_control(SoundControlls::AddSong(song(1)), false), None);
    assert_eq!(q.handle_control(SoundControlls::AddPlaylist(vec![song(2), song(3)]), false), None);
    assert_eq!(q.queued_ids(), vec![1, 2, 3]);
}

#[test]
fn publishing_the_queue() {
    let ids = vec![1, 2];
    assert!(!should_publish(None, &ids));
    assert!(should_publish(Some(&None), &ids));
    assert!(!should_publish(Some(&Some(vec![1, 2])), &ids));
    assert!(should_publish(Some(&Some(vec![1])), &ids));
    assert!(should_publish(Some(&Some(vec![1, 3])), &ids));
}

#[test]
fn skipping_clears_the_output_and_keeps_the_queue() {
    let mut q = Player_service::new();
    q.add_song_to_queue(song(4));
    assert_eq!(q.skip_song(), PlaybackCommand::Clear);
    assert_eq!(q.handle_control(SoundControlls::SkipSong, false), Some(PlaybackCommand::Clear));
    assert_eq!(q.queued_ids(), vec![4]);
}

#[test]
fn an_empty_queue_starts_nothing() {
    let mut q = Player_service::new();
    assert!(q.update_current_song(true).is_none());
    assert!(q.update_current_song(false).is_none());
    assert_eq!(q.queued_ids(), Vec::<i64>::new());
    assert!(should_publish(Some(&None), &q.queued_ids()));
    assert!(!should_publish(Some(&Some(vec![])), &q.queued_ids()));
}
