# rusty_music

A terminal music player whose library logic is verified with Verus.

- `src/db_service.rs`: the song, playlist and junction tables as an in-memory
  model with auto-increment ids, every query and update specified over a
  mathematical view (`DbView`).
- `src/file_service.rs`: scanning a directory listing into the tables (songs for
  music files, playlists for album directories), with the conditions under which
  a scan can run and the law that a second scan changes nothing.
- `src/editor.rs`, `src/tui_service.rs`: the editor pop-up and the key handling
  of the main screen as state transitions over the tables.
- `src/sound_service.rs`: the playback queue and the requests sent to the
  playback thread.
- `app/`: reading the settings (confy), loading and saving the tables (sqlite),
  reading the music directory, the playback thread (rodio) and the terminal
  screen (ratatui, crossterm).
