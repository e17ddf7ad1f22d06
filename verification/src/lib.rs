//! A music library: songs, playlists and their order, kept in tables with the
//! semantics of the player's database, plus the scanning, editing, playback-queue
//! and key-handling logic that drives them.

pub mod db_service;
pub mod file_service;
pub mod config;
pub mod confirm;
pub mod sound_service;
pub mod editor;
pub mod tui_service;
