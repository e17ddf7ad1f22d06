use vstd::prelude::*;

verus! {

/// The player's settings: where the music and the database lie, and the
/// hotkeys.
#[derive(Debug)]
pub struct Config {
    pub music_path: String,
    pub db_path: String,
    pub exit: char,
    pub delete: char,
    pub add: char,
    pub down: char,
    pub up: char,
    pub edit: char,
    pub play_pause: char,
    pub move_down: char,
    pub move_up: char,
    pub skip: char,
    pub info: char,
    pub create: char,
}

impl Default for Config {
    fn default() -> (r: Config)
        ensures
            r.music_path@ == "music/"@,
            r.db_path@ == "db.sqlite"@,
            r.exit == 'q',
            r.delete == 'D',
            r.add == 'a',
            r.down == 'j',
            r.up == 'k',
            r.edit == 'e',
            r.play_pause == ' ',
            r.move_down == 'J',
            r.move_up == 'K',
            r.skip == 'l',
            r.info == 'i',
            r.create == 'c',
    {
        Config {
            music_path: String::from_str("music/"),
            db_path: String::from_str("db.sqlite"),
            exit: 'q',
            delete: 'D',
            add: 'a',
            down: 'j',
            up: 'k',
            edit: 'e',
            play_pause: ' ',
            move_down: 'J',
            move_up: 'K',
            skip: 'l',
            info: 'i',
            create: 'c',
        }
    }
}

} // verus!
