use vstd::prelude::*;
use std::collections::VecDeque;
use crate::db_service::{songs_view, Song, SongView};

verus! {

/// Requests to the playback thread.
#[derive(Debug)]
pub enum SoundControlls {
    PlayPause,
    SkipSong,
    PrevSong,
    AddSong(Song),
    AddPlaylist(Vec<Song>),
}

/// The mathematical value of a request.
pub enum ControlView {
    PlayPause,
    SkipSong,
    PrevSong,
    AddSong(SongView),
    AddPlaylist(Seq<SongView>),
}

pub open spec fn control_view(c: SoundControlls) -> ControlView {
    match c {
        SoundControlls::PlayPause => ControlView::PlayPause,
        SoundControlls::SkipSong => ControlView::SkipSong,
        SoundControlls::PrevSong => ControlView::PrevSong,
        SoundControlls::AddSong(s) => ControlView::AddSong(s@),
        SoundControlls::AddPlaylist(v) => ControlView::AddPlaylist(songs_view(v@)),
    }
}

/// What the audio device is to do.
#[derive(Debug, PartialEq, Eq, Structural)]
pub enum PlaybackCommand {
    Play,
    Pause,
    Clear,
}

/// The playback queue: songs to come, songs played, and the song playing.
#[allow(non_camel_case_types)]
#[derive(Debug)]
pub struct Player_service {
    pub next_songs: VecDeque<Song>,
    pub prev_songs: VecDeque<Song>,
    pub current_song: Option<Song>,
}

pub open spec fn opt_view(s: Option<Song>) -> Option<SongView> {
    match s {
        Some(x) => Some(x@),
        None => None,
    }
}

pub open spec fn opt_seq(s: Option<SongView>) -> Seq<SongView> {
    match s {
        Some(x) => seq![x],
        None => Seq::empty(),
    }
}

pub struct QueueView {
    pub next_songs: Seq<SongView>,
    pub prev_songs: Seq<SongView>,
    pub current_song: Option<SongView>,
}

/// Queuing a song: it goes to the end of the queue.
pub open spec fn spec_queue_song(q: QueueView, s: SongView) -> QueueView {
    QueueView { next_songs: q.next_songs.push(s), ..q }
}

/// When songs are queued and the device has run dry, the first song leaves
/// the queue to be started.
pub open spec fn spec_take_next(q: QueueView, player_empty: bool) -> (QueueView, Option<SongView>) {
    if q.next_songs.len() > 0 && player_empty {
        (QueueView { next_songs: q.next_songs.drop_first(), ..q }, Some(q.next_songs[0]))
    } else {
        (q, None)
    }
}

impl View for Player_service {
    type V = QueueView;

    open spec fn view(&self) -> QueueView {
        QueueView {
            next_songs: songs_view(self.next_songs@),
            prev_songs: songs_view(self.prev_songs@),
            current_song: opt_view(self.current_song),
        }
    }
}

impl Player_service {
    /// An empty queue with nothing playing.
    pub fn new() -> (r: Player_service)
        ensures
            r@.next_songs == Seq::<SongView>::empty(),
            r@.prev_songs == Seq::<SongView>::empty(),
            r@.current_song is None,
    {
        let r = Player_service { next_songs: VecDeque::new(), prev_songs: VecDeque::new(), current_song: None };
        assert(r@.next_songs =~= Seq::<SongView>::empty());
        assert(r@.prev_songs =~= Seq::<SongView>::empty());
        r
    }

    /// When songs are queued and the device has run dry, takes the next song
    /// off the queue: it is the one to start.
    pub fn update_current_song(&mut self, player_empty: bool) -> (r: Option<Song>)
        ensures
            (final(self)@, opt_view(r)) == spec_take_next(old(self)@, player_empty),
    {
        if self.next_songs.len() > 0 && player_empty {
            let ghost before = self.next_songs@;
            let s = self.next_songs.pop_front();
            proof {
                assert(songs_view(self.next_songs@) =~= songs_view(before).drop_first());
            }
            return s;
        }
        None
    }

    /// Queues a song at the end.
    pub fn add_song_to_queue(&mut self, song: Song)
        ensures
            final(self)@ == spec_queue_song(old(self)@, song@),
    {
        let ghost before = self.next_songs@;
        self.next_songs.push_back(song);
        proof {
            assert(songs_view(self.next_songs@) =~= songs_view(before).push(song@));
        }
    }

    /// Bookkeeping once a song has started: the song that was current moves to
    /// the played songs and the started song becomes current; it is returned.
    pub fn play_song(&mut self, song: Song) -> (r: Option<Song>)
        ensures
            r matches Some(s) && s@ == song@,
            final(self)@.prev_songs == old(self)@.prev_songs + opt_seq(old(self)@.current_song),
            final(self)@.current_song == Some(song@),
            final(self)@.next_songs == old(self)@.next_songs,
    {
        let ghost before = self.prev_songs@;
        match self.current_song.take() {
            Some(i) => {
                self.prev_songs.push_back(i);
                proof {
                    assert(songs_view(self.prev_songs@) =~= songs_view(before) + seq![i@]);
                }
            },
            None => {
                proof {
                    assert(songs_view(self.prev_songs@) =~= songs_view(before) + Seq::<SongView>::empty());
                }
            },
        }
        let started = song.duplicate();
        self.current_song = Some(song);
        Some(started)
    }

    /// Pausing when playing, playing when paused.
    pub fn play_pause(&self, is_paused: bool) -> (r: PlaybackCommand)
        ensures
            r == (if is_paused { PlaybackCommand::Play } else { PlaybackCommand::Pause }),
    {
        if is_paused {
            PlaybackCommand::Play
        } else {
            PlaybackCommand::Pause
        }
    }

    /// Skipping the playing song empties the output: the next queued song
    /// starts once it has run dry.
    pub fn skip_song(&self) -> (r: PlaybackCommand)
        ensures
            r == PlaybackCommand::Clear,
    {
        PlaybackCommand::Clear
    }

    /// Queues the songs at the end, in order.
    pub fn add_songs_to_queue(&mut self, songs: Vec<Song>)
        ensures
            final(self)@.next_songs == old(self)@.next_songs + songs_view(songs@),
            final(self)@.prev_songs == old(self)@.prev_songs,
            final(self)@.current_song == old(self)@.current_song,
    {
        let ghost start = self@;
        let ghost all = songs@;
        let mut songs = songs;
        let mut k: usize = 0;
        let n = songs.len();
        while k < n
            invariant
                songs@ == all.skip(k as int),
                n == all.len(),
                0 <= k <= n,
                self@.next_songs == start.next_songs + songs_view(all.take(k as int)),
                self@.prev_songs == start.prev_songs,
                self@.current_song == start.current_song,
            decreases n - k,
        {
            let s = songs.remove(0);
            assert(songs@ =~= all.skip(k + 1));
            self.add_song_to_queue(s);
            assert(songs_view(all.take(k + 1)) =~= songs_view(all.take(k as int)).push(all[k as int]@));
            assert(start.next_songs + songs_view(all.take(k as int)).push(all[k as int]@)
                =~= (start.next_songs + songs_view(all.take(k as int))).push(all[k as int]@));
            k = k + 1;
        }
        assert(all.take(n as int) =~= all);
    }

    /// The ids of the queued songs, in order.
    pub fn queued_ids(&self) -> (r: Vec<i64>)
        ensures
            r@ == self@.next_songs.map_values(|s: SongView| s.song_id),
    {
        let mut out: Vec<i64> = Vec::new();
        let mut i: usize = 0;
        while i < self.next_songs.len()
            invariant
                0 <= i <= self.next_songs@.len(),
                out@.len() == i,
                forall|k: int| 0 <= k < i ==> #[trigger] out@[k] == self.next_songs@[k].song_id,
            decreases self.next_songs@.len() - i,
        {
            out.push(self.next_songs[i].song_id);
            i = i + 1;
        }
        assert(out@ =~= self@.next_songs.map_values(|s: SongView| s.song_id));
        out
    }

    /// Carries out a request: queue changes happen here, device changes are
    /// returned.
    pub fn handle_control(&mut self, control: SoundControlls, is_paused: bool) -> (r: Option<PlaybackCommand>)
        ensures
            match control {
                SoundControlls::PlayPause => r == Some(if is_paused { PlaybackCommand::Play } else { PlaybackCommand::Pause })
                    && final(self)@ == old(self)@,
                SoundControlls::SkipSong => r == Some(PlaybackCommand::Clear) && final(self)@ == old(self)@,
                SoundControlls::PrevSong => r is None && final(self)@ == old(self)@,
                SoundControlls::AddSong(s) => r is None && final(self)@ == (QueueView {
                    next_songs: old(self)@.next_songs.push(s@),
                    ..old(self)@
                }),
                SoundControlls::AddPlaylist(v) => r is None && final(self)@ == (QueueView {
                    next_songs: old(self)@.next_songs + songs_view(v@),
                    ..old(self)@
                }),
            },
    {
        match control {
            SoundControlls::PlayPause => Some(self.play_pause(is_paused)),
            SoundControlls::SkipSong => Some(self.skip_song()),
            SoundControlls::PrevSong => None,
            SoundControlls::AddSong(s) => {
                self.add_song_to_queue(s);
                None
            },
            SoundControlls::AddPlaylist(v) => {
                self.add_songs_to_queue(v);
                None
            },
        }
    }
}

fn ids_differ(v: &Vec<i64>, ids: &Vec<i64>) -> (r: bool)
    ensures
        r == (v@ != ids@),
{
    if v.len() != ids.len() {
        assert(v@.len() != ids@.len());
        return true;
    }
    let mut i: usize = 0;
    while i < v.len()
        invariant
            0 <= i <= v@.len(),
            v@.len() == ids@.len(),
            forall|k: int| 0 <= k < i ==> v@[k] == ids@[k],
        decreases v@.len() - i,
    {
        if v[i] != ids[i] {
            assert(v@[i as int] != ids@[i as int]);
            return true;
        }
        i = i + 1;
    }
    assert(v@ =~= ids@);
    false
}

/// Whether the published list of queued ids must be rewritten: when it could
/// be read and differs from the queue, or holds nothing yet.
pub fn should_publish(read: Option<&Option<Vec<i64>>>, ids: &Vec<i64>) -> (r: bool)
    ensures
        r == match read {
            None => false,
            Some(None) => true,
            Some(Some(v)) => v@ != ids@,
        },
{
    match read {
        None => false,
        Some(None) => true,
        Some(Some(v)) => ids_differ(v, ids),
    }
}


/// A song queued while nothing waits is the next to start once the device
/// runs dry, and the queue is empty again.
pub proof fn law_queued_song_starts_next(q: QueueView, s: SongView)
    requires
        q.next_songs.len() == 0,
    ensures
        spec_take_next(spec_queue_song(q, s), true) == (q, Some(s)),
{
    assert(q.next_songs.push(s).drop_first() =~= q.next_songs);
}

/// Queuing a song does not change which song starts next when others wait:
/// songs start in the order they were queued.
pub proof fn law_queue_is_first_in_first_out(q: QueueView, s: SongView)
    requires
        q.next_songs.len() > 0,
    ensures
        spec_take_next(spec_queue_song(q, s), true)
            == (spec_queue_song(spec_take_next(q, true).0, s), spec_take_next(q, true).1),
{
    assert(q.next_songs.push(s).drop_first() =~= q.next_songs.drop_first().push(s));
}

/// While nothing is queued, no song starts and the queue stays as it is,
/// whether or not the device has run dry.
pub proof fn law_empty_queue_starts_nothing(q: QueueView, player_empty: bool)
    requires
        q.next_songs.len() == 0,
    ensures
        spec_take_next(q, player_empty) == (q, Option::<SongView>::None),
{
}

} // verus!
