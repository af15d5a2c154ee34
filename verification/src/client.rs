//! The client: the library, the state of the daemon, and the commands that
//! a user can give.
//!
//! A command reads the client and gives the [`Stage`] at which its course
//! starts. The caller carries the stage forward, and hands the daemon's
//! reports to [`Client::sync`] and [`Client::reload`] when a step asks for it.

use crate::grouping::{library_of, tagged_views};
use crate::input::Command;
use crate::model::{text_views, AlbumView, MusicData, SongView};
use crate::plan::{Request, RequestView, Stage, StageView};
use crate::state::{current_of, reconciled, song_view, StateData, Status};
use crate::tags::TaggedSong;
use rand::rngs::ThreadRng;
use rand::Rng;
use vstd::prelude::*;

verus! {

/// The generator of random numbers that each thread has.
#[verifier::external_type_specification]
#[verifier::external_body]
pub struct ExThreadRng(rand::rngs::ThreadRng);

/// Hands out the generator of the running thread, by `rand::thread_rng`.
/// Nothing is claimed of it.
#[verifier::external_body]
fn thread_rng() -> ThreadRng {
    rand::thread_rng()
}

/// Draws a number below `bound`, by `Rng::gen_range` on the range from zero
/// to `bound`. The range must not be empty; the number drawn lies in it, and
/// nothing more is claimed of it.
#[verifier::external_body]
fn draw_below(rng: &mut ThreadRng, bound: usize) -> (r: usize)
    requires
        bound > 0,
    ensures
        r < bound,
{
    rng.gen_range(0..bound)
}

/// The step of the volume keys.
pub const VOLUME_STEP: i8 = 10;

/// The loudest volume.
pub const VOLUME_MAX: i8 = 100;

/// The step of the seek keys, in seconds.
pub const SEEK_SECS: u64 = 5;

/// `volume` kept within the range of the daemon's volume.
pub open spec fn clamp_volume(volume: int) -> i8 {
    if volume < 0 {
        0
    } else if volume > VOLUME_MAX {
        VOLUME_MAX
    } else {
        volume as i8
    }
}

/// The locators of an album's songs, in the album's order.
pub open spec fn uris_of(album: AlbumView) -> Seq<Seq<char>> {
    album.songs.map_values(|s: SongView| s.uri)
}

/// How many albums a random choice can fall on: all of them, but for the one
/// that is being played where there are others.
pub open spec fn choices(count: int, playing: Option<usize>) -> int {
    match playing {
        Some(p) => if p < count && count > 1 {
            count - 1
        } else {
            count
        },
        None => count,
    }
}

/// The album that the draw `draw` falls on: the albums are counted without
/// the one that is being played, where there are others.
pub open spec fn chosen(draw: int, count: int, playing: Option<usize>) -> int {
    match playing {
        Some(p) => if p < count && count > 1 && draw >= p {
            draw + 1
        } else {
            draw
        },
        None => draw,
    }
}

/// Counts the albums that a random choice can fall on.
pub fn eligible(count: usize, playing: Option<usize>) -> (r: usize)
    ensures
        r == choices(count as int, playing),
        count > 0 ==> r > 0,
{
    match playing {
        Some(p) => if p < count && count > 1 {
            count - 1
        } else {
            count
        },
        None => count,
    }
}

/// Picks the album that a draw falls on.
pub fn pick_album(draw: usize, count: usize, playing: Option<usize>) -> (r: usize)
    requires
        draw < choices(count as int, playing),
    ensures
        r == chosen(draw as int, count as int, playing),
        r < count,
        count > 1 ==> Some(r) != playing,
{
    match playing {
        Some(p) => if p < count && count > 1 && draw >= p {
            draw + 1
        } else {
            draw
        },
        None => draw,
    }
}

/// The draw that falls on the album `album`.
pub open spec fn draw_for(album: int, count: int, playing: Option<usize>) -> int {
    match playing {
        Some(p) => if p < count && count > 1 && album > p {
            album - 1
        } else {
            album
        },
        None => album,
    }
}

/// A random choice may fall on the album `album`: it is an album of the
/// library, and not the one that is being played where there are others.
pub open spec fn may_be_chosen(album: int, count: int, playing: Option<usize>) -> bool {
    &&& 0 <= album < count
    &&& count > 1 ==> playing != Some(album as usize)
}

/// The random choice is fair: every draw falls on an album that may be
/// chosen, and on every such album falls one draw and no other. So each of
/// these albums is as likely as the draws are.
pub proof fn lemma_choice_is_fair(count: int, playing: Option<usize>)
    requires
        0 < count <= usize::MAX,
    ensures
        forall|draw: int|
            0 <= draw < choices(count, playing) ==> {
                &&& may_be_chosen(#[trigger] chosen(draw, count, playing), count, playing)
                &&& draw_for(chosen(draw, count, playing), count, playing) == draw
            },
        forall|album: int|
            may_be_chosen(album, count, playing) ==> {
                &&& 0 <= #[trigger] draw_for(album, count, playing) < choices(count, playing)
                &&& chosen(draw_for(album, count, playing), count, playing) == album
            },
{
}

/// The client.
#[derive(Clone, Debug, PartialEq, Eq)]
pub struct Client {
    /// The library.
    pub data: MusicData,
    /// The state of the daemon.
    pub state: StateData,
}

impl Client {
    /// The state points to a song of the library, or to none.
    pub open spec fn wf(&self) -> bool {
        self.state.points_into(self.data@)
    }

    /// A client for the library `data`, with the state that the daemon's
    /// reports give.
    pub fn new(data: MusicData, status: &Status, song: Option<&TaggedSong>) -> (r: Client)
        ensures
            r.data == data,
            r.state == reconciled(*status, current_of(song_view(song), data@)),
            r.wf(),
    {
        let state = StateData::new(status, song, &data);
        Client { data, state }
    }

    /// Brings the state up to date with the daemon's reports. The library
    /// stays as it is.
    pub fn sync(&mut self, status: &Status, song: Option<&TaggedSong>)
        ensures
            final(self).data == old(self).data,
            final(self).state == reconciled(
                *status,
                current_of(song_view(song), old(self).data@),
            ),
            final(self).wf(),
    {
        self.state.update(status, song, &self.data);
    }

    /// Replaces the library by the one that the daemon's songs make. The
    /// state no longer points into the library: the place that it held was
    /// one of the old library.
    pub fn reload(&mut self, songs: Vec<TaggedSong>)
        ensures
            final(self).data@ == library_of(tagged_views(songs@)),
            final(self).state == (StateData { album_id: None, title_id: None, ..old(self).state }),
            final(self).wf(),
    {
        self.data = MusicData::new(songs);
        self.state.album_id = None;
        self.state.title_id = None;
    }

    /// Starts a full synchronisation: the daemon reads its music directory
    /// again; if it accepts that, the library is built anew and the state
    /// brought up to date.
    pub fn full_sync(&self) -> (r: Stage)
        ensures
            r@ == StageView::Updating,
    {
        Stage::Updating
    }

    /// Pauses if a song is being played, and plays if not.
    pub fn toggle(&self) -> (r: Stage)
        ensures
            r@ == StageView::single(
                if self.state.playing {
                    RequestView::Pause
                } else {
                    RequestView::Play
                },
            ),
    {
        if self.state.playing {
            Stage::Single { request: Request::Pause }
        } else {
            Stage::Single { request: Request::Play }
        }
    }

    /// Goes to the next song of the queue.
    pub fn next(&self) -> (r: Stage)
        ensures
            r@ == StageView::single(RequestView::Next),
    {
        Stage::Single { request: Request::Next }
    }

    /// Goes to the previous song of the queue.
    pub fn previous(&self) -> (r: Stage)
        ensures
            r@ == StageView::single(RequestView::Previous),
    {
        Stage::Single { request: Request::Previous }
    }

    /// Turns the volume up by one step, not beyond the loudest.
    pub fn volume_up(&self) -> (r: Stage)
        ensures
            r@ == StageView::single(
                RequestView::SetVolume(clamp_volume(self.state.volume + VOLUME_STEP)),
            ),
    {
        let volume = self.state.volume;
        let louder: i8 = if volume > VOLUME_MAX - VOLUME_STEP {
            VOLUME_MAX
        } else if volume < -VOLUME_STEP {
            0
        } else {
            volume + VOLUME_STEP
        };
        Stage::Single { request: Request::SetVolume(louder) }
    }

    /// Turns the volume down by one step, not below silence.
    pub fn volume_down(&self) -> (r: Stage)
        ensures
            r@ == StageView::single(
                RequestView::SetVolume(clamp_volume(self.state.volume - VOLUME_STEP)),
            ),
    {
        let volume = self.state.volume;
        let quieter: i8 = if volume < VOLUME_STEP {
            0
        } else if volume > VOLUME_MAX + VOLUME_STEP {
            VOLUME_MAX
        } else {
            volume - VOLUME_STEP
        };
        Stage::Single { request: Request::SetVolume(quieter) }
    }

    /// Switches random order on if it is off, and off if it is on.
    pub fn shuffle(&self) -> (r: Stage)
        ensures
            r@ == StageView::single(RequestView::SetRandom(!self.state.shuffle)),
    {
        Stage::Single { request: Request::SetRandom(!self.state.shuffle) }
    }

    /// Switches repetition on if it is off, and off if it is on.
    pub fn repeat(&self) -> (r: Stage)
        ensures
            r@ == StageView::single(RequestView::SetRepeat(!self.state.repeat)),
    {
        Stage::Single { request: Request::SetRepeat(!self.state.repeat) }
    }

    /// Empties the queue.
    pub fn clear(&self) -> (r: Stage)
        ensures
            r@ == StageView::single(RequestView::Clear),
    {
        Stage::Single { request: Request::Clear }
    }

    /// Goes forward in the song by one step of seeking. Nothing is to be
    /// done where the position in the song is unknown.
    pub fn seek_forward(&self) -> (r: Stage)
        requires
            self.state.position matches Some(position) ==> position.secs + SEEK_SECS <= u64::MAX,
        ensures
            r@ == match self.state.position {
                Some(position) => StageView::single(
                    RequestView::Seek(position.plus_secs(SEEK_SECS)),
                ),
                None => StageView::Finished,
            },
    {
        match self.state.position {
            Some(position) => Stage::Single {
                request: Request::Seek(position.add_secs(SEEK_SECS)),
            },
            None => Stage::Finished,
        }
    }

    /// Goes back in the song by one step of seeking, not beyond its start.
    /// Nothing is to be done where the position in the song is unknown.
    pub fn seek_backward(&self) -> (r: Stage)
        ensures
            r@ == match self.state.position {
                Some(position) => StageView::single(
                    RequestView::Seek(position.minus_secs(SEEK_SECS)),
                ),
                None => StageView::Finished,
            },
    {
        match self.state.position {
            Some(position) => Stage::Single {
                request: Request::Seek(position.saturating_sub_secs(SEEK_SECS)),
            },
            None => Stage::Finished,
        }
    }

    /// Replaces the queue by an album and plays it from its first song.
    pub fn start_album(&self, album_id: usize) -> (r: Stage)
        requires
            album_id < self.data.albums.len(),
        ensures
            r@ == StageView::album(uris_of(self.data@.albums[album_id as int]), 0),
    {
        self.start_title(album_id, 0)
    }

    /// Replaces the queue by an album and plays it from the song `title_id`:
    /// playback starts at the first song, and as many songs are skipped as
    /// stand before the one wanted.
    pub fn start_title(&self, album_id: usize, title_id: usize) -> (r: Stage)
        requires
            album_id < self.data.albums.len(),
        ensures
            r@ == StageView::album(uris_of(self.data@.albums[album_id as int]), title_id),
    {
        let album = &self.data.albums[album_id];
        let mut uris: Vec<String> = Vec::new();
        let mut i: usize = 0;
        let ghost all = uris_of(album@);
        proof {
            assert(text_views(uris@) =~= all.take(0));
        }
        while i < album.songs.len()
            invariant
                i <= album.songs.len(),
                all == uris_of(album@),
                text_views(uris@) == all.take(i as int),
            decreases album.songs.len() - i,
        {
            let ghost before = text_views(uris@);
            uris.push(album.songs[i].uri.clone());
            proof {
                assert(text_views(uris@) =~= before.push(album.songs@[i as int].uri@));
                assert(all.take(i + 1) =~= all.take(i as int).push(all[i as int]));
            }
            i = i + 1;
        }
        proof {
            assert(all.take(album.songs.len() as int) =~= all);
        }
        Stage::Clearing { uris, skips: title_id }
    }

    /// Replaces the queue by an album chosen at random and plays it. The
    /// album that is being played is not chosen again where the library holds
    /// another.
    pub fn random(&self) -> (r: Stage)
        requires
            self.data.albums.len() > 0,
        ensures
            exists|album: int|
                {
                    &&& may_be_chosen(album, self.data.albums.len() as int, self.state.album_id)
                    &&& r@ == StageView::album(uris_of(#[trigger] self.data@.albums[album]), 0)
                },
    {
        let count = self.data.albums.len();
        let bound = eligible(count, self.state.album_id);
        let mut rng = thread_rng();
        let draw = draw_below(&mut rng, bound);
        let album_id = pick_album(draw, count, self.state.album_id);
        self.start_album(album_id)
    }

    /// The command can be begun: the album that it names is one of the
    /// library, a random album has albums to choose from, and seeking
    /// forward stays within the machine's numbers.
    pub open spec fn can_begin(&self, command: Command) -> bool {
        match command {
            Command::StartAlbum(album) => album < self.data.albums.len(),
            Command::StartTitle(album, _) => album < self.data.albums.len(),
            Command::Random => self.data.albums.len() > 0,
            Command::SeekForward => match self.state.position {
                Some(position) => position.secs + SEEK_SECS <= u64::MAX,
                None => true,
            },
            _ => true,
        }
    }

    /// The stage at which the course of a command starts. `drawn` is the
    /// album that the draw falls on; it counts for the command to play a
    /// random album and for no other.
    pub open spec fn first_stage(&self, command: Command, drawn: int) -> StageView {
        match command {
            Command::Toggle => StageView::single(
                if self.state.playing {
                    RequestView::Pause
                } else {
                    RequestView::Play
                },
            ),
            Command::Next => StageView::single(RequestView::Next),
            Command::Previous => StageView::single(RequestView::Previous),
            Command::VolumeUp => StageView::single(
                RequestView::SetVolume(clamp_volume(self.state.volume + VOLUME_STEP)),
            ),
            Command::VolumeDown => StageView::single(
                RequestView::SetVolume(clamp_volume(self.state.volume - VOLUME_STEP)),
            ),
            Command::Shuffle => StageView::single(RequestView::SetRandom(!self.state.shuffle)),
            Command::Repeat => StageView::single(RequestView::SetRepeat(!self.state.repeat)),
            Command::Clear => StageView::single(RequestView::Clear),
            Command::SeekForward => match self.state.position {
                Some(position) => StageView::single(
                    RequestView::Seek(position.plus_secs(SEEK_SECS)),
                ),
                None => StageView::Finished,
            },
            Command::SeekBackward => match self.state.position {
                Some(position) => StageView::single(
                    RequestView::Seek(position.minus_secs(SEEK_SECS)),
                ),
                None => StageView::Finished,
            },
            Command::StartAlbum(album) => StageView::album(
                uris_of(self.data@.albums[album as int]),
                0,
            ),
            Command::StartTitle(album, title) => StageView::album(
                uris_of(self.data@.albums[album as int]),
                title,
            ),
            Command::Random => StageView::album(uris_of(self.data@.albums[drawn]), 0),
            Command::FullSync => StageView::Updating,
            Command::Sync => StageView::Refreshing,
        }
    }

    /// Whether the command can be begun.
    pub fn check(&self, command: Command) -> (r: bool)
        ensures
            r == self.can_begin(command),
    {
        match command {
            Command::StartAlbum(album) => album < self.data.albums.len(),
            Command::StartTitle(album, _) => album < self.data.albums.len(),
            Command::Random => self.data.albums.len() > 0,
            Command::SeekForward => match self.state.position {
                Some(position) => position.secs <= u64::MAX - SEEK_SECS,
                None => true,
            },
            _ => true,
        }
    }

    /// Begins a command: gives the stage at which its course starts.
    pub fn begin(&self, command: Command) -> (r: Stage)
        requires
            self.can_begin(command),
        ensures
            command != Command::Random ==> r@ == self.first_stage(command, 0),
            command == Command::Random ==> exists|album: int|
                {
                    &&& may_be_chosen(album, self.data.albums.len() as int, self.state.album_id)
                    &&& r@ == #[trigger] self.first_stage(command, album)
                },
    {
        match command {
            Command::Toggle => self.toggle(),
            Command::Next => self.next(),
            Command::Previous => self.previous(),
            Command::VolumeUp => self.volume_up(),
            Command::VolumeDown => self.volume_down(),
            Command::Shuffle => self.shuffle(),
            Command::Repeat => self.repeat(),
            Command::Clear => self.clear(),
            Command::SeekForward => self.seek_forward(),
            Command::SeekBackward => self.seek_backward(),
            Command::StartAlbum(album) => self.start_album(album),
            Command::StartTitle(album, title) => self.start_title(album, title),
            Command::Random => {
                let stage = self.random();
                proof {
                    let album = choose|album: int|
                        {
                            &&& may_be_chosen(
                                album,
                                self.data.albums.len() as int,
                                self.state.album_id,
                            )
                            &&& stage@ == StageView::album(
                                uris_of(#[trigger] self.data@.albums[album]),
                                0,
                            )
                        };
                    assert(stage@ == self.first_stage(command, album));
                }
                stage
            },
            Command::FullSync => self.full_sync(),
            Command::Sync => Stage::Refreshing,
        }
    }
}

} // verus!
