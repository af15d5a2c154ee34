//! The line that names what is being played.

use crate::model::{text_view, MusicData, MusicDataView};
use crate::state::StateData;
use crate::windows::area::Area;
use vstd::prelude::*;

verus! {

/// The line that names what is being played.
#[derive(Clone, Debug, PartialEq, Eq)]
pub struct InfoWindow {
    /// Whether a song is being played.
    pub playing: bool,
    /// The title of the song that was last seen playing.
    pub title: Option<String>,
    /// The artist of its album.
    pub artist: Option<String>,
    /// The title of its album.
    pub album: Option<String>,
    /// Where the line stands on the screen.
    pub area: Area,
}

impl InfoWindow {
    /// The line is `before` brought up to date: it takes whether a song is
    /// being played and, where the state names a song, the names of the
    /// song, its artist and its album; it keeps everything else.
    pub open spec fn shows(
        self,
        before: InfoWindow,
        library: MusicDataView,
        state: StateData,
    ) -> bool {
        &&& self.playing == state.playing
        &&& self.area == before.area
        &&& match (state.album_id, state.title_id) {
            (Some(album), Some(title)) => {
                &&& text_view(self.album) == Some(library.albums[album as int].album)
                &&& text_view(self.artist) == Some(library.albums[album as int].artist)
                &&& text_view(self.title) == Some(
                    library.albums[album as int].songs[title as int].title,
                )
            },
            _ => {
                &&& self.album == before.album
                &&& self.artist == before.artist
                &&& self.title == before.title
            },
        }
    }

    /// The line at the start: nothing is known to play.
    pub fn new() -> (r: InfoWindow)
        ensures
            !r.playing,
            r.title is None,
            r.artist is None,
            r.album is None,
            r.area == (Area { x: 0, y: 0, width: 0, height: 0 }),
    {
        InfoWindow {
            playing: false,
            title: None,
            artist: None,
            album: None,
            area: Area::new(0, 0, 0, 0),
        }
    }

    /// Takes over whether a song is being played and, where the state
    /// points to a song, the names of the song, its artist and its album.
    /// Where the state points to none, the names stay as they are.
    pub fn update(&mut self, on_album: bool, music_data: &MusicData, state_data: &StateData)
        requires
            state_data.names_song_of(music_data@),
        ensures
            final(self).shows(*old(self), music_data@, *state_data),
    {
        self.playing = state_data.playing;
        match (state_data.album_id, state_data.title_id) {
            (Some(album_id), Some(title_id)) => {
                let album = &music_data.albums[album_id];
                self.album = Some(album.album.clone());
                self.artist = Some(album.artist.clone());
                self.title = Some(album.songs[title_id].title.clone());
            },
            _ => {},
        }
    }

    /// Puts the line at another place of the screen.
    pub fn update_area(&mut self, x: u16, y: u16, width: u16, height: u16)
        ensures
            *final(self) == (InfoWindow { area: Area { x, y, width, height }, ..*old(self) }),
    {
        self.area.x = x;
        self.area.y = y;
        self.area.width = width;
        self.area.height = height;
    }
}

} // verus!
