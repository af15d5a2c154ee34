//! The bar that shows how far the song has come.

use crate::model::{MusicData, MusicDataView};
use crate::state::StateData;
use crate::time::Duration;
use crate::windows::area::Area;
use vstd::prelude::*;

verus! {

/// The bar that shows how far the song has come.
#[derive(Clone, Copy, Debug, PartialEq, Eq)]
pub struct BarWindow {
    /// How far into the song the daemon is, if known.
    pub position: Option<Duration>,
    /// The length of the song that was last seen playing.
    pub duration: Option<Duration>,
    /// Where the bar stands on the screen.
    pub area: Area,
}

impl BarWindow {
    /// The bar is `before` brought up to date: it takes the position in the
    /// song and, where the state names a song, the length of that song; it
    /// keeps everything else.
    pub open spec fn shows(
        self,
        before: BarWindow,
        library: MusicDataView,
        state: StateData,
    ) -> bool {
        self == (BarWindow {
            position: state.position,
            duration: match (state.album_id, state.title_id) {
                (Some(album), Some(title)) => Some(
                    library.albums[album as int].songs[title as int].duration,
                ),
                _ => before.duration,
            },
            ..before
        })
    }

    /// The bar at the start: nothing is known.
    pub fn new() -> (r: BarWindow)
        ensures
            r == (BarWindow {
                position: None,
                duration: None,
                area: Area { x: 0, y: 0, width: 0, height: 0 },
            }),
    {
        BarWindow { position: None, duration: None, area: Area::new(0, 0, 0, 0) }
    }

    /// Takes over the position in the song and, where the state points to a
    /// song, the length of that song. Where the state points to none, the
    /// length stays as it is.
    pub fn update(&mut self, on_album: bool, music_data: &MusicData, state_data: &StateData)
        requires
            state_data.names_album_of(music_data@),
            state_data.names_song_of(music_data@),
        ensures
            final(self).shows(*old(self), music_data@, *state_data),
    {
        self.position = state_data.position;
        match state_data.album_id {
            Some(album_id) => {
                let album = &music_data.albums[album_id];
                match state_data.title_id {
                    Some(title_id) => {
                        self.duration = Some(album.songs[title_id].duration);
                    },
                    None => {},
                }
            },
            None => {},
        }
    }

    /// Puts the bar at another place of the screen.
    pub fn update_area(&mut self, x: u16, y: u16, width: u16, height: u16)
        ensures
            *final(self) == (BarWindow { area: Area { x, y, width, height }, ..*old(self) }),
    {
        self.area.x = x;
        self.area.y = y;
        self.area.width = width;
        self.area.height = height;
    }
}

} // verus!
