//! The corner that shows the modes of playback.

use crate::model::MusicData;
use crate::state::StateData;
use crate::windows::area::Area;
use vstd::prelude::*;

verus! {

/// The corner that shows the modes of playback.
#[derive(Clone, Copy, Debug, PartialEq, Eq)]
pub struct StatusWindow {
    /// Whether songs are played in random order.
    pub shuffle: bool,
    /// Whether the queue is repeated.
    pub repeat: bool,
    /// Where the corner stands on the screen.
    pub area: Area,
}

impl StatusWindow {
    /// The corner at the start: both modes off.
    pub fn new() -> (r: StatusWindow)
        ensures
            r == (StatusWindow {
                shuffle: false,
                repeat: false,
                area: Area { x: 0, y: 0, width: 0, height: 0 },
            }),
    {
        StatusWindow { shuffle: false, repeat: false, area: Area::new(0, 0, 0, 0) }
    }

    /// Takes over the modes of playback.
    pub fn update(&mut self, on_album: bool, music_data: &MusicData, state_data: &StateData)
        ensures
            *final(self) == (StatusWindow {
                shuffle: state_data.shuffle,
                repeat: state_data.repeat,
                ..*old(self)
            }),
    {
        self.shuffle = state_data.shuffle;
        self.repeat = state_data.repeat;
    }

    /// Puts the corner at another place of the screen.
    pub fn update_area(&mut self, x: u16, y: u16, width: u16, height: u16)
        ensures
            *final(self) == (StatusWindow { area: Area { x, y, width, height }, ..*old(self) }),
    {
        self.area.x = x;
        self.area.y = y;
        self.area.width = width;
        self.area.height = height;
    }
}

} // verus!
