//! The bar that shows the volume.

use crate::model::MusicData;
use crate::state::StateData;
use crate::windows::area::Area;
use vstd::prelude::*;

verus! {

/// The bar that shows the volume.
#[derive(Clone, Copy, Debug, PartialEq, Eq)]
pub struct VolumeWindow {
    /// The volume.
    pub volume: i8,
    /// Where the bar stands on the screen.
    pub area: Area,
}

impl VolumeWindow {
    /// The bar at the start: silence.
    pub fn new() -> (r: VolumeWindow)
        ensures
            r == (VolumeWindow { volume: 0, area: Area { x: 0, y: 0, width: 0, height: 0 } }),
    {
        VolumeWindow { volume: 0, area: Area::new(0, 0, 0, 0) }
    }

    /// Takes over the volume.
    pub fn update(&mut self, on_album: bool, music_data: &MusicData, state_data: &StateData)
        ensures
            *final(self) == (VolumeWindow { volume: state_data.volume, ..*old(self) }),
    {
        self.volume = state_data.volume;
    }

    /// Puts the bar at another place of the screen.
    pub fn update_area(&mut self, x: u16, y: u16, width: u16, height: u16)
        ensures
            *final(self) == (VolumeWindow { area: Area { x, y, width, height }, ..*old(self) }),
    {
        self.area.x = x;
        self.area.y = y;
        self.area.width = width;
        self.area.height = height;
    }
}

} // verus!
