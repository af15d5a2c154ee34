//! The screen: its panes, and which of the two lists has the focus.

use crate::model::MusicData;
use crate::state::StateData;
use crate::windows::album_window::AlbumWindow;
use crate::windows::area::Area;
use crate::windows::bar_window::BarWindow;
use crate::windows::info_window::InfoWindow;
use crate::windows::status_window::StatusWindow;
use crate::windows::title_window::TitleWindow;
use crate::windows::volume_window::VolumeWindow;
use vstd::prelude::*;

verus! {

/// The screen.
#[derive(Clone, Debug, PartialEq, Eq)]
pub struct Ui {
    /// Whether the list of albums has the focus, and not the list of songs.
    pub on_album: bool,
    /// The pane that lists the albums.
    pub album_window: AlbumWindow,
    /// The pane that lists the songs of the selected album.
    pub title_window: TitleWindow,
    /// The line that names what is being played.
    pub info_window: InfoWindow,
    /// The bar that shows the volume.
    pub volume_window: VolumeWindow,
    /// The bar that shows how far the song has come.
    pub bar_window: BarWindow,
    /// The corner that shows the modes of playback.
    pub status_window: StatusWindow,
}

/// The width of the pane of albums on a screen of the width `width`: two
/// fifths of the screen, and forty columns on a screen wider than a hundred.
pub open spec fn side_width(width: u16) -> u16 {
    if width > 100 {
        40
    } else {
        (2 * width / 5) as u16
    }
}

/// The width of the volume bar on a screen of the width `width`: a third of
/// the screen, and thirty columns on a screen wider than ninety.
pub open spec fn volume_width(width: u16) -> u16 {
    if width > 90 {
        30
    } else {
        width / 3
    }
}

/// The screen has room for the panes: two rows for the lines at the bottom,
/// and nine columns for the corner beside each of them.
pub open spec fn has_room(width: u16, height: u16) -> bool {
    &&& height >= 2
    &&& width >= 9
    &&& width - volume_width(width) >= 9
}

/// Whether the screen has room for the panes.
pub fn check_room(width: u16, height: u16) -> (r: bool)
    ensures
        r == has_room(width, height),
{
    let volume = if width > 90 {
        30
    } else {
        width / 3
    };
    height >= 2 && width >= 9 && width - volume >= 9
}

impl Ui {
    /// The panes can take over `music_data` and `state_data`: the album
    /// whose songs are listed is one of the library, and so is what the state
    /// names.
    pub open spec fn can_update(&self, music_data: &MusicData, state_data: &StateData) -> bool {
        &&& self.title_window.album_selected < music_data.albums.len()
        &&& state_data.names_album_of(music_data@)
        &&& state_data.names_song_of(music_data@)
    }

    /// The screen at the start: the panes as they start, the focus on the
    /// list of albums.
    pub fn new() -> (r: Ui)
        ensures
            r.on_album,
            r.album_window.selected,
            r.album_window.offset == 0,
            r.album_window.album_playing is None,
            r.album_window.album_selected == 0,
            r.album_window.album_names@.len() == 0,
            !r.title_window.selected,
            r.title_window.offset == 0,
            r.title_window.album_playing is None,
            r.title_window.album_selected == 0,
            r.title_window.title_playing is None,
            r.title_window.title_selected == 0,
            r.title_window.title_names@.len() == 0,
            r.title_window.title_durations@.len() == 0,
            r.title_window.title_author@.len() == 0,
            !r.info_window.playing,
            r.info_window.title is None,
            r.info_window.artist is None,
            r.info_window.album is None,
            r.volume_window.volume == 0,
            r.bar_window.position is None,
            r.bar_window.duration is None,
            !r.status_window.shuffle,
            !r.status_window.repeat,
            r.album_window.area == (Area { x: 0, y: 0, width: 0, height: 0 }),
            r.title_window.area == (Area { x: 0, y: 0, width: 0, height: 0 }),
            r.info_window.area == (Area { x: 0, y: 0, width: 0, height: 0 }),
            r.volume_window.area == (Area { x: 0, y: 0, width: 0, height: 0 }),
            r.bar_window.area == (Area { x: 0, y: 0, width: 0, height: 0 }),
            r.status_window.area == (Area { x: 0, y: 0, width: 0, height: 0 }),
    {
        Ui {
            on_album: true,
            album_window: AlbumWindow::new(),
            title_window: TitleWindow::new(),
            info_window: InfoWindow::new(),
            volume_window: VolumeWindow::new(),
            bar_window: BarWindow::new(),
            status_window: StatusWindow::new(),
        }
    }

    /// Whether the panes can take over `music_data` and `state_data`.
    pub fn check_update(&self, music_data: &MusicData, state_data: &StateData) -> (r: bool)
        ensures
            r == self.can_update(music_data, state_data),
    {
        self.title_window.album_selected < music_data.albums.len() && state_data.check(music_data)
    }

    /// Has every pane take over what it shows of the library and the state.
    pub fn update(&mut self, music_data: &MusicData, state_data: &StateData)
        requires
            old(self).can_update(music_data, state_data),
        ensures
            final(self).on_album == old(self).on_album,
            final(self).album_window.shows(
                old(self).album_window,
                old(self).on_album,
                music_data@,
                *state_data,
            ),
            final(self).title_window.shows(
                old(self).title_window,
                old(self).on_album,
                music_data@,
                *state_data,
            ),
            final(self).info_window.shows(old(self).info_window, music_data@, *state_data),
            final(self).bar_window.shows(old(self).bar_window, music_data@, *state_data),
            final(self).volume_window == (VolumeWindow {
                volume: state_data.volume,
                ..old(self).volume_window
            }),
            final(self).status_window == (StatusWindow {
                shuffle: state_data.shuffle,
                repeat: state_data.repeat,
                ..old(self).status_window
            }),
    {
        let on_album = self.on_album;
        self.album_window.update(on_album, music_data, state_data);
        self.title_window.update(on_album, music_data, state_data);
        self.info_window.update(on_album, music_data, state_data);
        self.volume_window.update(on_album, music_data, state_data);
        self.bar_window.update(on_album, music_data, state_data);
        self.status_window.update(on_album, music_data, state_data);
    }

    /// Lays the panes out on a screen of `width` columns and `height` rows:
    /// the two lists side by side above, the line of what is being played
    /// below them, the bars of volume and position on the last row, and the
    /// corner of the modes at the right of the two rows at the bottom.
    pub fn resize(&mut self, width: u16, height: u16)
        requires
            has_room(width, height),
        ensures
            final(self).on_album == old(self).on_album,
            final(self).album_window == (AlbumWindow {
                area: Area { x: 0, y: 0, width: side_width(width), height: (height - 2) as u16 },
                ..old(self).album_window
            }),
            final(self).title_window == (TitleWindow {
                area: Area {
                    x: side_width(width),
                    y: 0,
                    width: (width - side_width(width)) as u16,
                    height: (height - 2) as u16,
                },
                ..old(self).title_window
            }),
            final(self).info_window == (InfoWindow {
                area: Area { x: 0, y: (height - 2) as u16, width: (width - 9) as u16, height: 1 },
                ..old(self).info_window
            }),
            final(self).volume_window == (VolumeWindow {
                area: Area { x: 0, y: (height - 1) as u16, width: volume_width(width), height: 1 },
                ..old(self).volume_window
            }),
            final(self).bar_window == (BarWindow {
                area: Area {
                    x: volume_width(width),
                    y: (height - 1) as u16,
                    width: (width - volume_width(width) - 9) as u16,
                    height: 1,
                },
                ..old(self).bar_window
            }),
            final(self).status_window == (StatusWindow {
                area: Area { x: (width - 9) as u16, y: (height - 2) as u16, width: 8, height: 2 },
                ..old(self).status_window
            }),
    {
        let side = if width > 100 {
            40
        } else {
            2 * width / 5
        };
        let volume = if width > 90 {
            30
        } else {
            width / 3
        };
        self.album_window.update_area(0, 0, side, height - 2);
        self.title_window.update_area(side, 0, width - side, height - 2);
        self.info_window.update_area(0, height - 2, width - 9, 1);
        self.volume_window.update_area(0, height - 1, volume, 1);
        self.bar_window.update_area(volume, height - 1, width - volume - 9, 1);
        self.status_window.update_area(width - 9, height - 2, 8, 2);
    }
}

} // verus!
