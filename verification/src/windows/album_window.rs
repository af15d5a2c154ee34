//! The pane that lists the albums.

use crate::model::{text_views, AlbumView, MusicData, MusicDataView};
use crate::state::StateData;
use crate::windows::area::Area;
use crate::windows::rows::{end_shown, first_shown, shown, Highlight};
use crate::windows::scroll::{
    can_step_down, can_step_up, check_step_down, check_step_up, moved_down, moved_up, offset_down,
    offset_up, step_down, step_up,
};
use vstd::prelude::*;

verus! {

/// The pane that lists the albums.
#[derive(Clone, Debug, PartialEq, Eq)]
pub struct AlbumWindow {
    /// Whether the pane has the focus.
    pub selected: bool,
    /// The first row of the list that the pane shows.
    pub offset: usize,
    /// The album that is being played, if any.
    pub album_playing: Option<usize>,
    /// The album that is selected.
    pub album_selected: usize,
    /// The titles of the albums.
    pub album_names: Vec<String>,
    /// Where the pane stands on the screen.
    pub area: Area,
}

/// The titles of albums, album after album.
pub open spec fn titles_of(albums: Seq<AlbumView>) -> Seq<Seq<char>> {
    albums.map_values(|a: AlbumView| a.album)
}

impl AlbumWindow {
    /// A step down the list stays within the machine's numbers.
    pub open spec fn can_go_down(&self) -> bool {
        can_step_down(self.album_selected, self.offset, self.album_names.len(), self.area.height)
    }

    /// A step up the list stays within the machine's numbers.
    pub open spec fn can_go_up(&self) -> bool {
        can_step_up(self.offset, self.album_names.len(), self.area.height)
    }

    /// The pane is `before` brought up to date: it takes the titles of the
    /// library's albums, the album that is being played, and whether it has
    /// the focus, and keeps everything else.
    pub open spec fn shows(
        self,
        before: AlbumWindow,
        on_album: bool,
        library: MusicDataView,
        state: StateData,
    ) -> bool {
        &&& text_views(self.album_names@) == titles_of(library.albums)
        &&& self == (AlbumWindow {
            selected: on_album,
            album_playing: state.album_id,
            album_names: self.album_names,
            ..before
        })
    }

    /// The pane after a step down its list.
    pub open spec fn after_down(self) -> AlbumWindow {
        if self.album_names.len() == 0 {
            self
        } else {
            AlbumWindow {
                album_selected: moved_down(self.album_selected, self.album_names.len()),
                offset: offset_down(
                    moved_down(self.album_selected, self.album_names.len()),
                    self.offset,
                    self.album_names.len(),
                    self.area.height,
                ),
                ..self
            }
        }
    }

    /// The pane after a step up its list.
    pub open spec fn after_up(self) -> AlbumWindow {
        if self.album_names.len() == 0 {
            self
        } else {
            AlbumWindow {
                album_selected: moved_up(self.album_selected),
                offset: offset_up(moved_up(self.album_selected), self.offset, self.area.height),
                ..self
            }
        }
    }

    /// How the row of the album `row` stands out: as the album that is being
    /// played, as the album that is selected, as both or as neither.
    pub open spec fn highlight_of(&self, row: usize) -> Highlight {
        if self.album_playing == Some(row) {
            if self.album_selected == row {
                Highlight::PlayingSelected
            } else {
                Highlight::Playing
            }
        } else if self.album_selected == row {
            Highlight::Selected
        } else {
            Highlight::Plain
        }
    }

    /// The pane at the start: focused, empty, with its first row selected.
    pub fn new() -> (r: AlbumWindow)
        ensures
            r.selected,
            r.offset == 0,
            r.album_playing is None,
            r.album_selected == 0,
            r.album_names@.len() == 0,
            r.area == (Area { x: 0, y: 0, width: 0, height: 0 }),
    {
        AlbumWindow {
            selected: true,
            offset: 0,
            album_playing: None,
            album_selected: 0,
            album_names: Vec::new(),
            area: Area::new(0, 0, 0, 0),
        }
    }

    /// Takes over the titles of the library's albums, the album that is
    /// being played, and whether the pane has the focus.
    pub fn update(&mut self, on_album: bool, music_data: &MusicData, state_data: &StateData)
        ensures
            final(self).shows(*old(self), on_album, music_data@, *state_data),
    {
        self.selected = on_album;
        let mut names: Vec<String> = Vec::new();
        let mut i: usize = 0;
        let ghost all = titles_of(music_data@.albums);
        proof {
            assert(text_views(names@) =~= all.take(0));
        }
        while i < music_data.albums.len()
            invariant
                i <= music_data.albums.len(),
                all == titles_of(music_data@.albums),
                text_views(names@) == all.take(i as int),
            decreases music_data.albums.len() - i,
        {
            let ghost before = text_views(names@);
            names.push(music_data.albums[i].album.clone());
            proof {
                assert(text_views(names@) =~= before.push(music_data.albums@[i as int].album@));
                assert(all.take(i + 1) =~= all.take(i as int).push(all[i as int]));
            }
            i = i + 1;
        }
        proof {
            assert(all.take(music_data.albums.len() as int) =~= all);
        }
        self.album_names = names;
        self.album_playing = state_data.album_id;
    }

    /// Puts the pane at another place of the screen.
    pub fn update_area(&mut self, x: u16, y: u16, width: u16, height: u16)
        ensures
            *final(self) == (AlbumWindow { area: Area { x, y, width, height }, ..*old(self) }),
    {
        self.area.x = x;
        self.area.y = y;
        self.area.width = width;
        self.area.height = height;
    }

    /// Whether a step down the list stays within the machine's numbers.
    pub fn check_down(&self) -> (r: bool)
        ensures
            r == self.can_go_down(),
    {
        check_step_down(self.album_selected, self.offset, self.album_names.len(), self.area.height)
    }

    /// Whether a step up the list stays within the machine's numbers.
    pub fn check_up(&self) -> (r: bool)
        ensures
            r == self.can_go_up(),
    {
        check_step_up(self.offset, self.album_names.len(), self.area.height)
    }

    /// Selects the next album, and scrolls the list where the selection
    /// comes near the lower edge.
    pub fn down(&mut self)
        requires
            old(self).can_go_down(),
        ensures
            *final(self) == old(self).after_down(),
    {
        let (selected, offset) = step_down(
            self.album_selected,
            self.offset,
            self.album_names.len(),
            self.area.height,
        );
        self.album_selected = selected;
        self.offset = offset;
    }

    /// Selects the album before, and scrolls the list where the selection
    /// comes near the upper edge.
    pub fn up(&mut self)
        requires
            old(self).can_go_up(),
        ensures
            *final(self) == old(self).after_up(),
    {
        let (selected, offset) = step_up(
            self.album_selected,
            None,
            self.offset,
            self.album_names.len(),
            self.area.height,
        );
        self.album_selected = selected;
        self.offset = offset;
    }

    /// The rows of the list that the pane shows: from the first of the pair
    /// up to, and without, the second.
    pub fn visible(&self) -> (r: (usize, usize))
        requires
            self.area.height >= 2,
        ensures
            r.0 == first_shown(self.offset, self.album_names.len()),
            r.1 == end_shown(self.offset, self.album_names.len(), self.area.height),
            r.0 <= r.1 <= self.album_names.len(),
    {
        shown(self.offset, self.album_names.len(), self.area.height)
    }

    /// How the row of the album `row` stands out.
    pub fn highlight(&self, row: usize) -> (r: Highlight)
        ensures
            r == self.highlight_of(row),
    {
        let playing = match self.album_playing {
            Some(playing) => playing == row,
            None => false,
        };
        let selected = self.album_selected == row;
        if playing {
            if selected {
                Highlight::PlayingSelected
            } else {
                Highlight::Playing
            }
        } else if selected {
            Highlight::Selected
        } else {
            Highlight::Plain
        }
    }
}

} // verus!
