//! The pane that lists the songs of the selected album.

use crate::model::{text_views, AlbumView, MusicData, MusicDataView, SongView};
use crate::state::StateData;
use crate::time::Duration;
use crate::windows::area::Area;
use crate::windows::rows::{end_shown, first_shown, shown, Highlight};
use crate::windows::scroll::{
    can_step_down, can_step_up, check_step_down, check_step_up, moved_down, moved_up, offset_down,
    offset_up, step_down, step_up,
};
use vstd::prelude::*;

verus! {

/// The pane that lists the songs of the selected album.
#[derive(Clone, Debug, PartialEq, Eq)]
pub struct TitleWindow {
    /// Whether the pane has the focus.
    pub selected: bool,
    /// The first row of the list that the pane shows.
    pub offset: usize,
    /// The album that is being played, if any.
    pub album_playing: Option<usize>,
    /// The album whose songs the pane lists.
    pub album_selected: usize,
    /// The song that is being played, if any, counted within its album.
    pub title_playing: Option<usize>,
    /// The song that is selected.
    pub title_selected: usize,
    /// The titles of the songs.
    pub title_names: Vec<String>,
    /// The lengths of the songs.
    pub title_durations: Vec<Duration>,
    /// The artist of the album.
    pub title_author: String,
    /// Where the pane stands on the screen.
    pub area: Area,
}

/// The titles of an album's songs, song after song.
pub open spec fn song_titles(album: AlbumView) -> Seq<Seq<char>> {
    album.songs.map_values(|s: SongView| s.title)
}

/// The lengths of an album's songs, song after song.
pub open spec fn song_lengths(album: AlbumView) -> Seq<Duration> {
    album.songs.map_values(|s: SongView| s.duration)
}

impl TitleWindow {
    /// A step down the list stays within the machine's numbers.
    pub open spec fn can_go_down(&self) -> bool {
        can_step_down(self.title_selected, self.offset, self.title_names.len(), self.area.height)
    }

    /// A step up the list stays within the machine's numbers.
    pub open spec fn can_go_up(&self) -> bool {
        can_step_up(self.offset, self.title_names.len(), self.area.height)
    }

    /// The pane is `before` brought up to date: it takes titles and lengths
    /// of the selected album's songs, the album's artist, what is being
    /// played, and whether it has the focus, and keeps everything else.
    pub open spec fn shows(
        self,
        before: TitleWindow,
        on_album: bool,
        library: MusicDataView,
        state: StateData,
    ) -> bool {
        &&& text_views(self.title_names@) == song_titles(
            library.albums[before.album_selected as int],
        )
        &&& self.title_durations@ == song_lengths(library.albums[before.album_selected as int])
        &&& self.title_author@ == library.albums[before.album_selected as int].artist
        &&& self == (TitleWindow {
            selected: !on_album,
            album_playing: state.album_id,
            title_playing: state.title_id,
            title_names: self.title_names,
            title_durations: self.title_durations,
            title_author: self.title_author,
            ..before
        })
    }

    /// The pane after a step down its list.
    pub open spec fn after_down(self) -> TitleWindow {
        if self.title_names.len() == 0 {
            self
        } else {
            TitleWindow {
                title_selected: moved_down(self.title_selected, self.title_names.len()),
                offset: offset_down(
                    moved_down(self.title_selected, self.title_names.len()),
                    self.offset,
                    self.title_names.len(),
                    self.area.height,
                ),
                ..self
            }
        }
    }

    /// The pane after a step up its list. The list scrolls where the number
    /// of the selected album, not that of the song, comes near the upper
    /// edge.
    pub open spec fn after_up(self) -> TitleWindow {
        if self.title_names.len() == 0 {
            self
        } else {
            TitleWindow {
                title_selected: moved_up(self.title_selected),
                offset: offset_up(self.album_selected, self.offset, self.area.height),
                ..self
            }
        }
    }

    /// How many songs the pane has both a title and a length of.
    pub open spec fn rows(&self) -> usize {
        if self.title_names.len() <= self.title_durations.len() {
            self.title_names.len()
        } else {
            self.title_durations.len()
        }
    }

    /// How the row of the song `row` stands out. The song that is being
    /// played stands out where the album listed is the album played, whether
    /// or not the pane has the focus; the song that is selected stands out
    /// where the pane has the focus.
    pub open spec fn highlight_of(&self, row: usize) -> Highlight {
        let playing = self.album_playing == Some(self.album_selected) && self.title_playing
            == Some(row);
        let selected = self.selected && self.title_selected == row;
        if playing {
            if selected {
                Highlight::PlayingSelected
            } else {
                Highlight::Playing
            }
        } else if selected {
            Highlight::Selected
        } else {
            Highlight::Plain
        }
    }

    /// The pane at the start: without focus, empty, for the first album.
    pub fn new() -> (r: TitleWindow)
        ensures
            !r.selected,
            r.offset == 0,
            r.album_playing is None,
            r.album_selected == 0,
            r.title_playing is None,
            r.title_selected == 0,
            r.title_names@.len() == 0,
            r.title_durations@.len() == 0,
            r.title_author@.len() == 0,
            r.area == (Area { x: 0, y: 0, width: 0, height: 0 }),
    {
        TitleWindow {
            selected: false,
            offset: 0,
            album_playing: None,
            album_selected: 0,
            title_playing: None,
            title_selected: 0,
            title_names: Vec::new(),
            title_durations: Vec::new(),
            title_author: String::new(),
            area: Area::new(0, 0, 0, 0),
        }
    }

    /// Takes over titles and lengths of the selected album's songs, its
    /// artist, what is being played, and whether the pane has the focus. The
    /// selected album must be one of the library.
    pub fn update(&mut self, on_album: bool, music_data: &MusicData, state_data: &StateData)
        requires
            old(self).album_selected < music_data.albums.len(),
        ensures
            final(self).shows(*old(self), on_album, music_data@, *state_data),
    {
        self.selected = !on_album;
        let album = &music_data.albums[self.album_selected];
        let mut names: Vec<String> = Vec::new();
        let mut durations: Vec<Duration> = Vec::new();
        let mut i: usize = 0;
        let ghost titles = song_titles(album@);
        let ghost lengths = song_lengths(album@);
        proof {
            assert(text_views(names@) =~= titles.take(0));
            assert(durations@ =~= lengths.take(0));
        }
        while i < album.songs.len()
            invariant
                i <= album.songs.len(),
                titles == song_titles(album@),
                lengths == song_lengths(album@),
                text_views(names@) == titles.take(i as int),
                durations@ == lengths.take(i as int),
            decreases album.songs.len() - i,
        {
            let ghost before = text_views(names@);
            names.push(album.songs[i].title.clone());
            durations.push(album.songs[i].duration);
            proof {
                assert(text_views(names@) =~= before.push(album.songs@[i as int].title@));
                assert(titles.take(i + 1) =~= titles.take(i as int).push(titles[i as int]));
                assert(lengths.take(i + 1) =~= lengths.take(i as int).push(lengths[i as int]));
            }
            i = i + 1;
        }
        proof {
            assert(titles.take(album.songs.len() as int) =~= titles);
            assert(lengths.take(album.songs.len() as int) =~= lengths);
        }
        self.title_names = names;
        self.title_durations = durations;
        self.title_author = album.artist.clone();
        self.album_playing = state_data.album_id;
        self.title_playing = state_data.title_id;
    }

    /// Puts the pane at another place of the screen.
    pub fn update_area(&mut self, x: u16, y: u16, width: u16, height: u16)
        ensures
            *final(self) == (TitleWindow { area: Area { x, y, width, height }, ..*old(self) }),
    {
        self.area.x = x;
        self.area.y = y;
        self.area.width = width;
        self.area.height = height;
    }

    /// Whether a step down the list stays within the machine's numbers.
    pub fn check_down(&self) -> (r: bool)
        ensures
            r == self.can_go_down(),
    {
        check_step_down(self.title_selected, self.offset, self.title_names.len(), self.area.height)
    }

    /// Whether a step up the list stays within the machine's numbers.
    pub fn check_up(&self) -> (r: bool)
        ensures
            r == self.can_go_up(),
    {
        check_step_up(self.offset, self.title_names.len(), self.area.height)
    }

    /// Selects the next song, and scrolls the list where the selection comes
    /// near the lower edge.
    pub fn down(&mut self)
        requires
            old(self).can_go_down(),
        ensures
            *final(self) == old(self).after_down(),
    {
        let (selected, offset) = step_down(
            self.title_selected,
            self.offset,
            self.title_names.len(),
            self.area.height,
        );
        self.title_selected = selected;
        self.offset = offset;
    }

    /// Selects the song before, and scrolls the list as `after_up` says.
    pub fn up(&mut self)
        requires
            old(self).can_go_up(),
        ensures
            *final(self) == old(self).after_up(),
    {
        let (selected, offset) = step_up(
            self.title_selected,
            Some(self.album_selected),
            self.offset,
            self.title_names.len(),
            self.area.height,
        );
        self.title_selected = selected;
        self.offset = offset;
    }

    /// Turns the pane to another album.
    pub fn update_titles(&mut self, album_selected: usize)
        ensures
            *final(self) == (TitleWindow { album_selected, ..*old(self) }),
    {
        self.album_selected = album_selected;
    }

    /// Selects the first song.
    pub fn reset_selected(&mut self)
        ensures
            *final(self) == (TitleWindow { title_selected: 0, ..*old(self) }),
    {
        self.title_selected = 0;
    }

    /// The rows of the list that the pane shows: from the first of the pair
    /// up to, and without, the second.
    pub fn visible(&self) -> (r: (usize, usize))
        requires
            self.area.height >= 2,
        ensures
            r.0 == first_shown(self.offset, self.rows()),
            r.1 == end_shown(self.offset, self.rows(), self.area.height),
            r.0 <= r.1 <= self.title_names.len(),
            r.1 <= self.title_durations.len(),
    {
        let rows = if self.title_names.len() <= self.title_durations.len() {
            self.title_names.len()
        } else {
            self.title_durations.len()
        };
        shown(self.offset, rows, self.area.height)
    }

    /// How the row of the song `row` stands out.
    pub fn highlight(&self, row: usize) -> (r: Highlight)
        ensures
            r == self.highlight_of(row),
    {
        let playing_album = match self.album_playing {
            Some(playing) => playing == self.album_selected,
            None => false,
        };
        let playing_title = match self.title_playing {
            Some(playing) => playing == row,
            None => false,
        };
        let selected = self.selected && self.title_selected == row;
        if playing_album && playing_title {
            if selected {
                Highlight::PlayingSelected
            } else {
                Highlight::Playing
            }
        } else if selected {
            Highlight::Selected
        } else {
            Highlight::Plain
        }
    }
}

} // verus!
