//! What the daemon is doing, and where in the library it is doing it.

use crate::model::{album_views, song_views, AlbumView, MusicData, MusicDataView, SongView};
use crate::order::same_text;
use crate::tags::{tag_views, Tag, TagView, TaggedSong, TaggedSongView};
use crate::time::Duration;
use vstd::prelude::*;

verus! {

/// How many elements stand in `s` before the first that passes `test`; the
/// length of `s` where none does.
pub open spec fn first_where<T>(s: Seq<T>, test: spec_fn(T) -> bool) -> int
    decreases s.len(),
{
    if s.len() == 0 || test(s[0]) {
        0
    } else {
        1 + first_where(s.drop_first(), test)
    }
}

/// `first_where` is within `s`; nothing before it passes the test, and what
/// stands at it does.
pub proof fn lemma_first_where<T>(s: Seq<T>, test: spec_fn(T) -> bool)
    ensures
        0 <= first_where(s, test) <= s.len(),
        forall|j: int| 0 <= j < first_where(s, test) ==> !test(#[trigger] s[j]),
        first_where(s, test) < s.len() ==> test(s[first_where(s, test)]),
    decreases s.len(),
{
    if s.len() > 0 && !test(s[0]) {
        let t = s.drop_first();
        lemma_first_where(t, test);
        let n = first_where(t, test);
        assert forall|j: int| 0 <= j < n + 1 implies !test(#[trigger] s[j]) by {
            if j > 0 {
                assert(s[j] == t[j - 1]);
            }
        }
        if n < t.len() {
            assert(s[n + 1] == t[n]);
        }
    }
}

/// A place with nothing before it that passes the test, and with something
/// at it that does or with nothing at it, is `first_where`.
pub proof fn lemma_first_where_is<T>(s: Seq<T>, test: spec_fn(T) -> bool, i: int)
    requires
        0 <= i <= s.len(),
        forall|j: int| 0 <= j < i ==> !test(#[trigger] s[j]),
        i < s.len() ==> test(s[i]),
    ensures
        first_where(s, test) == i,
{
    lemma_first_where(s, test);
}

/// The test that picks the albums with the title `title`.
pub open spec fn is_titled(title: Seq<char>) -> spec_fn(AlbumView) -> bool {
    |a: AlbumView| a.album == title
}

/// The test that picks the songs with the locator `uri`.
pub open spec fn is_located(uri: Seq<char>) -> spec_fn(SongView) -> bool {
    |s: SongView| s.uri == uri
}

/// Where a song stands in the library: the first album with the title
/// `title`, and in it the first song with the locator `uri`. Nowhere, if no
/// album has the title or the first that has it lacks the song.
pub open spec fn found(library: MusicDataView, title: Seq<char>, uri: Seq<char>) -> Option<
    (int, int),
> {
    let album = first_where(library.albums, is_titled(title));
    if album < library.albums.len() {
        let song = first_where(library.albums[album].songs, is_located(uri));
        if song < library.albums[album].songs.len() {
            Some((album, song))
        } else {
            None
        }
    } else {
        None
    }
}

/// A place in the library, as indices.
pub open spec fn place(at: Option<(usize, usize)>) -> Option<(int, int)> {
    match at {
        Some((album, song)) => Some((album as int, song as int)),
        None => None,
    }
}

impl MusicData {
    /// Finds a song by the title of its album and its locator. The first
    /// album with that title decides: a song that it lacks is not found, even
    /// where a later album of the same title holds it.
    pub fn find(&self, album_title: String, uri: String) -> (r: Option<(usize, usize)>)
        ensures
            place(r) == found(self@, album_title@, uri@),
    {
        let ghost albums = album_views(self.albums@);
        let mut a: usize = 0;
        while a < self.albums.len()
            invariant
                a <= self.albums.len(),
                albums == album_views(self.albums@),
                forall|j: int| 0 <= j < a ==> !is_titled(album_title@)(#[trigger] albums[j]),
            decreases self.albums.len() - a,
        {
            let album = &self.albums[a];
            if album.album == album_title {
                proof {
                    lemma_first_where_is(albums, is_titled(album_title@), a as int);
                }
                let ghost songs = song_views(album.songs@);
                let mut s: usize = 0;
                while s < album.songs.len()
                    invariant
                        s <= album.songs.len(),
                        a < self.albums.len(),
                        albums == album_views(self.albums@),
                        first_where(albums, is_titled(album_title@)) == a,
                        songs == albums[a as int].songs,
                        songs == song_views(album.songs@),
                        forall|j: int| 0 <= j < s ==> !is_located(uri@)(#[trigger] songs[j]),
                    decreases album.songs.len() - s,
                {
                    if album.songs[s].uri == uri {
                        proof {
                            lemma_first_where_is(songs, is_located(uri@), s as int);
                        }
                        return Some((a, s));
                    }
                    s = s + 1;
                }
                proof {
                    lemma_first_where_is(songs, is_located(uri@), s as int);
                }
                return None;
            }
            a = a + 1;
        }
        proof {
            lemma_first_where_is(albums, is_titled(album_title@), a as int);
        }
        None
    }
}

/// A place that `found` gives is a place of the library.
pub proof fn lemma_found_in_library(library: MusicDataView, title: Seq<char>, uri: Seq<char>)
    ensures
        match found(library, title, uri) {
            Some((album, song)) => {
                &&& 0 <= album < library.albums.len()
                &&& 0 <= song < library.albums[album].songs.len()
                &&& library.albums[album].album == title
                &&& library.albums[album].songs[song].uri == uri
            },
            None => true,
        },
{
    lemma_first_where(library.albums, is_titled(title));
    let album = first_where(library.albums, is_titled(title));
    if album < library.albums.len() {
        lemma_first_where(library.albums[album].songs, is_located(uri));
    }
}

/// What the daemon reports of itself.
#[derive(Clone, Copy, Debug, PartialEq, Eq)]
pub struct Status {
    /// Whether a song is being played.
    pub playing: bool,
    /// How far into the song the daemon is, where it tells.
    pub elapsed: Option<Duration>,
    /// The volume.
    pub volume: i8,
    /// Whether songs are played in random order.
    pub random: bool,
    /// Whether the queue is repeated.
    pub repeat: bool,
}

/// The state of the daemon, as far as it is known here.
#[derive(Clone, Copy, Debug, PartialEq, Eq)]
pub struct StateData {
    /// Whether a song is being played.
    pub playing: bool,
    /// Which album of the library is being played, if any.
    pub album_id: Option<usize>,
    /// Which song of that album is being played, if any.
    pub title_id: Option<usize>,
    /// How far into the song the daemon is, if known.
    pub position: Option<Duration>,
    /// The volume.
    pub volume: i8,
    /// Whether songs are played in random order.
    pub shuffle: bool,
    /// Whether the queue is repeated.
    pub repeat: bool,
}

/// The test that picks the tags that name an album.
pub open spec fn names_an_album() -> spec_fn(TagView) -> bool {
    |t: TagView| t.key == "ALBUM"@ || t.key == "Album"@
}

/// The album that a song's tags name: the value of the first tag whose key
/// is `ALBUM` or `Album`.
pub open spec fn album_tag(tags: Seq<TagView>) -> Option<Seq<char>> {
    let at = first_where(tags, names_an_album());
    if at < tags.len() {
        Some(tags[at].value)
    } else {
        None
    }
}

/// Where the song that the daemon reports stands in the library. Nowhere, if
/// the daemon reports no song, the song names no album, or the library does
/// not hold it.
pub open spec fn current_of(song: Option<TaggedSongView>, library: MusicDataView) -> Option<
    (int, int),
> {
    match song {
        Some(song) => match album_tag(song.tags) {
            Some(title) => found(library, title, song.file),
            None => None,
        },
        None => None,
    }
}

/// What an optional song holds.
pub open spec fn song_view(song: Option<&TaggedSong>) -> Option<TaggedSongView> {
    match song {
        Some(song) => Some(song@),
        None => None,
    }
}

/// The album of a place in the library.
pub open spec fn album_index(at: Option<(int, int)>) -> Option<usize> {
    match at {
        Some((album, _)) => Some(album as usize),
        None => None,
    }
}

/// The song of a place in the library, counted within its album.
pub open spec fn title_index(at: Option<(int, int)>) -> Option<usize> {
    match at {
        Some((_, title)) => Some(title as usize),
        None => None,
    }
}

/// The state that the daemon's status gives when the reported song stands at
/// `at` in the library.
pub open spec fn reconciled(status: Status, at: Option<(int, int)>) -> StateData {
    StateData {
        playing: status.playing,
        album_id: album_index(at),
        title_id: title_index(at),
        position: status.elapsed,
        volume: status.volume,
        shuffle: status.random,
        repeat: status.repeat,
    }
}

impl StateData {
    /// The state names an album exactly when it names a song, and that song
    /// is one of `library`.
    pub open spec fn points_into(self, library: MusicDataView) -> bool {
        match (self.album_id, self.title_id) {
            (Some(album), Some(title)) => {
                &&& album < library.albums.len()
                &&& title < library.albums[album as int].songs.len()
            },
            (None, None) => true,
            _ => false,
        }
    }

    /// The album that the state names, if any, is one of `library`.
    pub open spec fn names_album_of(self, library: MusicDataView) -> bool {
        match self.album_id {
            Some(album) => album < library.albums.len(),
            None => true,
        }
    }

    /// The song that the state names, if it names an album and a song, is
    /// one of `library`.
    pub open spec fn names_song_of(self, library: MusicDataView) -> bool {
        match (self.album_id, self.title_id) {
            (Some(album), Some(title)) => {
                &&& album < library.albums.len()
                &&& title < library.albums[album as int].songs.len()
            },
            _ => true,
        }
    }

    /// Whether the album that the state names, if any, is one of
    /// `music_data`, and the song that it names with it as well.
    pub fn check(&self, music_data: &MusicData) -> (r: bool)
        ensures
            r == (self.names_album_of(music_data@) && self.names_song_of(music_data@)),
    {
        match self.album_id {
            Some(album) => {
                if album >= music_data.albums.len() {
                    return false;
                }
                match self.title_id {
                    Some(title) => title < music_data.albums[album].songs.len(),
                    None => true,
                }
            },
            None => true,
        }
    }

    /// The state that the daemon's reports give: what `status` says, and the
    /// place of the reported song in the library.
    pub fn new(status: &Status, song: Option<&TaggedSong>, music_data: &MusicData) -> (r: StateData)
        ensures
            r == reconciled(*status, current_of(song_view(song), music_data@)),
            r.points_into(music_data@),
    {
        let at = locate(song, music_data);
        let (album_id, title_id) = match at {
            Some((album_id, title_id)) => (Some(album_id), Some(title_id)),
            None => (None, None),
        };
        StateData {
            playing: status.playing,
            album_id,
            title_id,
            position: status.elapsed,
            volume: status.volume,
            shuffle: status.random,
            repeat: status.repeat,
        }
    }

    /// Brings the state up to date with the daemon's reports: afterwards it
    /// is what `new` gives for them.
    pub fn update(&mut self, status: &Status, song: Option<&TaggedSong>, music_data: &MusicData)
        ensures
            *final(self) == reconciled(*status, current_of(song_view(song), music_data@)),
            final(self).points_into(music_data@),
    {
        self.update_status(status);
        self.update_song(song, music_data);
    }

    /// Takes over what `status` says and leaves the place in the library as
    /// it is.
    pub fn update_status(&mut self, status: &Status)
        ensures
            *final(self) == (StateData {
                album_id: old(self).album_id,
                title_id: old(self).title_id,
                ..reconciled(*status, None)
            }),
    {
        self.playing = status.playing;
        self.position = status.elapsed;
        self.volume = status.volume;
        self.shuffle = status.random;
        self.repeat = status.repeat;
    }

    /// Looks up the place of the reported song again and leaves everything
    /// else as it is.
    pub fn update_song(&mut self, song: Option<&TaggedSong>, music_data: &MusicData)
        ensures
            *final(self) == (StateData {
                album_id: album_index(current_of(song_view(song), music_data@)),
                title_id: title_index(current_of(song_view(song), music_data@)),
                ..*old(self)
            }),
            final(self).points_into(music_data@),
    {
        let at = locate(song, music_data);
        match at {
            Some((album_id, title_id)) => {
                self.album_id = Some(album_id);
                self.title_id = Some(title_id);
            },
            None => {
                self.album_id = None;
                self.title_id = None;
            },
        }
    }
}

/// Finds the first tag that names an album.
pub fn album_of_tags(tags: &Vec<Tag>) -> (r: Option<&String>)
    ensures
        match r {
            Some(title) => album_tag(tag_views(tags@)) == Some(title@),
            None => album_tag(tag_views(tags@)) is None,
        },
{
    let ghost all = tag_views(tags@);
    let mut i: usize = 0;
    while i < tags.len()
        invariant
            i <= tags.len(),
            all == tag_views(tags@),
            forall|j: int| 0 <= j < i ==> !names_an_album()(#[trigger] all[j]),
        decreases tags.len() - i,
    {
        if same_text(tags[i].key.as_str(), "ALBUM") || same_text(tags[i].key.as_str(), "Album") {
            proof {
                lemma_first_where_is(all, names_an_album(), i as int);
            }
            return Some(&tags[i].value);
        }
        i = i + 1;
    }
    proof {
        lemma_first_where_is(all, names_an_album(), i as int);
    }
    None
}

/// Finds the reported song in the library.
pub fn locate(song: Option<&TaggedSong>, music_data: &MusicData) -> (r: Option<(usize, usize)>)
    ensures
        place(r) == current_of(song_view(song), music_data@),
        match r {
            Some((album, title)) => {
                &&& album < music_data@.albums.len()
                &&& title < music_data@.albums[album as int].songs.len()
            },
            None => true,
        },
{
    match song {
        Some(song) => match album_of_tags(&song.tags) {
            Some(title) => {
                proof {
                    lemma_found_in_library(music_data@, title@, song.file@);
                }
                music_data.find(title.clone(), song.file.clone())
            },
            None => None,
        },
        None => None,
    }
}

} // verus!
