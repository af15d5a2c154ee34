//! The library as it is held locally: songs, albums, and the order in which
//! they are presented.

use crate::order::{
    int_rank, lemma_lex_flip, lemma_lex_same, lemma_lex_transitive, lex_rank, ordering_of,
    rank_rest, Rank,
};
use crate::time::Duration;
use std::cmp::Ordering;
use std::str::Chars;
use vstd::prelude::*;
use vstd::std_specs::iter::IteratorSpec;

verus! {

/// One song of the daemon's library.
#[derive(Clone, Debug, PartialEq, Eq)]
pub struct Song {
    /// The locator by which the daemon knows the song.
    pub uri: String,
    /// The title of the song.
    pub title: String,
    /// The track number of the song.
    pub track: u32,
    /// The length of the song.
    pub duration: Duration,
}

/// What a [`Song`] holds.
pub struct SongView {
    pub uri: Seq<char>,
    pub title: Seq<char>,
    pub track: u32,
    pub duration: Duration,
}

impl View for Song {
    type V = SongView;

    open spec fn view(&self) -> SongView {
        SongView {
            uri: self.uri@,
            title: self.title@,
            track: self.track,
            duration: self.duration,
        }
    }
}

/// One album: its songs and what they have in common.
#[derive(Clone, Debug, PartialEq, Eq)]
pub struct Album {
    /// The artist of the album; empty where unknown.
    pub artist: String,
    /// The title of the album; empty where unknown.
    pub album: String,
    /// The year the album came out; zero where unknown.
    pub date: i32,
    /// The songs of the album.
    pub songs: Vec<Song>,
}

/// What an [`Album`] holds.
pub struct AlbumView {
    pub artist: Seq<char>,
    pub album: Seq<char>,
    pub date: i32,
    pub songs: Seq<SongView>,
}

/// What a run of texts holds.
pub open spec fn text_views(texts: Seq<String>) -> Seq<Seq<char>> {
    texts.map_values(|t: String| t@)
}

/// What a text holds that may be missing.
pub open spec fn text_view(text: Option<String>) -> Option<Seq<char>> {
    match text {
        Some(text) => Some(text@),
        None => None,
    }
}

/// What a run of songs holds.
pub open spec fn song_views(songs: Seq<Song>) -> Seq<SongView> {
    songs.map_values(|s: Song| s@)
}

/// What a run of albums holds.
pub open spec fn album_views(albums: Seq<Album>) -> Seq<AlbumView> {
    albums.map_values(|a: Album| a@)
}

impl View for Album {
    type V = AlbumView;

    open spec fn view(&self) -> AlbumView {
        AlbumView {
            artist: self.artist@,
            album: self.album@,
            date: self.date,
            songs: song_views(self.songs@),
        }
    }
}

/// The whole library.
#[derive(Clone, Debug, PartialEq, Eq)]
pub struct MusicData {
    /// The albums of the library.
    pub albums: Vec<Album>,
}

/// What a [`MusicData`] holds.
pub struct MusicDataView {
    pub albums: Seq<AlbumView>,
}

impl View for MusicData {
    type V = MusicDataView;

    open spec fn view(&self) -> MusicDataView {
        MusicDataView { albums: album_views(self.albums@) }
    }
}

/// The rank of two songs: by track number, then by locator.
pub open spec fn song_rank(a: SongView, b: SongView) -> Rank {
    int_rank(a.track as int, b.track as int).or(lex_rank(a.uri, b.uri))
}

/// An artist's name without a leading `The `.
pub open spec fn strip_the(s: Seq<char>) -> Seq<char> {
    if s.len() >= 4 && s[0] == 'T' && s[1] == 'h' && s[2] == 'e' && s[3] == ' ' {
        s.skip(4)
    } else {
        s
    }
}

/// Ranks an empty text before a text that is not empty.
pub open spec fn presence_rank(a: Seq<char>, b: Seq<char>) -> Rank {
    if a.len() == 0 && b.len() > 0 {
        Rank::Before
    } else if a.len() > 0 && b.len() == 0 {
        Rank::After
    } else {
        Rank::Same
    }
}

/// The rank of two albums. Albums without an artist come first; then the
/// artist's name decides, read without a leading `The `; then the year; then
/// the title, an album without one first.
pub open spec fn album_rank(a: AlbumView, b: AlbumView) -> Rank {
    presence_rank(a.artist, b.artist).or(lex_rank(strip_the(a.artist), strip_the(b.artist))).or(
        int_rank(a.date as int, b.date as int),
    ).or(presence_rank(a.album, b.album)).or(lex_rank(a.album, b.album))
}

/// Two songs rank the same exactly when track number and locator agree.
pub proof fn lemma_song_rank_same(a: SongView, b: SongView)
    ensures
        song_rank(a, b) == Rank::Same <==> a.track == b.track && a.uri == b.uri,
{
    lemma_lex_same(a.uri, b.uri);
}

/// The order of songs is antisymmetric: swapping two songs flips their rank.
pub proof fn lemma_song_rank_antisymmetric(a: SongView, b: SongView)
    ensures
        song_rank(b, a) == song_rank(a, b).flip(),
{
    lemma_lex_flip(a.uri, b.uri);
}

/// The order of songs is transitive, and strict as soon as one step is.
pub proof fn lemma_song_rank_transitive(a: SongView, b: SongView, c: SongView)
    requires
        song_rank(a, b) != Rank::After,
        song_rank(b, c) != Rank::After,
    ensures
        song_rank(a, c) != Rank::After,
        song_rank(a, b) == Rank::Before || song_rank(b, c) == Rank::Before ==> song_rank(a, c)
            == Rank::Before,
{
    if a.track == b.track && b.track == c.track {
        lemma_lex_transitive(a.uri, b.uri, c.uri);
    }
}

/// Two albums rank the same exactly when they agree in year and title and in
/// the artist's name, read without a leading `The `, and either both have an
/// artist or neither has.
pub proof fn lemma_album_rank_same(a: AlbumView, b: AlbumView)
    ensures
        album_rank(a, b) == Rank::Same <==> {
            &&& (a.artist.len() == 0 <==> b.artist.len() == 0)
            &&& strip_the(a.artist) == strip_the(b.artist)
            &&& a.date == b.date
            &&& a.album == b.album
        },
{
    lemma_lex_same(strip_the(a.artist), strip_the(b.artist));
    lemma_lex_same(a.album, b.album);
}

/// The order of albums is antisymmetric: swapping two albums flips their rank.
pub proof fn lemma_album_rank_antisymmetric(a: AlbumView, b: AlbumView)
    ensures
        album_rank(b, a) == album_rank(a, b).flip(),
{
    lemma_lex_flip(strip_the(a.artist), strip_the(b.artist));
    lemma_lex_flip(a.album, b.album);
}

/// The order of albums is transitive, and strict as soon as one step is.
pub proof fn lemma_album_rank_transitive(a: AlbumView, b: AlbumView, c: AlbumView)
    requires
        album_rank(a, b) != Rank::After,
        album_rank(b, c) != Rank::After,
    ensures
        album_rank(a, c) != Rank::After,
        album_rank(a, b) == Rank::Before || album_rank(b, c) == Rank::Before ==> album_rank(a, c)
            == Rank::Before,
{
    let by_presence = |x: AlbumView, y: AlbumView| presence_rank(x.artist, y.artist);
    let by_artist = |x: AlbumView, y: AlbumView| lex_rank(strip_the(x.artist), strip_the(y.artist));
    if by_presence(a, b) == Rank::Same && by_presence(b, c) == Rank::Same {
        lemma_lex_transitive(strip_the(a.artist), strip_the(b.artist), strip_the(c.artist));
        if by_artist(a, b) == Rank::Same && by_artist(b, c) == Rank::Same && a.date == b.date
            && b.date == c.date {
            if presence_rank(a.album, b.album) == Rank::Same && presence_rank(b.album, c.album)
                == Rank::Same {
                lemma_lex_transitive(a.album, b.album, c.album);
            }
        }
    }
}

/// Steps over `c` if that is what the cursor gives next.
fn takes(it: &mut Chars<'_>, c: char) -> (r: bool)
    requires
        (*old(it)).decrease() is Some,
    ensures
        (*final(it)).decrease() is Some,
        r == ((*old(it)).remaining().len() > 0 && (*old(it)).remaining()[0] == c),
        (*final(it)).remaining() == if (*old(it)).remaining().len() > 0 {
            (*old(it)).remaining().drop_first()
        } else {
            (*old(it)).remaining()
        },
{
    match it.next() {
        Some(d) => d == c,
        None => false,
    }
}

/// A cursor over an artist's name, behind a leading `The `.
fn after_the<'a>(s: &'a str) -> (it: Chars<'a>)
    ensures
        it.decrease() is Some,
        it.remaining() == strip_the(s@),
{
    let mut it = s.chars();
    if takes(&mut it, 'T') && takes(&mut it, 'h') && takes(&mut it, 'e') && takes(&mut it, ' ') {
        assert(it.remaining() =~= s@.skip(4));
        it
    } else {
        s.chars()
    }
}

/// Ranks two texts, an empty one before one that is not.
fn rank_presence(a: &str, b: &str) -> (r: Rank)
    ensures
        r == presence_rank(a@, b@),
{
    let a_empty = a.is_empty();
    let b_empty = b.is_empty();
    if a_empty && !b_empty {
        Rank::Before
    } else if !a_empty && b_empty {
        Rank::After
    } else {
        Rank::Same
    }
}

impl Song {
    /// Ranks this song against another.
    pub fn rank(&self, other: &Song) -> (r: Rank)
        ensures
            r == song_rank(self@, other@),
    {
        if self.track < other.track {
            Rank::Before
        } else if self.track > other.track {
            Rank::After
        } else {
            rank_rest(self.uri.as_str().chars(), other.uri.as_str().chars())
        }
    }
}

impl Album {
    /// Compares two albums for sorting.
    pub fn cmp(a: &Album, b: &Album) -> (r: Ordering)
        ensures
            r == ordering_of(album_rank(a@, b@)),
    {
        a.rank(b).into_ordering()
    }

    /// Ranks this album against another.
    pub fn rank(&self, other: &Album) -> (r: Rank)
        ensures
            r == album_rank(self@, other@),
    {
        let by_presence = rank_presence(self.artist.as_str(), other.artist.as_str());
        if by_presence != Rank::Same {
            return by_presence;
        }
        let by_artist = rank_rest(
            after_the(self.artist.as_str()),
            after_the(other.artist.as_str()),
        );
        if by_artist != Rank::Same {
            return by_artist;
        }
        if self.date < other.date {
            return Rank::Before;
        }
        if self.date > other.date {
            return Rank::After;
        }
        let by_title = rank_presence(self.album.as_str(), other.album.as_str());
        if by_title != Rank::Same {
            return by_title;
        }
        rank_rest(self.album.as_str().chars(), other.album.as_str().chars())
    }
}

} // verus!
