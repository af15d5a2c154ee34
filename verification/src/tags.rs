//! Songs as the daemon reports them, and the record that is read from their
//! tags.

use crate::number::{parse_track, parse_year, track_of, year_of};
use crate::order::same_text;
use crate::time::Duration;
use vstd::prelude::*;

verus! {

/// One tag of a song: a key and the value that stands under it.
#[derive(Clone, Debug, PartialEq, Eq)]
pub struct Tag {
    /// The key, as the daemon spells it.
    pub key: String,
    /// The value.
    pub value: String,
}

/// What a [`Tag`] holds.
pub struct TagView {
    pub key: Seq<char>,
    pub value: Seq<char>,
}

impl View for Tag {
    type V = TagView;

    open spec fn view(&self) -> TagView {
        TagView { key: self.key@, value: self.value@ }
    }
}

/// A song as the daemon reports it.
#[derive(Clone, Debug, PartialEq, Eq)]
pub struct TaggedSong {
    /// The locator by which the daemon knows the song.
    pub file: String,
    /// The length of the song, where the daemon tells it.
    pub duration: Option<Duration>,
    /// The tags of the song, in the order in which the daemon gave them.
    pub tags: Vec<Tag>,
}

/// What a [`TaggedSong`] holds.
pub struct TaggedSongView {
    pub file: Seq<char>,
    pub duration: Option<Duration>,
    pub tags: Seq<TagView>,
}

/// What a run of tags holds.
pub open spec fn tag_views(tags: Seq<Tag>) -> Seq<TagView> {
    tags.map_values(|t: Tag| t@)
}

impl View for TaggedSong {
    type V = TaggedSongView;

    open spec fn view(&self) -> TaggedSongView {
        TaggedSongView { file: self.file@, duration: self.duration, tags: tag_views(self.tags@) }
    }
}

/// What is known of one song once its tags are read.
#[derive(Clone, Debug, PartialEq, Eq)]
pub struct RawMusicEntry {
    /// The locator by which the daemon knows the song.
    pub uri: String,
    /// The title of the song.
    pub title: String,
    /// The artist of the song.
    pub artist: String,
    /// The album that the song belongs to.
    pub album: String,
    /// The year of the song; zero where unknown.
    pub date: i32,
    /// The track number of the song; zero where unknown.
    pub track: u32,
    /// The length of the song; zero where unknown.
    pub duration: Duration,
}

/// What a [`RawMusicEntry`] holds.
pub struct RawMusicEntryView {
    pub uri: Seq<char>,
    pub title: Seq<char>,
    pub artist: Seq<char>,
    pub album: Seq<char>,
    pub date: i32,
    pub track: u32,
    pub duration: Duration,
}

impl View for RawMusicEntry {
    type V = RawMusicEntryView;

    open spec fn view(&self) -> RawMusicEntryView {
        RawMusicEntryView {
            uri: self.uri@,
            title: self.title@,
            artist: self.artist@,
            album: self.album@,
            date: self.date,
            track: self.track,
            duration: self.duration,
        }
    }
}

/// The value that stands under `key`: that of the last tag with this key.
pub open spec fn tag_value(tags: Seq<TagView>, key: Seq<char>) -> Option<Seq<char>>
    decreases tags.len(),
{
    if tags.len() == 0 {
        None
    } else if tags.last().key == key {
        Some(tags.last().value)
    } else {
        tag_value(tags.drop_last(), key)
    }
}

/// The value under the first of `keys` that any tag carries.
pub open spec fn first_of(tags: Seq<TagView>, keys: Seq<Seq<char>>) -> Option<Seq<char>>
    decreases keys.len(),
{
    if keys.len() == 0 {
        None
    } else {
        match tag_value(tags, keys[0]) {
            Some(value) => Some(value),
            None => first_of(tags, keys.drop_first()),
        }
    }
}

/// The keys under which a title is looked for, in this order.
pub open spec fn title_keys() -> Seq<Seq<char>> {
    seq!["TITLE"@, "title"@]
}

/// The keys under which an artist is looked for, in this order.
pub open spec fn artist_keys() -> Seq<Seq<char>> {
    seq!["ALBUMARTIST"@, "ARTIST"@, "artist"@]
}

/// The keys under which an album's title is looked for, in this order.
pub open spec fn album_keys() -> Seq<Seq<char>> {
    seq!["ALBUM"@, "Album"@, "album"@]
}

/// The keys under which a date is looked for, in this order.
pub open spec fn date_keys() -> Seq<Seq<char>> {
    seq!["DATE"@, "Date"@, "date"@]
}

/// The keys under which a track number is looked for, in this order.
pub open spec fn track_keys() -> Seq<Seq<char>> {
    seq!["TRACKNUMBER"@, "Track"@, "track"@]
}

/// The record that a song's tags give. Each field comes from the first of
/// its keys that the song carries; where it carries none, the title is the
/// locator, artist and album are named unknown, and the numbers are zero.
pub open spec fn entry_of(song: TaggedSongView) -> RawMusicEntryView {
    RawMusicEntryView {
        uri: song.file,
        title: match first_of(song.tags, title_keys()) {
            Some(title) => title,
            None => song.file,
        },
        artist: match first_of(song.tags, artist_keys()) {
            Some(artist) => artist,
            None => "Unknown Artist"@,
        },
        album: match first_of(song.tags, album_keys()) {
            Some(album) => album,
            None => "Unknown Album"@,
        },
        date: match first_of(song.tags, date_keys()) {
            Some(date) => year_of(date),
            None => 0,
        },
        track: match first_of(song.tags, track_keys()) {
            Some(track) => track_of(track),
            None => 0,
        },
        duration: match song.duration {
            Some(duration) => duration,
            None => Duration { secs: 0, nanos: 0 },
        },
    }
}

/// What a list of keys holds.
pub open spec fn key_views(keys: Seq<&str>) -> Seq<Seq<char>> {
    keys.map_values(|k: &str| k@)
}

/// Looks up the value that stands under `key`.
pub fn lookup<'a>(tags: &'a Vec<Tag>, key: &str) -> (r: Option<&'a String>)
    ensures
        match r {
            Some(value) => tag_value(tag_views(tags@), key@) == Some(value@),
            None => tag_value(tag_views(tags@), key@) is None,
        },
{
    let mut n = tags.len();
    let ghost all = tag_views(tags@);
    proof {
        assert(all.take(n as int) =~= all);
    }
    while n > 0
        invariant
            n <= tags.len(),
            all == tag_views(tags@),
            tag_value(all, key@) == tag_value(all.take(n as int), key@),
        decreases n,
    {
        n = n - 1;
        proof {
            assert(all.take(n + 1).drop_last() =~= all.take(n as int));
            assert(all.take(n + 1).last() == tags@[n as int]@);
        }
        if same_text(tags[n].key.as_str(), key) {
            return Some(&tags[n].value);
        }
    }
    None
}

/// Looks up the value under the first of `keys` that any tag carries.
pub fn resolve<'a>(tags: &'a Vec<Tag>, keys: &[&str]) -> (r: Option<&'a String>)
    ensures
        match r {
            Some(value) => first_of(tag_views(tags@), key_views(keys@)) == Some(value@),
            None => first_of(tag_views(tags@), key_views(keys@)) is None,
        },
{
    let ghost all = key_views(keys@);
    let mut i: usize = 0;
    proof {
        assert(all.skip(0) =~= all);
    }
    while i < keys.len()
        invariant
            i <= keys.len(),
            all == key_views(keys@),
            first_of(tag_views(tags@), all) == first_of(tag_views(tags@), all.skip(i as int)),
        decreases keys.len() - i,
    {
        proof {
            assert(all.skip(i as int).drop_first() =~= all.skip(i + 1));
            assert(all.skip(i as int)[0] == keys@[i as int]@);
        }
        match lookup(tags, keys[i]) {
            Some(value) => {
                return Some(value);
            },
            None => {},
        }
        i = i + 1;
    }
    None
}

impl RawMusicEntry {
    /// Reads the record of a song from its tags.
    pub fn new(song: TaggedSong) -> (r: RawMusicEntry)
        ensures
            r@ == entry_of(song@),
    {
        let title_keys = ["TITLE", "title"];
        let artist_keys = ["ALBUMARTIST", "ARTIST", "artist"];
        let album_keys = ["ALBUM", "Album", "album"];
        let date_keys = ["DATE", "Date", "date"];
        let track_keys = ["TRACKNUMBER", "Track", "track"];
        proof {
            assert(key_views(title_keys@) =~= self::title_keys());
            assert(key_views(artist_keys@) =~= self::artist_keys());
            assert(key_views(album_keys@) =~= self::album_keys());
            assert(key_views(date_keys@) =~= self::date_keys());
            assert(key_views(track_keys@) =~= self::track_keys());
        }
        let title = match resolve(&song.tags, title_keys.as_slice()) {
            Some(title) => title.clone(),
            None => song.file.clone(),
        };
        let artist = match resolve(&song.tags, artist_keys.as_slice()) {
            Some(artist) => artist.clone(),
            None => "Unknown Artist".to_owned(),
        };
        let album = match resolve(&song.tags, album_keys.as_slice()) {
            Some(album) => album.clone(),
            None => "Unknown Album".to_owned(),
        };
        let date = match resolve(&song.tags, date_keys.as_slice()) {
            Some(date) => parse_year(date.as_str()),
            None => 0,
        };
        let track = match resolve(&song.tags, track_keys.as_slice()) {
            Some(track) => parse_track(track.as_str()),
            None => 0,
        };
        let duration = match song.duration {
            Some(duration) => duration,
            None => Duration { secs: 0, nanos: 0 },
        };
        RawMusicEntry { uri: song.file, title, artist, album, date, track, duration }
    }
}

} // verus!
