use mpcube::model::{Album, MusicData, Song};
use mpcube::time::Duration;
use serde::ser::{Serialize, SerializeStruct, Serializer};

/// A song as another program would write it: with a span of time of the
/// standard library, field by field.
struct WrittenSong {
    uri: String,
    title: String,
    track: u32,
    duration: std::time::Duration,
}

/// An album as another program would write it.
struct WrittenAlbum {
    artist: String,
    album: String,
    date: i32,
    songs: Vec<WrittenSong>,
}

/// A library as another program would write it.
struct WrittenLibrary {
    albums: Vec<WrittenAlbum>,
}

impl Serialize for WrittenSong {
    fn serialize<S: Serializer>(&self, serializer: S) -> Result<S::Ok, S::Error> {
        let mut fields = serializer.serialize_struct("Song", 4)?;
        fields.serialize_field("uri", &self.uri)?;
        fields.serialize_field("title", &self.title)?;
        fields.serialize_field("track", &self.track)?;
        fields.serialize_field("duration", &self.duration)?;
        fields.end()
    }
}

impl Serialize for WrittenAlbum {
    fn serialize<S: Serializer>(&self, serializer: S) -> Result<S::Ok, S::Error> {
        let mut fields = serializer.serialize_struct("Album", 4)?;
        fields.serialize_field("artist", &self.artist)?;
        fields.serialize_field("album", &self.album)?;
        fields.serialize_field("date", &self.date)?;
        fields.serialize_field("songs", &self.songs)?;
        fields.end()
    }
}

impl Serialize for WrittenLibrary {
    fn serialize<S: Serializer>(&self, serializer: S) -> Result<S::Ok, S::Error> {
        let mut fields = serializer.serialize_struct("MusicData", 1)?;
        fields.serialize_field("albums", &self.albums)?;
        fields.end()
    }
}

fn written(library: &MusicData) -> WrittenLibrary {
    WrittenLibrary {
        albums: library
            .albums
            .iter()
            .map(|a| WrittenAlbum {
                artist: a.artist.clone(),
                album: a.album.clone(),
                date: a.date,
                songs: a
                    .songs
                    .iter()
                    .map(|s| WrittenSong {
                        uri: s.uri.clone(),
                        title: s.title.clone(),
                        track: s.track,
                        duration: std::time::Duration::new(s.duration.secs, s.duration.nanos),
                    })
                    .collect(),
            })
            .collect(),
    }
}

fn song(uri: &str, title: &str, track: u32, secs: u64, nanos: u32) -> Song {
    Song { uri: uri.to_string(), title: title.to_string(), track, duration: Duration { secs, nanos } }
}

fn album(artist: &str, title: &str, date: i32, songs: Vec<Song>) -> Album {
    Album { artist: artist.to_string(), album: title.to_string(), date, songs }
}

fn libraries() -> Vec<MusicData> {
    vec![
        MusicData { albums: vec![] },
        MusicData { albums: vec![album("", "", 0, vec![])] },
        MusicData {
            albums: vec![
                album("The Beatles", "Abbey Road", 1969, vec![
                    song("beatles/abbey/01.flac", "Come Together", 1, 259, 0),
                    song("beatles/abbey/02.flac", "Something", 2, 182, 999_999_999),
                ]),
                album("Émile", "日本語 – naïve", -44, vec![song("é/\u{10FFFF}", "🎵", 4294967295, 18446744073709551615, 1)]),
                album("Zed Artist", "Album Z", 2147483647, vec![]),
                album("Old", "Older", -2147483648, vec![song("", "", 0, 0, 0)]),
            ],
        },
    ]
}

#[test]
fn the_layout_is_the_one_that_bincode_writes() {
    for library in libraries() {
        let expected = bincode::serialize(&written(&library)).unwrap();
        assert_eq!(library.save_cache(), expected);
    }
}

#[test]
fn what_bincode_writes_is_read() {
    for library in libraries() {
        let bytes = bincode::serialize(&written(&library)).unwrap();
        assert_eq!(MusicData::from_cache(&bytes), Some(library));
    }
}

/// The bytes of a library with one song of this length.
fn with_duration(secs: u64, nanos: u32) -> Vec<u8> {
    let library = MusicData { albums: vec![album("A", "B", 1, vec![song("u", "t", 1, 0, 0)])] };
    let mut bytes = library.save_cache();
    let at = bytes.len() - 12;
    bytes[at..at + 8].copy_from_slice(&secs.to_le_bytes());
    bytes[at + 8..].copy_from_slice(&nanos.to_le_bytes());
    bytes
}

#[test]
fn spans_of_time_are_read_as_bincode_reads_them() {
    let cases = [
        (0, 0),
        (1, 999_999_999),
        (1, 1_000_000_000),
        (0, 4_294_967_295),
        (7, 2_500_000_000),
        (u64::MAX, 999_999_999),
        (u64::MAX, 1_000_000_000),
        (u64::MAX - 4, 4_294_967_295),
        (u64::MAX - 3, 4_294_967_295),
        (u64::MAX - 1, 2_000_000_000),
    ];
    for (secs, nanos) in cases {
        let bytes = with_duration(secs, nanos);
        let expected: Option<std::time::Duration> = bincode::deserialize(&bytes[bytes.len() - 12..]).ok();
        let read = MusicData::from_cache(&bytes).map(|l| l.albums[0].songs[0].duration);
        assert_eq!(
            read.map(|d| (d.secs, d.nanos)),
            expected.map(|d| (d.as_secs(), d.subsec_nanos())),
            "{} s and {} ns",
            secs,
            nanos
        );
    }
}
