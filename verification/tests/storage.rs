use mpcube::model::{Album, MusicData, Song};
use mpcube::time::Duration;

fn song(uri: &str, title: &str, track: u32, secs: u64, nanos: u32) -> Song {
    Song {
        uri: uri.to_string(),
        title: title.to_string(),
        track,
        duration: Duration { secs, nanos },
    }
}

fn album(artist: &str, title: &str, date: i32, songs: Vec<Song>) -> Album {
    Album { artist: artist.to_string(), album: title.to_string(), date, songs }
}

fn sample() -> MusicData {
    MusicData {
        albums: vec![
            album("", "", 0, vec![]),
            album(
                "The Beatles",
                "Abbey Road",
                1969,
                vec![
                    song("beatles/abbey/01.flac", "Come Together", 1, 259, 0),
                    song("beatles/abbey/02.flac", "Something", 2, 182, 999_999_999),
                    song("", "", 0, 0, 0),
                ],
            ),
            album("Émile", "日本語 – naïve", -44, vec![song("é/\u{10FFFF}", "🎵", 4294967295, 18446744073709551615, 1)]),
            album("Zed Artist", "Album Z", 2147483647, vec![]),
            album("Old", "Older", -2147483648, vec![]),
        ],
    }
}

/// The bytes of the library that holds the one album `Ab` by `A` from the
/// year 258 with the one song `u`, titled `é`, track 3, of 1 s and 2 ns.
fn small_layout() -> Vec<u8> {
    let mut bytes = vec![];
    bytes.extend_from_slice(&[1, 0, 0, 0, 0, 0, 0, 0]);
    bytes.extend_from_slice(&[1, 0, 0, 0, 0, 0, 0, 0]);
    bytes.push(b'A');
    bytes.extend_from_slice(&[2, 0, 0, 0, 0, 0, 0, 0]);
    bytes.extend_from_slice(b"Ab");
    bytes.extend_from_slice(&[2, 1, 0, 0]);
    bytes.extend_from_slice(&[1, 0, 0, 0, 0, 0, 0, 0]);
    bytes.extend_from_slice(&[1, 0, 0, 0, 0, 0, 0, 0]);
    bytes.push(b'u');
    bytes.extend_from_slice(&[2, 0, 0, 0, 0, 0, 0, 0]);
    bytes.extend_from_slice(&[0xC3, 0xA9]);
    bytes.extend_from_slice(&[3, 0, 0, 0]);
    bytes.extend_from_slice(&[1, 0, 0, 0, 0, 0, 0, 0]);
    bytes.extend_from_slice(&[2, 0, 0, 0]);
    bytes
}

fn small_library() -> MusicData {
    MusicData { albums: vec![album("A", "Ab", 258, vec![song("u", "é", 3, 1, 2)])] }
}

#[test]
fn a_library_is_read_back_as_it_was_stored() {
    let library = sample();
    let bytes = library.save_cache();
    assert_eq!(MusicData::from_cache(&bytes), Some(library));
}

#[test]
fn a_library_without_albums_is_read_back() {
    let library = MusicData { albums: vec![] };
    let bytes = library.save_cache();
    assert_eq!(bytes, vec![0u8; 8]);
    assert_eq!(MusicData::from_cache(&bytes), Some(library));
}

#[test]
fn an_album_without_songs_is_read_back() {
    let library = MusicData { albums: vec![album("Artist", "Empty", 2020, vec![])] };
    let bytes = library.save_cache();
    assert_eq!(MusicData::from_cache(&bytes), Some(library));
}

#[test]
fn the_layout_of_a_small_library() {
    assert_eq!(small_library().save_cache(), small_layout());
    assert_eq!(MusicData::from_cache(&small_layout()), Some(small_library()));
}

#[test]
fn numbers_are_stored_lowest_byte_first() {
    let library = MusicData {
        albums: vec![album("", "", 0x01020304, vec![song("", "", 0xA1B2C3D4, 0x0102030405060708, 0x0A0B0C0D)])],
    };
    let bytes = library.save_cache();
    let mut expected = vec![];
    expected.extend_from_slice(&[1, 0, 0, 0, 0, 0, 0, 0]);
    expected.extend_from_slice(&[0; 8]);
    expected.extend_from_slice(&[0; 8]);
    expected.extend_from_slice(&[4, 3, 2, 1]);
    expected.extend_from_slice(&[1, 0, 0, 0, 0, 0, 0, 0]);
    expected.extend_from_slice(&[0; 8]);
    expected.extend_from_slice(&[0; 8]);
    expected.extend_from_slice(&[0xD4, 0xC3, 0xB2, 0xA1]);
    expected.extend_from_slice(&[8, 7, 6, 5, 4, 3, 2, 1]);
    expected.extend_from_slice(&[0x0D, 0x0C, 0x0B, 0x0A]);
    assert_eq!(bytes, expected);
    assert_eq!(MusicData::from_cache(&bytes), Some(library));
}

#[test]
fn a_year_before_zero_is_stored_in_twos_complement() {
    let library = MusicData { albums: vec![album("", "", -2, vec![])] };
    let bytes = library.save_cache();
    assert_eq!(&bytes[24..28], &[0xFE, 0xFF, 0xFF, 0xFF]);
    assert_eq!(MusicData::from_cache(&bytes), Some(library));
}

#[test]
fn bytes_behind_the_library_are_not_looked_at() {
    let mut bytes = small_layout();
    bytes.extend_from_slice(&[0xFF, 0xFE, 0x00, 0x80]);
    assert_eq!(MusicData::from_cache(&bytes), Some(small_library()));
}

#[test]
fn a_layout_that_ends_too_early_is_not_read() {
    let bytes = small_layout();
    for end in 0..bytes.len() {
        assert_eq!(MusicData::from_cache(&bytes[..end]), None, "with {} bytes", end);
    }
    assert_eq!(MusicData::from_cache(&[]), None);
}

#[test]
fn a_text_that_is_not_utf8_is_not_read() {
    let mut bytes = small_layout();
    let at = bytes.len() - 4 - 8 - 4 - 2;
    assert_eq!(&bytes[at..at + 2], &[0xC3, 0xA9]);
    bytes[at + 1] = 0x28;
    assert_eq!(MusicData::from_cache(&bytes), None);
    let mut lone = small_layout();
    lone[16] = 0xFF;
    assert_eq!(MusicData::from_cache(&lone), None);
}

#[test]
fn a_text_is_not_handed_back_as_its_bytes() {
    let bytes = small_layout();
    let library = MusicData::from_cache(&bytes).unwrap();
    assert_eq!(library.albums[0].songs[0].title, "é");
    assert_eq!(library.albums[0].songs[0].title.chars().count(), 1);
}

fn with_duration(secs: u64, nanos: u32) -> Vec<u8> {
    let mut bytes = small_layout();
    let at = bytes.len() - 12;
    bytes[at..at + 8].copy_from_slice(&secs.to_le_bytes());
    bytes[at + 8..].copy_from_slice(&nanos.to_le_bytes());
    bytes
}

fn duration_read(secs: u64, nanos: u32) -> Option<Duration> {
    MusicData::from_cache(&with_duration(secs, nanos)).map(|l| l.albums[0].songs[0].duration)
}

#[test]
fn whole_seconds_among_the_nanoseconds_are_carried() {
    assert_eq!(duration_read(1, 999_999_999), Some(Duration { secs: 1, nanos: 999_999_999 }));
    assert_eq!(duration_read(1, 1_000_000_000), Some(Duration { secs: 2, nanos: 0 }));
    assert_eq!(duration_read(0, 4_294_967_295), Some(Duration { secs: 4, nanos: 294_967_295 }));
    assert_eq!(duration_read(u64::MAX, 999_999_999), Some(Duration { secs: u64::MAX, nanos: 999_999_999 }));
    assert_eq!(duration_read(u64::MAX - 4, 4_294_967_295), Some(Duration { secs: u64::MAX, nanos: 294_967_295 }));
}

#[test]
fn seconds_that_pass_the_count_are_not_read() {
    assert_eq!(duration_read(u64::MAX, 1_000_000_000), None);
    assert_eq!(duration_read(u64::MAX - 3, 4_294_967_295), None);
    assert_eq!(duration_read(u64::MAX - 1, 2_000_000_000), None);
}

#[test]
fn a_span_that_is_stored_with_a_second_in_its_nanoseconds_comes_back_carried() {
    let library = MusicData { albums: vec![album("A", "B", 1, vec![song("u", "t", 1, 7, 1_500_000_000)])] };
    let read = MusicData::from_cache(&library.save_cache()).unwrap();
    assert_eq!(read.albums[0].songs[0].duration, Duration { secs: 8, nanos: 500_000_000 });
}

#[test]
fn a_count_beyond_the_bytes_is_not_read() {
    let mut bytes = small_layout();
    bytes[0] = 2;
    assert_eq!(MusicData::from_cache(&bytes), None);
    let mut huge = small_layout();
    huge[0..8].copy_from_slice(&u64::MAX.to_le_bytes());
    assert_eq!(MusicData::from_cache(&huge), None);
    let mut long_text = small_layout();
    long_text[8..16].copy_from_slice(&u64::MAX.to_le_bytes());
    assert_eq!(MusicData::from_cache(&long_text), None);
}

#[test]
fn durations_are_made_and_moved() {
    assert_eq!(Duration::new(3, 999_999_999), Some(Duration { secs: 3, nanos: 999_999_999 }));
    assert_eq!(Duration::new(3, 1_000_000_000), None);
    assert_eq!(Duration::from_secs(7), Duration { secs: 7, nanos: 0 });
    let d = Duration { secs: 7, nanos: 500 };
    assert_eq!(d.add_secs(5), Duration { secs: 12, nanos: 500 });
    assert_eq!(d.add_secs(u64::MAX - 7), Duration { secs: u64::MAX, nanos: 500 });
    assert_eq!(d.saturating_sub_secs(5), Duration { secs: 2, nanos: 500 });
    assert_eq!(d.saturating_sub_secs(7), Duration { secs: 0, nanos: 500 });
    assert_eq!(d.saturating_sub_secs(8), Duration { secs: 0, nanos: 0 });
}
