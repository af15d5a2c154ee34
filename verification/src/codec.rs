//! The layout in which a library is stored.
//!
//! Numbers are stored with their lowest byte first. A text is stored as the
//! count of its bytes, in eight bytes, and then the bytes of its UTF-8 form; a
//! run of songs or albums as the count of its members, in eight bytes, and
//! then the members one after another. A span of time is its seconds in
//! eight bytes and its nanoseconds in four. A song is its locator, its title,
//! its track number in four bytes, and its length; an album is its artist,
//! its title, its year in four bytes, and its songs; a library is its
//! albums. Nothing tells one layout from a later one.
//!
//! A span of time is written with less than a second in its nanoseconds.
//! Where one is read that holds more, the whole seconds among them are
//! carried into the seconds.

use crate::model::{
    album_views, song_views, Album, AlbumView, MusicData, MusicDataView, Song, SongView,
};
use crate::time::{Duration, NANOS_PER_SEC};
use std::string::FromUtf8Error;
use vstd::prelude::*;
use vstd::slice::{slice_subrange, slice_to_vec};
use vstd::utf8::{decode_utf8, encode_utf8, valid_utf8};

verus! {

/// The error that the standard library gives for bytes that are no text.
#[verifier::external_type_specification]
#[verifier::external_body]
pub struct ExFromUtf8Error(std::string::FromUtf8Error);

/// Reads bytes as text, by `String::from_utf8`: the text that the bytes
/// encode, where they are well-formed UTF-8, and an error where they are not.
#[verifier::external_body]
fn text_from_utf8(bytes: Vec<u8>) -> (r: Result<String, FromUtf8Error>)
    ensures
        r is Ok <==> valid_utf8(bytes@),
        r matches Ok(text) ==> text@ == decode_utf8(bytes@),
{
    String::from_utf8(bytes)
}

/// The four bytes of a number, lowest first.
#[verifier::opaque]
pub open spec fn layout_u32(v: u32) -> Seq<u8> {
    seq![
        (v % 256) as u8,
        (v / 256 % 256) as u8,
        (v / 65536 % 256) as u8,
        (v / 16777216) as u8,
    ]
}

/// The number that four bytes make, lowest first.
#[verifier::opaque]
pub open spec fn value_u32(b: Seq<u8>) -> u32 {
    (b[0] + 256 * b[1] + 65536 * b[2] + 16777216 * b[3]) as u32
}

/// The eight bytes of a number, lowest first.
#[verifier::opaque]
pub open spec fn layout_u64(v: u64) -> Seq<u8> {
    layout_u32((v % 0x1_0000_0000) as u32) + layout_u32((v / 0x1_0000_0000) as u32)
}

/// The number that eight bytes make, lowest first.
#[verifier::opaque]
pub open spec fn value_u64(b: Seq<u8>) -> u64 {
    (value_u32(b.take(4)) + 0x1_0000_0000 * value_u32(b.skip(4))) as u64
}

/// A year as a number without sign: a year before zero counts down from two
/// to the thirty-second.
pub open spec fn year_bits(year: i32) -> u32 {
    if year >= 0 {
        year as u32
    } else {
        (year + 0x1_0000_0000) as u32
    }
}

/// The year that `bits` stand for.
pub open spec fn bits_year(bits: u32) -> i32 {
    if bits < 0x8000_0000 {
        bits as i32
    } else {
        (bits - 0x1_0000_0000) as i32
    }
}

/// The layout of a text.
#[verifier::opaque]
pub open spec fn layout_text(text: Seq<char>) -> Seq<u8> {
    layout_u64(encode_utf8(text).len() as u64) + encode_utf8(text)
}

/// The layout of a span of time.
#[verifier::opaque]
pub open spec fn layout_duration(d: Duration) -> Seq<u8> {
    layout_u64(d.secs) + layout_u32(d.nanos)
}

/// The layout of a song.
#[verifier::opaque]
pub open spec fn layout_song(song: SongView) -> Seq<u8> {
    layout_text(song.uri) + layout_text(song.title) + layout_u32(song.track) + layout_duration(
        song.duration,
    )
}

/// The layouts of songs, one after another.
pub open spec fn layout_songs(songs: Seq<SongView>) -> Seq<u8>
    decreases songs.len(),
{
    if songs.len() == 0 {
        Seq::empty()
    } else {
        layout_song(songs[0]) + layout_songs(songs.drop_first())
    }
}

/// The layout of an album.
#[verifier::opaque]
pub open spec fn layout_album(album: AlbumView) -> Seq<u8> {
    layout_text(album.artist) + layout_text(album.album) + layout_u32(year_bits(album.date))
        + layout_u64(album.songs.len() as u64) + layout_songs(album.songs)
}

/// The layouts of albums, one after another.
pub open spec fn layout_albums(albums: Seq<AlbumView>) -> Seq<u8>
    decreases albums.len(),
{
    if albums.len() == 0 {
        Seq::empty()
    } else {
        layout_album(albums[0]) + layout_albums(albums.drop_first())
    }
}

/// The layout of a library.
pub open spec fn layout_library(library: MusicDataView) -> Seq<u8> {
    layout_u64(library.albums.len() as u64) + layout_albums(library.albums)
}

/// Reads a number of four bytes from the front of `b`; gives the number and
/// the bytes behind it.
pub open spec fn read_u32(b: Seq<u8>) -> Option<(u32, Seq<u8>)> {
    if b.len() >= 4 {
        Some((value_u32(b.take(4)), b.skip(4)))
    } else {
        None
    }
}

/// Reads a number of eight bytes from the front of `b`.
pub open spec fn read_u64(b: Seq<u8>) -> Option<(u64, Seq<u8>)> {
    if b.len() >= 8 {
        Some((value_u64(b.take(8)), b.skip(8)))
    } else {
        None
    }
}

/// Reads a text from the front of `b`: its bytes must all be there and be
/// well-formed UTF-8.
#[verifier::opaque]
pub open spec fn read_text(b: Seq<u8>) -> Option<(Seq<char>, Seq<u8>)> {
    match read_u64(b) {
        Some((count, rest)) => if count <= rest.len() && valid_utf8(rest.take(count as int)) {
            Some((decode_utf8(rest.take(count as int)), rest.skip(count as int)))
        } else {
            None
        },
        None => None,
    }
}

/// Reads a span of time from the front of `b`. The whole seconds among its
/// nanoseconds are carried into its seconds; there is no span to read where
/// the seconds then pass what eight bytes can count.
#[verifier::opaque]
pub open spec fn read_duration(b: Seq<u8>) -> Option<(Duration, Seq<u8>)> {
    match read_u64(b) {
        Some((secs, rest)) => match read_u32(rest) {
            Some((nanos, rest)) => if secs + nanos / NANOS_PER_SEC <= u64::MAX {
                Some(
                    (
                        Duration {
                            secs: (secs + nanos / NANOS_PER_SEC) as u64,
                            nanos: nanos % NANOS_PER_SEC,
                        },
                        rest,
                    ),
                )
            } else {
                None
            },
            None => None,
        },
        None => None,
    }
}

/// Reads a song from the front of `b`.
#[verifier::opaque]
pub open spec fn read_song(b: Seq<u8>) -> Option<(SongView, Seq<u8>)> {
    match read_text(b) {
        Some((uri, rest)) => match read_text(rest) {
            Some((title, rest)) => match read_u32(rest) {
                Some((track, rest)) => match read_duration(rest) {
                    Some((duration, rest)) => Some(
                        (SongView { uri, title, track, duration }, rest),
                    ),
                    None => None,
                },
                None => None,
            },
            None => None,
        },
        None => None,
    }
}

/// Reads `count` songs from the front of `b`.
pub open spec fn read_songs(b: Seq<u8>, count: nat) -> Option<(Seq<SongView>, Seq<u8>)>
    decreases count,
{
    if count == 0 {
        Some((Seq::empty(), b))
    } else {
        match read_song(b) {
            Some((song, rest)) => match read_songs(rest, (count - 1) as nat) {
                Some((songs, rest)) => Some((seq![song] + songs, rest)),
                None => None,
            },
            None => None,
        }
    }
}

/// Reads an album from the front of `b`.
#[verifier::opaque]
pub open spec fn read_album(b: Seq<u8>) -> Option<(AlbumView, Seq<u8>)> {
    match read_text(b) {
        Some((artist, rest)) => match read_text(rest) {
            Some((album, rest)) => match read_u32(rest) {
                Some((bits, rest)) => match read_u64(rest) {
                    Some((count, rest)) => match read_songs(rest, count as nat) {
                        Some((songs, rest)) => Some(
                            (AlbumView { artist, album, date: bits_year(bits), songs }, rest),
                        ),
                        None => None,
                    },
                    None => None,
                },
                None => None,
            },
            None => None,
        },
        None => None,
    }
}

/// Reads `count` albums from the front of `b`.
pub open spec fn read_albums(b: Seq<u8>, count: nat) -> Option<(Seq<AlbumView>, Seq<u8>)>
    decreases count,
{
    if count == 0 {
        Some((Seq::empty(), b))
    } else {
        match read_album(b) {
            Some((album, rest)) => match read_albums(rest, (count - 1) as nat) {
                Some((albums, rest)) => Some((seq![album] + albums, rest)),
                None => None,
            },
            None => None,
        }
    }
}

/// Reads a library from the front of `b`. What stands behind it is not
/// looked at.
pub open spec fn read_library(b: Seq<u8>) -> Option<MusicDataView> {
    match read_u64(b) {
        Some((count, rest)) => match read_albums(rest, count as nat) {
            Some((albums, _)) => Some(MusicDataView { albums }),
            None => None,
        },
        None => None,
    }
}

/// The text has a layout: its bytes can be counted in eight bytes.
pub open spec fn text_fits(text: Seq<char>) -> bool {
    encode_utf8(text).len() <= u64::MAX
}

impl SongView {
    /// The texts of the song are not too long to be counted.
    pub open spec fn fits(self) -> bool {
        text_fits(self.uri) && text_fits(self.title)
    }

    /// The song has a layout from which it can be read again.
    pub open spec fn storable(self) -> bool {
        self.fits() && self.duration.wf()
    }
}

impl AlbumView {
    /// The texts and the songs of the album are not too long to be counted.
    pub open spec fn fits(self) -> bool {
        &&& text_fits(self.artist)
        &&& text_fits(self.album)
        &&& self.songs.len() <= u64::MAX
        &&& forall|i: int| 0 <= i < self.songs.len() ==> (#[trigger] self.songs[i]).fits()
    }

    /// No song holds a second or more in the nanoseconds of its length.
    pub open spec fn timed(self) -> bool {
        forall|i: int| 0 <= i < self.songs.len() ==> (#[trigger] self.songs[i]).duration.wf()
    }

    /// The album has a layout from which it can be read again.
    pub open spec fn storable(self) -> bool {
        &&& text_fits(self.artist)
        &&& text_fits(self.album)
        &&& self.songs.len() <= u64::MAX
        &&& forall|i: int| 0 <= i < self.songs.len() ==> (#[trigger] self.songs[i]).storable()
    }
}

impl MusicDataView {
    /// The texts, songs and albums of the library are not too long to be
    /// counted. This holds of every library that the machine holds.
    pub open spec fn fits(self) -> bool {
        &&& self.albums.len() <= u64::MAX
        &&& forall|i: int| 0 <= i < self.albums.len() ==> (#[trigger] self.albums[i]).fits()
    }

    /// No song holds a second or more in the nanoseconds of its length.
    pub open spec fn timed(self) -> bool {
        forall|i: int| 0 <= i < self.albums.len() ==> (#[trigger] self.albums[i]).timed()
    }

    /// The library has a layout from which it can be read again: its texts
    /// and runs are not too long to be counted, and no span of time holds a
    /// second or more in its nanoseconds.
    pub open spec fn storable(self) -> bool {
        &&& self.albums.len() <= u64::MAX
        &&& forall|i: int| 0 <= i < self.albums.len() ==> (#[trigger] self.albums[i]).storable()
    }
}

/// A library can be stored and read again as soon as its spans of time are
/// well-formed and its parts can be counted.
pub proof fn lemma_storable(library: MusicDataView)
    ensures
        library.storable() <==> library.fits() && library.timed(),
{
    if library.fits() && library.timed() {
        assert forall|i: int| 0 <= i < library.albums.len() implies (
        #[trigger] library.albums[i]).storable() by {
            let album = library.albums[i];
            assert(album.fits() && album.timed());
            assert forall|j: int| 0 <= j < album.songs.len() implies (
            #[trigger] album.songs[j]).storable() by {
                assert(album.songs[j].fits());
                assert(album.songs[j].duration.wf());
            }
        }
    }
    if library.storable() {
        assert forall|i: int| 0 <= i < library.albums.len() implies (
        #[trigger] library.albums[i]).fits() && library.albums[i].timed() by {
            let album = library.albums[i];
            assert(album.storable());
            assert forall|j: int| 0 <= j < album.songs.len() implies (
            #[trigger] album.songs[j]).fits() && album.songs[j].duration.wf() by {
                assert(album.songs[j].storable());
            }
        }
    }
}

/// A number of four bytes is read back from its layout.
pub proof fn lemma_read_u32(v: u32, tail: Seq<u8>)
    ensures
        layout_u32(v).len() == 4,
        read_u32(layout_u32(v) + tail) == Some((v, tail)),
{
    reveal(layout_u32);
    reveal(value_u32);
    let b = layout_u32(v) + tail;
    assert(b.take(4) =~= layout_u32(v));
    assert(b.skip(4) =~= tail);
}

/// A number of eight bytes is read back from its layout.
pub proof fn lemma_read_u64(v: u64, tail: Seq<u8>)
    ensures
        layout_u64(v).len() == 8,
        read_u64(layout_u64(v) + tail) == Some((v, tail)),
{
    reveal(layout_u64);
    reveal(value_u64);
    let b = layout_u64(v) + tail;
    let low = (v % 0x1_0000_0000) as u32;
    let high = (v / 0x1_0000_0000) as u32;
    lemma_read_u32(low, Seq::empty());
    lemma_read_u32(high, Seq::empty());
    assert(layout_u32(low) + Seq::<u8>::empty() =~= layout_u32(low));
    assert(layout_u32(high) + Seq::<u8>::empty() =~= layout_u32(high));
    assert(layout_u32(low).take(4) =~= layout_u32(low));
    assert(layout_u32(high).take(4) =~= layout_u32(high));
    assert(b.take(8) =~= layout_u64(v));
    assert(b.skip(8) =~= tail);
    assert(layout_u64(v).take(4) =~= layout_u32(low));
    assert(layout_u64(v).skip(4) =~= layout_u32(high));
}

/// A year is read back from its bits.
pub proof fn lemma_year_bits(year: i32)
    ensures
        bits_year(year_bits(year)) == year,
{
}

/// A text is read back from its layout.
pub proof fn lemma_read_text(text: Seq<char>, tail: Seq<u8>)
    requires
        text_fits(text),
    ensures
        read_text(layout_text(text) + tail) == Some((text, tail)),
{
    reveal(layout_text);
    reveal(read_text);
    let bytes = encode_utf8(text);
    let count = bytes.len() as u64;
    lemma_read_u64(count, bytes + tail);
    assert(layout_text(text) + tail =~= layout_u64(count) + (bytes + tail));
    assert((bytes + tail).take(count as int) =~= bytes);
    assert((bytes + tail).skip(count as int) =~= tail);
    vstd::utf8::encode_utf8_valid_utf8(text);
    vstd::utf8::encode_utf8_decode_utf8(text);
}

/// A span of time is read back from its layout.
pub proof fn lemma_read_duration(d: Duration, tail: Seq<u8>)
    requires
        d.wf(),
    ensures
        read_duration(layout_duration(d) + tail) == Some((d, tail)),
{
    reveal(layout_duration);
    reveal(read_duration);
    lemma_read_u64(d.secs, layout_u32(d.nanos) + tail);
    lemma_read_u32(d.nanos, tail);
    assert(layout_duration(d) + tail =~= layout_u64(d.secs) + (layout_u32(d.nanos) + tail));
}

/// A song is read back from its layout.
pub proof fn lemma_read_song(song: SongView, tail: Seq<u8>)
    requires
        song.storable(),
    ensures
        read_song(layout_song(song) + tail) == Some((song, tail)),
{
    reveal(layout_song);
    reveal(read_song);
    let after_track = layout_duration(song.duration) + tail;
    let after_title = layout_u32(song.track) + after_track;
    let after_uri = layout_text(song.title) + after_title;
    assert(layout_song(song) + tail =~= layout_text(song.uri) + after_uri);
    lemma_read_text(song.uri, after_uri);
    lemma_read_text(song.title, after_title);
    lemma_read_u32(song.track, after_track);
    lemma_read_duration(song.duration, tail);
}

/// Songs are read back from their layouts.
pub proof fn lemma_read_songs(songs: Seq<SongView>, tail: Seq<u8>)
    requires
        forall|i: int| 0 <= i < songs.len() ==> (#[trigger] songs[i]).storable(),
    ensures
        read_songs(layout_songs(songs) + tail, songs.len()) == Some((songs, tail)),
    decreases songs.len(),
{
    if songs.len() == 0 {
        assert(layout_songs(songs) + tail =~= tail);
    } else {
        let rest = songs.drop_first();
        assert forall|i: int| 0 <= i < rest.len() implies (#[trigger] rest[i]).storable() by {
            assert(rest[i] == songs[i + 1]);
        }
        lemma_read_song(songs[0], layout_songs(rest) + tail);
        lemma_read_songs(rest, tail);
        assert(layout_songs(songs) + tail =~= layout_song(songs[0]) + (layout_songs(rest) + tail));
        assert(seq![songs[0]] + rest =~= songs);
    }
}

/// An album is read back from its layout.
pub proof fn lemma_read_album(album: AlbumView, tail: Seq<u8>)
    requires
        album.storable(),
    ensures
        read_album(layout_album(album) + tail) == Some((album, tail)),
{
    reveal(layout_album);
    reveal(read_album);
    let count = album.songs.len() as u64;
    let after_count = layout_songs(album.songs) + tail;
    let after_date = layout_u64(count) + after_count;
    let after_title = layout_u32(year_bits(album.date)) + after_date;
    let after_artist = layout_text(album.album) + after_title;
    assert(layout_album(album) + tail =~= layout_text(album.artist) + after_artist);
    lemma_read_text(album.artist, after_artist);
    lemma_read_text(album.album, after_title);
    lemma_read_u32(year_bits(album.date), after_date);
    lemma_year_bits(album.date);
    lemma_read_u64(count, after_count);
    lemma_read_songs(album.songs, tail);
}

/// Albums are read back from their layouts.
pub proof fn lemma_read_albums(albums: Seq<AlbumView>, tail: Seq<u8>)
    requires
        forall|i: int| 0 <= i < albums.len() ==> (#[trigger] albums[i]).storable(),
    ensures
        read_albums(layout_albums(albums) + tail, albums.len()) == Some((albums, tail)),
    decreases albums.len(),
{
    if albums.len() == 0 {
        assert(layout_albums(albums) + tail =~= tail);
    } else {
        let rest = albums.drop_first();
        assert forall|i: int| 0 <= i < rest.len() implies (#[trigger] rest[i]).storable() by {
            assert(rest[i] == albums[i + 1]);
        }
        lemma_read_album(albums[0], layout_albums(rest) + tail);
        lemma_read_albums(rest, tail);
        assert(layout_albums(albums) + tail =~= layout_album(albums[0]) + (layout_albums(rest)
            + tail));
        assert(seq![albums[0]] + rest =~= albums);
    }
}

/// The round trip: a library is read back from its layout as it was, field
/// for field, whatever stands behind the layout. This holds as well of a
/// library without albums and of albums without songs.
pub proof fn lemma_round_trip(library: MusicDataView, tail: Seq<u8>)
    requires
        library.storable(),
    ensures
        read_library(layout_library(library) + tail) == Some(library),
{
    let count = library.albums.len() as u64;
    lemma_read_u64(count, layout_albums(library.albums) + tail);
    lemma_read_albums(library.albums, tail);
    assert(layout_library(library) + tail =~= layout_u64(count) + (layout_albums(library.albums)
        + tail));
}

/// Writes a number of four bytes.
fn put_u32(out: &mut Vec<u8>, v: u32)
    ensures
        final(out)@ == old(out)@ + layout_u32(v),
{
    out.push((v % 256) as u8);
    out.push((v / 256 % 256) as u8);
    out.push((v / 65536 % 256) as u8);
    out.push((v / 16777216) as u8);
    proof {
        reveal(layout_u32);
        assert(out@ =~= old(out)@ + layout_u32(v));
    }
}

/// Writes a number of eight bytes.
fn put_u64(out: &mut Vec<u8>, v: u64)
    ensures
        final(out)@ == old(out)@ + layout_u64(v),
{
    put_u32(out, (v % 0x1_0000_0000) as u32);
    put_u32(out, (v / 0x1_0000_0000) as u32);
    proof {
        reveal(layout_u64);
        assert(out@ =~= old(out)@ + layout_u64(v));
    }
}

/// Writes bytes as they are.
fn put_bytes(out: &mut Vec<u8>, bytes: &[u8])
    ensures
        final(out)@ == old(out)@ + bytes@,
{
    let mut i: usize = 0;
    while i < bytes.len()
        invariant
            i <= bytes.len(),
            out@ == old(out)@ + bytes@.take(i as int),
        decreases bytes.len() - i,
    {
        out.push(bytes[i]);
        i = i + 1;
        proof {
            assert(out@ =~= old(out)@ + bytes@.take(i as int));
        }
    }
    proof {
        assert(bytes@.take(bytes.len() as int) =~= bytes@);
    }
}

/// Writes a text.
fn put_text(out: &mut Vec<u8>, text: &str)
    ensures
        final(out)@ == old(out)@ + layout_text(text@),
        text_fits(text@),
{
    let bytes = text.as_bytes();
    put_u64(out, bytes.len() as u64);
    put_bytes(out, bytes);
    proof {
        reveal(layout_text);
        assert(out@ =~= old(out)@ + layout_text(text@));
    }
}

/// Writes a span of time.
fn put_duration(out: &mut Vec<u8>, d: Duration)
    ensures
        final(out)@ == old(out)@ + layout_duration(d),
{
    put_u64(out, d.secs);
    put_u32(out, d.nanos);
    proof {
        reveal(layout_duration);
        assert(out@ =~= old(out)@ + layout_duration(d));
    }
}

/// Writes a song.
fn put_song(out: &mut Vec<u8>, song: &Song)
    ensures
        final(out)@ == old(out)@ + layout_song(song@),
        song@.fits(),
{
    put_text(out, song.uri.as_str());
    put_text(out, song.title.as_str());
    put_u32(out, song.track);
    put_duration(out, song.duration);
    proof {
        reveal(layout_song);
        assert(out@ =~= old(out)@ + layout_song(song@));
    }
}

/// A run of songs is laid out as its first songs and then its last.
proof fn lemma_layout_songs_push(songs: Seq<SongView>, song: SongView)
    ensures
        layout_songs(songs.push(song)) == layout_songs(songs) + layout_song(song),
    decreases songs.len(),
{
    let all = songs.push(song);
    if songs.len() == 0 {
        assert(all[0] == song);
        assert(all.drop_first() =~= Seq::<SongView>::empty());
        assert(layout_songs(all.drop_first()) =~= Seq::<u8>::empty());
        assert(layout_songs(songs) =~= Seq::<u8>::empty());
        assert(layout_songs(all) =~= layout_songs(songs) + layout_song(song));
    } else {
        lemma_layout_songs_push(songs.drop_first(), song);
        assert(songs.push(song).drop_first() =~= songs.drop_first().push(song));
        assert(layout_songs(songs.push(song)) =~= layout_songs(songs) + layout_song(song));
    }
}

/// A run of albums is laid out as its first albums and then its last.
proof fn lemma_layout_albums_push(albums: Seq<AlbumView>, album: AlbumView)
    ensures
        layout_albums(albums.push(album)) == layout_albums(albums) + layout_album(album),
    decreases albums.len(),
{
    let all = albums.push(album);
    if albums.len() == 0 {
        assert(all[0] == album);
        assert(all.drop_first() =~= Seq::<AlbumView>::empty());
        assert(layout_albums(all.drop_first()) =~= Seq::<u8>::empty());
        assert(layout_albums(albums) =~= Seq::<u8>::empty());
        assert(layout_albums(all) =~= layout_albums(albums) + layout_album(album));
    } else {
        lemma_layout_albums_push(albums.drop_first(), album);
        assert(albums.push(album).drop_first() =~= albums.drop_first().push(album));
        assert(layout_albums(albums.push(album)) =~= layout_albums(albums) + layout_album(album));
    }
}

/// A year as the number that is stored for it.
fn bits_of_year(year: i32) -> (r: u32)
    ensures
        r == year_bits(year),
{
    if year >= 0 {
        year as u32
    } else {
        (year as i64 + 0x1_0000_0000) as u32
    }
}

/// Writes an album.
fn put_album(out: &mut Vec<u8>, album: &Album)
    ensures
        final(out)@ == old(out)@ + layout_album(album@),
        album@.fits(),
{
    put_text(out, album.artist.as_str());
    put_text(out, album.album.as_str());
    put_u32(out, bits_of_year(album.date));
    put_u64(out, album.songs.len() as u64);
    let ghost head = out@;
    let ghost songs = song_views(album.songs@);
    let mut i: usize = 0;
    proof {
        assert(out@ =~= head + layout_songs(songs.take(0)));
    }
    while i < album.songs.len()
        invariant
            i <= album.songs.len(),
            songs == song_views(album.songs@),
            out@ == head + layout_songs(songs.take(i as int)),
            forall|j: int| 0 <= j < i ==> (#[trigger] songs[j]).fits(),
        decreases album.songs.len() - i,
    {
        put_song(out, &album.songs[i]);
        proof {
            lemma_layout_songs_push(songs.take(i as int), songs[i as int]);
            assert(songs.take(i + 1) =~= songs.take(i as int).push(songs[i as int]));
            assert(out@ =~= head + layout_songs(songs.take(i + 1)));
        }
        i = i + 1;
    }
    proof {
        reveal(layout_album);
        assert(songs.take(album.songs.len() as int) =~= songs);
        assert(out@ =~= old(out)@ + layout_album(album@));
    }
}

/// Reads a number of four bytes at `pos`; gives the number and the place
/// behind it.
fn get_u32(bytes: &[u8], pos: usize) -> (r: Option<(u32, usize)>)
    requires
        pos <= bytes.len(),
    ensures
        match r {
            Some((v, next)) => pos <= next <= bytes.len() && read_u32(bytes@.skip(pos as int))
                == Some((v, bytes@.skip(next as int))),
            None => read_u32(bytes@.skip(pos as int)) is None,
        },
{
    if bytes.len() - pos < 4 {
        return None;
    }
    let b0 = bytes[pos] as u32;
    let b1 = bytes[pos + 1] as u32;
    let b2 = bytes[pos + 2] as u32;
    let b3 = bytes[pos + 3] as u32;
    let v = b0 + 256 * b1 + 65536 * b2 + 16777216 * b3;
    proof {
        reveal(value_u32);
        let b = bytes@.skip(pos as int);
        assert(b.take(4)[0] == bytes@[pos as int]);
        assert(b.take(4)[1] == bytes@[pos + 1]);
        assert(b.take(4)[2] == bytes@[pos + 2]);
        assert(b.take(4)[3] == bytes@[pos + 3]);
        assert(b.skip(4) =~= bytes@.skip(pos + 4));
    }
    Some((v, pos + 4))
}

/// Reads a number of eight bytes at `pos`.
fn get_u64(bytes: &[u8], pos: usize) -> (r: Option<(u64, usize)>)
    requires
        pos <= bytes.len(),
    ensures
        match r {
            Some((v, next)) => pos <= next <= bytes.len() && read_u64(bytes@.skip(pos as int))
                == Some((v, bytes@.skip(next as int))),
            None => read_u64(bytes@.skip(pos as int)) is None,
        },
{
    let ghost b = bytes@.skip(pos as int);
    match get_u32(bytes, pos) {
        Some((low, mid)) => match get_u32(bytes, mid) {
            Some((high, next)) => {
                proof {
                    reveal(value_u64);
                    assert(b.skip(4) =~= bytes@.skip(mid as int));
                    assert(b.take(8).take(4) =~= b.take(4));
                    assert(b.take(8).skip(4) =~= b.skip(4).take(4));
                    assert(b.skip(8) =~= bytes@.skip(next as int));
                }
                Some((low as u64 + 0x1_0000_0000 * (high as u64), next))
            },
            None => {
                proof {
                    assert(b.skip(4) =~= bytes@.skip(mid as int));
                }
                None
            },
        },
        None => None,
    }
}

/// Reads a text at `pos`.
fn get_text(bytes: &[u8], pos: usize) -> (r: Option<(String, usize)>)
    requires
        pos <= bytes.len(),
    ensures
        match r {
            Some((text, next)) => pos <= next <= bytes.len() && text_fits(text@) && read_text(
                bytes@.skip(pos as int),
            ) == Some((text@, bytes@.skip(next as int))),
            None => read_text(bytes@.skip(pos as int)) is None,
        },
{
    proof {
        reveal(read_text);
    }
    match get_u64(bytes, pos) {
        Some((count, start)) => {
            if count > (bytes.len() - start) as u64 {
                return None;
            }
            let end = start + count as usize;
            let raw = slice_to_vec(slice_subrange(bytes, start, end));
            proof {
                let rest = bytes@.skip(start as int);
                assert(rest.take(count as int) =~= raw@);
                assert(rest.skip(count as int) =~= bytes@.skip(end as int));
                if valid_utf8(raw@) {
                    vstd::utf8::decode_utf8_encode_utf8(raw@);
                }
            }
            match text_from_utf8(raw) {
                Ok(text) => Some((text, end)),
                Err(_) => None,
            }
        },
        None => None,
    }
}

/// Reads a span of time at `pos`.
fn get_duration(bytes: &[u8], pos: usize) -> (r: Option<(Duration, usize)>)
    requires
        pos <= bytes.len(),
    ensures
        match r {
            Some((d, next)) => pos <= next <= bytes.len() && d.wf() && read_duration(
                bytes@.skip(pos as int),
            ) == Some((d, bytes@.skip(next as int))),
            None => read_duration(bytes@.skip(pos as int)) is None,
        },
{
    proof {
        reveal(read_duration);
    }
    match get_u64(bytes, pos) {
        Some((secs, mid)) => match get_u32(bytes, mid) {
            Some((nanos, next)) => {
                let carry = (nanos / NANOS_PER_SEC) as u64;
                if secs <= u64::MAX - carry {
                    Some((Duration { secs: secs + carry, nanos: nanos % NANOS_PER_SEC }, next))
                } else {
                    None
                }
            },
            None => None,
        },
        None => None,
    }
}

/// Reads a song at `pos`.
fn get_song(bytes: &[u8], pos: usize) -> (r: Option<(Song, usize)>)
    requires
        pos <= bytes.len(),
    ensures
        match r {
            Some((song, next)) => pos <= next <= bytes.len() && song@.storable() && read_song(
                bytes@.skip(pos as int),
            ) == Some((song@, bytes@.skip(next as int))),
            None => read_song(bytes@.skip(pos as int)) is None,
        },
{
    proof {
        reveal(read_song);
    }
    let (uri, pos) = match get_text(bytes, pos) {
        Some(found) => found,
        None => {
            return None;
        },
    };
    let (title, pos) = match get_text(bytes, pos) {
        Some(found) => found,
        None => {
            return None;
        },
    };
    let (track, pos) = match get_u32(bytes, pos) {
        Some(found) => found,
        None => {
            return None;
        },
    };
    let (duration, pos) = match get_duration(bytes, pos) {
        Some(found) => found,
        None => {
            return None;
        },
    };
    Some((Song { uri, title, track, duration }, pos))
}

/// What reading `count` songs from `b` gives once `done` have been read
/// before them.
spec fn songs_after(done: Seq<SongView>, b: Seq<u8>, count: nat) -> Option<
    (Seq<SongView>, Seq<u8>),
> {
    match read_songs(b, count) {
        Some((songs, rest)) => Some((done + songs, rest)),
        None => None,
    }
}

/// What reading `count` albums from `b` gives once `done` have been read
/// before them.
spec fn albums_after(done: Seq<AlbumView>, b: Seq<u8>, count: nat) -> Option<
    (Seq<AlbumView>, Seq<u8>),
> {
    match read_albums(b, count) {
        Some((albums, rest)) => Some((done + albums, rest)),
        None => None,
    }
}

/// Reads `count` songs at `pos`.
fn get_songs(bytes: &[u8], pos: usize, count: u64) -> (r: Option<(Vec<Song>, usize)>)
    requires
        pos <= bytes.len(),
    ensures
        match r {
            Some((songs, next)) => {
                &&& pos <= next <= bytes.len()
                &&& songs@.len() == count
                &&& forall|j: int|
                    0 <= j < songs@.len() ==> (#[trigger] song_views(songs@)[j]).storable()
                &&& read_songs(bytes@.skip(pos as int), count as nat) == Some(
                    (song_views(songs@), bytes@.skip(next as int)),
                )
            },
            None => read_songs(bytes@.skip(pos as int), count as nat) is None,
        },
{
    let mut songs: Vec<Song> = Vec::new();
    let mut at = pos;
    let mut i: u64 = 0;
    let ghost whole = read_songs(bytes@.skip(pos as int), count as nat);
    proof {
        match whole {
            Some((all, _)) => {
                assert(Seq::<SongView>::empty() + all =~= all);
            },
            None => {},
        }
    }
    while i < count
        invariant
            i <= count,
            pos <= at <= bytes.len(),
            whole == read_songs(bytes@.skip(pos as int), count as nat),
            whole == songs_after(song_views(songs@), bytes@.skip(at as int), (count - i) as nat),
            songs@.len() == i,
            forall|j: int| 0 <= j < songs@.len() ==> (#[trigger] song_views(songs@)[j]).storable(),
        decreases count - i,
    {
        let ghost done = song_views(songs@);
        match get_song(bytes, at) {
            Some((song, next)) => {
                proof {
                    match read_songs(bytes@.skip(next as int), (count - i - 1) as nat) {
                        Some((later, _)) => {
                            assert(done.push(song@) + later =~= done + (seq![song@] + later));
                        },
                        None => {},
                    }
                }
                songs.push(song);
                proof {
                    assert(song_views(songs@) =~= done.push(song@));
                }
                at = next;
                i = i + 1;
            },
            None => {
                return None;
            },
        }
    }
    proof {
        assert(song_views(songs@) + Seq::<SongView>::empty() =~= song_views(songs@));
    }
    Some((songs, at))
}

/// Reads an album at `pos`.
fn get_album(bytes: &[u8], pos: usize) -> (r: Option<(Album, usize)>)
    requires
        pos <= bytes.len(),
    ensures
        match r {
            Some((album, next)) => pos <= next <= bytes.len() && album@.storable() && read_album(
                bytes@.skip(pos as int),
            ) == Some((album@, bytes@.skip(next as int))),
            None => read_album(bytes@.skip(pos as int)) is None,
        },
{
    proof {
        reveal(read_album);
    }
    let (artist, pos) = match get_text(bytes, pos) {
        Some(found) => found,
        None => {
            return None;
        },
    };
    let (album, pos) = match get_text(bytes, pos) {
        Some(found) => found,
        None => {
            return None;
        },
    };
    let (bits, pos) = match get_u32(bytes, pos) {
        Some(found) => found,
        None => {
            return None;
        },
    };
    let (count, pos) = match get_u64(bytes, pos) {
        Some(found) => found,
        None => {
            return None;
        },
    };
    let (songs, pos) = match get_songs(bytes, pos, count) {
        Some(found) => found,
        None => {
            return None;
        },
    };
    let date: i32 = if bits < 0x8000_0000 {
        bits as i32
    } else {
        (bits as i64 - 0x1_0000_0000) as i32
    };
    Some((Album { artist, album, date, songs }, pos))
}

impl MusicData {
    /// Lays the library out for storing. What is laid out is read back as
    /// it was, provided that no span of time in it holds a second or more in
    /// its nanoseconds.
    pub fn save_cache(&self) -> (r: Vec<u8>)
        ensures
            r@ == layout_library(self@),
            self@.fits(),
            self@.timed() ==> read_library(r@) == Some(self@),
    {
        let mut out: Vec<u8> = Vec::new();
        put_u64(&mut out, self.albums.len() as u64);
        let ghost head = out@;
        let ghost albums = album_views(self.albums@);
        let mut i: usize = 0;
        proof {
            assert(out@ =~= head + layout_albums(albums.take(0)));
        }
        while i < self.albums.len()
            invariant
                i <= self.albums.len(),
                albums == album_views(self.albums@),
                head == layout_u64(self.albums.len() as u64),
                out@ == head + layout_albums(albums.take(i as int)),
                forall|j: int| 0 <= j < i ==> (#[trigger] albums[j]).fits(),
            decreases self.albums.len() - i,
        {
            put_album(&mut out, &self.albums[i]);
            proof {
                lemma_layout_albums_push(albums.take(i as int), albums[i as int]);
                assert(albums.take(i + 1) =~= albums.take(i as int).push(albums[i as int]));
                assert(out@ =~= head + layout_albums(albums.take(i + 1)));
            }
            i = i + 1;
        }
        proof {
            assert(albums.take(self.albums.len() as int) =~= albums);
            assert(self@.fits());
            if self@.timed() {
                lemma_storable(self@);
                lemma_round_trip(self@, Seq::empty());
                assert(out@ + Seq::<u8>::empty() =~= out@);
            }
        }
        out
    }

    /// Reads a library from its layout. There is none to read where the
    /// bytes end too early, a text is not well-formed UTF-8, or the seconds
    /// of a span of time pass what eight bytes can count once the whole
    /// seconds among its nanoseconds are carried into them; bytes behind the
    /// library are not looked at.
    pub fn from_cache(bytes: &[u8]) -> (r: Option<MusicData>)
        ensures
            match r {
                Some(library) => read_library(bytes@) == Some(library@) && library@.storable(),
                None => read_library(bytes@) is None,
            },
    {
        proof {
            assert(bytes@.skip(0) =~= bytes@);
        }
        let (count, start) = match get_u64(bytes, 0) {
            Some(found) => found,
            None => {
                return None;
            },
        };
        let mut albums: Vec<Album> = Vec::new();
        let mut at = start;
        let mut i: u64 = 0;
        let ghost whole = read_albums(bytes@.skip(start as int), count as nat);
        proof {
            match whole {
                Some((all, _)) => {
                    assert(Seq::<AlbumView>::empty() + all =~= all);
                },
                None => {},
            }
            assert(album_views(albums@) =~= Seq::<AlbumView>::empty());
        }
        while i < count
            invariant
                i <= count,
                start <= at <= bytes.len(),
                read_u64(bytes@) == Some((count, bytes@.skip(start as int))),
                whole == read_albums(bytes@.skip(start as int), count as nat),
                whole == albums_after(
                    album_views(albums@),
                    bytes@.skip(at as int),
                    (count - i) as nat,
                ),
                albums@.len() == i,
                forall|j: int|
                    0 <= j < albums@.len() ==> (#[trigger] album_views(albums@)[j]).storable(),
            decreases count - i,
        {
            let ghost done = album_views(albums@);
            match get_album(bytes, at) {
                Some((album, next)) => {
                    proof {
                        match read_albums(bytes@.skip(next as int), (count - i - 1) as nat) {
                            Some((later, _)) => {
                                assert(done.push(album@) + later =~= done + (seq![album@] + later));
                            },
                            None => {},
                        }
                    }
                    albums.push(album);
                    proof {
                        assert(album_views(albums@) =~= done.push(album@));
                    }
                    at = next;
                    i = i + 1;
                },
                None => {
                    return None;
                },
            }
        }
        proof {
            assert(album_views(albums@) + Seq::<AlbumView>::empty() =~= album_views(albums@));
        }
        Some(MusicData { albums })
    }
}

} // verus!
