//! Building the library: songs that follow one another with the same album
//! title become one album.

use crate::model::{
    album_views, song_views, Album, AlbumView, MusicData, MusicDataView, Song, SongView,
};
use crate::state::{first_where, lemma_first_where, lemma_first_where_is};
use crate::tags::{entry_of, RawMusicEntry, RawMusicEntryView, TaggedSong, TaggedSongView};
use vstd::prelude::*;

verus! {

/// The song that a record describes.
pub open spec fn song_of(entry: RawMusicEntryView) -> SongView {
    SongView { uri: entry.uri, title: entry.title, track: entry.track, duration: entry.duration }
}

/// The album that a record opens: it takes artist, title and year from the
/// record, and holds the record's song.
pub open spec fn album_of(entry: RawMusicEntryView) -> AlbumView {
    AlbumView {
        artist: entry.artist,
        album: entry.album,
        date: entry.date,
        songs: seq![song_of(entry)],
    }
}

/// `albums` with one more record: its song joins the last album where the
/// album titles agree, and opens a new album behind it where they do not.
pub open spec fn with_entry(albums: Seq<AlbumView>, entry: RawMusicEntryView) -> Seq<AlbumView> {
    if albums.len() > 0 && albums.last().album == entry.album {
        albums.drop_last().push(
            AlbumView { songs: albums.last().songs.push(song_of(entry)), ..albums.last() },
        )
    } else {
        albums.push(album_of(entry))
    }
}

/// The albums that a run of records makes, in the order in which the records
/// open them.
pub open spec fn grouped(entries: Seq<RawMusicEntryView>) -> Seq<AlbumView>
    decreases entries.len(),
{
    if entries.len() == 0 {
        Seq::empty()
    } else {
        with_entry(grouped(entries.drop_last()), entries.last())
    }
}

/// What a run of records holds.
pub open spec fn entry_views(entries: Seq<RawMusicEntry>) -> Seq<RawMusicEntryView> {
    entries.map_values(|e: RawMusicEntry| e@)
}

/// What a run of reported songs holds.
pub open spec fn tagged_views(songs: Seq<TaggedSong>) -> Seq<TaggedSongView> {
    songs.map_values(|s: TaggedSong| s@)
}

/// The library that the daemon's songs make: their records, grouped into
/// albums and sorted.
pub open spec fn library_of(songs: Seq<TaggedSongView>) -> MusicDataView {
    (MusicDataView { albums: grouped(songs.map_values(|s: TaggedSongView| entry_of(s))) }).sorted()
}

/// What has been built so far: the finished albums, and the one that is
/// still open.
pub open spec fn built(albums: Seq<AlbumView>, open: Option<AlbumView>) -> Seq<AlbumView> {
    match open {
        Some(album) => albums.push(album),
        None => albums,
    }
}

impl MusicData {
    /// Groups records into albums. A record joins the album of the record
    /// before it where the two name the same album, and opens a new album
    /// where they do not; nothing is sorted.
    pub fn from_raw(entries: Vec<RawMusicEntry>) -> (r: MusicData)
        ensures
            r@.albums == grouped(entry_views(entries@)),
    {
        let mut albums: Vec<Album> = Vec::new();
        let mut current: Option<Album> = None;
        let ghost all = entry_views(entries@);
        proof {
            assert(album_views(albums@) =~= Seq::<AlbumView>::empty());
        }
        for entry in it: entries
            invariant
                it.seq() == entries@,
                all == entry_views(entries@),
                current is None ==> albums@.len() == 0,
                built(
                    album_views(albums@),
                    match current {
                        Some(album) => Some(album@),
                        None => None,
                    },
                ) == grouped(all.take(it.index() as int)),
        {
            let ghost before = album_views(albums@);
            proof {
                let n = it.index() as int;
                assert(all.take(n + 1).drop_last() =~= all.take(n));
                assert(all.take(n + 1).last() == entry@);
            }
            let song = Song {
                uri: entry.uri,
                title: entry.title,
                track: entry.track,
                duration: entry.duration,
            };
            assert(song@ == song_of(entry@));
            match current {
                Some(mut album) => {
                    let ghost open = album@;
                    assert(before.push(open).drop_last() =~= before);
                    if album.album == entry.album {
                        album.songs.push(song);
                        assert(song_views(album.songs@) =~= open.songs.push(song@));
                        current = Some(album);
                    } else {
                        albums.push(album);
                        assert(album_views(albums@) =~= before.push(open));
                        let mut songs: Vec<Song> = Vec::new();
                        songs.push(song);
                        assert(song_views(songs@) =~= seq![song@]);
                        current = Some(
                            Album {
                                artist: entry.artist,
                                album: entry.album,
                                date: entry.date,
                                songs,
                            },
                        );
                    }
                },
                None => {
                    let mut songs: Vec<Song> = Vec::new();
                    songs.push(song);
                    assert(song_views(songs@) =~= seq![song@]);
                    current = Some(
                        Album {
                            artist: entry.artist,
                            album: entry.album,
                            date: entry.date,
                            songs,
                        },
                    );
                },
            }
        }
        proof {
            assert(all.take(entries@.len() as int) =~= all);
        }
        match current {
            Some(album) => {
                let ghost before = album_views(albums@);
                albums.push(album);
                assert(album_views(albums@) =~= before.push(album@));
            },
            None => {},
        }
        MusicData { albums }
    }

    /// Builds the library from the songs that the daemon reports: reads each
    /// song's record from its tags, groups the records into albums, and sorts.
    pub fn new(songs: Vec<TaggedSong>) -> (r: MusicData)
        ensures
            r@ == library_of(tagged_views(songs@)),
            r@.is_sorted(),
    {
        let mut entries: Vec<RawMusicEntry> = Vec::new();
        let ghost all = tagged_views(songs@);
        proof {
            assert(entry_views(entries@) =~= all.take(0).map_values(
                |s: TaggedSongView| entry_of(s),
            ));
        }
        for song in it: songs
            invariant
                it.seq() == songs@,
                all == tagged_views(songs@),
                entry_views(entries@) == all.take(it.index() as int).map_values(
                    |s: TaggedSongView| entry_of(s),
                ),
        {
            let ghost before = entry_views(entries@);
            let entry = RawMusicEntry::new(song);
            entries.push(entry);
            proof {
                let n = it.index() as int;
                assert(entry_views(entries@) =~= before.push(entry@));
                assert(all.take(n + 1).map_values(|s: TaggedSongView| entry_of(s)) =~= all.take(
                    n,
                ).map_values(|s: TaggedSongView| entry_of(s)).push(entry_of(all[n])));
            }
        }
        proof {
            assert(all.take(songs@.len() as int) =~= all);
        }
        let mut data = MusicData::from_raw(entries);
        data.sort();
        data
    }
}

/// The songs of a run of albums, album after album.
pub open spec fn all_songs(albums: Seq<AlbumView>) -> Seq<SongView> {
    albums.map_values(|a: AlbumView| a.songs).flatten()
}

/// The songs of a run of records, record after record.
pub open spec fn songs_of(entries: Seq<RawMusicEntryView>) -> Seq<SongView> {
    entries.map_values(|e: RawMusicEntryView| song_of(e))
}

/// The test that picks the records of the album `title`.
pub open spec fn names_album(title: Seq<char>) -> spec_fn(RawMusicEntryView) -> bool {
    |e: RawMusicEntryView| e.album == title
}

/// The songs of the records that name the album `title`, in the order of the
/// records.
pub open spec fn songs_named(entries: Seq<RawMusicEntryView>, title: Seq<char>) -> Seq<SongView> {
    songs_of(entries.filter(names_album(title)))
}

/// The album titles that the records name, record after record.
pub open spec fn titles_of(entries: Seq<RawMusicEntryView>) -> Seq<Seq<char>> {
    entries.map_values(|e: RawMusicEntryView| e.album)
}

/// One of `albums` has the title `title`.
pub open spec fn has_title(albums: Seq<AlbumView>, title: Seq<char>) -> bool {
    exists|i: int| 0 <= i < albums.len() && (#[trigger] albums[i]).album == title
}

/// The records of one album stand together: between two records that name
/// the same album, every record names that album.
pub open spec fn is_contiguous(entries: Seq<RawMusicEntryView>) -> bool {
    forall|i: int, j: int, k: int|
        #![trigger entries[i], entries[j], entries[k]]
        0 <= i < j < k < entries.len() && entries[i].album == entries[k].album ==> entries[j].album
            == entries[i].album
}

/// Grouping keeps every song and the order of the songs: the albums, read one
/// after another, give the songs of the records. No album is empty, no two
/// neighbours share a title, and the last album is that of the last record.
pub proof fn lemma_grouped_keeps_songs(entries: Seq<RawMusicEntryView>)
    ensures
        all_songs(grouped(entries)) == songs_of(entries),
        forall|i: int|
            0 <= i < grouped(entries).len() ==> (#[trigger] grouped(entries)[i]).songs.len() > 0,
        forall|i: int|
            0 < i < grouped(entries).len() ==> grouped(entries)[i - 1].album != (#[trigger] grouped(
                entries,
            )[i]).album,
        entries.len() > 0 ==> grouped(entries).len() > 0 && grouped(entries).last().album
            == entries.last().album,
    decreases entries.len(),
{
    broadcast use Seq::lemma_flatten_push;

    let songs = |a: AlbumView| a.songs;
    if entries.len() == 0 {
        assert(all_songs(grouped(entries)) =~= songs_of(entries));
    } else {
        let rest = entries.drop_last();
        let e = entries.last();
        let g = grouped(rest);
        let out = grouped(entries);
        lemma_grouped_keeps_songs(rest);
        assert(songs_of(entries) =~= songs_of(rest).push(song_of(e)));
        if g.len() > 0 && g.last().album == e.album {
            let last = g.last();
            let front = g.drop_last();
            assert(g.map_values(songs) =~= front.map_values(songs).push(last.songs));
            assert(out.map_values(songs) =~= front.map_values(songs).push(
                last.songs.push(song_of(e)),
            ));
            assert(all_songs(out) =~= all_songs(g).push(song_of(e)));
            assert forall|i: int| 0 < i < out.len() implies out[i - 1].album != (
            #[trigger] out[i]).album by {
                assert(out[i].album == g[i].album);
                assert(out[i - 1].album == g[i - 1].album);
            }
            assert forall|i: int| 0 <= i < out.len() implies (#[trigger] out[i]).songs.len()
                > 0 by {
                if i < out.len() - 1 {
                    assert(out[i] == g[i]);
                }
            }
        } else {
            assert(out.map_values(songs) =~= g.map_values(songs).push(seq![song_of(e)]));
            assert(all_songs(out) =~= all_songs(g).push(song_of(e)));
            assert forall|i: int| 0 < i < out.len() implies out[i - 1].album != (
            #[trigger] out[i]).album by {
                if i < out.len() - 1 {
                    assert(out[i] == g[i]);
                    assert(out[i - 1] == g[i - 1]);
                } else {
                    assert(out[i - 1] == g.last());
                }
            }
            assert forall|i: int| 0 <= i < out.len() implies (#[trigger] out[i]).songs.len()
                > 0 by {
                if i < out.len() - 1 {
                    assert(out[i] == g[i]);
                }
            }
        }
    }
}

/// One more record adds its song to the songs of the album that it names, and
/// to those of no other.
pub proof fn lemma_songs_named_push(
    rest: Seq<RawMusicEntryView>,
    e: RawMusicEntryView,
    title: Seq<char>,
)
    ensures
        songs_named(rest.push(e), title) == if e.album == title {
            songs_named(rest, title).push(song_of(e))
        } else {
            songs_named(rest, title)
        },
{
    rest.lemma_filter_push(e, names_album(title));
    if e.album == title {
        assert(songs_of(rest.filter(names_album(title)).push(e)) =~= songs_of(
            rest.filter(names_album(title)),
        ).push(song_of(e)));
    }
}

/// Where the records of each album stand together, grouping gives one album
/// for each title: no two albums share a title, every record's title has its
/// album, and each album holds exactly the songs of the records that name it,
/// in their order.
pub proof fn lemma_grouped_contiguous(entries: Seq<RawMusicEntryView>)
    requires
        is_contiguous(entries),
    ensures
        forall|i: int, j: int|
            0 <= i < j < grouped(entries).len() ==> (#[trigger] grouped(entries)[i]).album != (
            #[trigger] grouped(entries)[j]).album,
        forall|k: int|
            0 <= k < entries.len() ==> has_title(grouped(entries), (#[trigger] entries[k]).album),
        forall|i: int|
            0 <= i < grouped(entries).len() ==> (#[trigger] grouped(entries)[i]).songs
                == songs_named(entries, grouped(entries)[i].album),
    decreases entries.len(),
{
    if entries.len() > 0 {
        let rest = entries.drop_last();
        let e = entries.last();
        let n = rest.len() as int;
        let g = grouped(rest);
        let out = grouped(entries);
        assert(is_contiguous(rest)) by {
            assert forall|i: int, j: int, k: int|
                #![trigger rest[i], rest[j], rest[k]]
                0 <= i < j < k < rest.len() && rest[i].album == rest[k].album implies rest[j].album
                == rest[i].album by {
                assert(rest[i] == entries[i] && rest[j] == entries[j] && rest[k] == entries[k]);
            }
        }
        lemma_grouped_contiguous(rest);
        lemma_grouped_keeps_songs(rest);
        assert(entries =~= rest.push(e));
        if g.len() > 0 && g.last().album == e.album {
            assert forall|i: int| 0 <= i < out.len() implies (#[trigger] out[i]).songs
                == songs_named(entries, out[i].album) by {
                lemma_songs_named_push(rest, e, out[i].album);
                if i < out.len() - 1 {
                    assert(out[i] == g[i]);
                    assert(g[i].album != g.last().album);
                    assert(g[i].songs == songs_named(rest, g[i].album));
                } else {
                    assert(g.last().songs == songs_named(rest, g.last().album));
                }
            }
            assert forall|i: int, j: int| 0 <= i < j < out.len() implies (
            #[trigger] out[i]).album != (#[trigger] out[j]).album by {
                assert(out[i].album == g[i].album);
                assert(out[j].album == g[j].album);
            }
            assert forall|k: int| 0 <= k < entries.len() implies has_title(
                out,
                (#[trigger] entries[k]).album,
            ) by {
                if k < n {
                    assert(rest[k] == entries[k]);
                    assert(has_title(g, rest[k].album));
                    let i = choose|i: int|
                        0 <= i < g.len() && (#[trigger] g[i]).album == rest[k].album;
                    assert(out[i].album == g[i].album);
                } else {
                    assert(out[out.len() - 1].album == e.album);
                }
            }
        } else {
            // No album so far has the title of the new record.
            assert forall|i: int| 0 <= i < g.len() implies (#[trigger] g[i]).album != e.album by {
                if g[i].album == e.album {
                    assert(i < g.len() - 1);
                    assert(g[i].songs == songs_named(rest, g[i].album));
                    let named = rest.filter(names_album(e.album));
                    assert(named.len() > 0);
                    rest.lemma_filter_pred(names_album(e.album), 0);
                    assert(named.contains(named[0]));
                    rest.lemma_filter_contains_rev(names_album(e.album), named[0]);
                    let k = choose|k: int| 0 <= k < rest.len() && rest[k] == named[0];
                    assert(entries[k].album == e.album);
                    assert(entries[n - 1] == rest.last());
                    assert(entries[n].album == e.album);
                    if k < n - 1 {
                        assert(entries[n - 1].album == entries[k].album);
                    }
                    assert(rest.last().album == e.album);
                    assert(g.last().album == rest.last().album);
                }
            }
            assert forall|k: int| 0 <= k < rest.len() implies (#[trigger] rest[k]).album
                != e.album by {
                assert(has_title(g, rest[k].album));
                let i = choose|i: int| 0 <= i < g.len() && (#[trigger] g[i]).album == rest[k].album;
                assert(g[i].album != e.album);
            }
            assert(rest.filter(names_album(e.album)).len() == 0) by {
                assert(rest.all(|x: RawMusicEntryView| !names_album(e.album)(x))) by {
                    assert forall|k: int| 0 <= k < rest.len() implies !names_album(e.album)(
                        #[trigger] rest[k],
                    ) by {}
                }
                rest.lemma_all_neg_filter_empty(names_album(e.album));
            }
            assert(songs_named(rest, e.album) =~= Seq::<SongView>::empty());
            assert forall|i: int| 0 <= i < out.len() implies (#[trigger] out[i]).songs
                == songs_named(entries, out[i].album) by {
                lemma_songs_named_push(rest, e, out[i].album);
                if i < out.len() - 1 {
                    assert(out[i] == g[i]);
                    assert(g[i].songs == songs_named(rest, g[i].album));
                } else {
                    assert(out[i].songs =~= Seq::<SongView>::empty().push(song_of(e)));
                }
            }
            assert forall|i: int, j: int| 0 <= i < j < out.len() implies (
            #[trigger] out[i]).album != (#[trigger] out[j]).album by {
                assert(out[i] == g[i]);
                if j < out.len() - 1 {
                    assert(out[j] == g[j]);
                }
            }
            assert forall|k: int| 0 <= k < entries.len() implies has_title(
                out,
                (#[trigger] entries[k]).album,
            ) by {
                if k < n {
                    assert(rest[k] == entries[k]);
                    assert(has_title(g, rest[k].album));
                    let i = choose|i: int|
                        0 <= i < g.len() && (#[trigger] g[i]).album == rest[k].album;
                    assert(out[i] == g[i]);
                } else {
                    assert(out[out.len() - 1].album == e.album);
                }
            }
        }
    }
}

/// Where the records of each album stand together, grouping gives as many
/// albums as the records name different titles.
pub proof fn lemma_grouped_count(entries: Seq<RawMusicEntryView>)
    requires
        is_contiguous(entries),
    ensures
        grouped(entries).len() == titles_of(entries).to_set().len(),
{
    lemma_grouped_contiguous(entries);
    lemma_grouped_keeps_songs(entries);
    let albums = grouped(entries);
    let titles = albums.map_values(|a: AlbumView| a.album);
    let named = titles_of(entries);
    assert(titles.no_duplicates()) by {
        assert forall|i: int, j: int|
            0 <= i < titles.len() && 0 <= j < titles.len() && i != j implies titles[i]
            != titles[j] by {
            if i < j {
                assert(albums[i].album != albums[j].album);
            } else {
                assert(albums[j].album != albums[i].album);
            }
        }
    }
    titles.unique_seq_to_set();
    assert forall|x: Seq<char>| titles.contains(x) implies named.contains(x) by {
        let i = choose|i: int| 0 <= i < titles.len() && titles[i] == x;
        assert(albums[i].songs.len() > 0);
        let picked = entries.filter(names_album(x));
        assert(picked.len() > 0);
        entries.lemma_filter_pred(names_album(x), 0);
        assert(picked.contains(picked[0]));
        entries.lemma_filter_contains_rev(names_album(x), picked[0]);
        let k = choose|k: int| 0 <= k < entries.len() && entries[k] == picked[0];
        assert(named[k] == x);
    }
    assert forall|x: Seq<char>| named.contains(x) implies titles.contains(x) by {
        let k = choose|k: int| 0 <= k < named.len() && named[k] == x;
        assert(has_title(albums, entries[k].album));
        let i = choose|i: int| 0 <= i < albums.len() && (#[trigger] albums[i]).album == x;
        assert(titles[i] == x);
    }
    assert(titles.to_set() =~= named.to_set());
}

/// Where the first record stands that names the album `title`; the number
/// of records where none names it.
pub open spec fn first_named(entries: Seq<RawMusicEntryView>, title: Seq<char>) -> int {
    first_where(entries, names_album(title))
}

/// The album is opened by the first record that names it: it has its title,
/// and takes artist and year from it.
pub open spec fn opened_by_first(entries: Seq<RawMusicEntryView>, album: AlbumView) -> bool {
    let first = first_named(entries, album.album);
    &&& 0 <= first < entries.len()
    &&& entries[first].album == album.album
    &&& entries[first].artist == album.artist
    &&& entries[first].date == album.date
}

/// One more record leaves the first record of a title where it was, if the
/// title was named before.
proof fn lemma_first_named_push(
    rest: Seq<RawMusicEntryView>,
    e: RawMusicEntryView,
    title: Seq<char>,
)
    ensures
        first_named(rest, title) < rest.len() ==> first_named(rest.push(e), title) == first_named(
            rest,
            title,
        ),
        first_named(rest, title) >= rest.len() && e.album == title ==> first_named(
            rest.push(e),
            title,
        ) == rest.len(),
{
    let all = rest.push(e);
    let test = names_album(title);
    lemma_first_where(rest, test);
    let first = first_where(rest, test);
    if first < rest.len() {
        assert forall|j: int| 0 <= j < first implies !test(#[trigger] all[j]) by {
            assert(all[j] == rest[j]);
        }
        assert(all[first] == rest[first]);
        lemma_first_where_is(all, test, first);
    } else if e.album == title {
        assert forall|j: int| 0 <= j < rest.len() implies !test(#[trigger] all[j]) by {
            assert(all[j] == rest[j]);
        }
        assert(all[rest.len() as int] == e);
        lemma_first_where_is(all, test, rest.len() as int);
    }
}

/// Where the records of each album stand together, the albums stand in the
/// order in which the records first name them, and each album takes its
/// artist and its year from the first record that names it.
pub proof fn lemma_grouped_in_order_met(entries: Seq<RawMusicEntryView>)
    requires
        is_contiguous(entries),
    ensures
        forall|i: int|
            0 <= i < grouped(entries).len() ==> opened_by_first(
                entries,
                #[trigger] grouped(entries)[i],
            ),
        forall|i: int, j: int|
            0 <= i < j < grouped(entries).len() ==> first_named(
                entries,
                (#[trigger] grouped(entries)[i]).album,
            ) < first_named(entries, (#[trigger] grouped(entries)[j]).album),
    decreases entries.len(),
{
    if entries.len() > 0 {
        let rest = entries.drop_last();
        let e = entries.last();
        let n = rest.len() as int;
        let g = grouped(rest);
        let out = grouped(entries);
        assert(entries =~= rest.push(e));
        assert(is_contiguous(rest)) by {
            assert forall|i: int, j: int, k: int|
                #![trigger rest[i], rest[j], rest[k]]
                0 <= i < j < k < rest.len() && rest[i].album == rest[k].album implies rest[j].album
                == rest[i].album by {
                assert(rest[i] == entries[i] && rest[j] == entries[j] && rest[k] == entries[k]);
            }
        }
        lemma_grouped_in_order_met(rest);
        lemma_grouped_contiguous(entries);
        if g.len() > 0 && g.last().album == e.album {
            assert forall|i: int| 0 <= i < out.len() implies opened_by_first(
                entries,
                #[trigger] out[i],
            ) by {
                assert(opened_by_first(rest, g[i]));
                assert(out[i].album == g[i].album && out[i].artist == g[i].artist && out[i].date
                    == g[i].date);
                lemma_first_named_push(rest, e, g[i].album);
                assert(entries[first_named(rest, g[i].album)] == rest[first_named(
                    rest,
                    g[i].album,
                )]);
            }
            assert forall|i: int, j: int| 0 <= i < j < out.len() implies first_named(
                entries,
                (#[trigger] out[i]).album,
            ) < first_named(entries, (#[trigger] out[j]).album) by {
                assert(opened_by_first(rest, g[i]) && opened_by_first(rest, g[j]));
                assert(out[i].album == g[i].album && out[j].album == g[j].album);
                lemma_first_named_push(rest, e, g[i].album);
                lemma_first_named_push(rest, e, g[j].album);
            }
        } else {
            // No record before the last names the album that the last opens.
            let last = out.len() - 1;
            assert(out[last] == album_of(e));
            assert(first_named(rest, e.album) >= n) by {
                lemma_first_where(rest, names_album(e.album));
                let first = first_named(rest, e.album);
                if first < n {
                    assert(out[last].songs == songs_named(entries, e.album));
                    lemma_songs_named_push(rest, e, e.album);
                    rest.lemma_filter_contains(names_album(e.album), first);
                    assert(rest.filter(names_album(e.album)).len() > 0);
                    assert(songs_named(rest, e.album).len() > 0);
                    assert(songs_named(entries, e.album).len() > 1);
                    assert(out[last].songs.len() == 1);
                }
            }
            lemma_first_named_push(rest, e, e.album);
            assert forall|i: int| 0 <= i < out.len() implies opened_by_first(
                entries,
                #[trigger] out[i],
            ) by {
                if i < last {
                    assert(out[i] == g[i]);
                    assert(opened_by_first(rest, g[i]));
                    lemma_first_named_push(rest, e, g[i].album);
                    assert(entries[first_named(rest, g[i].album)] == rest[first_named(
                        rest,
                        g[i].album,
                    )]);
                } else {
                    assert(entries[n] == e);
                }
            }
            assert forall|i: int, j: int| 0 <= i < j < out.len() implies first_named(
                entries,
                (#[trigger] out[i]).album,
            ) < first_named(entries, (#[trigger] out[j]).album) by {
                assert(out[i] == g[i]);
                assert(opened_by_first(rest, g[i]));
                lemma_first_named_push(rest, e, g[i].album);
                if j < last {
                    assert(out[j] == g[j]);
                    assert(opened_by_first(rest, g[j]));
                    lemma_first_named_push(rest, e, g[j].album);
                }
            }
        }
    }
}

} // verus!
