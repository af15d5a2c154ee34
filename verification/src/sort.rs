//! Stable sorting: what it means, and the sorting of albums and of libraries.
//!
//! Both are sorted by insertion. Each element is taken from the end of what
//! is left and put into what is sorted, at the place that a search by
//! halving finds: behind everything that comes strictly before it.

use crate::model::{
    album_rank, album_views, song_rank, song_views, Album, AlbumView, MusicData, MusicDataView,
    Song, SongView,
};
use crate::model::{lemma_album_rank_antisymmetric, lemma_album_rank_transitive};
use crate::model::{lemma_song_rank_antisymmetric, lemma_song_rank_transitive};
use crate::order::Rank;
use vstd::prelude::*;

verus! {

/// How many elements at the front of `s` come strictly before `x`.
pub open spec fn insertion_point<T>(s: Seq<T>, x: T, before: spec_fn(T, T) -> bool) -> int
    decreases s.len(),
{
    if s.len() > 0 && before(s[0], x) {
        1 + insertion_point(s.drop_first(), x, before)
    } else {
        0
    }
}

/// `s` with `x` put behind the elements at the front that come strictly
/// before it.
pub open spec fn sorted_insert<T>(s: Seq<T>, x: T, before: spec_fn(T, T) -> bool) -> Seq<T> {
    s.insert(insertion_point(s, x, before), x)
}

/// `s` in the order given by `before`; elements of which neither comes before
/// the other keep the order they had in `s`.
pub open spec fn sort_by<T>(s: Seq<T>, before: spec_fn(T, T) -> bool) -> Seq<T>
    decreases s.len(),
{
    if s.len() == 0 {
        s
    } else {
        sorted_insert(sort_by(s.drop_first(), before), s[0], before)
    }
}

/// No element of `s` comes strictly before an earlier one.
pub open spec fn is_sorted<T>(s: Seq<T>, before: spec_fn(T, T) -> bool) -> bool {
    forall|i: int, j: int| 0 <= i < j < s.len() ==> !before(s[j], s[i])
}

/// `before` is the strict part of a total preorder: it never holds both
/// ways, and "does not come after" is transitive.
pub open spec fn is_strict_order<T>(before: spec_fn(T, T) -> bool) -> bool {
    &&& forall|a: T, b: T| #[trigger] before(a, b) ==> !before(b, a)
    &&& forall|a: T, b: T, c: T|
        !#[trigger] before(b, a) && !#[trigger] before(c, b) ==> !before(c, a)
}

/// The insertion point is within `s`; what stands before it comes strictly
/// before `x`, and what stands at it does not.
pub proof fn lemma_insertion_point<T>(s: Seq<T>, x: T, before: spec_fn(T, T) -> bool)
    ensures
        0 <= insertion_point(s, x, before) <= s.len(),
        forall|j: int| 0 <= j < insertion_point(s, x, before) ==> before(#[trigger] s[j], x),
        insertion_point(s, x, before) < s.len() ==> !before(
            s[insertion_point(s, x, before)],
            x,
        ),
    decreases s.len(),
{
    if s.len() > 0 && before(s[0], x) {
        let t = s.drop_first();
        lemma_insertion_point(t, x, before);
        let p = insertion_point(t, x, before);
        assert forall|j: int| 0 <= j < p + 1 implies before(#[trigger] s[j], x) by {
            if j > 0 {
                assert(s[j] == t[j - 1]);
            }
        }
        if p < t.len() {
            assert(s[p + 1] == t[p]);
        }
    }
}

/// A place with only strictly earlier elements before it, and none at it,
/// is the insertion point.
pub proof fn lemma_insertion_point_is<T>(s: Seq<T>, x: T, before: spec_fn(T, T) -> bool, i: int)
    requires
        0 <= i <= s.len(),
        forall|j: int| 0 <= j < i ==> before(#[trigger] s[j], x),
        i < s.len() ==> !before(s[i], x),
    ensures
        insertion_point(s, x, before) == i,
    decreases s.len(),
{
    if i > 0 {
        let t = s.drop_first();
        assert(before(s[0], x));
        assert forall|j: int| 0 <= j < i - 1 implies before(#[trigger] t[j], x) by {
            assert(t[j] == s[j + 1]);
        }
        lemma_insertion_point_is(t, x, before, i - 1);
    }
}

/// In a sorted sequence, what comes strictly before `x` stands before what
/// does not: up to an element that comes before `x`, all elements do, and
/// from an element on that does not, none does.
pub proof fn lemma_sorted_split<T>(s: Seq<T>, x: T, before: spec_fn(T, T) -> bool, mid: int)
    requires
        is_strict_order(before),
        is_sorted(s, before),
        0 <= mid < s.len(),
    ensures
        before(s[mid], x) ==> forall|j: int| 0 <= j <= mid ==> before(#[trigger] s[j], x),
        !before(s[mid], x) ==> forall|j: int| mid <= j < s.len() ==> !before(#[trigger] s[j], x),
{
    if before(s[mid], x) {
        assert forall|j: int| 0 <= j <= mid implies before(#[trigger] s[j], x) by {
            if j < mid && !before(s[j], x) {
                assert(!before(s[mid], s[j]));
                assert(!before(s[mid], x));
            }
        }
    } else {
        assert forall|j: int| mid <= j < s.len() implies !before(#[trigger] s[j], x) by {
            if mid < j {
                assert(!before(s[j], s[mid]));
            }
        }
    }
}

/// Inserting into a sorted sequence leaves it sorted.
pub proof fn lemma_sorted_insert_sorted<T>(s: Seq<T>, x: T, before: spec_fn(T, T) -> bool)
    requires
        is_strict_order(before),
        is_sorted(s, before),
    ensures
        is_sorted(sorted_insert(s, x, before), before),
{
    lemma_insertion_point(s, x, before);
    let p = insertion_point(s, x, before);
    let r = sorted_insert(s, x, before);
    assert forall|i: int, j: int| 0 <= i < j < r.len() implies !before(r[j], r[i]) by {
        if j == p {
            assert(r[i] == s[i]);
            assert(before(s[i], x));
        } else if i == p {
            assert(r[j] == s[j - 1]);
            if j - 1 > p {
                assert(!before(s[j - 1], s[p]));
            }
            assert(!before(s[p], x));
        } else {
            let i0 = if i < p { i } else { i - 1 };
            let j0 = if j < p { j } else { j - 1 };
            assert(r[i] == s[i0]);
            assert(r[j] == s[j0]);
        }
    }
}

/// Sorting gives a sorted sequence.
pub proof fn lemma_sort_by_sorted<T>(s: Seq<T>, before: spec_fn(T, T) -> bool)
    requires
        is_strict_order(before),
    ensures
        is_sorted(sort_by(s, before), before),
    decreases s.len(),
{
    if s.len() > 0 {
        lemma_sort_by_sorted(s.drop_first(), before);
        lemma_sorted_insert_sorted(sort_by(s.drop_first(), before), s[0], before);
    }
}

/// Sorting keeps the elements: each occurs as often as before.
pub proof fn lemma_sort_by_permutes<T>(s: Seq<T>, before: spec_fn(T, T) -> bool)
    ensures
        sort_by(s, before).len() == s.len(),
        sort_by(s, before).to_multiset() == s.to_multiset(),
    decreases s.len(),
{
    broadcast use vstd::seq_lib::group_to_multiset_ensures;

    if s.len() > 0 {
        let t = sort_by(s.drop_first(), before);
        lemma_sort_by_permutes(s.drop_first(), before);
        lemma_insertion_point(t, s[0], before);
        vstd::seq_lib::to_multiset_insert(t, insertion_point(t, s[0], before), s[0]);
        assert(s =~= seq![s[0]] + s.drop_first());
        assert(s =~= s.drop_first().insert(0, s[0]));
        vstd::seq_lib::to_multiset_insert(s.drop_first(), 0, s[0]);
    }
}

/// Sorting a sorted sequence changes nothing.
pub proof fn lemma_sort_by_of_sorted<T>(s: Seq<T>, before: spec_fn(T, T) -> bool)
    requires
        is_sorted(s, before),
    ensures
        sort_by(s, before) == s,
    decreases s.len(),
{
    if s.len() > 0 {
        let t = s.drop_first();
        assert forall|i: int, j: int| 0 <= i < j < t.len() implies !before(t[j], t[i]) by {
            assert(t[i] == s[i + 1] && t[j] == s[j + 1]);
        }
        lemma_sort_by_of_sorted(t, before);
        if t.len() > 0 {
            assert(t[0] == s[1]);
            assert(!before(s[1], s[0]));
        }
        assert(insertion_point(t, s[0], before) == 0);
        assert(t.insert(0, s[0]) =~= s);
    } else {
        assert(sort_by(s, before) =~= s);
    }
}

/// The test that picks the elements of which neither comes before `x` nor
/// `x` before them.
pub open spec fn ranks_with<T>(before: spec_fn(T, T) -> bool, x: T) -> spec_fn(T) -> bool {
    |y: T| !before(x, y) && !before(y, x)
}

/// Sorting is stable: the elements that rank with `x` come out in the order
/// in which they went in.
pub proof fn lemma_sort_by_stable<T>(s: Seq<T>, before: spec_fn(T, T) -> bool, x: T)
    requires
        is_strict_order(before),
    ensures
        sort_by(s, before).filter(ranks_with(before, x)) == s.filter(ranks_with(before, x)),
    decreases s.len(),
{
    let pred = ranks_with(before, x);
    if s.len() > 0 {
        let tail = s.drop_first();
        let t = sort_by(tail, before);
        let p = insertion_point(t, s[0], before);
        lemma_sort_by_stable(tail, before, x);
        lemma_insertion_point(t, s[0], before);
        let front = t.take(p);
        let back = t.skip(p);
        assert(t =~= front + back);
        assert(sort_by(s, before) =~= front + (seq![s[0]] + back));
        assert(s =~= seq![s[0]] + tail);
        Seq::filter_distributes_over_add(front, back, pred);
        Seq::filter_distributes_over_add(front, seq![s[0]] + back, pred);
        back.lemma_filter_prepend(s[0], pred);
        tail.lemma_filter_prepend(s[0], pred);
        if pred(s[0]) {
            assert forall|j: int| 0 <= j < front.len() implies !pred(#[trigger] front[j]) by {
                assert(front[j] == t[j]);
                assert(before(t[j], s[0]));
            }
            assert(front.all(|y: T| !pred(y)));
            front.lemma_all_neg_filter_empty(pred);
            assert(front.filter(pred) =~= Seq::<T>::empty());
            assert(front.filter(pred) + back.filter(pred) =~= back.filter(pred));
            assert(front.filter(pred) + (seq![s[0]] + back.filter(pred)) =~= seq![s[0]]
                + back.filter(pred));
        } else {
            assert(Seq::<T>::empty() + back.filter(pred) =~= back.filter(pred));
            assert(Seq::<T>::empty() + tail.filter(pred) =~= tail.filter(pred));
        }
    } else {
        assert(sort_by(s, before) =~= s);
    }
}

/// Of any two elements of `s`, one comes strictly before the other.
pub open spec fn no_two_rank_together<T>(s: Seq<T>, before: spec_fn(T, T) -> bool) -> bool {
    forall|i: int, j: int| 0 <= i < j < s.len() ==> before(s[i], s[j]) || before(s[j], s[i])
}

/// Every element of `s` comes strictly before those behind it.
pub open spec fn ascends<T>(s: Seq<T>, before: spec_fn(T, T) -> bool) -> bool {
    forall|i: int, j: int| 0 <= i < j < s.len() ==> before(s[i], s[j])
}

/// Where no two elements rank together, sorting gives a sequence in which
/// every element comes strictly before those behind it.
pub proof fn lemma_sort_by_ascends<T>(s: Seq<T>, before: spec_fn(T, T) -> bool)
    requires
        is_strict_order(before),
        no_two_rank_together(s, before),
    ensures
        ascends(sort_by(s, before), before),
    decreases s.len(),
{
    broadcast use vstd::seq_lib::group_to_multiset_ensures;

    if s.len() > 0 {
        let x = s[0];
        let tail = s.drop_first();
        let t = sort_by(tail, before);
        let p = insertion_point(t, x, before);
        let r = sort_by(s, before);
        assert(no_two_rank_together(tail, before)) by {
            assert forall|i: int, j: int| 0 <= i < j < tail.len() implies before(tail[i], tail[j])
                || before(tail[j], tail[i]) by {
                assert(tail[i] == s[i + 1] && tail[j] == s[j + 1]);
            }
        }
        lemma_sort_by_ascends(tail, before);
        lemma_sort_by_sorted(tail, before);
        lemma_sort_by_permutes(tail, before);
        lemma_insertion_point(t, x, before);
        lemma_sorted_insert_sorted(t, x, before);
        assert forall|k: int| 0 <= k < t.len() implies before(x, #[trigger] t[k]) || before(
            t[k],
            x,
        ) by {
            assert(t.to_multiset().count(t[k]) > 0) by {
                assert(t.contains(t[k]));
            }
            assert(tail.contains(t[k]));
            let m = choose|m: int| 0 <= m < tail.len() && tail[m] == t[k];
            assert(s[m + 1] == tail[m]);
        }
        assert forall|i: int, j: int| 0 <= i < j < r.len() implies before(r[i], r[j]) by {
            assert(!before(r[j], r[i]));
            if i == p {
                assert(r[j] == t[j - 1]);
            } else if j == p {
                assert(r[i] == t[i]);
            } else {
                let i0 = if i < p { i } else { i - 1 };
                let j0 = if j < p { j } else { j - 1 };
                assert(r[i] == t[i0] && r[j] == t[j0]);
            }
        }
    }
}

/// A sorted sequence is the one sequence of its elements in which every
/// element comes strictly before those behind it, where there is one.
pub proof fn lemma_ascending_is_unique<T>(a: Seq<T>, b: Seq<T>, before: spec_fn(T, T) -> bool)
    requires
        is_strict_order(before),
        ascends(a, before),
        is_sorted(b, before),
        a.to_multiset() == b.to_multiset(),
    ensures
        a == b,
    decreases a.len(),
{
    broadcast use vstd::seq_lib::group_to_multiset_ensures;

    assert(a.len() == b.len()) by {
        vstd::seq_lib::to_multiset_len(a);
        vstd::seq_lib::to_multiset_len(b);
    }
    if a.len() == 0 {
        assert(a =~= b);
    } else {
        assert(b.contains(a[0])) by {
            assert(a.contains(a[0]));
            assert(a.to_multiset().count(a[0]) > 0);
        }
        assert(a.contains(b[0])) by {
            assert(b.contains(b[0]));
            assert(b.to_multiset().count(b[0]) > 0);
        }
        let p = choose|p: int| 0 <= p < b.len() && b[p] == a[0];
        let q = choose|q: int| 0 <= q < a.len() && a[q] == b[0];
        if q > 0 {
            assert(before(a[0], a[q]));
            if p > 0 {
                assert(!before(b[p], b[0]));
            }
        }
        assert(a[0] == b[0]);
        let a1 = a.drop_first();
        let b1 = b.drop_first();
        assert(a.remove(0) =~= a1);
        assert(b.remove(0) =~= b1);
        vstd::seq_lib::to_multiset_remove(a, 0);
        vstd::seq_lib::to_multiset_remove(b, 0);
        assert(ascends(a1, before)) by {
            assert forall|i: int, j: int| 0 <= i < j < a1.len() implies before(a1[i], a1[j]) by {
                assert(a1[i] == a[i + 1] && a1[j] == a[j + 1]);
            }
        }
        assert(is_sorted(b1, before)) by {
            assert forall|i: int, j: int| 0 <= i < j < b1.len() implies !before(b1[j], b1[i]) by {
                assert(b1[i] == b[i + 1] && b1[j] == b[j + 1]);
            }
        }
        lemma_ascending_is_unique(a1, b1, before);
        assert(a =~= seq![a[0]] + a1);
        assert(b =~= seq![b[0]] + b1);
    }
}

/// Where no two elements rank together, sorting fixes the order: whatever
/// order the elements come in, they go out in the same.
pub proof fn lemma_sort_by_fixes_order<T>(s: Seq<T>, other: Seq<T>, before: spec_fn(T, T) -> bool)
    requires
        is_strict_order(before),
        no_two_rank_together(s, before),
        s.to_multiset() == other.to_multiset(),
    ensures
        sort_by(s, before) == sort_by(other, before),
{
    lemma_sort_by_ascends(s, before);
    lemma_sort_by_sorted(other, before);
    lemma_sort_by_permutes(s, before);
    lemma_sort_by_permutes(other, before);
    lemma_ascending_is_unique(sort_by(s, before), sort_by(other, before), before);
}

/// Sorting twice is sorting once.
pub proof fn lemma_sort_by_idempotent<T>(s: Seq<T>, before: spec_fn(T, T) -> bool)
    requires
        is_strict_order(before),
    ensures
        sort_by(sort_by(s, before), before) == sort_by(s, before),
{
    lemma_sort_by_sorted(s, before);
    lemma_sort_by_of_sorted(sort_by(s, before), before);
}

/// The order of the songs of an album: one song comes before another.
pub open spec fn song_before() -> spec_fn(SongView, SongView) -> bool {
    |a: SongView, b: SongView| song_rank(a, b) == Rank::Before
}

/// The order of the albums of a library: one album comes before another.
pub open spec fn album_before() -> spec_fn(AlbumView, AlbumView) -> bool {
    |a: AlbumView, b: AlbumView| album_rank(a, b) == Rank::Before
}

/// The order of songs is one by which sorting is defined.
pub proof fn lemma_song_before_is_order()
    ensures
        is_strict_order(song_before()),
{
    let before = song_before();
    assert forall|a: SongView, b: SongView| #[trigger] before(a, b) implies !before(b, a) by {
        lemma_song_rank_antisymmetric(a, b);
    }
    assert forall|a: SongView, b: SongView, c: SongView|
        !#[trigger] before(b, a) && !#[trigger] before(c, b) implies !before(c, a) by {
        lemma_song_rank_antisymmetric(a, b);
        lemma_song_rank_antisymmetric(b, c);
        lemma_song_rank_antisymmetric(a, c);
        lemma_song_rank_transitive(a, b, c);
    }
}

/// The order of albums is one by which sorting is defined.
pub proof fn lemma_album_before_is_order()
    ensures
        is_strict_order(album_before()),
{
    let before = album_before();
    assert forall|a: AlbumView, b: AlbumView| #[trigger] before(a, b) implies !before(b, a) by {
        lemma_album_rank_antisymmetric(a, b);
    }
    assert forall|a: AlbumView, b: AlbumView, c: AlbumView|
        !#[trigger] before(b, a) && !#[trigger] before(c, b) implies !before(c, a) by {
        lemma_album_rank_antisymmetric(a, b);
        lemma_album_rank_antisymmetric(b, c);
        lemma_album_rank_antisymmetric(a, c);
        lemma_album_rank_transitive(a, b, c);
    }
}

impl AlbumView {
    /// The songs stand in their order.
    pub open spec fn is_sorted(self) -> bool {
        is_sorted(self.songs, song_before())
    }

    /// The album with its songs in their order.
    pub open spec fn sorted(self) -> AlbumView {
        AlbumView { songs: sort_by(self.songs, song_before()), ..self }
    }
}

impl MusicDataView {
    /// The albums stand in their order, and so do the songs of each.
    pub open spec fn is_sorted(self) -> bool {
        &&& is_sorted(self.albums, album_before())
        &&& forall|i: int| 0 <= i < self.albums.len() ==> (#[trigger] self.albums[i]).is_sorted()
    }

    /// The library with its albums in their order, and the songs of each
    /// album in theirs.
    pub open spec fn sorted(self) -> MusicDataView {
        MusicDataView {
            albums: sort_by(self.albums.map_values(|a: AlbumView| a.sorted()), album_before()),
        }
    }
}

impl Album {
    /// Puts the songs of the album in their order. Songs that rank the same
    /// keep the order they had.
    pub fn sort(&mut self)
        ensures
            final(self)@ == old(self)@.sorted(),
            final(self)@.is_sorted(),
    {
        let ghost start = *self;
        let mut rest: Vec<Song> = Vec::new();
        std::mem::swap(&mut rest, &mut self.songs);
        let ghost all = song_views(rest@);
        assert(all.skip(rest.len() as int) =~= Seq::<SongView>::empty());
        assert(song_views(self.songs@) =~= Seq::<SongView>::empty());
        while rest.len() > 0
            invariant
                self.artist == start.artist,
                self.album == start.album,
                self.date == start.date,
                all == song_views(start.songs@),
                rest.len() <= all.len(),
                song_views(rest@) == all.take(rest.len() as int),
                song_views(self.songs@) == sort_by(all.skip(rest.len() as int), song_before()),
            decreases rest.len(),
        {
            let ghost done = song_views(self.songs@);
            let ghost k = rest.len() - 1;
            let song = rest.pop().unwrap();
            assert(song@ == all.take(k + 1)[k]);
            proof {
                lemma_song_before_is_order();
                lemma_sort_by_sorted(all.skip(k + 1), song_before());
            }
            let mut i: usize = 0;
            let mut end: usize = self.songs.len();
            while i < end
                invariant
                    i <= end <= self.songs.len(),
                    done == song_views(self.songs@),
                    is_strict_order(song_before()),
                    is_sorted(done, song_before()),
                    forall|j: int| 0 <= j < i ==> song_before()(#[trigger] done[j], song@),
                    forall|j: int|
                        end <= j < done.len() ==> !song_before()(#[trigger] done[j], song@),
                decreases end - i,
            {
                let mid = i + (end - i) / 2;
                proof {
                    lemma_sorted_split(done, song@, song_before(), mid as int);
                }
                if self.songs[mid].rank(&song) == Rank::Before {
                    i = mid + 1;
                } else {
                    end = mid;
                }
            }
            proof {
                lemma_insertion_point_is(done, song@, song_before(), i as int);
                assert(all.skip(k).drop_first() =~= all.skip(k + 1));
                assert(song_views(rest@) =~= all.take(k));
            }
            self.songs.insert(i, song);
            assert(song_views(self.songs@) =~= done.insert(i as int, song@));
        }
        proof {
            assert(all.skip(0) =~= all);
            lemma_album_sorted(start@);
        }
    }
}

impl MusicData {
    /// Puts the albums of the library in their order, and the songs of each
    /// album in theirs. What ranks the same keeps the order it had.
    pub fn sort(&mut self)
        ensures
            final(self)@ == old(self)@.sorted(),
            final(self)@.is_sorted(),
    {
        let mut rest: Vec<Album> = Vec::new();
        std::mem::swap(&mut rest, &mut self.albums);
        let ghost all = album_views(rest@).map_values(|a: AlbumView| a.sorted());
        assert(all.skip(rest.len() as int) =~= Seq::<AlbumView>::empty());
        assert(album_views(self.albums@) =~= Seq::<AlbumView>::empty());
        while rest.len() > 0
            invariant
                all == album_views(old(self).albums@).map_values(|a: AlbumView| a.sorted()),
                rest.len() <= all.len(),
                album_views(rest@).map_values(|a: AlbumView| a.sorted()) == all.take(
                    rest.len() as int,
                ),
                album_views(self.albums@) == sort_by(
                    all.skip(rest.len() as int),
                    album_before(),
                ),
            decreases rest.len(),
        {
            let ghost done = album_views(self.albums@);
            let ghost k = rest.len() - 1;
            let ghost unsorted = album_views(rest@);
            let mut album = rest.pop().unwrap();
            album.sort();
            assert(album@ == all.take(k + 1)[k]) by {
                assert(album@ == unsorted[k].sorted());
                assert(unsorted.map_values(|a: AlbumView| a.sorted())[k] == unsorted[k].sorted());
            }
            proof {
                lemma_album_before_is_order();
                lemma_sort_by_sorted(all.skip(k + 1), album_before());
            }
            let mut i: usize = 0;
            let mut end: usize = self.albums.len();
            while i < end
                invariant
                    i <= end <= self.albums.len(),
                    done == album_views(self.albums@),
                    is_strict_order(album_before()),
                    is_sorted(done, album_before()),
                    forall|j: int| 0 <= j < i ==> album_before()(#[trigger] done[j], album@),
                    forall|j: int|
                        end <= j < done.len() ==> !album_before()(#[trigger] done[j], album@),
                decreases end - i,
            {
                let mid = i + (end - i) / 2;
                proof {
                    lemma_sorted_split(done, album@, album_before(), mid as int);
                }
                if self.albums[mid].rank(&album) == Rank::Before {
                    i = mid + 1;
                } else {
                    end = mid;
                }
            }
            proof {
                lemma_insertion_point_is(done, album@, album_before(), i as int);
                assert(all.skip(k).drop_first() =~= all.skip(k + 1));
                assert(album_views(rest@).map_values(|a: AlbumView| a.sorted()) =~= all.take(k));
            }
            self.albums.insert(i, album);
            assert(album_views(self.albums@) =~= done.insert(i as int, album@));
        }
        proof {
            assert(all.skip(0) =~= all);
            lemma_library_sorted(old(self)@);
        }
    }
}

/// Sorting an album gives a sorted album with the same songs, and changes
/// nothing in an album that is sorted.
pub proof fn lemma_album_sorted(a: AlbumView)
    ensures
        a.sorted().is_sorted(),
        a.sorted().songs.to_multiset() == a.songs.to_multiset(),
        a.is_sorted() ==> a.sorted() == a,
{
    lemma_song_before_is_order();
    lemma_sort_by_sorted(a.songs, song_before());
    lemma_sort_by_permutes(a.songs, song_before());
    if a.is_sorted() {
        lemma_sort_by_of_sorted(a.songs, song_before());
    }
}

/// Sorting a library gives a sorted library.
pub proof fn lemma_library_sorted(l: MusicDataView)
    ensures
        l.sorted().is_sorted(),
        l.sorted().albums.len() == l.albums.len(),
{
    let each = l.albums.map_values(|a: AlbumView| a.sorted());
    lemma_album_before_is_order();
    lemma_sort_by_sorted(each, album_before());
    lemma_sort_by_permutes(each, album_before());
    let out = l.sorted().albums;
    assert forall|i: int| 0 <= i < out.len() implies (#[trigger] out[i]).is_sorted() by {
        broadcast use vstd::seq_lib::group_to_multiset_ensures;

        assert(out.to_multiset().contains(out[i]));
        assert(each.contains(out[i]));
        let j = choose|j: int| 0 <= j < each.len() && each[j] == out[i];
        lemma_album_sorted(l.albums[j]);
    }
}

/// Sorting a sorted library changes nothing.
pub proof fn lemma_sorted_library_unchanged(l: MusicDataView)
    requires
        l.is_sorted(),
    ensures
        l.sorted() == l,
{
    let each = l.albums.map_values(|a: AlbumView| a.sorted());
    assert(each =~= l.albums) by {
        assert forall|i: int| 0 <= i < l.albums.len() implies each[i] == l.albums[i] by {
            lemma_album_sorted(l.albums[i]);
        }
    }
    lemma_sort_by_of_sorted(l.albums, album_before());
}

/// Sorting is idempotent: sorting a library twice gives what sorting it once
/// gives.
pub proof fn lemma_sort_idempotent(l: MusicDataView)
    ensures
        l.sorted().sorted() == l.sorted(),
{
    lemma_library_sorted(l);
    lemma_sorted_library_unchanged(l.sorted());
}

/// Sorting fixes the order of the songs of an album in which no two songs
/// agree in track number and locator: whatever order the songs come in, they
/// go out in the same, each strictly before the next.
pub proof fn lemma_songs_order_is_fixed(a: AlbumView, other: AlbumView)
    requires
        forall|i: int, j: int|
            0 <= i < j < a.songs.len() ==> !((#[trigger] a.songs[i]).track == (
            #[trigger] a.songs[j]).track && a.songs[i].uri == a.songs[j].uri),
        a.songs.to_multiset() == other.songs.to_multiset(),
    ensures
        a.sorted().songs == other.sorted().songs,
        ascends(a.sorted().songs, song_before()),
{
    lemma_song_before_is_order();
    assert(no_two_rank_together(a.songs, song_before())) by {
        assert forall|i: int, j: int| 0 <= i < j < a.songs.len() implies song_before()(
            a.songs[i],
            a.songs[j],
        ) || song_before()(a.songs[j], a.songs[i]) by {
            crate::model::lemma_song_rank_same(a.songs[i], a.songs[j]);
            lemma_song_rank_antisymmetric(a.songs[i], a.songs[j]);
        }
    }
    lemma_sort_by_ascends(a.songs, song_before());
    lemma_sort_by_fixes_order(a.songs, other.songs, song_before());
}

} // verus!
