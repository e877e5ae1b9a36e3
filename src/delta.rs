//! What changed between two snapshots, by item identity.
use vstd::prelude::*;

use crate::bytes::byte_views;
use crate::local::{file_names_of, locators_of, locators_spec};
use crate::snapshot::{Snapshot, SnapshotView, Song, SongView, file_name_of, same_item, song_views};

verus! {

/// Whether `songs` holds an item with the identity of `s`.
pub open spec fn has_item(songs: Seq<SongView>, s: SongView) -> bool {
    exists|i: int| 0 <= i < songs.len() && same_item(#[trigger] songs[i], s)
}

/// The items of `xs`, in order, whose identity `ys` does not hold.
pub open spec fn missing_from(xs: Seq<SongView>, ys: Seq<SongView>) -> Seq<SongView>
    decreases xs.len(),
{
    if xs.len() == 0 {
        Seq::empty()
    } else {
        let p = missing_from(xs.drop_last(), ys);
        if has_item(ys, xs.last()) {
            p
        } else {
            p.push(xs.last())
        }
    }
}

/// The added and removed items between an older and a newer snapshot.
pub struct Delta {
    /// Items of the newer snapshot that the older one lacks.
    pub added: Vec<Song>,
    /// Items of the older snapshot that the newer one lacks.
    pub removed: Vec<Song>,
}

/// Whether `songs` holds an item with the identity of `s`.
pub fn contains_item(songs: &Vec<Song>, s: &Song) -> (r: bool)
    ensures
        r == has_item(song_views(songs@), s@),
{
    let mut i: usize = 0;
    while i < songs.len()
        invariant
            0 <= i <= songs@.len(),
            forall|j: int| 0 <= j < i ==> !same_item(#[trigger] song_views(songs@)[j], s@),
        decreases songs@.len() - i,
    {
        if songs[i].same_as(s) {
            assert(same_item(song_views(songs@)[i as int], s@));
            return true;
        }
        i += 1;
    }
    false
}

/// A copy of a song.
pub fn copy_song(s: &Song) -> (r: Song)
    ensures
        r@ == s@,
{
    Song::new(s.title.clone(), s.id.clone(), s.url())
}

/// The items of `xs`, in order, whose identity `ys` does not hold.
pub fn songs_missing_from(xs: &Vec<Song>, ys: &Vec<Song>) -> (r: Vec<Song>)
    ensures
        song_views(r@) == missing_from(song_views(xs@), song_views(ys@)),
{
    let mut r: Vec<Song> = Vec::new();
    let mut i: usize = 0;
    while i < xs.len()
        invariant
            0 <= i <= xs@.len(),
            song_views(r@) == missing_from(song_views(xs@).take(i as int), song_views(ys@)),
        decreases xs@.len() - i,
    {
        let ghost before = song_views(r@);
        assert(song_views(xs@).take(i + 1).drop_last() =~= song_views(xs@).take(i as int));
        assert(song_views(xs@).take(i + 1).last() == xs@[i as int]@);
        if !contains_item(ys, &xs[i]) {
            r.push(copy_song(&xs[i]));
            assert(song_views(r@) =~= before.push(xs@[i as int]@));
        } else {
            assert(song_views(r@) =~= before);
        }
        i += 1;
    }
    assert(song_views(xs@).take(xs@.len() as int) =~= song_views(xs@));
    r
}

/// The items added and removed between `old` and `new`, by identity; the
/// locator of an item plays no part.
pub fn diff(old: &Snapshot, new: &Snapshot) -> (r: Delta)
    ensures
        song_views(r.added@) == missing_from(new@.songs, old@.songs),
        song_views(r.removed@) == missing_from(old@.songs, new@.songs),
{
    let removed = songs_missing_from(&old.songs, &new.songs);
    let added = songs_missing_from(&new.songs, &old.songs);
    Delta { added, removed }
}

proof fn lemma_missing_members(xs: Seq<SongView>, ys: Seq<SongView>)
    ensures
        forall|i: int| 0 <= i < missing_from(xs, ys).len() ==> {
            &&& !has_item(ys, #[trigger] missing_from(xs, ys)[i])
            &&& xs.contains(missing_from(xs, ys)[i])
        },
    decreases xs.len(),
{
    if xs.len() > 0 {
        lemma_missing_members(xs.drop_last(), ys);
        let p = missing_from(xs.drop_last(), ys);
        assert forall|i: int| 0 <= i < missing_from(xs, ys).len() implies {
            &&& !has_item(ys, #[trigger] missing_from(xs, ys)[i])
            &&& xs.contains(missing_from(xs, ys)[i])
        } by {
            if i < p.len() {
                let j = choose|j: int| 0 <= j < xs.drop_last().len() && xs.drop_last()[j] == p[i];
                assert(xs[j] == p[i]);
            } else {
                assert(xs[xs.len() - 1] == xs.last());
            }
        }
    }
}

proof fn lemma_missing_from_self(xs: Seq<SongView>, ys: Seq<SongView>)
    requires
        forall|i: int| 0 <= i < xs.len() ==> ys.contains(#[trigger] xs[i]),
    ensures
        missing_from(xs, ys).len() == 0,
    decreases xs.len(),
{
    if xs.len() > 0 {
        lemma_missing_from_self(xs.drop_last(), ys);
        assert(ys.contains(xs[xs.len() - 1]));
        let j = choose|j: int| 0 <= j < ys.len() && ys[j] == xs[xs.len() - 1];
        assert(same_item(ys[j], xs.last()));
    }
}

/// Every added item is an item of the newer snapshot that the older one
/// lacks, every removed item one of the older snapshot that the newer one
/// lacks, so neither touches an item that both hold; and a snapshot compared
/// with itself shows no change.
pub proof fn lemma_delta_laws(a: SnapshotView, b: SnapshotView)
    ensures
        forall|i: int| 0 <= i < missing_from(b.songs, a.songs).len() ==> {
            &&& has_item(b.songs, #[trigger] missing_from(b.songs, a.songs)[i])
            &&& !has_item(a.songs, missing_from(b.songs, a.songs)[i])
        },
        forall|i: int| 0 <= i < missing_from(a.songs, b.songs).len() ==> {
            &&& has_item(a.songs, #[trigger] missing_from(a.songs, b.songs)[i])
            &&& !has_item(b.songs, missing_from(a.songs, b.songs)[i])
        },
        missing_from(a.songs, a.songs).len() == 0,
{
    lemma_missing_members(b.songs, a.songs);
    lemma_missing_members(a.songs, b.songs);
    assert forall|i: int| 0 <= i < missing_from(b.songs, a.songs).len() implies has_item(
        b.songs,
        #[trigger] missing_from(b.songs, a.songs)[i],
    ) by {
        let x = missing_from(b.songs, a.songs)[i];
        let j = choose|j: int| 0 <= j < b.songs.len() && b.songs[j] == x;
        assert(same_item(b.songs[j], x));
    }
    assert forall|i: int| 0 <= i < missing_from(a.songs, b.songs).len() implies has_item(
        a.songs,
        #[trigger] missing_from(a.songs, b.songs)[i],
    ) by {
        let x = missing_from(a.songs, b.songs)[i];
        let j = choose|j: int| 0 <= j < a.songs.len() && a.songs[j] == x;
        assert(same_item(a.songs[j], x));
    }
    assert forall|i: int| 0 <= i < a.songs.len() implies a.songs.contains(#[trigger] a.songs[i]) by {
    }
    lemma_missing_from_self(a.songs, a.songs);
}

/// What an update does locally: the locators to fetch and the files to
/// delete.
pub struct UpdatePlan {
    pub fetch: Vec<Vec<u8>>,
    pub delete: Vec<Vec<u8>>,
}

/// The update from `old` to `new`: fetch the locators of the added items,
/// delete the files (with extension `ext`) of the removed ones; none when
/// an added item has no locator.
pub fn plan_update(old: &Snapshot, new: &Snapshot, ext: &Vec<u8>) -> (r: Option<UpdatePlan>)
    ensures
        match r {
            Some(p) => {
                &&& locators_spec(missing_from(new@.songs, old@.songs)) == Some(byte_views(p.fetch@))
                &&& byte_views(p.delete@) == missing_from(old@.songs, new@.songs).map_values(
                    |s: SongView| file_name_of(s, ext@),
                )
            },
            None => locators_spec(missing_from(new@.songs, old@.songs)) is None,
        },
{
    let d = diff(old, new);
    match locators_of(&d.added) {
        None => None,
        Some(fetch) => {
            let delete = file_names_of(&d.removed, ext);
            Some(UpdatePlan { fetch, delete })
        },
    }
}

} // verus!
