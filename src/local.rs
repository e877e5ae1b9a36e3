//! The fetched files of a collection directory: which of them the tool
//! wrote, what item each holds, and the match filter that keeps the tool
//! from fetching them again.
use vstd::prelude::*;

use crate::bytes::{append_bytes, byte_views, slice_bytes};
use crate::snapshot::{Snapshot, SnapshotView, Song, SongView, song_views};
use crate::text::{audio_ext, audio_ext_bytes, reject_filter_head, reject_filter_head_bytes};

verus! {

/// The length of an item identifier in a file name.
pub const ID_LEN: usize = 11;

/// What a file of the collection directory is.
#[derive(Debug)]
pub enum LocalFile {
    /// Not an audio file.
    Loose,
    /// An audio file whose name the tool did not write.
    Foreign,
    /// A file the tool fetched, with the item it holds (no locator).
    Item(Song),
}

/// Whether `s` ends with `p`.
pub open spec fn ends_with(s: Seq<u8>, p: Seq<u8>) -> bool {
    p.len() <= s.len() && s.skip(s.len() - p.len()) == p
}

/// The index of the last `b` in `s`, or -1.
pub open spec fn last_index_of(s: Seq<u8>, b: u8) -> int
    decreases s.len(),
{
    if s.len() == 0 {
        -1
    } else if s.last() == b {
        s.len() - 1
    } else {
        last_index_of(s.drop_last(), b)
    }
}

/// The title and identifier that a file name `<title> [<id>].mp3` gives,
/// with an identifier of eleven bytes.
pub open spec fn local_item_spec(name: Seq<u8>) -> Option<(Seq<u8>, Seq<u8>)> {
    let k = last_index_of(name, 91u8);
    if !ends_with(name, audio_ext()) || k < 1 || name.len() - k != ID_LEN + 6 {
        None
    } else {
        Some((name.take(k - 1), name.subrange(k + 1, k + 1 + ID_LEN)))
    }
}

/// What a file name is: `None` for a file that is not audio, `Some(None)`
/// for an audio file the tool did not name, else the item it holds.
pub open spec fn local_file_spec(name: Seq<u8>) -> Option<Option<SongView>> {
    if !ends_with(name, audio_ext()) {
        None
    } else {
        match local_item_spec(name) {
            Some((t, i)) => Some(Some(SongView { title: t, id: i, url: None })),
            None => Some(None),
        }
    }
}

/// Tells what a file of the collection directory is.
pub fn classify_local_file(name: &Vec<u8>) -> (r: LocalFile)
    ensures
        match r {
            LocalFile::Loose => local_file_spec(name@) is None,
            LocalFile::Foreign => local_file_spec(name@) == Some(None::<SongView>),
            LocalFile::Item(s) => local_file_spec(name@) == Some(Some(s@)),
        },
{
    let ext = audio_ext_bytes();
    let n = name.len();
    if n < ext.len() {
        return LocalFile::Loose;
    }
    let tail = slice_bytes(name, n - ext.len(), n);
    assert(tail@ =~= name@.skip(n - ext@.len()));
    if !crate::bytes::bytes_eq(&tail, &ext) {
        return LocalFile::Loose;
    }
    let mut k: usize = n;
    assert(name@.take(n as int) =~= name@);
    while k > 0 && name[k - 1] != 91
        invariant
            0 <= k <= n == name@.len(),
            last_index_of(name@, 91u8) == last_index_of(name@.take(k as int), 91u8),
        decreases k,
    {
        assert(name@.take(k as int).drop_last() =~= name@.take(k - 1));
        k -= 1;
    }
    if k < 2 || n - (k - 1) != ID_LEN + 6 {
        return LocalFile::Foreign;
    }
    let b = k - 1;
    assert(last_index_of(name@, 91u8) == b);
    let title = slice_bytes(name, 0, b - 1);
    let id = slice_bytes(name, b + 1, b + 1 + ID_LEN);
    assert(title@ =~= name@.take(b - 1));
    LocalFile::Item(Song::new(title, id, None))
}

/// The items of the files that the tool fetched, in the order of `names`.
pub open spec fn local_items_spec(names: Seq<Seq<u8>>) -> Seq<SongView>
    decreases names.len(),
{
    if names.len() == 0 {
        Seq::empty()
    } else {
        let p = local_items_spec(names.drop_last());
        match local_file_spec(names.last()) {
            Some(Some(s)) => p.push(s),
            _ => p,
        }
    }
}

/// The items of the files that the tool fetched, in the order of `names`.
pub fn collect_local_items(names: &Vec<Vec<u8>>) -> (r: Vec<Song>)
    ensures
        song_views(r@) == local_items_spec(byte_views(names@)),
{
    let mut r: Vec<Song> = Vec::new();
    let mut i: usize = 0;
    while i < names.len()
        invariant
            0 <= i <= names@.len(),
            song_views(r@) == local_items_spec(byte_views(names@).take(i as int)),
        decreases names@.len() - i,
    {
        let ghost before = song_views(r@);
        assert(byte_views(names@).take(i + 1).drop_last() =~= byte_views(names@).take(i as int));
        assert(byte_views(names@).take(i + 1).last() == names@[i as int]@);
        match classify_local_file(&names[i]) {
            LocalFile::Item(s) => {
                r.push(s);
                assert(song_views(r@) =~= before.push(s@));
            },
            _ => {
                assert(song_views(r@) =~= before);
            },
        }
        i += 1;
    }
    assert(byte_views(names@).take(i as int) =~= byte_views(names@));
    r
}

/// A snapshot rebuilt from the files present: the title and locator of the
/// playlist, and one item without locator per fetched file.
pub fn rebuilt_snapshot(title: &Vec<u8>, url: &Vec<u8>, names: &Vec<Vec<u8>>) -> (r: Snapshot)
    ensures
        r@ == (SnapshotView { title: title@, url: url@, songs: local_items_spec(byte_views(names@)) }),
{
    Snapshot { playlist_title: title.clone(), playlist_url: url.clone(), songs: collect_local_items(names) }
}

/// What `regex::escape` makes of the text of an identifier.
pub uninterp spec fn regex_escaped(id: Seq<u8>) -> Seq<u8>;

/// Relies on `regex::escape`, applied to the bytes read as UTF-8 (an invalid
/// sequence read as U+FFFD): a backslash before each regex meta character;
/// the result depends on the bytes alone.
#[verifier::external_body]
fn escape_id(id: &Vec<u8>) -> (r: Vec<u8>)
    ensures
        r@ == regex_escaped(id@),
{
    regex::escape(&String::from_utf8_lossy(id)).into_bytes()
}

/// `parts` joined with `|`.
pub open spec fn joined_alternatives(parts: Seq<Seq<u8>>) -> Seq<u8>
    decreases parts.len(),
{
    if parts.len() == 0 {
        Seq::empty()
    } else if parts.len() == 1 {
        parts[0]
    } else {
        joined_alternatives(parts.drop_last()) + seq![124u8] + parts.last()
    }
}

/// The filter that excludes the already escaped identifiers `escaped`, or
/// none when there are none.
pub open spec fn reject_filter_spec(escaped: Seq<Seq<u8>>) -> Option<Seq<u8>> {
    if escaped.len() == 0 {
        None
    } else {
        Some(reject_filter_head() + joined_alternatives(escaped))
    }
}

/// Builds the filter from identifiers that are already escaped.
pub fn reject_filter_of_escaped(escaped: &Vec<Vec<u8>>) -> (r: Option<Vec<u8>>)
    ensures
        match r {
            Some(f) => reject_filter_spec(byte_views(escaped@)) == Some(f@),
            None => reject_filter_spec(byte_views(escaped@)) is None,
        },
{
    if escaped.len() == 0 {
        return None;
    }
    let ghost ev = byte_views(escaped@);
    let mut body: Vec<u8> = Vec::new();
    append_bytes(&mut body, &escaped[0]);
    assert(ev.take(1) =~= seq![ev[0]]);
    let mut i: usize = 1;
    while i < escaped.len()
        invariant
            1 <= i <= escaped@.len(),
            ev == byte_views(escaped@),
            body@ == joined_alternatives(ev.take(i as int)),
        decreases escaped@.len() - i,
    {
        body.push(124);
        append_bytes(&mut body, &escaped[i]);
        assert(ev.take(i + 1).drop_last() =~= ev.take(i as int));
        i += 1;
    }
    assert(ev.take(i as int) =~= ev);
    let mut f = reject_filter_head_bytes();
    append_bytes(&mut f, &body);
    Some(f)
}

/// The identifiers of `songs`, each escaped for a regular expression.
pub open spec fn escaped_ids(songs: Seq<SongView>) -> Seq<Seq<u8>> {
    songs.map_values(|s: SongView| regex_escaped(s.id))
}

/// The match filter that keeps the tool from fetching `songs` again, or none
/// when there are none.
pub fn reject_filter(songs: &Vec<Song>) -> (r: Option<Vec<u8>>)
    ensures
        match r {
            Some(f) => reject_filter_spec(escaped_ids(song_views(songs@))) == Some(f@),
            None => reject_filter_spec(escaped_ids(song_views(songs@))) is None,
        },
{
    let mut escaped: Vec<Vec<u8>> = Vec::new();
    let mut i: usize = 0;
    while i < songs.len()
        invariant
            0 <= i <= songs@.len(),
            byte_views(escaped@) == escaped_ids(song_views(songs@)).take(i as int),
        decreases songs@.len() - i,
    {
        let ghost before = byte_views(escaped@);
        let e = escape_id(&songs[i].id);
        escaped.push(e);
        assert(byte_views(escaped@) =~= before.push(e@));
        assert(song_views(songs@)[i as int].id == songs@[i as int].id@);
        assert(escaped_ids(song_views(songs@)).take(i + 1) =~= escaped_ids(song_views(songs@)).take(
            i as int,
        ).push(regex_escaped(songs@[i as int].id@)));
        i += 1;
    }
    assert(escaped_ids(song_views(songs@)).take(i as int) =~= escaped_ids(song_views(songs@)));
    reject_filter_of_escaped(&escaped)
}

/// The locators of `songs`, if every one of them has one.
pub open spec fn locators_spec(songs: Seq<SongView>) -> Option<Seq<Seq<u8>>> {
    if forall|i: int| 0 <= i < songs.len() ==> (#[trigger] songs[i]).url is Some {
        Some(songs.map_values(|s: SongView| s.url.unwrap()))
    } else {
        None
    }
}

/// The locators of `songs`, if every one of them has one.
pub fn locators_of(songs: &Vec<Song>) -> (r: Option<Vec<Vec<u8>>>)
    ensures
        match r {
            Some(v) => locators_spec(song_views(songs@)) == Some(byte_views(v@)),
            None => locators_spec(song_views(songs@)) is None,
        },
{
    let mut r: Vec<Vec<u8>> = Vec::new();
    let mut i: usize = 0;
    while i < songs.len()
        invariant
            0 <= i <= songs@.len(),
            r@.len() == i,
            forall|j: int| 0 <= j < i ==> (#[trigger] song_views(songs@)[j]).url is Some,
            byte_views(r@) == song_views(songs@).take(i as int).map_values(|s: SongView| s.url.unwrap()),
        decreases songs@.len() - i,
    {
        match songs[i].url() {
            Some(u) => {
                let ghost before = byte_views(r@);
                r.push(u);
                assert(byte_views(r@) =~= before.push(u@));
                assert(song_views(songs@).take(i + 1).map_values(|s: SongView| s.url.unwrap())
                    =~= song_views(songs@).take(i as int).map_values(|s: SongView| s.url.unwrap()).push(
                    u@,
                ));
                i += 1;
            },
            None => {
                assert(song_views(songs@)[i as int].url is None);
                return None;
            },
        }
    }
    assert(song_views(songs@).take(i as int) =~= song_views(songs@));
    Some(r)
}

/// The local file names of `songs` with extension `ext`.
pub fn file_names_of(songs: &Vec<Song>, ext: &Vec<u8>) -> (r: Vec<Vec<u8>>)
    ensures
        byte_views(r@) == song_views(songs@).map_values(|s: SongView| crate::snapshot::file_name_of(s, ext@)),
{
    let mut r: Vec<Vec<u8>> = Vec::new();
    let mut i: usize = 0;
    while i < songs.len()
        invariant
            0 <= i <= songs@.len(),
            byte_views(r@) == song_views(songs@).take(i as int).map_values(
                |s: SongView| crate::snapshot::file_name_of(s, ext@),
            ),
        decreases songs@.len() - i,
    {
        let ghost before = byte_views(r@);
        let f = songs[i].into_filename(ext);
        r.push(f);
        assert(byte_views(r@) =~= before.push(f@));
        assert(song_views(songs@).take(i + 1).map_values(
            |s: SongView| crate::snapshot::file_name_of(s, ext@),
        ) =~= song_views(songs@).take(i as int).map_values(
            |s: SongView| crate::snapshot::file_name_of(s, ext@),
        ).push(f@));
        i += 1;
    }
    assert(song_views(songs@).take(i as int) =~= song_views(songs@));
    r
}

/// `mp3`
pub open spec fn mp3() -> Seq<u8> {
    seq![109u8, 112, 51]
}

proof fn lemma_last_index_plain_tail(s: Seq<u8>, t: Seq<u8>, b: u8)
    requires
        !t.contains(b),
    ensures
        last_index_of(s + t, b) == last_index_of(s, b),
    decreases t.len(),
{
    if t.len() == 0 {
        assert(s + t =~= s);
    } else {
        assert((s + t).drop_last() =~= s + t.drop_last());
        assert(t[t.len() - 1] == t.last());
        assert(!t.drop_last().contains(b)) by {
            if t.drop_last().contains(b) {
                let j = choose|j: int| 0 <= j < t.drop_last().len() && t.drop_last()[j] == b;
                assert(t[j] == b);
            }
        }
        lemma_last_index_plain_tail(s, t.drop_last(), b);
    }
}

/// The file that a song is saved under reads back as that song, without its
/// locator, when its identifier has eleven bytes and no `[`.
pub proof fn lemma_file_name_round_trip(s: SongView)
    requires
        s.id.len() == ID_LEN,
        !s.id.contains(91u8),
    ensures
        local_file_spec(crate::snapshot::file_name_of(s, mp3())) == Some(
            Some(SongView { title: s.title, id: s.id, url: None }),
        ),
{
    let name = crate::snapshot::file_name_of(s, mp3());
    let head = s.title + seq![32u8, 91];
    let tail = s.id + seq![93u8, 46] + mp3();
    assert(name =~= head + tail);
    assert(!tail.contains(91u8)) by {
        if tail.contains(91u8) {
            let j = choose|j: int| 0 <= j < tail.len() && tail[j] == 91u8;
            if j < s.id.len() {
                assert(s.id[j] == 91u8);
            }
        }
    }
    lemma_last_index_plain_tail(head, tail, 91u8);
    assert(head.drop_last() + seq![91u8] =~= head);
    assert(last_index_of(head, 91u8) == s.title.len() + 1);
    let k: int = s.title.len() as int + 1;
    assert(name.skip(name.len() - audio_ext().len()) =~= audio_ext());
    assert(name.take(k - 1) =~= s.title);
    assert(name.subrange(k + 1, k + 1 + ID_LEN as int) =~= s.id);
}

} // verus!
