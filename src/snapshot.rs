//! The in-memory model of a playlist snapshot.
use vstd::prelude::*;

use crate::bytes::{append_bytes, bytes_eq};

verus! {

/// What a [`Song`] is, as values.
pub struct SongView {
    pub title: Seq<u8>,
    pub id: Seq<u8>,
    pub url: Option<Seq<u8>>,
}

/// One playlist item: a title, a stable identifier and, while it still has
/// to be fetched, the locator it is fetched from.
#[derive(Debug, Clone)]
pub struct Song {
    pub title: Vec<u8>,
    pub id: Vec<u8>,
    pub url: Option<Vec<u8>>,
}

/// The contents of an optional byte string.
pub open spec fn opt_bytes_view(o: Option<Vec<u8>>) -> Option<Seq<u8>> {
    match o {
        Some(v) => Some(v@),
        None => None,
    }
}

impl View for Song {
    type V = SongView;

    open spec fn view(&self) -> SongView {
        SongView { title: self.title@, id: self.id@, url: opt_bytes_view(self.url) }
    }
}

/// Two songs are the same item when title and identifier agree; the locator
/// takes no part, so an item already fetched still matches its remote twin.
pub open spec fn same_item(a: SongView, b: SongView) -> bool {
    a.title == b.title && a.id == b.id
}

/// `<title> [<id>].<ext>`
pub open spec fn file_name_of(s: SongView, ext: Seq<u8>) -> Seq<u8> {
    s.title + seq![32u8, 91] + s.id + seq![93u8, 46] + ext
}

impl Song {
    pub fn new(title: Vec<u8>, id: Vec<u8>, url: Option<Vec<u8>>) -> (r: Song)
        ensures
            r.title@ == title@,
            r.id@ == id@,
            opt_bytes_view(r.url) == opt_bytes_view(url),
    {
        Song { title, id, url }
    }

    /// The locator of the song, if it still has one.
    pub fn url(&self) -> (r: Option<Vec<u8>>)
        ensures
            opt_bytes_view(r) == opt_bytes_view(self.url),
    {
        match &self.url {
            Some(u) => Some(u.clone()),
            None => None,
        }
    }

    /// The local file name of the song: `<title> [<id>].<ext>`.
    pub fn into_filename(&self, file_ext: &Vec<u8>) -> (r: Vec<u8>)
        ensures
            r@ == file_name_of(self@, file_ext@),
    {
        let mut r: Vec<u8> = Vec::new();
        append_bytes(&mut r, &self.title);
        r.push(32);
        r.push(91);
        append_bytes(&mut r, &self.id);
        r.push(93);
        r.push(46);
        append_bytes(&mut r, file_ext);
        assert(r@ =~= file_name_of(self@, file_ext@));
        r
    }

    /// Identity comparison: title and identifier.
    pub fn same_as(&self, other: &Song) -> (r: bool)
        ensures
            r == same_item(self@, other@),
    {
        bytes_eq(&self.title, &other.title) && bytes_eq(&self.id, &other.id)
    }
}

impl PartialEq for Song {
    fn eq(&self, other: &Song) -> (r: bool) {
        self.same_as(other)
    }
}

impl vstd::std_specs::cmp::PartialEqSpecImpl for Song {
    open spec fn obeys_eq_spec() -> bool {
        true
    }

    open spec fn eq_spec(&self, other: &Song) -> bool {
        same_item(self@, other@)
    }
}

} // verus!

verus! {

/// What a [`Snapshot`] is, as values.
pub struct SnapshotView {
    pub title: Seq<u8>,
    pub url: Seq<u8>,
    pub songs: Seq<SongView>,
}

/// A playlist at one point in time: its title, its locator and its items in
/// order.
#[derive(Debug, Clone)]
pub struct Snapshot {
    pub playlist_title: Vec<u8>,
    pub playlist_url: Vec<u8>,
    pub songs: Vec<Song>,
}

/// The values of a list of songs.
pub open spec fn song_views(s: Seq<Song>) -> Seq<SongView> {
    s.map_values(|x: Song| x@)
}

impl View for Snapshot {
    type V = SnapshotView;

    open spec fn view(&self) -> SnapshotView {
        SnapshotView {
            title: self.playlist_title@,
            url: self.playlist_url@,
            songs: song_views(self.songs@),
        }
    }
}

} // verus!
