//! The line format of a snapshot file.
//!
//! The first line is `playlist_title=<T><SEP>url=<U>`; each further line is
//! `title=<T><SEP>id=<I><SEP>url=<U>`, with an empty `<U>` for an item that
//! has no locator. `<SEP>` is the control byte 0x06. Lines end in `\n`; one
//! `\r` before it is dropped when reading.
use vstd::prelude::*;

use crate::bytes::{append_bytes, byte_views, has_prefix, starts_with, tail_from};
use crate::snapshot::{Snapshot, SnapshotView, Song, SongView, song_views};

verus! {

/// The byte that separates the fields of a line.
pub const SEP: u8 = 6;

/// The byte that ends a line.
pub const NEWLINE: u8 = 10;

/// The byte that may stand before the end of a line.
pub const CARRIAGE_RETURN: u8 = 13;

/// Why a snapshot file could not be read.
#[derive(Debug, Clone, Copy, PartialEq, Eq)]
pub enum ManifestError {
    /// The line with this 1-based number does not have the required fields.
    InvalidFormat { line: usize },
    /// The file ends before its first item.
    UnexpectedEnd,
}

/// The pieces of `s` between the occurrences of `sep`; there is always at
/// least one piece.
pub open spec fn split_on(s: Seq<u8>, sep: u8) -> Seq<Seq<u8>>
    decreases s.len(),
{
    if s.len() == 0 {
        seq![Seq::<u8>::empty()]
    } else {
        let p = split_on(s.drop_last(), sep);
        if s.last() == sep {
            p.push(Seq::<u8>::empty())
        } else {
            p.update(p.len() - 1, p.last().push(s.last()))
        }
    }
}

/// `line` without one trailing carriage return.
pub open spec fn strip_cr(line: Seq<u8>) -> Seq<u8> {
    if line.len() > 0 && line.last() == CARRIAGE_RETURN {
        line.drop_last()
    } else {
        line
    }
}

/// The lines of a file: the pieces between newlines, without the empty piece
/// after a final newline, each without a trailing carriage return.
pub open spec fn text_lines(b: Seq<u8>) -> Seq<Seq<u8>> {
    let p = split_on(b, NEWLINE);
    let q = if p.last().len() == 0 { p.drop_last() } else { p };
    q.map_values(|l: Seq<u8>| strip_cr(l))
}

/// `playlist_title=`
pub open spec fn header_title_key() -> Seq<u8> {
    seq![112u8, 108, 97, 121, 108, 105, 115, 116, 95, 116, 105, 116, 108, 101, 61]
}

/// `title=`
pub open spec fn title_key() -> Seq<u8> {
    seq![116u8, 105, 116, 108, 101, 61]
}

/// `id=`
pub open spec fn id_key() -> Seq<u8> {
    seq![105u8, 100, 61]
}

/// `url=`
pub open spec fn url_key() -> Seq<u8> {
    seq![117u8, 114, 108, 61]
}


/// Title and locator of a header line.
pub open spec fn header_spec(line: Seq<u8>) -> Option<(Seq<u8>, Seq<u8>)> {
    let f = split_on(line, SEP);
    if f.len() >= 2 && starts_with(f[0], header_title_key()) && starts_with(f[1], url_key()) {
        Some((f[0].skip(header_title_key().len() as int), f[1].skip(url_key().len() as int)))
    } else {
        None
    }
}

/// The item of an item line; an empty locator field means no locator.
pub open spec fn entry_spec(line: Seq<u8>) -> Option<SongView> {
    let f = split_on(line, SEP);
    if f.len() >= 3 && starts_with(f[0], title_key()) && starts_with(f[1], id_key())
        && starts_with(f[2], url_key()) {
        Some(
            SongView {
                title: f[0].skip(title_key().len() as int),
                id: f[1].skip(id_key().len() as int),
                url: if f[2].len() > url_key().len() {
                    Some(f[2].skip(url_key().len() as int))
                } else {
                    None
                },
            },
        )
    } else {
        None
    }
}

/// The items of the item lines `ls`, or the index in `ls` of the first line
/// that is not an item line.
pub open spec fn entries_spec(ls: Seq<Seq<u8>>) -> Result<Seq<SongView>, int>
    decreases ls.len(),
{
    if ls.len() == 0 {
        Ok(Seq::empty())
    } else {
        match entries_spec(ls.drop_last()) {
            Err(k) => Err(k),
            Ok(songs) => match entry_spec(ls.last()) {
                Some(s) => Ok(songs.push(s)),
                None => Err(ls.len() - 1),
            },
        }
    }
}

/// What reading the bytes `b` of a snapshot file gives.
pub open spec fn parse_spec(b: Seq<u8>) -> Result<SnapshotView, ManifestError> {
    let ls = text_lines(b);
    if ls.len() == 0 {
        Err(ManifestError::UnexpectedEnd)
    } else {
        match header_spec(ls[0]) {
            None => Err(ManifestError::InvalidFormat { line: 1 }),
            Some((title, url)) => match entries_spec(ls.skip(1)) {
                Err(k) => Err(ManifestError::InvalidFormat { line: (k + 2) as usize }),
                Ok(songs) => if ls.len() == 1 {
                    Err(ManifestError::UnexpectedEnd)
                } else {
                    Ok(SnapshotView { title, url, songs })
                },
            },
        }
    }
}

/// The values of a read result.
pub open spec fn parse_result_view(r: Result<Snapshot, ManifestError>) -> Result<SnapshotView, ManifestError> {
    match r {
        Ok(s) => Ok(s@),
        Err(e) => Err(e),
    }
}

/// Splits `s` at every `sep`.
pub fn split_bytes(s: &Vec<u8>, sep: u8) -> (r: Vec<Vec<u8>>)
    ensures
        byte_views(r@) == split_on(s@, sep),
{
    let mut out: Vec<Vec<u8>> = Vec::new();
    let mut cur: Vec<u8> = Vec::new();
    let mut i: usize = 0;
    while i < s.len()
        invariant
            0 <= i <= s@.len(),
            byte_views(out@).push(cur@) == split_on(s@.take(i as int), sep),
        decreases s@.len() - i,
    {
        let ghost prev = split_on(s@.take(i as int), sep);
        assert(s@.take(i + 1).drop_last() =~= s@.take(i as int));
        if s[i] == sep {
            out.push(cur);
            cur = Vec::new();
            assert(byte_views(out@).push(cur@) =~= prev.push(Seq::<u8>::empty()));
        } else {
            cur.push(s[i]);
            assert(byte_views(out@).push(cur@) =~= prev.update(prev.len() - 1, prev.last().push(s@[i as int])));
        }
        i += 1;
    }
    assert(s@.take(s@.len() as int) =~= s@);
    out.push(cur);
    assert(byte_views(out@) =~= split_on(s@, sep));
    out
}

/// `playlist_title=`
fn header_title_key_bytes() -> (r: Vec<u8>)
    ensures
        r@ == header_title_key(),
{
    let r = vec![112u8, 108, 97, 121, 108, 105, 115, 116, 95, 116, 105, 116, 108, 101, 61];
    assert(r@ =~= header_title_key());
    r
}

/// `title=`
fn title_key_bytes() -> (r: Vec<u8>)
    ensures
        r@ == title_key(),
{
    let r = vec![116u8, 105, 116, 108, 101, 61];
    assert(r@ =~= title_key());
    r
}

/// `id=`
fn id_key_bytes() -> (r: Vec<u8>)
    ensures
        r@ == id_key(),
{
    let r = vec![105u8, 100, 61];
    assert(r@ =~= id_key());
    r
}

/// `url=`
fn url_key_bytes() -> (r: Vec<u8>)
    ensures
        r@ == url_key(),
{
    let r = vec![117u8, 114, 108, 61];
    assert(r@ =~= url_key());
    r
}



fn strip_trailing_cr(line: &mut Vec<u8>)
    ensures
        final(line)@ == strip_cr(old(line)@),
{
    let n = line.len();
    if n > 0 && line[n - 1] == CARRIAGE_RETURN {
        line.pop();
        assert(final(line)@ =~= old(line)@.drop_last());
    }
}

/// Reads a header line.
pub fn parse_header_line(line: &Vec<u8>) -> (r: Option<(Vec<u8>, Vec<u8>)>)
    ensures
        match r {
            Some((t, u)) => header_spec(line@) == Some((t@, u@)),
            None => header_spec(line@) is None,
        },
{
    let f = split_bytes(line, SEP);
    assert(byte_views(f@).len() == f@.len());
    if f.len() < 2 {
        return None;
    }
    let tk = header_title_key_bytes();
    let uk = url_key_bytes();
    if has_prefix(&f[0], &tk) && has_prefix(&f[1], &uk) {
        let t = tail_from(&f[0], tk.len());
        let u = tail_from(&f[1], uk.len());
        Some((t, u))
    } else {
        None
    }
}

/// Reads an item line.
pub fn parse_entry_line(line: &Vec<u8>) -> (r: Option<Song>)
    ensures
        match r {
            Some(s) => entry_spec(line@) == Some(s@),
            None => entry_spec(line@) is None,
        },
{
    let f = split_bytes(line, SEP);
    assert(byte_views(f@).len() == f@.len());
    if f.len() < 3 {
        return None;
    }
    let tk = title_key_bytes();
    let ik = id_key_bytes();
    let uk = url_key_bytes();
    if has_prefix(&f[0], &tk) && has_prefix(&f[1], &ik) && has_prefix(&f[2], &uk) {
        let title = tail_from(&f[0], tk.len());
        let id = tail_from(&f[1], ik.len());
        let url = if f[2].len() > uk.len() {
            Some(tail_from(&f[2], uk.len()))
        } else {
            None
        };
        let s = Song::new(title, id, url);
        Some(s)
    } else {
        None
    }
}

proof fn lemma_split_nonempty(s: Seq<u8>, sep: u8)
    ensures
        split_on(s, sep).len() >= 1,
    decreases s.len(),
{
    if s.len() > 0 {
        lemma_split_nonempty(s.drop_last(), sep);
    }
}

/// Once a prefix of the item lines holds a bad line, so does every extension.
proof fn lemma_entries_err_extends(ls: Seq<Seq<u8>>, n: int)
    requires
        0 <= n <= ls.len(),
        entries_spec(ls.take(n)) is Err,
    ensures
        entries_spec(ls) == entries_spec(ls.take(n)),
    decreases ls.len() - n,
{
    if n == ls.len() {
        assert(ls.take(n) =~= ls);
    } else {
        assert(ls.drop_last().take(n) =~= ls.take(n));
        lemma_entries_err_extends(ls.drop_last(), n);
    }
}

/// Reads a snapshot file.
pub fn parse_manifest(bytes: &Vec<u8>) -> (r: Result<Snapshot, ManifestError>)
    ensures
        parse_result_view(r) == parse_spec(bytes@),
{
    let lines = split_text_lines(bytes);
    let ghost ls = text_lines(bytes@);
    assert(byte_views(lines@).len() == lines@.len());
    let count = lines.len();
    if count == 0 {
        return Err(ManifestError::UnexpectedEnd);
    }
    let (title, url) = match parse_header_line(&lines[0]) {
        None => {
            return Err(ManifestError::InvalidFormat { line: 1 });
        },
        Some(h) => h,
    };
    let ghost items = ls.skip(1);
    let mut songs: Vec<Song> = Vec::new();
    let mut k: usize = 1;
    assert(items.take(0) =~= Seq::<Seq<u8>>::empty());
    assert(song_views(songs@) =~= Seq::<SongView>::empty());
    while k < count
        invariant
            1 <= k <= count,
            count == lines@.len(),
            ls == byte_views(lines@),
            ls == text_lines(bytes@),
            items == ls.skip(1),
            header_spec(ls[0]) == Some((title@, url@)),
            entries_spec(items.take(k - 1)) == Ok::<Seq<SongView>, int>(song_views(songs@)),
        decreases count - k,
    {
        let ghost before = song_views(songs@);
        assert(items.take(k as int).drop_last() =~= items.take(k - 1));
        assert(items.take(k as int).last() == lines@[k as int]@);
        match parse_entry_line(&lines[k]) {
            None => {
                assert(entries_spec(items.take(k as int)) == Err::<Seq<SongView>, int>(k - 1));
                proof {
                    lemma_entries_err_extends(items, k as int);
                }
                return Err(ManifestError::InvalidFormat { line: k + 1 });
            },
            Some(s) => {
                songs.push(s);
                assert(song_views(songs@) =~= before.push(s@));
                assert(entries_spec(items.take(k as int)) == Ok::<Seq<SongView>, int>(before.push(s@)));
            },
        }
        k += 1;
    }
    assert(items.take(count - 1) =~= items);
    if count == 1 {
        return Err(ManifestError::UnexpectedEnd);
    }
    Ok(Snapshot { playlist_title: title, playlist_url: url, songs })
}

/// The header line, without its newline.
pub open spec fn header_line_spec(title: Seq<u8>, url: Seq<u8>) -> Seq<u8> {
    header_title_key() + title + seq![SEP] + url_key() + url
}

/// The line of an item, without its newline.
pub open spec fn entry_line_spec(s: SongView) -> Seq<u8> {
    title_key() + s.title + seq![SEP] + id_key() + s.id + seq![SEP] + url_key() + match s.url {
        Some(u) => u,
        None => Seq::empty(),
    }
}

/// Lines joined, each followed by a newline.
pub open spec fn lines_bytes(ls: Seq<Seq<u8>>) -> Seq<u8>
    decreases ls.len(),
{
    if ls.len() == 0 {
        Seq::empty()
    } else {
        lines_bytes(ls.drop_last()) + ls.last() + seq![NEWLINE]
    }
}

/// The file that holds a snapshot.
pub open spec fn serialize_spec(v: SnapshotView) -> Seq<u8> {
    lines_bytes(
        seq![header_line_spec(v.title, v.url)] + v.songs.map_values(|s: SongView| entry_line_spec(s)),
    )
}

/// The header line of a snapshot file, newline included.
pub fn header_line(title: &Vec<u8>, url: &Vec<u8>) -> (r: Vec<u8>)
    ensures
        r@ == header_line_spec(title@, url@) + seq![NEWLINE],
{
    let mut r = header_title_key_bytes();
    append_bytes(&mut r, title);
    r.push(SEP);
    let k = url_key_bytes();
    append_bytes(&mut r, &k);
    append_bytes(&mut r, url);
    r.push(NEWLINE);
    assert(r@ =~= header_line_spec(title@, url@) + seq![NEWLINE]);
    r
}

/// The line of one item, newline included.
pub fn entry_line(s: &Song) -> (r: Vec<u8>)
    ensures
        r@ == entry_line_spec(s@) + seq![NEWLINE],
{
    let mut r = title_key_bytes();
    append_bytes(&mut r, &s.title);
    r.push(SEP);
    let ik = id_key_bytes();
    append_bytes(&mut r, &ik);
    append_bytes(&mut r, &s.id);
    r.push(SEP);
    let uk = url_key_bytes();
    append_bytes(&mut r, &uk);
    match &s.url {
        Some(u) => append_bytes(&mut r, u),
        None => {},
    }
    r.push(NEWLINE);
    assert(r@ =~= entry_line_spec(s@) + seq![NEWLINE]);
    r
}

/// Writes a snapshot in the line format.
pub fn serialize_manifest(snap: &Snapshot) -> (r: Vec<u8>)
    ensures
        r@ == serialize_spec(snap@),
{
    let mut r = header_line(&snap.playlist_title, &snap.playlist_url);
    let ghost head = seq![header_line_spec(snap@.title, snap@.url)];
    let ghost all = head + snap@.songs.map_values(|s: SongView| entry_line_spec(s));
    assert(head =~= all.take(1));
    assert(lines_bytes(head.drop_last()) =~= Seq::<u8>::empty());
    assert(r@ =~= lines_bytes(all.take(1)));
    let mut i: usize = 0;
    while i < snap.songs.len()
        invariant
            0 <= i <= snap.songs@.len(),
            all.len() == snap.songs@.len() + 1,
            all == seq![header_line_spec(snap@.title, snap@.url)] + snap@.songs.map_values(
                |s: SongView| entry_line_spec(s),
            ),
            r@ == lines_bytes(all.take(i + 1)),
        decreases snap.songs@.len() - i,
    {
        let line = entry_line(&snap.songs[i]);
        append_bytes(&mut r, &line);
        assert(all.take(i + 2).drop_last() =~= all.take(i + 1));
        assert(all[i + 1] == entry_line_spec(snap.songs@[i as int]@));
        assert(r@ =~= lines_bytes(all.take(i + 2)));
        i += 1;
    }
    assert(all.take(all.len() as int) =~= all);
    r
}

/// A field that the line format carries unchanged: it holds neither the
/// separator nor a newline.
pub open spec fn plain_field(f: Seq<u8>) -> bool {
    !f.contains(SEP) && !f.contains(NEWLINE)
}

/// A field that may end a line: plain, and not ending in a carriage return.
pub open spec fn plain_last_field(f: Seq<u8>) -> bool {
    plain_field(f) && (f.len() > 0 ==> f.last() != CARRIAGE_RETURN)
}

/// An item whose fields the line format carries unchanged; a locator, if
/// present, is not empty.
pub open spec fn plain_song(s: SongView) -> bool {
    &&& plain_field(s.title)
    &&& plain_field(s.id)
    &&& match s.url {
        Some(u) => u.len() > 0 && plain_last_field(u),
        None => true,
    }
}

/// A snapshot that the line format can hold: at least one item, and fields
/// that can be written unchanged.
pub open spec fn representable(v: SnapshotView) -> bool {
    &&& v.songs.len() > 0
    &&& plain_field(v.title)
    &&& plain_last_field(v.url)
    &&& forall|i: int| 0 <= i < v.songs.len() ==> plain_song(#[trigger] v.songs[i])
}

proof fn lemma_split_append_plain(a: Seq<u8>, b: Seq<u8>, sep: u8)
    requires
        !b.contains(sep),
    ensures
        split_on(a + b, sep) == split_on(a, sep).update(
            split_on(a, sep).len() - 1,
            split_on(a, sep).last() + b,
        ),
    decreases b.len(),
{
    lemma_split_nonempty(a, sep);
    if b.len() == 0 {
        assert(a + b =~= a);
        assert(split_on(a, sep).last() + b =~= split_on(a, sep).last());
        assert(split_on(a, sep).update(split_on(a, sep).len() - 1, split_on(a, sep).last())
            =~= split_on(a, sep));
    } else {
        let b0 = b.drop_last();
        assert(!b0.contains(sep)) by {
            if b0.contains(sep) {
                let j = choose|j: int| 0 <= j < b0.len() && b0[j] == sep;
                assert(b[j] == sep);
            }
        }
        lemma_split_append_plain(a, b0, sep);
        assert((a + b).drop_last() =~= a + b0);
        assert((a + b).last() == b.last());
        assert(b.last() != sep) by {
            assert(b[b.len() - 1] == b.last());
        }
        assert(split_on(a, sep).last() + b0 + seq![b.last()] =~= split_on(a, sep).last() + b);
        assert((split_on(a, sep).last() + b0).push(b.last()) =~= split_on(a, sep).last() + b);
        lemma_split_nonempty(a + b0, sep);
        assert(split_on(a + b, sep) =~= split_on(a, sep).update(
            split_on(a, sep).len() - 1,
            split_on(a, sep).last() + b,
        ));
    }
}

proof fn lemma_split_append_sep(a: Seq<u8>, sep: u8)
    ensures
        split_on(a + seq![sep], sep) == split_on(a, sep).push(Seq::<u8>::empty()),
{
    assert((a + seq![sep]).drop_last() =~= a);
}

/// A plain piece after a separator becomes a piece of its own.
proof fn lemma_split_piece(a: Seq<u8>, b: Seq<u8>, sep: u8)
    requires
        !b.contains(sep),
    ensures
        split_on(a + seq![sep] + b, sep) == split_on(a, sep).push(b),
{
    lemma_split_append_sep(a, sep);
    lemma_split_append_plain(a + seq![sep], b, sep);
    assert(Seq::<u8>::empty() + b =~= b);
    assert(split_on(a, sep).push(Seq::<u8>::empty()).update(split_on(a, sep).len() as int, b)
        =~= split_on(a, sep).push(b));
}

proof fn lemma_split_plain(b: Seq<u8>, sep: u8)
    requires
        !b.contains(sep),
    ensures
        split_on(b, sep) == seq![b],
{
    lemma_split_append_plain(Seq::empty(), b, sep);
    assert(Seq::<u8>::empty() + b =~= b);
    assert(seq![Seq::<u8>::empty()].update(0, Seq::<u8>::empty() + b) =~= seq![b]);
}

proof fn lemma_concat_plain(a: Seq<u8>, b: Seq<u8>, c: u8)
    requires
        !a.contains(c),
        !b.contains(c),
    ensures
        !(a + b).contains(c),
{
    if (a + b).contains(c) {
        let j = choose|j: int| 0 <= j < (a + b).len() && (a + b)[j] == c;
        if j < a.len() {
            assert(a[j] == c);
        } else {
            assert(b[j - a.len()] == c);
        }
    }
}

proof fn lemma_keys_plain()
    ensures
        plain_field(header_title_key()),
        plain_field(title_key()),
        plain_field(id_key()),
        plain_field(url_key()),
{
    let k = header_title_key();
    assert forall|c: u8| k.contains(c) implies c >= 61 by {
        let j = choose|j: int| 0 <= j < k.len() && k[j] == c;
    }
    let k = title_key();
    assert forall|c: u8| k.contains(c) implies c >= 61 by {
        let j = choose|j: int| 0 <= j < k.len() && k[j] == c;
    }
    let k = id_key();
    assert forall|c: u8| k.contains(c) implies c >= 61 by {
        let j = choose|j: int| 0 <= j < k.len() && k[j] == c;
    }
    let k = url_key();
    assert forall|c: u8| k.contains(c) implies c >= 61 by {
        let j = choose|j: int| 0 <= j < k.len() && k[j] == c;
    }
}

proof fn lemma_prefix_of_concat(k: Seq<u8>, t: Seq<u8>)
    ensures
        starts_with(k + t, k),
        (k + t).skip(k.len() as int) == t,
{
    assert((k + t).take(k.len() as int) =~= k);
    assert((k + t).skip(k.len() as int) =~= t);
}

proof fn lemma_header_line(title: Seq<u8>, url: Seq<u8>)
    requires
        plain_field(title),
        plain_field(url),
    ensures
        header_spec(header_line_spec(title, url)) == Some((title, url)),
        plain_field(header_line_spec(title, url)) || !header_line_spec(title, url).contains(NEWLINE),
{
    lemma_keys_plain();
    let f0 = header_title_key() + title;
    let f1 = url_key() + url;
    lemma_concat_plain(header_title_key(), title, SEP);
    lemma_concat_plain(url_key(), url, SEP);
    lemma_split_plain(f0, SEP);
    lemma_split_piece(f0, f1, SEP);
    assert(header_line_spec(title, url) =~= f0 + seq![SEP] + f1);
    lemma_prefix_of_concat(header_title_key(), title);
    lemma_prefix_of_concat(url_key(), url);
    lemma_concat_plain(header_title_key(), title, NEWLINE);
    lemma_concat_plain(url_key(), url, NEWLINE);
    assert(!seq![SEP].contains(NEWLINE)) by {
        if seq![SEP].contains(NEWLINE) {
            let j = choose|j: int| 0 <= j < 1 && seq![SEP][j] == NEWLINE;
        }
    }
    lemma_concat_plain(f0, seq![SEP], NEWLINE);
    lemma_concat_plain(f0 + seq![SEP], f1, NEWLINE);
}

proof fn lemma_entry_line(s: SongView)
    requires
        plain_song(s),
    ensures
        entry_spec(entry_line_spec(s)) == Some(s),
        !entry_line_spec(s).contains(NEWLINE),
{
    lemma_keys_plain();
    let u = match s.url {
        Some(u) => u,
        None => Seq::<u8>::empty(),
    };
    assert(plain_field(u));
    let f0 = title_key() + s.title;
    let f1 = id_key() + s.id;
    let f2 = url_key() + u;
    lemma_concat_plain(title_key(), s.title, SEP);
    lemma_concat_plain(id_key(), s.id, SEP);
    lemma_concat_plain(url_key(), u, SEP);
    lemma_split_plain(f0, SEP);
    lemma_split_piece(f0, f1, SEP);
    lemma_split_piece(f0 + seq![SEP] + f1, f2, SEP);
    assert(entry_line_spec(s) =~= f0 + seq![SEP] + f1 + seq![SEP] + f2);
    lemma_prefix_of_concat(title_key(), s.title);
    lemma_prefix_of_concat(id_key(), s.id);
    lemma_prefix_of_concat(url_key(), u);
    lemma_concat_plain(title_key(), s.title, NEWLINE);
    lemma_concat_plain(id_key(), s.id, NEWLINE);
    lemma_concat_plain(url_key(), u, NEWLINE);
    assert(!seq![SEP].contains(NEWLINE)) by {
        if seq![SEP].contains(NEWLINE) {
            let j = choose|j: int| 0 <= j < 1 && seq![SEP][j] == NEWLINE;
        }
    }
    lemma_concat_plain(f0, seq![SEP], NEWLINE);
    lemma_concat_plain(f0 + seq![SEP], f1, NEWLINE);
    lemma_concat_plain(f0 + seq![SEP] + f1, seq![SEP], NEWLINE);
    lemma_concat_plain(f0 + seq![SEP] + f1 + seq![SEP], f2, NEWLINE);
    assert(f2.len() > url_key().len() <==> s.url is Some);
    match s.url {
        Some(v) => {
            assert(entry_spec(entry_line_spec(s)) =~= Some(s));
        },
        None => {
            assert(entry_spec(entry_line_spec(s)) =~= Some(s));
        },
    }
}

proof fn lemma_split_lines(ls: Seq<Seq<u8>>)
    requires
        forall|i: int| 0 <= i < ls.len() ==> !(#[trigger] ls[i]).contains(NEWLINE),
    ensures
        split_on(lines_bytes(ls), NEWLINE) == ls.push(Seq::<u8>::empty()),
    decreases ls.len(),
{
    if ls.len() == 0 {
        assert(split_on(Seq::<u8>::empty(), NEWLINE) =~= seq![Seq::<u8>::empty()]);
        assert(ls.push(Seq::<u8>::empty()) =~= seq![Seq::<u8>::empty()]);
    } else {
        let prev = ls.drop_last();
        lemma_split_lines(prev);
        let c = ls.last();
        assert(!c.contains(NEWLINE)) by {
            assert(ls[ls.len() - 1] == c);
        }
        lemma_split_piece(lines_bytes(prev) + c, Seq::<u8>::empty(), NEWLINE);
        lemma_split_append_plain(lines_bytes(prev), c, NEWLINE);
        assert(Seq::<u8>::empty() + c =~= c);
        assert(prev.push(Seq::<u8>::empty()).update(prev.len() as int, c) =~= ls);
        assert(lines_bytes(prev) + c + seq![NEWLINE] + Seq::<u8>::empty() =~= lines_bytes(ls));
    }
}

proof fn lemma_entries_of_lines(songs: Seq<SongView>)
    requires
        forall|i: int| 0 <= i < songs.len() ==> plain_song(#[trigger] songs[i]),
    ensures
        entries_spec(songs.map_values(|s: SongView| entry_line_spec(s))) == Ok::<Seq<SongView>, int>(songs),
    decreases songs.len(),
{
    let ls = songs.map_values(|s: SongView| entry_line_spec(s));
    if songs.len() == 0 {
        assert(songs =~= Seq::<SongView>::empty());
    } else {
        let prev = songs.drop_last();
        lemma_entries_of_lines(prev);
        assert(ls.drop_last() =~= prev.map_values(|s: SongView| entry_line_spec(s)));
        assert(plain_song(songs[songs.len() - 1]));
        lemma_entry_line(songs.last());
        assert(prev.push(songs.last()) =~= songs);
    }
}

/// Reading back what was written gives the snapshot again, for every
/// snapshot that the format can hold.
pub proof fn lemma_parse_serialize_round_trip(v: SnapshotView)
    requires
        representable(v),
    ensures
        parse_spec(serialize_spec(v)) == Ok::<SnapshotView, ManifestError>(v),
{
    let head = header_line_spec(v.title, v.url);
    let items = v.songs.map_values(|s: SongView| entry_line_spec(s));
    let all = seq![head] + items;
    lemma_header_line(v.title, v.url);
    assert forall|i: int| 0 <= i < all.len() implies !(#[trigger] all[i]).contains(NEWLINE) by {
        if i > 0 {
            assert(plain_song(v.songs[i - 1]));
            lemma_entry_line(v.songs[i - 1]);
        } else {
            lemma_keys_plain();
            lemma_concat_plain(header_title_key(), v.title, NEWLINE);
            lemma_concat_plain(url_key(), v.url, NEWLINE);
            assert(!seq![SEP].contains(NEWLINE)) by {
                if seq![SEP].contains(NEWLINE) {
                    let j = choose|j: int| 0 <= j < 1 && seq![SEP][j] == NEWLINE;
                }
            }
            lemma_concat_plain(header_title_key() + v.title, seq![SEP], NEWLINE);
            lemma_concat_plain(header_title_key() + v.title + seq![SEP], url_key() + v.url, NEWLINE);
            assert(head =~= header_title_key() + v.title + seq![SEP] + (url_key() + v.url));
        }
    }
    lemma_split_lines(all);
    let b = serialize_spec(v);
    assert(split_on(b, NEWLINE) == all.push(Seq::<u8>::empty()));
    assert(all.push(Seq::<u8>::empty()).drop_last() =~= all);
    // no line ends in a carriage return
    assert forall|i: int| 0 <= i < all.len() implies strip_cr(#[trigger] all[i]) == all[i] by {
        if i > 0 {
            let s = v.songs[i - 1];
            assert(plain_song(s));
            let u = match s.url {
                Some(u) => u,
                None => Seq::<u8>::empty(),
            };
            assert(all[i] == entry_line_spec(s));
            assert(entry_line_spec(s) =~= title_key() + s.title + seq![SEP] + id_key() + s.id + seq![SEP] + url_key() + u);
            if u.len() > 0 {
                assert(all[i].last() == u.last());
            } else {
                assert(all[i].last() == url_key().last());
            }
        } else {
            assert(head =~= header_title_key() + v.title + seq![SEP] + url_key() + v.url);
            if v.url.len() > 0 {
                assert(head.last() == v.url.last());
            } else {
                assert(head.last() == url_key().last());
            }
        }
    }
    let ls = text_lines(b);
    assert(ls =~= all);
    assert(ls.skip(1) =~= items);
    lemma_entries_of_lines(v.songs);
}

/// Splits `b` into its lines, as [`text_lines`] says.
pub fn split_text_lines(b: &Vec<u8>) -> (r: Vec<Vec<u8>>)
    ensures
        byte_views(r@) == text_lines(b@),
{
    let parts = split_bytes(b, NEWLINE);
    proof {
        lemma_split_nonempty(b@, NEWLINE);
    }
    let ghost p = split_on(b@, NEWLINE);
    assert(byte_views(parts@).len() == parts@.len());
    let mut count = parts.len();
    if parts[count - 1].len() == 0 {
        count -= 1;
    }
    let ghost q = if p.last().len() == 0 { p.drop_last() } else { p };
    assert(q.len() == count);
    let mut r: Vec<Vec<u8>> = Vec::new();
    let mut k: usize = 0;
    while k < count
        invariant
            0 <= k <= count <= parts@.len(),
            q.len() == count,
            p == byte_views(parts@),
            forall|j: int| 0 <= j < count ==> q[j] == p[j],
            byte_views(r@) == q.take(k as int).map_values(|l: Seq<u8>| strip_cr(l)),
        decreases count - k,
    {
        let mut line = parts[k].clone();
        strip_trailing_cr(&mut line);
        let ghost before = byte_views(r@);
        r.push(line);
        assert(byte_views(r@) =~= before.push(line@));
        assert(q.take(k + 1).map_values(|l: Seq<u8>| strip_cr(l)) =~= q.take(k as int).map_values(
            |l: Seq<u8>| strip_cr(l),
        ).push(strip_cr(q[k as int])));
        k += 1;
    }
    assert(q.take(count as int) =~= q);
    r
}

} // verus!
