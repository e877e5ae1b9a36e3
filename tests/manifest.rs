use pl_update::codec::{parse_manifest, serialize_manifest, header_line, entry_line, ManifestError};
use pl_update::delta::{diff, contains_item};
use pl_update::local::{classify_local_file, collect_local_items, rebuilt_snapshot, reject_filter, reject_filter_of_escaped, locators_of, file_names_of, LocalFile};
use pl_update::snapshot::{Snapshot, Song};

fn b(s: &str) -> Vec<u8> {
    s.as_bytes().to_vec()
}

fn song(t: &str, i: &str, u: Option<&str>) -> Song {
    Song::new(b(t), b(i), u.map(b))
}

fn snap(songs: Vec<Song>) -> Snapshot {
    Snapshot { playlist_title: b("Mix"), playlist_url: b("https://example.com/list?l=1"), songs }
}

fn same_songs(a: &[Song], b: &[Song]) -> bool {
    a.len() == b.len() && a.iter().zip(b).all(|(x, y)| x.title == y.title && x.id == y.id && x.url == y.url)
}

#[test]
fn serialize_then_parse_gives_snapshot_back() {
    let s = snap(vec![song("A", "1", Some("u1")), song("B b", "2", None), song("C=", "3", Some("u=3"))]);
    let bytes = serialize_manifest(&s);
    let back = parse_manifest(&bytes).unwrap();
    assert_eq!(back.playlist_title, s.playlist_title);
    assert_eq!(back.playlist_url, s.playlist_url);
    assert!(same_songs(&back.songs, &s.songs));
}

#[test]
fn serialized_layout() {
    let s = snap(vec![song("A", "1", Some("u1")), song("B", "2", None)]);
    let bytes = serialize_manifest(&s);
    assert_eq!(
        bytes,
        b("playlist_title=Mix\x06url=https://example.com/list?l=1\ntitle=A\x06id=1\x06url=u1\ntitle=B\x06id=2\x06url=\n")
    );
    assert_eq!(header_line(&b("T"), &b("U")), b("playlist_title=T\x06url=U\n"));
    assert_eq!(entry_line(&song("x", "y", None)), b("title=x\x06id=y\x06url=\n"));
}

#[test]
fn parse_reads_crlf_lines_and_empty_locator() {
    let bytes = b("playlist_title=P\x06url=L\r\ntitle=A\x06id=1\x06url=\r\ntitle=B\x06id=2\x06url=x\r\n");
    let s = parse_manifest(&bytes).unwrap();
    assert_eq!(s.playlist_title, b("P"));
    assert_eq!(s.playlist_url, b("L"));
    assert_eq!(s.songs.len(), 2);
    assert_eq!(s.songs[0].url, None);
    assert_eq!(s.songs[1].url, Some(b("x")));
}

#[test]
fn parse_without_final_newline() {
    let s = parse_manifest(&b("playlist_title=P\x06url=L\ntitle=A\x06id=1\x06url=z")).unwrap();
    assert_eq!(s.songs.len(), 1);
    assert_eq!(s.songs[0].url, Some(b("z")));
}

#[test]
fn header_only_is_unexpected_end() {
    assert_eq!(parse_manifest(&b("playlist_title=P\x06url=L\n")).unwrap_err(), ManifestError::UnexpectedEnd);
    assert_eq!(parse_manifest(&b("")).unwrap_err(), ManifestError::UnexpectedEnd);
}

#[test]
fn bad_item_line_names_its_line() {
    let bytes = b("playlist_title=P\x06url=L\ntitle=A\x06id=1\x06url=\nname=B\x06id=2\x06url=\ntitle=C\x06id=3\x06url=\n");
    assert_eq!(parse_manifest(&bytes).unwrap_err(), ManifestError::InvalidFormat { line: 3 });
    let short = b("playlist_title=P\x06url=L\ntitle=A\x06id=1\n");
    assert_eq!(parse_manifest(&short).unwrap_err(), ManifestError::InvalidFormat { line: 2 });
    let blank = b("playlist_title=P\x06url=L\n\ntitle=A\x06id=1\x06url=\n");
    assert_eq!(parse_manifest(&blank).unwrap_err(), ManifestError::InvalidFormat { line: 2 });
}

#[test]
fn bad_header_is_line_one() {
    assert_eq!(parse_manifest(&b("title=P\x06url=L\ntitle=A\x06id=1\x06url=\n")).unwrap_err(), ManifestError::InvalidFormat { line: 1 });
    assert_eq!(parse_manifest(&b("playlist_title=P url=L\ntitle=A\x06id=1\x06url=\n")).unwrap_err(), ManifestError::InvalidFormat { line: 1 });
}

#[test]
fn delta_matches_by_identity() {
    let old = snap(vec![song("A", "1", Some("url1")), song("B", "2", Some("url2"))]);
    let new = snap(vec![song("B", "2", Some("url3")), song("C", "3", Some("url4"))]);
    let d = diff(&old, &new);
    assert!(same_songs(&d.added, &[song("C", "3", Some("url4"))]));
    assert!(same_songs(&d.removed, &[song("A", "1", Some("url1"))]));
}

#[test]
fn delta_of_snapshot_with_itself_is_empty() {
    let a = snap(vec![song("A", "1", Some("u")), song("B", "2", None)]);
    let d = diff(&a, &a);
    assert!(d.added.is_empty());
    assert!(d.removed.is_empty());
}

#[test]
fn delta_added_lies_in_new_and_not_in_old() {
    let a = snap(vec![song("A", "1", None), song("B", "2", None), song("D", "4", None)]);
    let bs = snap(vec![song("B", "2", Some("x")), song("C", "3", Some("y")), song("A", "9", Some("z"))]);
    let d = diff(&a, &bs);
    for s in &d.added {
        assert!(contains_item(&bs.songs, s));
        assert!(!contains_item(&a.songs, s));
    }
    for s in &d.removed {
        assert!(contains_item(&a.songs, s));
        assert!(!contains_item(&bs.songs, s));
    }
    assert_eq!(d.added.len(), 2);
    assert_eq!(d.removed.len(), 2);
}

#[test]
fn song_equality_ignores_locator() {
    assert!(song("A", "1", Some("x")) == song("A", "1", None));
    assert!(song("A", "1", None) != song("A", "2", None));
}

#[test]
fn file_name_of_song() {
    assert_eq!(song("Tune", "abcdefghijk", None).into_filename(&b("mp3")), b("Tune [abcdefghijk].mp3"));
    assert_eq!(song("Tune", "abc", Some("u")).url(), Some(b("u")));
}

#[test]
fn local_files_are_told_apart() {
    match classify_local_file(&b("My Tune [abcdefghijk].mp3")) {
        LocalFile::Item(s) => {
            assert_eq!(s.title, b("My Tune"));
            assert_eq!(s.id, b("abcdefghijk"));
            assert_eq!(s.url, None);
        }
        other => panic!("unexpected {:?}", other),
    }
    assert!(matches!(classify_local_file(&b("notes.txt")), LocalFile::Loose));
    assert!(matches!(classify_local_file(&b("My Tune [short].mp3")), LocalFile::Foreign));
    assert!(matches!(classify_local_file(&b("no bracket here.mp3")), LocalFile::Foreign));
}

#[test]
fn rebuilt_snapshot_round_trips_file_names() {
    let names = vec![b("A [aaaaaaaaaaa].mp3"), b("cover.jpg"), b("B [bbbbbbbbbbb].mp3")];
    let items = collect_local_items(&names);
    assert_eq!(items.len(), 2);
    let s = rebuilt_snapshot(&b("P"), &b("L"), &names);
    let bytes = serialize_manifest(&s);
    assert_eq!(bytes, b("playlist_title=P\x06url=L\ntitle=A\x06id=aaaaaaaaaaa\x06url=\ntitle=B\x06id=bbbbbbbbbbb\x06url=\n"));
    let names_back = file_names_of(&s.songs, &b("mp3"));
    assert_eq!(names_back, vec![b("A [aaaaaaaaaaa].mp3"), b("B [bbbbbbbbbbb].mp3")]);
}

#[test]
fn reject_filter_escapes_identifiers() {
    let songs = vec![song("A", "ab-cd.e", None), song("B", "xyz", None)];
    assert_eq!(reject_filter(&songs), Some(b("id !~= ab\\-cd\\.e|xyz")));
    assert_eq!(reject_filter(&vec![]), None);
    assert_eq!(reject_filter_of_escaped(&vec![b("a"), b("b"), b("c")]), Some(b("id !~= a|b|c")));
}

#[test]
fn locators_need_every_item_to_have_one() {
    assert_eq!(locators_of(&vec![song("A", "1", Some("u1")), song("B", "2", Some("u2"))]), Some(vec![b("u1"), b("u2")]));
    assert_eq!(locators_of(&vec![song("A", "1", Some("u1")), song("B", "2", None)]), None);
}

#[test]
fn saved_file_name_reads_back() {
    let s = song("Some [Live] Tune", "Zx9_-abc123", Some("https://example.com/v"));
    match classify_local_file(&s.into_filename(&b("mp3"))) {
        LocalFile::Item(back) => {
            assert_eq!(back.title, s.title);
            assert_eq!(back.id, s.id);
            assert_eq!(back.url, None);
        }
        other => panic!("unexpected {:?}", other),
    }
}

#[test]
fn update_plan_fetches_added_and_deletes_removed() {
    let old = snap(vec![song("A", "1", None), song("B", "2", None)]);
    let new = snap(vec![song("B", "2", Some("url3")), song("C", "3", Some("url4"))]);
    let plan = pl_update::delta::plan_update(&old, &new, &b("mp3")).unwrap();
    assert_eq!(plan.fetch, vec![b("url4")]);
    assert_eq!(plan.delete, vec![b("A [1].mp3")]);
    let broken = snap(vec![song("D", "4", None)]);
    assert!(pl_update::delta::plan_update(&old, &broken, &b("mp3")).is_none());
}
