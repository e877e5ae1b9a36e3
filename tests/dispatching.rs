use pl_update::classify::{announced_count, classify_diagnostic, cut_filter_line, parse_decimal, Diagnostic};
use pl_update::commit::{archive_file_name, archive_name_for, CommitError, CommitPhase, CommitProtocol, FileOp, OpResult, Advice};
use pl_update::dispatch::{Dispatch, DispatchError, Level, LineOutcome, Totals, WorkerCounts};
use pl_update::partition::{default_workers, plan_workers};
use pl_update::tool::{acquisition_args, listing_args, playlist_title_from, title_probe_args, worker_args, ProbeError, ToolOptions};

fn b(s: &str) -> Vec<u8> {
    s.as_bytes().to_vec()
}

fn urls(n: usize) -> Vec<Vec<u8>> {
    (0..n).map(|i| format!("u{}", i).into_bytes()).collect()
}

fn sizes(n: usize, max: usize) -> (Vec<usize>, usize) {
    let p = plan_workers(&urls(n), max);
    (p.groups.iter().map(|g| g.len()).collect(), p.dropped)
}

#[test]
fn seven_locators_over_four_workers() {
    let p = plan_workers(&urls(7), 4);
    assert_eq!(p.groups.iter().map(|g| g.len()).collect::<Vec<_>>(), vec![4, 3]);
    assert_eq!(p.dropped, 0);
    assert_eq!(p.groups[0], urls(7)[0..4].to_vec());
    assert_eq!(p.groups[1], urls(7)[4..7].to_vec());
}

#[test]
fn few_locators_go_to_one_worker() {
    assert_eq!(sizes(0, 4), (vec![0], 0));
    assert_eq!(sizes(1, 4), (vec![1], 0));
    assert_eq!(sizes(2, 8), (vec![2], 0));
}

#[test]
fn no_worker_gets_fewer_than_three() {
    for n in 3..60 {
        for max in 1..12 {
            let (s, dropped) = sizes(n, max);
            assert!(s.iter().all(|&k| k >= 3), "n={} max={} sizes={:?}", n, max, s);
            assert!(s.len() <= max);
            assert_eq!(s.iter().sum::<usize>() + dropped, n);
        }
    }
}

#[test]
fn partition_spreads_remainder_and_drops_rest() {
    assert_eq!(sizes(10, 3), (vec![4, 3, 3], 0));
    assert_eq!(sizes(11, 3), (vec![4, 4, 3], 0));
    assert_eq!(sizes(9, 3), (vec![3, 3, 3], 0));
    assert_eq!(sizes(20, 6), (vec![4, 4, 3, 3, 3, 3], 0));
    assert_eq!(sizes(27, 8), (vec![3, 3, 3, 3, 3, 3, 3, 3], 3));
}

#[test]
fn default_worker_counts() {
    assert_eq!(default_workers(1), 1);
    assert_eq!(default_workers(4), 2);
    assert_eq!(default_workers(12), 4);
    assert_eq!(default_workers(32), 8);
}

#[test]
fn unavailable_line_counts_once_and_goes_on() {
    let mut d = Dispatch::new(&vec![41, 42]);
    match d.on_diagnostic_line(1, &b("ERROR: Video unavailable. blah\n")) {
        LineOutcome::Show(l) => {
            assert_eq!(l.level, Level::Error);
            assert_eq!(l.worker, Some(42));
            assert_eq!(l.text, b(" Video unavailable. blah.\n"));
        }
        other => panic!("unexpected {:?}", other),
    }
    assert_eq!(d.workers[1].counts.unavailable, 1);
    assert_eq!(d.workers[0].counts.unavailable, 0);
    assert!(!d.failed());
    let t = d.outcome().unwrap();
    assert_eq!(t.unavailable, 1);
}

#[test]
fn unsupported_url_aborts_the_run() {
    let mut d = Dispatch::new(&vec![7, 8]);
    match d.on_diagnostic_line(0, &b("ERROR: Unsupported URL: https://bad.example/x\n")) {
        LineOutcome::Abort(m) => assert_eq!(m, b(" Unsupported URL: https://bad.example/x\n")),
        other => panic!("unexpected {:?}", other),
    }
    assert!(matches!(d.on_diagnostic_line(0, &b("ERROR: Video unavailable. x\n")), LineOutcome::Ignored));
    assert!(matches!(d.on_output_line(0, &b("[youtube:tab] Playlist X: Downloading 5 items of 5\n")), LineOutcome::Ignored));
    assert!(matches!(d.on_output_line(1, &b("[download] x does not pass filter (id), skipping\n")), LineOutcome::Ignored));
    assert_eq!(d.workers[0].counts.unavailable, 0);
    assert_eq!(d.workers[0].counts.total, None);
    assert_eq!(d.workers[1].counts.skipped, 0);
    match d.outcome() {
        Err(DispatchError::SourceRejected(m)) => {
            let text = String::from_utf8(m).unwrap();
            assert!(text.contains("https://bad.example/x"));
        }
        Ok(_) => panic!("run should have failed"),
    }
}

#[test]
fn diagnostic_lines_are_tagged() {
    assert_eq!(classify_diagnostic(&b("[debug] hello\n")), (Diagnostic::Debug, b("hello\n")));
    assert_eq!(classify_diagnostic(&b("WARNING: careful\n")), (Diagnostic::Warning, b(" careful\n")));
    assert_eq!(classify_diagnostic(&b("ERROR: boom\n")), (Diagnostic::Error, b(" boom\n")));
    assert_eq!(classify_diagnostic(&b("plain\n")), (Diagnostic::Plain, b("plain\n")));
    assert_eq!(classify_diagnostic(&b("ERROR: Unsupported URL: x")), (Diagnostic::Rejected, b(" Unsupported URL: x")));
    let mut d = Dispatch::new(&vec![5]);
    match d.on_diagnostic_line(0, &b("WARNING: careful\n")) {
        LineOutcome::Show(l) => {
            assert_eq!(l.level, Level::Warning);
            assert_eq!(l.worker, Some(5));
        }
        other => panic!("unexpected {:?}", other),
    }
}

#[test]
fn first_announced_size_wins() {
    let mut c = WorkerCounts::new();
    let l = c.on_output_line(3, &b("[youtube:tab] Playlist Mix: Downloading 12 items of 12\n"));
    assert_eq!(l.worker, Some(3));
    assert_eq!(c.total, Some(12));
    c.on_output_line(3, &b("[youtube:tab] Playlist Mix: Downloading 30 items of 30\n"));
    assert_eq!(c.total, Some(12));
    assert_eq!(announced_count(&b("[youtube:tab] Playlist Mix: Downloading 4 videos\n")), None);
    assert_eq!(announced_count(&b("[youtube:tab] Playlist Mix: 99999999999\n")), None);
    assert_eq!(announced_count(&b("[download] Playlist Mix: 5\n")), None);
}

#[test]
fn filter_lines_are_cut_and_counted() {
    let line = b("[download] Song has already been recorded... does not pass filter (id !~= a|b|c|d), skipping\n");
    assert_eq!(cut_filter_line(&line), Some(b("[download] Song has already been recorded... does not pass filter, skipping..\n")));
    let mut c = WorkerCounts::new();
    let l = c.on_output_line(9, &line);
    assert_eq!(l.worker, None);
    assert_eq!(c.skipped, 1);
    assert_eq!(cut_filter_line(&b("[download] 50%\n")), None);
}

#[test]
fn totals_add_up_over_workers() {
    let mut d = Dispatch::new(&vec![1, 2, 3]);
    d.on_output_line(0, &b("[youtube:tab] Playlist P: Downloading 10 items of 10\n"));
    d.on_output_line(2, &b("[youtube:tab] Playlist P: Downloading 5 items of 5\n"));
    d.on_output_line(1, &b("x does not pass filter (f)\n"));
    d.on_output_line(2, &b("y does not pass filter (f)\n"));
    d.on_diagnostic_line(0, &b("ERROR: Video unavailable. gone\n"));
    let t = d.outcome().unwrap();
    assert_eq!(t.total, Some(15));
    assert_eq!(t.skipped, 2);
    assert_eq!(t.unavailable, 1);
    assert_eq!(t.fetched(), Some(12));
    let none = Dispatch::new(&vec![1]).totals();
    assert_eq!(none.total, None);
    assert_eq!(none.fetched(), None);
}

#[test]
fn fetched_never_pushes_past_total() {
    let t = Totals { total: Some(3), skipped: 2, unavailable: 1 };
    assert_eq!(t.fetched(), Some(0));
    let t = Totals { total: Some(3), skipped: 3, unavailable: 4 };
    assert_eq!(t.fetched(), Some(0));
    let t = Totals { total: Some(10), skipped: 3, unavailable: 4 };
    assert_eq!(t.skipped + t.unavailable + t.fetched().unwrap(), 10);
}

#[test]
fn decimal_reading() {
    assert_eq!(parse_decimal(&b("x123y"), 1, 4, 1000), Some(123));
    assert_eq!(parse_decimal(&b("1234"), 0, 4, 1000), None);
    assert_eq!(parse_decimal(&b("12a"), 0, 3, 1000), None);
    assert_eq!(parse_decimal(&b(""), 0, 0, 1000), None);
}

#[test]
fn failed_promotion_keeps_archive() {
    let mut c = CommitProtocol::new();
    assert_eq!(c.pending(), Some(FileOp::ArchiveCurrent));
    assert_eq!(c.on_result(OpResult::Done), Ok(Advice::Proceed));
    assert_eq!(c.pending(), Some(FileOp::CreateStaging));
    assert_eq!(c.on_result(OpResult::AlreadyExists), Ok(Advice::StagingLeftOver));
    assert_eq!(c.pending(), Some(FileOp::ReuseStaging));
    assert_eq!(c.on_result(OpResult::Done), Ok(Advice::Proceed));
    assert_eq!(c.phase, CommitPhase::Fetch);
    assert_eq!(c.pending(), None);
    c.fetched();
    assert_eq!(c.pending(), Some(FileOp::Promote));
    assert_eq!(c.on_result(OpResult::Failed), Err(CommitError::FileError(FileOp::Promote)));
    assert_eq!(c.phase, CommitPhase::Failed);
    assert_eq!(c.pending(), None);
}

#[test]
fn missing_current_is_not_a_collection() {
    let mut c = CommitProtocol::new();
    assert_eq!(c.on_result(OpResult::NotFound), Err(CommitError::NotInitialized));
    let mut c = CommitProtocol::new();
    c.on_result(OpResult::Done);
    c.on_result(OpResult::Done);
    c.fetched();
    assert_eq!(c.on_result(OpResult::Done), Ok(Advice::Proceed));
    assert_eq!(c.phase, CommitPhase::Committed);
}

#[test]
fn archive_names() {
    assert_eq!(archive_name_for(&b("X")), b("playlist-X.manifest"));
    assert_eq!(archive_file_name(0, 0), Some(b("playlist-1970-01-01T000000.manifest")));
    assert_eq!(archive_file_name(1431648000 + 3723, 500_000_000), Some(b("playlist-2015-05-15T010203.500.manifest")));
}

#[test]
fn command_lines() {
    let o = ToolOptions { verbose: false, quiet: true, transcoder: b("ffmpeg"), passthrough: vec![b("--no-mtime")] };
    let base = acquisition_args(&o, &Some(b("id !~= a")));
    let expected: Vec<Vec<u8>> = ["--extract-audio", "--audio-format=mp3", "--embed-thumbnail", "--add-metadata", "--ffmpeg-location", "ffmpeg", "--quiet", "--no-mtime", "--match-filter", "id !~= a"].iter().map(|s| b(s)).collect();
    assert_eq!(base, expected);
    let all = worker_args(&base, &vec![b("u1"), b("u2")]);
    assert_eq!(all.len(), expected.len() + 2);
    assert_eq!(all[all.len() - 1], b("u2"));
    let o = ToolOptions { verbose: true, quiet: false, transcoder: b("/bin/ff"), passthrough: vec![] };
    assert_eq!(acquisition_args(&o, &None)[6], b("--verbose"));
    assert_eq!(acquisition_args(&o, &None).len(), 7);
    let l = listing_args(false, &b("URL"));
    let expected: Vec<Vec<u8>> = ["--windows-filenames", "--simulate", "--flat-playlist", "--lazy-playlist", "URL", "--print", "title=%(title)s\x06id=%(id)s\x06url=%(webpage_url)s"].iter().map(|s| b(s)).collect();
    assert_eq!(l, expected);
    assert_eq!(listing_args(true, &b("URL"))[0..2].to_vec(), vec![b("--verbose"), b("--quiet")]);
    let t = title_probe_args(false, &b("URL"));
    let expected: Vec<Vec<u8>> = ["--simulate", "--flat-playlist", "--lazy-playlist", "URL", "--print", "%(playlist)s", "--playlist-items=1"].iter().map(|s| b(s)).collect();
    assert_eq!(t, expected);
}

#[test]
fn playlist_title_probe() {
    assert_eq!(playlist_title_from(&b("  My Mix \n")), Ok(b("My Mix")));
    assert_eq!(playlist_title_from(&b("NA\n")), Err(ProbeError::NotAPlaylist));
    assert_eq!(playlist_title_from(&b("A\nB\n")), Err(ProbeError::SeveralLines));
}

#[test]
fn transcoder_version_word() {
    assert_eq!(pl_update::tool::version_word(&b("ffmpeg version 6.1.1 Copyright")), Some(b("6.1.1")));
    assert_eq!(pl_update::tool::version_word(&b("ffmpeg")), None);
}
