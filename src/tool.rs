//! The command lines given to the acquisition tool, and what is read back
//! from its answer to the playlist-title probe.
use vstd::prelude::*;

use crate::bytes::{byte_views, slice_bytes};
use crate::codec::{split_bytes, split_on};
use crate::classify::{is_blank, trim_end};
use crate::text::{
    audio_format_flag, audio_format_flag_bytes, extract_audio_flag, extract_audio_flag_bytes, first_item_flag, first_item_flag_bytes, flat_flag, flat_flag_bytes, lazy_flag, lazy_flag_bytes, listing_template, listing_template_bytes, match_filter_flag, match_filter_flag_bytes, metadata_flag, metadata_flag_bytes, not_available, not_available_bytes, playlist_field, playlist_field_bytes, print_flag, print_flag_bytes, quiet_flag, quiet_flag_bytes, simulate_flag, simulate_flag_bytes, thumbnail_flag, thumbnail_flag_bytes, transcoder_flag, transcoder_flag_bytes, verbose_flag, verbose_flag_bytes, windows_names_flag, windows_names_flag_bytes,
};

verus! {

/// How the acquisition tool is to be run.
pub struct ToolOptions {
    /// Print the tool's debug output.
    pub verbose: bool,
    /// Keep the tool quiet.
    pub quiet: bool,
    /// Where the transcoder is.
    pub transcoder: Vec<u8>,
    /// Arguments handed to the tool unchanged.
    pub passthrough: Vec<Vec<u8>>,
}

/// The switch that sets how much the tool says.
pub open spec fn verbosity_args(verbose: bool, quiet: bool) -> Seq<Seq<u8>> {
    if verbose {
        seq![verbose_flag()]
    } else if quiet {
        seq![quiet_flag()]
    } else {
        Seq::empty()
    }
}

/// The arguments of a fetching worker before its locators.
pub open spec fn acquisition_args_spec(o: ToolOptions, filter: Option<Seq<u8>>) -> Seq<Seq<u8>> {
    seq![
        extract_audio_flag(),
        audio_format_flag(),
        thumbnail_flag(),
        metadata_flag(),
        transcoder_flag(),
        o.transcoder@,
    ] + verbosity_args(o.verbose, o.quiet) + byte_views(o.passthrough@) + match filter {
        Some(f) => seq![match_filter_flag(), f],
        None => Seq::empty(),
    }
}

/// The switches that a verbose listing adds.
pub open spec fn listing_verbosity(verbose: bool) -> Seq<Seq<u8>> {
    if verbose {
        seq![verbose_flag(), quiet_flag()]
    } else {
        Seq::empty()
    }
}

/// The arguments that list a playlist as snapshot lines.
pub open spec fn listing_args_spec(verbose: bool, url: Seq<u8>) -> Seq<Seq<u8>> {
    listing_verbosity(verbose) + seq![
        windows_names_flag(),
        simulate_flag(),
        flat_flag(),
        lazy_flag(),
        url,
        print_flag(),
        listing_template(),
    ]
}

/// The arguments that ask for a playlist's title.
pub open spec fn title_probe_args_spec(verbose: bool, url: Seq<u8>) -> Seq<Seq<u8>> {
    listing_verbosity(verbose) + seq![
        simulate_flag(),
        flat_flag(),
        lazy_flag(),
        url,
        print_flag(),
        playlist_field(),
        first_item_flag(),
    ]
}

fn push_copy(out: &mut Vec<Vec<u8>>, b: &Vec<u8>)
    ensures
        byte_views(final(out)@) == byte_views(old(out)@).push(b@),
{
    out.push(b.clone());
    assert(byte_views(final(out)@) =~= byte_views(old(out)@).push(b@));
}

fn push_literal(out: &mut Vec<Vec<u8>>, b: Vec<u8>)
    ensures
        byte_views(final(out)@) == byte_views(old(out)@).push(b@),
{
    out.push(b);
    assert(byte_views(final(out)@) =~= byte_views(old(out)@).push(b@));
}

/// The arguments of a fetching worker before its locators; `filter`, if
/// given, excludes items already present.
pub fn acquisition_args(o: &ToolOptions, filter: &Option<Vec<u8>>) -> (r: Vec<Vec<u8>>)
    ensures
        byte_views(r@) == acquisition_args_spec(*o, match filter {
            Some(f) => Some(f@),
            None => None,
        }),
{
    let mut r: Vec<Vec<u8>> = Vec::new();
    push_literal(&mut r, extract_audio_flag_bytes());
    push_literal(&mut r, audio_format_flag_bytes());
    push_literal(&mut r, thumbnail_flag_bytes());
    push_literal(&mut r, metadata_flag_bytes());
    push_literal(&mut r, transcoder_flag_bytes());
    push_copy(&mut r, &o.transcoder);
    let ghost base = byte_views(r@);
    if o.verbose {
        push_literal(&mut r, verbose_flag_bytes());
    } else if o.quiet {
        push_literal(&mut r, quiet_flag_bytes());
    }
    assert(byte_views(r@) =~= base + verbosity_args(o.verbose, o.quiet));
    let ghost head = byte_views(r@);
    let mut i: usize = 0;
    while i < o.passthrough.len()
        invariant
            0 <= i <= o.passthrough@.len(),
            byte_views(r@) == head + byte_views(o.passthrough@).take(i as int),
        decreases o.passthrough@.len() - i,
    {
        push_copy(&mut r, &o.passthrough[i]);
        i += 1;
        assert(byte_views(r@) =~= head + byte_views(o.passthrough@).take(i as int));
    }
    assert(byte_views(o.passthrough@).take(i as int) =~= byte_views(o.passthrough@));
    let ghost body = byte_views(r@);
    match filter {
        Some(f) => {
            push_literal(&mut r, match_filter_flag_bytes());
            push_copy(&mut r, f);
        },
        None => {},
    }
    let ghost fv = match filter {
        Some(f) => Some(f@),
        None => None,
    };
    assert(byte_views(r@) =~= acquisition_args_spec(*o, fv));
    r
}

/// The full argument list of one worker: the fetching arguments, then its
/// locators.
pub fn worker_args(base: &Vec<Vec<u8>>, group: &Vec<Vec<u8>>) -> (r: Vec<Vec<u8>>)
    ensures
        byte_views(r@) == byte_views(base@) + byte_views(group@),
{
    let mut r: Vec<Vec<u8>> = Vec::new();
    let mut i: usize = 0;
    while i < base.len()
        invariant
            0 <= i <= base@.len(),
            byte_views(r@) == byte_views(base@).take(i as int),
        decreases base@.len() - i,
    {
        push_copy(&mut r, &base[i]);
        i += 1;
        assert(byte_views(r@) =~= byte_views(base@).take(i as int));
    }
    assert(byte_views(base@).take(i as int) =~= byte_views(base@));
    let mut j: usize = 0;
    while j < group.len()
        invariant
            0 <= j <= group@.len(),
            byte_views(r@) == byte_views(base@) + byte_views(group@).take(j as int),
        decreases group@.len() - j,
    {
        push_copy(&mut r, &group[j]);
        j += 1;
        assert(byte_views(r@) =~= byte_views(base@) + byte_views(group@).take(j as int));
    }
    assert(byte_views(group@).take(j as int) =~= byte_views(group@));
    r
}

/// The arguments that list the playlist at `url` as snapshot lines.
pub fn listing_args(verbose: bool, url: &Vec<u8>) -> (r: Vec<Vec<u8>>)
    ensures
        byte_views(r@) == listing_args_spec(verbose, url@),
{
    let mut r: Vec<Vec<u8>> = Vec::new();
    if verbose {
        push_literal(&mut r, verbose_flag_bytes());
        push_literal(&mut r, quiet_flag_bytes());
    }
    push_literal(&mut r, windows_names_flag_bytes());
    push_literal(&mut r, simulate_flag_bytes());
    push_literal(&mut r, flat_flag_bytes());
    push_literal(&mut r, lazy_flag_bytes());
    push_copy(&mut r, url);
    push_literal(&mut r, print_flag_bytes());
    push_literal(&mut r, listing_template_bytes());
    assert(byte_views(r@) =~= listing_args_spec(verbose, url@));
    r
}

/// The arguments that ask for the title of the playlist at `url`.
pub fn title_probe_args(verbose: bool, url: &Vec<u8>) -> (r: Vec<Vec<u8>>)
    ensures
        byte_views(r@) == title_probe_args_spec(verbose, url@),
{
    let mut r: Vec<Vec<u8>> = Vec::new();
    if verbose {
        push_literal(&mut r, verbose_flag_bytes());
        push_literal(&mut r, quiet_flag_bytes());
    }
    push_literal(&mut r, simulate_flag_bytes());
    push_literal(&mut r, flat_flag_bytes());
    push_literal(&mut r, lazy_flag_bytes());
    push_copy(&mut r, url);
    push_literal(&mut r, print_flag_bytes());
    push_literal(&mut r, playlist_field_bytes());
    push_literal(&mut r, first_item_flag_bytes());
    assert(byte_views(r@) =~= title_probe_args_spec(verbose, url@));
    r
}

/// Why the answer to the title probe names no playlist.
#[derive(Debug, Clone, Copy, PartialEq, Eq)]
pub enum ProbeError {
    /// The locator is not a playlist, or the playlist has no title.
    NotAPlaylist,
    /// The answer runs over several lines.
    SeveralLines,
}

/// `s` without leading blanks.
pub open spec fn trim_start(s: Seq<u8>) -> Seq<u8>
    decreases s.len(),
{
    if s.len() > 0 && is_blank(s[0]) {
        trim_start(s.drop_first())
    } else {
        s
    }
}

/// The playlist title that the probe's answer gives.
pub open spec fn probe_title(out: Seq<u8>) -> Result<Seq<u8>, ProbeError> {
    let t = trim_start(trim_end(out));
    if t == not_available() {
        Err(ProbeError::NotAPlaylist)
    } else if t.contains(10u8) {
        Err(ProbeError::SeveralLines)
    } else {
        Ok(t)
    }
}

/// Reads the playlist title from the probe's answer.
pub fn playlist_title_from(out: &Vec<u8>) -> (r: Result<Vec<u8>, ProbeError>)
    ensures
        match r {
            Ok(t) => probe_title(out@) == Ok::<Seq<u8>, ProbeError>(t@),
            Err(e) => probe_title(out@) == Err::<Seq<u8>, ProbeError>(e),
        },
{
    let mut j: usize = out.len();
    assert(out@.take(out@.len() as int) =~= out@);
    while j > 0 && (out[j - 1] == 32 || (9 <= out[j - 1] && out[j - 1] <= 13))
        invariant
            0 <= j <= out@.len(),
            trim_end(out@) == trim_end(out@.take(j as int)),
        decreases j,
    {
        assert(out@.take(j as int).drop_last() =~= out@.take(j - 1));
        j -= 1;
    }
    assert(trim_end(out@) == out@.take(j as int));
    let mut i: usize = 0;
    assert(out@.subrange(0, j as int) =~= out@.take(j as int));
    while i < j && (out[i] == 32 || (9 <= out[i] && out[i] <= 13))
        invariant
            0 <= i <= j <= out@.len(),
            trim_start(out@.take(j as int)) == trim_start(out@.subrange(i as int, j as int)),
        decreases j - i,
    {
        assert(out@.subrange(i as int, j as int).drop_first() =~= out@.subrange(i + 1, j as int));
        i += 1;
    }
    let t = slice_bytes(out, i, j);
    assert(trim_start(t@) == t@);
    let na = not_available_bytes();
    if crate::bytes::bytes_eq(&t, &na) {
        return Err(ProbeError::NotAPlaylist);
    }
    assert(probe_title(out@) != Err::<Seq<u8>, ProbeError>(ProbeError::NotAPlaylist));
    let mut k: usize = 0;
    while k < t.len()
        invariant
            0 <= k <= t@.len(),
            trim_start(trim_end(out@)) == t@,
            t@ != not_available(),
            forall|m: int| 0 <= m < k ==> t@[m] != 10u8,
        decreases t@.len() - k,
    {
        if t[k] == 10 {
            assert(t@.contains(10u8));
            return Err(ProbeError::SeveralLines);
        }
        k += 1;
    }
    Ok(t)
}

/// The third space-separated word of `out`, where the transcoder's answer to
/// a version query puts its version.
pub open spec fn version_word_spec(out: Seq<u8>) -> Option<Seq<u8>> {
    let words = split_on(out, 32u8);
    if words.len() > 2 {
        Some(words[2])
    } else {
        None
    }
}

/// The third space-separated word of `out`, if there is one.
pub fn version_word(out: &Vec<u8>) -> (r: Option<Vec<u8>>)
    ensures
        match r {
            Some(w) => version_word_spec(out@) == Some(w@),
            None => version_word_spec(out@) is None,
        },
{
    let words = split_bytes(out, 32);
    assert(byte_views(words@).len() == words@.len());
    if words.len() > 2 {
        Some(words[2].clone())
    } else {
        None
    }
}

} // verus!
