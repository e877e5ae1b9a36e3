//! Classification of single lines of the acquisition tool's two output
//! streams.
use vstd::prelude::*;

use crate::bytes::{append_bytes, contains_bytes, find_bytes, first_occurrence, lemma_first_occurrence, has_prefix, slice_bytes, starts_with, tail_from};
use crate::codec::NEWLINE;
use crate::text::{
    debug_tag, debug_tag_bytes, error_tag, error_tag_bytes, filter_note, filter_note_bytes, period_newline,
    period_newline_bytes, playlist_announcement, playlist_announcement_bytes, skipping_suffix,
    skipping_suffix_bytes, unavailable_note, unavailable_note_bytes, unsupported_note,
    unsupported_note_bytes, warning_tag, warning_tag_bytes,
};

verus! {

/// The largest count the tool can announce.
pub const MAX_ANNOUNCED: u64 = 2147483647;

/// What a diagnostic line says.
#[derive(Debug, Clone, Copy, PartialEq, Eq)]
pub enum Diagnostic {
    /// A debug message.
    Debug,
    /// A warning.
    Warning,
    /// An error saying that an item is gone from the remote source.
    Unavailable,
    /// An error saying that the tool cannot handle a locator at all.
    Rejected,
    /// Any other error.
    Error,
    /// A line without a recognised tag.
    Plain,
}

/// What a diagnostic line is.
pub open spec fn diagnostic_kind(line: Seq<u8>) -> Diagnostic {
    if starts_with(line, debug_tag()) {
        Diagnostic::Debug
    } else if starts_with(line, warning_tag()) {
        Diagnostic::Warning
    } else if starts_with(line, error_tag()) {
        let rest = line.skip(error_tag().len() as int);
        if contains_bytes(rest, unavailable_note()) {
            Diagnostic::Unavailable
        } else if contains_bytes(rest, unsupported_note()) {
            Diagnostic::Rejected
        } else {
            Diagnostic::Error
        }
    } else {
        Diagnostic::Plain
    }
}

/// `s` without one final newline.
pub open spec fn chomp(s: Seq<u8>) -> Seq<u8> {
    if s.len() > 0 && s.last() == NEWLINE {
        s.drop_last()
    } else {
        s
    }
}

/// The text of a diagnostic line once its tag is taken off; the message of
/// an unavailable item is ended with a period.
pub open spec fn diagnostic_text(line: Seq<u8>) -> Seq<u8> {
    match diagnostic_kind(line) {
        Diagnostic::Debug => line.skip(debug_tag().len() as int),
        Diagnostic::Warning => line.skip(warning_tag().len() as int),
        Diagnostic::Unavailable => chomp(line.skip(error_tag().len() as int)) + period_newline(),
        Diagnostic::Rejected => line.skip(error_tag().len() as int),
        Diagnostic::Error => line.skip(error_tag().len() as int),
        Diagnostic::Plain => line,
    }
}

/// Classifies a line of the diagnostic stream and takes its tag off.
pub fn classify_diagnostic(line: &Vec<u8>) -> (r: (Diagnostic, Vec<u8>))
    ensures
        r.0 == diagnostic_kind(line@),
        r.1@ == diagnostic_text(line@),
{
    let dt = debug_tag_bytes();
    if has_prefix(line, &dt) {
        return (Diagnostic::Debug, tail_from(line, dt.len()));
    }
    let wt = warning_tag_bytes();
    if has_prefix(line, &wt) {
        return (Diagnostic::Warning, tail_from(line, wt.len()));
    }
    let et = error_tag_bytes();
    if has_prefix(line, &et) {
        let mut rest = tail_from(line, et.len());
        if find_bytes(&rest, &unavailable_note_bytes()).is_some() {
            let n = rest.len();
            if n > 0 && rest[n - 1] == NEWLINE {
                rest.pop();
            }
            assert(rest@ =~= chomp(line@.skip(error_tag().len() as int)));
            append_bytes(&mut rest, &period_newline_bytes());
            return (Diagnostic::Unavailable, rest);
        }
        if find_bytes(&rest, &unsupported_note_bytes()).is_some() {
            return (Diagnostic::Rejected, rest);
        }
        return (Diagnostic::Error, rest);
    }
    let mut copy: Vec<u8> = Vec::new();
    append_bytes(&mut copy, line);
    assert(copy@ =~= line@);
    (Diagnostic::Plain, copy)
}

/// An output line that reports an item skipped by the match filter, cut
/// after the filter note, which would otherwise repeat the whole filter.
pub open spec fn filter_cut(line: Seq<u8>) -> Option<Seq<u8>> {
    if contains_bytes(line, filter_note()) {
        Some(line.take(first_occurrence(line, filter_note()) + filter_note().len()) + skipping_suffix())
    } else {
        None
    }
}

/// Cuts a line that reports an item skipped by the match filter.
pub fn cut_filter_line(line: &Vec<u8>) -> (r: Option<Vec<u8>>)
    ensures
        match r {
            Some(t) => filter_cut(line@) == Some(t@),
            None => filter_cut(line@) is None,
        },
{
    let note = filter_note_bytes();
    match find_bytes(line, &note) {
        None => None,
        Some(i) => {
            proof {
                lemma_first_occurrence(line@, filter_note(), i as int);
            }
            let n = line.len();
            assert(i + note@.len() <= n);
            let mut t = slice_bytes(line, 0, i + note.len());
            assert(t@ =~= line@.take(i + note@.len()));
            append_bytes(&mut t, &skipping_suffix_bytes());
            Some(t)
        },
    }
}

/// An ASCII blank: space, tab, newline, vertical tab, form feed or carriage return.
pub open spec fn is_blank(b: u8) -> bool {
    b == 32 || (9 <= b && b <= 13)
}

/// `s` without trailing blanks.
pub open spec fn trim_end(s: Seq<u8>) -> Seq<u8>
    decreases s.len(),
{
    if s.len() > 0 && is_blank(s.last()) {
        trim_end(s.drop_last())
    } else {
        s
    }
}

/// The index of the last space of `s`, or -1.
pub open spec fn last_space(s: Seq<u8>) -> int
    decreases s.len(),
{
    if s.len() == 0 {
        -1
    } else if s.last() == 32 {
        s.len() - 1
    } else {
        last_space(s.drop_last())
    }
}

/// Whether every byte of `s` is a decimal digit.
pub open spec fn all_digits(s: Seq<u8>) -> bool {
    forall|i: int| 0 <= i < s.len() ==> 48 <= #[trigger] s[i] <= 57
}

/// The number that the decimal digits `s` write.
pub open spec fn decimal_value(s: Seq<u8>) -> int
    decreases s.len(),
{
    if s.len() == 0 {
        0
    } else {
        decimal_value(s.drop_last()) * 10 + (s.last() - 48)
    }
}

/// The number that the decimal digits `s` write, if there are some and the
/// number is at most `limit`.
pub open spec fn decimal_spec(s: Seq<u8>, limit: int) -> Option<int> {
    if s.len() > 0 && all_digits(s) && decimal_value(s) <= limit {
        Some(decimal_value(s))
    } else {
        None
    }
}

/// The size of the playlist that an output line announces: the last word of
/// a line that begins with the announcement.
pub open spec fn announced_total(line: Seq<u8>) -> Option<int> {
    if starts_with(line, playlist_announcement()) {
        let t = trim_end(line);
        let k = last_space(t);
        if k < 0 {
            None
        } else {
            decimal_spec(t.skip(k + 1), MAX_ANNOUNCED as int)
        }
    } else {
        None
    }
}

proof fn lemma_decimal_grows(s: Seq<u8>)
    requires
        all_digits(s),
    ensures
        decimal_value(s) >= 0,
    decreases s.len(),
{
    if s.len() > 0 {
        assert(all_digits(s.drop_last())) by {
            assert forall|i: int| 0 <= i < s.drop_last().len() implies 48 <= #[trigger] s.drop_last()[i] <= 57 by {
                assert(s.drop_last()[i] == s[i]);
            }
        }
        lemma_decimal_grows(s.drop_last());
        assert(s[s.len() - 1] >= 48);
    }
}

/// Reads the decimal digits of `s` from `from` up to `to`.
pub fn parse_decimal(s: &Vec<u8>, from: usize, to: usize, limit: u32) -> (r: Option<u64>)
    requires
        from <= to <= s@.len(),
    ensures
        match r {
            Some(v) => decimal_spec(s@.subrange(from as int, to as int), limit as int) == Some(v as int),
            None => decimal_spec(s@.subrange(from as int, to as int), limit as int) is None,
        },
{
    if from == to {
        return None;
    }
    let ghost d = s@.subrange(from as int, to as int);
    let mut v: u64 = 0;
    let mut over = false;
    let mut i: usize = from;
    while i < to
        invariant
            from <= i <= to <= s@.len(),
            d == s@.subrange(from as int, to as int),
            all_digits(s@.subrange(from as int, i as int)),
            !over ==> v == decimal_value(s@.subrange(from as int, i as int)),
            over ==> decimal_value(s@.subrange(from as int, i as int)) > limit,
            v <= limit,
        decreases to - i,
    {
        let c = s[i];
        let ghost p = s@.subrange(from as int, i as int);
        let ghost q = s@.subrange(from as int, i + 1);
        assert(q.drop_last() =~= p);
        assert(q.last() == c);
        if c < 48 || c > 57 {
            assert(!all_digits(d)) by {
                assert(d[i - from] == c);
            }
            return None;
        }
        assert(all_digits(q)) by {
            assert forall|k: int| 0 <= k < q.len() implies 48 <= #[trigger] q[k] <= 57 by {
                if k < p.len() {
                    assert(q[k] == p[k]);
                }
            }
        }
        proof {
            lemma_decimal_grows(p);
        }
        if !over {
            let next = v * 10 + (c - 48) as u64;
            if next > limit as u64 {
                over = true;
            } else {
                v = next;
            }
        }
        i += 1;
    }
    if over {
        None
    } else {
        Some(v)
    }
}

/// The size of the playlist that an output line announces, if it does.
pub fn announced_count(line: &Vec<u8>) -> (r: Option<u64>)
    ensures
        match r {
            Some(v) => announced_total(line@) == Some(v as int),
            None => announced_total(line@) is None,
        },
{
    if !has_prefix(line, &playlist_announcement_bytes()) {
        return None;
    }
    let mut j: usize = line.len();
    assert(line@.take(line@.len() as int) =~= line@);
    while j > 0 && (line[j - 1] == 32 || (9 <= line[j - 1] && line[j - 1] <= 13))
        invariant
            0 <= j <= line@.len(),
            trim_end(line@) == trim_end(line@.take(j as int)),
        decreases j,
    {
        assert(line@.take(j as int).drop_last() =~= line@.take(j - 1));
        j -= 1;
    }
    assert(line@.take(line@.len() as int) =~= line@);
    let ghost t = trim_end(line@);
    assert(t == line@.take(j as int));
    let mut k: usize = j;
    while k > 0 && line[k - 1] != 32
        invariant
            0 <= k <= j <= line@.len(),
            t == line@.take(j as int),
            last_space(t) == last_space(line@.take(k as int)),
        decreases k,
    {
        assert(line@.take(k as int).drop_last() =~= line@.take(k - 1));
        k -= 1;
    }
    if k == 0 {
        assert(last_space(line@.take(0)) == -1);
        return None;
    }
    assert(last_space(t) == k - 1);
    assert(t.skip(k as int) =~= line@.subrange(k as int, j as int));
    parse_decimal(line, k, j, MAX_ANNOUNCED as u32)
}

} // verus!
