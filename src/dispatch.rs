//! The single consumer of all workers' output: it classifies each line,
//! keeps each worker's counts apart, and stops the whole run at the first
//! locator that the tool rejects.
use vstd::prelude::*;

use crate::bytes::append_bytes;
use crate::classify::{
    Diagnostic, announced_count, announced_total, classify_diagnostic, cut_filter_line, diagnostic_kind,
    diagnostic_text, filter_cut,
};
use crate::snapshot::opt_bytes_view;

verus! {

/// How a forwarded line is to be shown.
#[derive(Debug, Clone, Copy, PartialEq, Eq)]
pub enum Level {
    Debug,
    Warning,
    Error,
    Plain,
}

/// A line to show, with the tag of the worker it came from, if it keeps one.
#[derive(Debug)]
pub struct ReportLine {
    pub level: Level,
    pub worker: Option<u32>,
    pub text: Vec<u8>,
}

/// What one worker's streams have reported so far.
#[derive(Debug, Clone, Copy)]
pub struct WorkerCounts {
    /// The playlist size that the tool announced first, if any.
    pub total: Option<u64>,
    /// Items that the match filter excluded.
    pub skipped: u64,
    /// Items gone from the remote source.
    pub unavailable: u64,
}

/// One worker: its tag (the process id) and its counts.
#[derive(Debug, Clone, Copy)]
pub struct WorkerState {
    pub tag: u32,
    pub counts: WorkerCounts,
}

/// What became of a line handed to the dispatcher.
#[derive(Debug)]
pub enum LineOutcome {
    /// Show this line.
    Show(ReportLine),
    /// The run has stopped; the line changes nothing.
    Ignored,
    /// The tool rejected a locator: stop the run with this message.
    Abort(Vec<u8>),
}

/// Why a run failed.
#[derive(Debug, Clone, PartialEq, Eq)]
pub enum DispatchError {
    /// The tool cannot handle a locator; the message names it.
    SourceRejected(Vec<u8>),
}

/// The counts of all workers together.
#[derive(Debug, Clone, Copy)]
pub struct Totals {
    /// The sum of the announced sizes, if any worker saw one.
    pub total: Option<u64>,
    pub skipped: u64,
    pub unavailable: u64,
}

/// The state of a run over several workers.
pub struct Dispatch {
    pub workers: Vec<WorkerState>,
    /// The message of the first rejected locator, once there is one.
    pub failure: Option<Vec<u8>>,
}

/// `x + 1`, held at the largest `u64`.
pub open spec fn sat_inc(x: u64) -> u64 {
    if x < u64::MAX {
        (x + 1) as u64
    } else {
        x
    }
}

/// The counts after an output line.
pub open spec fn counts_after_output(c: WorkerCounts, line: Seq<u8>) -> WorkerCounts {
    WorkerCounts {
        total: if c.total is None {
            match announced_total(line) {
                Some(v) => Some(v as u64),
                None => None,
            }
        } else {
            c.total
        },
        skipped: if filter_cut(line) is Some {
            sat_inc(c.skipped)
        } else {
            c.skipped
        },
        unavailable: c.unavailable,
    }
}

/// The counts after a diagnostic line.
pub open spec fn counts_after_diagnostic(c: WorkerCounts, line: Seq<u8>) -> WorkerCounts {
    WorkerCounts {
        total: c.total,
        skipped: c.skipped,
        unavailable: if diagnostic_kind(line) == Diagnostic::Unavailable {
            sat_inc(c.unavailable)
        } else {
            c.unavailable
        },
    }
}

/// The level at which a diagnostic line is shown.
pub open spec fn diagnostic_level(d: Diagnostic) -> Level {
    match d {
        Diagnostic::Debug => Level::Debug,
        Diagnostic::Warning => Level::Warning,
        Diagnostic::Plain => Level::Plain,
        _ => Level::Error,
    }
}

/// The counts of a worker that has reported nothing.
pub open spec fn no_counts() -> WorkerCounts {
    WorkerCounts { total: None, skipped: 0, unavailable: 0 }
}

/// The counts of each worker.
pub open spec fn counts_of(ws: Seq<WorkerState>) -> Seq<WorkerCounts> {
    ws.map_values(|w: WorkerState| w.counts)
}

/// The announced sizes added up, or none if no worker saw one.
pub open spec fn sum_total(cs: Seq<WorkerCounts>) -> Option<int>
    decreases cs.len(),
{
    if cs.len() == 0 {
        None
    } else {
        match (sum_total(cs.drop_last()), cs.last().total) {
            (None, None) => None,
            (Some(a), None) => Some(a),
            (None, Some(b)) => Some(b as int),
            (Some(a), Some(b)) => Some(a + b),
        }
    }
}

/// The skipped items of all workers.
pub open spec fn sum_skipped(cs: Seq<WorkerCounts>) -> int
    decreases cs.len(),
{
    if cs.len() == 0 {
        0
    } else {
        sum_skipped(cs.drop_last()) + cs.last().skipped
    }
}

/// The unavailable items of all workers.
pub open spec fn sum_unavailable(cs: Seq<WorkerCounts>) -> int
    decreases cs.len(),
{
    if cs.len() == 0 {
        0
    } else {
        sum_unavailable(cs.drop_last()) + cs.last().unavailable
    }
}

/// `x`, held at the largest `u64`.
pub open spec fn cap(x: int) -> u64 {
    if x < u64::MAX {
        x as u64
    } else {
        u64::MAX
    }
}

fn sat_add(a: u64, b: u64) -> (r: u64)
    ensures
        r == cap(a + b),
{
    if a > u64::MAX - b {
        u64::MAX
    } else {
        a + b
    }
}

impl WorkerCounts {
    pub fn new() -> (r: WorkerCounts)
        ensures
            r == no_counts(),
    {
        WorkerCounts { total: None, skipped: 0, unavailable: 0 }
    }

    /// Takes in a line of the worker's output stream: the first announced
    /// playlist size is kept, and a line of the match filter is counted and
    /// cut.
    pub fn on_output_line(&mut self, tag: u32, line: &Vec<u8>) -> (r: ReportLine)
        ensures
            *final(self) == counts_after_output(*old(self), line@),
            r.level == Level::Plain,
            match filter_cut(line@) {
                Some(t) => r.worker is None && r.text@ == t,
                None => r.worker == Some(tag) && r.text@ == line@,
            },
    {
        if self.total.is_none() {
            self.total = announced_count(line);
        }
        match cut_filter_line(line) {
            Some(t) => {
                if self.skipped < u64::MAX {
                    self.skipped = self.skipped + 1;
                }
                ReportLine { level: Level::Plain, worker: None, text: t }
            },
            None => {
                let mut copy: Vec<u8> = Vec::new();
                append_bytes(&mut copy, line);
                assert(copy@ =~= line@);
                ReportLine { level: Level::Plain, worker: Some(tag), text: copy }
            },
        }
    }
}

/// Totals of the counts `cs`, each sum capped at the largest `u64`.
pub open spec fn totals_spec(cs: Seq<WorkerCounts>) -> (Option<int>, int, int) {
    (sum_total(cs), sum_skipped(cs), sum_unavailable(cs))
}

proof fn lemma_sums_nonneg(cs: Seq<WorkerCounts>)
    ensures
        sum_skipped(cs) >= 0,
        sum_unavailable(cs) >= 0,
        sum_total(cs) matches Some(t) ==> t >= 0,
    decreases cs.len(),
{
    if cs.len() > 0 {
        lemma_sums_nonneg(cs.drop_last());
    }
}

impl Dispatch {
    /// A run over workers with the tags `tags`, none of which has reported
    /// anything yet.
    pub fn new(tags: &Vec<u32>) -> (r: Dispatch)
        ensures
            r.failure is None,
            r.workers@.len() == tags@.len(),
            forall|i: int| 0 <= i < tags@.len() ==> (#[trigger] r.workers@[i]).tag == tags@[i]
                && r.workers@[i].counts == no_counts(),
    {
        let mut workers: Vec<WorkerState> = Vec::new();
        let mut i: usize = 0;
        while i < tags.len()
            invariant
                0 <= i <= tags@.len(),
                workers@.len() == i,
                forall|j: int| 0 <= j < i ==> (#[trigger] workers@[j]).tag == tags@[j]
                    && workers@[j].counts == no_counts(),
            decreases tags@.len() - i,
        {
            workers.push(WorkerState { tag: tags[i], counts: WorkerCounts::new() });
            i += 1;
        }
        Dispatch { workers, failure: None }
    }

    /// Whether a locator was rejected.
    pub fn failed(&self) -> (r: bool)
        ensures
            r == self.failure is Some,
    {
        self.failure.is_some()
    }

    /// Takes in a line of worker `worker`'s output stream.
    pub fn on_output_line(&mut self, worker: usize, line: &Vec<u8>) -> (r: LineOutcome)
        requires
            worker < old(self).workers@.len(),
        ensures
            old(self).failure is Some ==> r is Ignored && final(self).workers@ == old(self).workers@,
            old(self).failure is None ==> {
                &&& final(self).workers@ == old(self).workers@.update(
                    worker as int,
                    WorkerState {
                        tag: old(self).workers@[worker as int].tag,
                        counts: counts_after_output(old(self).workers@[worker as int].counts, line@),
                    },
                )
                &&& r matches LineOutcome::Show(l) && l.level == Level::Plain && match filter_cut(line@) {
                    Some(t) => l.worker is None && l.text@ == t,
                    None => l.worker == Some(old(self).workers@[worker as int].tag) && l.text@ == line@,
                }
            },
            opt_bytes_view(final(self).failure) == opt_bytes_view(old(self).failure),
    {
        if self.failure.is_some() {
            return LineOutcome::Ignored;
        }
        let mut w = self.workers[worker];
        let l = w.counts.on_output_line(w.tag, line);
        self.workers.set(worker, w);
        LineOutcome::Show(l)
    }

    /// Takes in a line of worker `worker`'s diagnostic stream. A rejected
    /// locator stops the run: that line and every later one, of any worker,
    /// change no count.
    pub fn on_diagnostic_line(&mut self, worker: usize, line: &Vec<u8>) -> (r: LineOutcome)
        requires
            worker < old(self).workers@.len(),
        ensures
            old(self).failure is Some ==> {
                &&& r is Ignored
                &&& final(self).workers@ == old(self).workers@
                &&& opt_bytes_view(final(self).failure) == opt_bytes_view(old(self).failure)
            },
            old(self).failure is None && diagnostic_kind(line@) == Diagnostic::Rejected ==> {
                &&& final(self).workers@ == old(self).workers@
                &&& opt_bytes_view(final(self).failure) == Some(diagnostic_text(line@))
                &&& r matches LineOutcome::Abort(m) && m@ == diagnostic_text(line@)
            },
            old(self).failure is None && diagnostic_kind(line@) != Diagnostic::Rejected ==> {
                &&& final(self).workers@ == old(self).workers@.update(
                    worker as int,
                    WorkerState {
                        tag: old(self).workers@[worker as int].tag,
                        counts: counts_after_diagnostic(old(self).workers@[worker as int].counts, line@),
                    },
                )
                &&& final(self).failure is None
                &&& r matches LineOutcome::Show(l) && l.level == diagnostic_level(diagnostic_kind(line@))
                    && l.worker == Some(old(self).workers@[worker as int].tag) && l.text@
                    == diagnostic_text(line@)
            },
    {
        if self.failure.is_some() {
            return LineOutcome::Ignored;
        }
        let (kind, text) = classify_diagnostic(line);
        let mut w = self.workers[worker];
        let level = match kind {
            Diagnostic::Rejected => {
                let mut copy: Vec<u8> = Vec::new();
                append_bytes(&mut copy, &text);
                assert(copy@ =~= text@);
                self.failure = Some(copy);
                return LineOutcome::Abort(text);
            },
            Diagnostic::Unavailable => {
                if w.counts.unavailable < u64::MAX {
                    w.counts.unavailable = w.counts.unavailable + 1;
                }
                Level::Error
            },
            Diagnostic::Debug => Level::Debug,
            Diagnostic::Warning => Level::Warning,
            Diagnostic::Error => Level::Error,
            Diagnostic::Plain => Level::Plain,
        };
        self.workers.set(worker, w);
        LineOutcome::Show(ReportLine { level, worker: Some(w.tag), text })
    }

    /// The counts of all workers added up, each sum capped at the largest
    /// `u64`.
    pub fn totals(&self) -> (r: Totals)
        ensures
            r.skipped == cap(sum_skipped(counts_of(self.workers@))),
            r.unavailable == cap(sum_unavailable(counts_of(self.workers@))),
            match sum_total(counts_of(self.workers@)) {
                Some(t) => r.total == Some(cap(t)),
                None => r.total is None,
            },
    {
        let ghost cs = counts_of(self.workers@);
        let mut total: Option<u64> = None;
        let mut skipped: u64 = 0;
        let mut unavailable: u64 = 0;
        let mut i: usize = 0;
        assert(cs.take(0) =~= Seq::<WorkerCounts>::empty());
        while i < self.workers.len()
            invariant
                0 <= i <= self.workers@.len(),
                cs == counts_of(self.workers@),
                skipped == cap(sum_skipped(cs.take(i as int))),
                unavailable == cap(sum_unavailable(cs.take(i as int))),
                match sum_total(cs.take(i as int)) {
                    Some(t) => total == Some(cap(t)),
                    None => total is None,
                },
            decreases self.workers@.len() - i,
        {
            let c = self.workers[i].counts;
            let ghost p = cs.take(i as int);
            assert(cs.take(i + 1).drop_last() =~= p);
            assert(cs.take(i + 1).last() == c);
            proof {
                lemma_sums_nonneg(p);
            }
            skipped = sat_add(skipped, c.skipped);
            unavailable = sat_add(unavailable, c.unavailable);
            total = match (total, c.total) {
                (None, None) => None,
                (Some(a), None) => Some(a),
                (None, Some(b)) => Some(b),
                (Some(a), Some(b)) => Some(sat_add(a, b)),
            };
            i += 1;
        }
        assert(cs.take(self.workers@.len() as int) =~= cs);
        Totals { total, skipped, unavailable }
    }

    /// The result of the run: the totals, or the message of the rejected
    /// locator.
    pub fn outcome(&self) -> (r: Result<Totals, DispatchError>)
        ensures
            match self.failure {
                Some(m) => r matches Err(DispatchError::SourceRejected(e)) && e@ == m@,
                None => r matches Ok(t) && t.skipped == cap(sum_skipped(counts_of(self.workers@)))
                    && t.unavailable == cap(sum_unavailable(counts_of(self.workers@))) && match sum_total(
                    counts_of(self.workers@),
                ) {
                    Some(n) => t.total == Some(cap(n)),
                    None => t.total is None,
                },
            },
    {
        match &self.failure {
            Some(m) => {
                let mut e: Vec<u8> = Vec::new();
                append_bytes(&mut e, m);
                assert(e@ =~= m@);
                Err(DispatchError::SourceRejected(e))
            },
            None => Ok(self.totals()),
        }
    }
}

/// The items that were fetched: the announced size less the skipped and
/// the unavailable ones, or none while no size was announced.
pub open spec fn fetched_spec(t: Totals) -> Option<int> {
    match t.total {
        Some(n) => Some(
            if n >= t.skipped + t.unavailable {
                n - t.skipped - t.unavailable
            } else {
                0
            },
        ),
        None => None,
    }
}

impl Totals {
    /// The number of items fetched, once a playlist size is known.
    pub fn fetched(&self) -> (r: Option<u64>)
        ensures
            match fetched_spec(*self) {
                Some(n) => r == Some(n as u64),
                None => r is None,
            },
    {
        match self.total {
            Some(n) => {
                if self.skipped <= n && self.unavailable <= n - self.skipped {
                    Some(n - self.skipped - self.unavailable)
                } else {
                    Some(0)
                }
            },
            None => None,
        }
    }
}

/// Skipped, unavailable and fetched items together never exceed the
/// announced size, as long as the tool reported no more skipped and
/// unavailable items than it announced.
pub proof fn lemma_counts_within_total(t: Totals)
    requires
        t.total matches Some(n) && t.skipped + t.unavailable <= n,
    ensures
        t.skipped + t.unavailable + fetched_spec(t).unwrap() <= t.total.unwrap(),
{
}

} // verus!
