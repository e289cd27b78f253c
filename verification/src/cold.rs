//! How long a process takes that starts, executes once and ends.

use vstd::prelude::*;
use vstd::string::*;
use crate::backend::{backend_display_name, display_name, ContainmentBackend};
use crate::schedule::{BenchStep, Schedule};
use crate::stats::{
    blank_stats, compute_stats, extremes_are_durations, is_blank, is_summary, nanos, Stats,
};
use crate::units::{Megabytes, Millis};

verus! {

/// The executable that a cold start runs.
pub const COLD_EXECUTABLE: &'static str = "wxc-exec.exe";

/// A timed cold start that came to its end. Numbers count from one, and those of the starts that
/// failed are left out.
#[derive(Clone, Copy, Debug)]
pub struct ColdStartEntry {
    pub iteration: usize,
    pub elapsed_ms: Millis,
    pub exit_code: i32,
    /// The largest commit charge that the process had.
    pub peak_commit_mb: Megabytes,
}

/// The result of a cold-start benchmark.
#[derive(Debug)]
pub struct ColdStartResult {
    pub backend: String,
    pub stats: Stats,
    pub entries: Vec<ColdStartEntry>,
    pub error: Option<String>,
}

/// A process that ended.
#[derive(Clone, Copy, Debug)]
pub struct ColdExit {
    pub elapsed_ms: Millis,
    /// The exit code, if the process ended with one.
    pub exit_code: Option<i32>,
    pub peak_commit_mb: Megabytes,
}

/// A cold-start benchmark under way.
#[derive(Debug)]
pub struct ColdRun {
    pub schedule: Schedule,
    /// The timed starts that came to their end.
    pub entries: Vec<ColdStartEntry>,
}

/// Whether `e` records the end of the process of the given number.
pub open spec fn is_cold_entry(e: ColdStartEntry, number: usize, exit: ColdExit) -> bool {
    &&& e.iteration == number
    &&& e.elapsed_ms == exit.elapsed_ms
    &&& e.exit_code == (match exit.exit_code {
        Some(code) => code as int,
        None => -1,
    })
    &&& e.peak_commit_mb == exit.peak_commit_mb
}

impl ColdRun {
    /// What is kept is in the order of its numbers, and none of them is of a start yet to come.
    pub open spec fn valid(self) -> bool {
        &&& self.schedule.valid()
        &&& forall|i: int|
            0 <= i < self.entries@.len() ==> 1 <= (#[trigger] self.entries@[i]).iteration
                <= self.schedule.timed
        &&& forall|i: int, j: int|
            0 <= i < j < self.entries@.len() ==> (#[trigger] self.entries@[i]).iteration < (
            #[trigger] self.entries@[j]).iteration
    }

    /// Begins a benchmark.
    pub fn new(warmup: usize, iterations: usize) -> (r: ColdRun)
        ensures
            r.valid(),
            r.schedule.warmup == warmup,
            r.schedule.iterations == iterations,
            r.schedule.done() == 0,
            r.entries@.len() == 0,
    {
        ColdRun { schedule: Schedule::new(warmup, iterations), entries: Vec::new() }
    }

    /// Takes note of how the next start ended, or that it failed. It counts if it is a timed one
    /// that did not fail.
    pub fn record(&mut self, outcome: Option<ColdExit>)
        requires
            old(self).valid(),
            !(old(self).schedule.next() is Done),
        ensures
            final(self).valid(),
            final(self).schedule.warmup == old(self).schedule.warmup,
            final(self).schedule.iterations == old(self).schedule.iterations,
            final(self).schedule.done() == old(self).schedule.done() + 1,
            match (old(self).schedule.next(), outcome) {
                (BenchStep::Timed(number), Some(exit)) => {
                    &&& final(self).entries@.len() == old(self).entries@.len() + 1
                    &&& final(self).entries@.drop_last() == old(self).entries@
                    &&& is_cold_entry(final(self).entries@.last(), number, exit)
                },
                _ => final(self).entries@ == old(self).entries@,
            },
    {
        match (self.schedule.step(), outcome) {
            (BenchStep::Timed(number), Some(exit)) => {
                let exit_code: i32 = match exit.exit_code {
                    Some(code) => code,
                    None => -1,
                };
                self.entries.push(
                    ColdStartEntry {
                        iteration: number,
                        elapsed_ms: exit.elapsed_ms,
                        exit_code,
                        peak_commit_mb: exit.peak_commit_mb,
                    },
                );
                assert(self.entries@.drop_last() =~= old(self).entries@);
            },
            _ => {},
        }
        self.schedule.advance();
    }
}

/// How long each start took.
pub open spec fn cold_times(entries: Seq<ColdStartEntry>) -> Seq<Millis> {
    entries.map_values(|e: ColdStartEntry| e.elapsed_ms)
}

fn list_times(entries: &Vec<ColdStartEntry>) -> (r: Vec<Millis>)
    ensures
        r@ == cold_times(entries@),
{
    let mut out: Vec<Millis> = Vec::new();
    let mut i: usize = 0;
    while i < entries.len()
        invariant
            i <= entries@.len(),
            out@ == cold_times(entries@.take(i as int)),
        decreases entries@.len() - i,
    {
        out.push(entries[i].elapsed_ms);
        i += 1;
        assert(out@ =~= cold_times(entries@.take(i as int)));
    }
    assert(entries@.take(i as int) =~= entries@);
    out
}

/// The result of a cold-start benchmark that ran to its end, or where the executable was looked for
/// in vain.
pub fn cold_start_benchmark(
    backend: &ContainmentBackend,
    outcome: Result<ColdRun, String>,
) -> (r: ColdStartResult)
    ensures
        r.backend@ == display_name(*backend)@,
        match outcome {
            Ok(run) => {
                &&& r.entries@ == run.entries@
                &&& if run.entries@.len() == 0 {
                    &&& is_blank(r.stats)
                    &&& r.error is Some
                    &&& r.error->0@ == "all iterations failed"@
                } else {
                    &&& is_summary(r.stats, nanos(cold_times(run.entries@)))
                    &&& r.error is None
                }
            },
            Err(path) => {
                &&& is_blank(r.stats)
                &&& r.entries@.len() == 0
                &&& r.error is Some
                &&& r.error->0@ == COLD_EXECUTABLE@ + " not found at "@ + path@
            },
        },
{
    let name = String::from_str(backend_display_name(backend));
    match outcome {
        Ok(run) => {
            let times = list_times(&run.entries);
            if times.len() == 0 {
                ColdStartResult {
                    backend: name,
                    stats: blank_stats(),
                    entries: run.entries,
                    error: Some(String::from_str("all iterations failed")),
                }
            } else {
                ColdStartResult {
                    backend: name,
                    stats: compute_stats(&times),
                    entries: run.entries,
                    error: None,
                }
            }
        },
        Err(path) => {
            let mut message = String::from_str(COLD_EXECUTABLE);
            message.append(" not found at ");
            message.append(path.as_str());
            ColdStartResult {
                backend: name,
                stats: blank_stats(),
                entries: Vec::new(),
                error: Some(message),
            }
        },
    }
}

/// The largest commit charge of any of the processes, or nothing if there is none.
pub fn peak_commit(entries: &Vec<ColdStartEntry>) -> (r: Megabytes)
    ensures
        forall|i: int|
            0 <= i < entries@.len() ==> (#[trigger] entries@[i]).peak_commit_mb.bytes <= r.bytes,
        if entries@.len() == 0 {
            r.bytes == 0
        } else {
            exists|i: int| 0 <= i < entries@.len() && entries@[i].peak_commit_mb == r
        },
{
    if entries.len() == 0 {
        return Megabytes { bytes: 0 };
    }
    let mut most = entries[0].peak_commit_mb;
    let mut i: usize = 1;
    while i < entries.len()
        invariant
            1 <= i <= entries@.len(),
            forall|j: int| 0 <= j < i ==> (#[trigger] entries@[j]).peak_commit_mb.bytes <= most.bytes,
            exists|j: int| 0 <= j < i && entries@[j].peak_commit_mb == most,
        decreases entries@.len() - i,
    {
        if entries[i].peak_commit_mb.bytes > most.bytes {
            most = entries[i].peak_commit_mb;
        }
        i += 1;
    }
    most
}

/// Every start that came to its end counts with how long it took, whatever its exit code.
pub proof fn every_end_counts(entries: Seq<ColdStartEntry>)
    ensures
        cold_times(entries).len() == entries.len(),
        forall|i: int|
            0 <= i < entries.len() ==> #[trigger] cold_times(entries)[i] == entries[i].elapsed_ms,
{
}

/// An entry holds how the process ended: its exit code, or -1 if it ended without one, how long it
/// took and how much it committed at most.
pub proof fn entry_holds_the_end(e: ColdStartEntry, number: usize, exit: ColdExit)
    requires
        is_cold_entry(e, number, exit),
    ensures
        e.iteration == number,
        e.elapsed_ms == exit.elapsed_ms,
        e.peak_commit_mb == exit.peak_commit_mb,
        exit.exit_code matches Some(code) ==> e.exit_code == code,
        exit.exit_code is None ==> e.exit_code == -1,
{
}

/// A summary of starts counts all that came to their end, and each took at least the minimum and at
/// most the maximum.
pub proof fn summary_covers_every_end(r: Stats, entries: Seq<ColdStartEntry>)
    requires
        entries.len() > 0,
        is_summary(r, nanos(cold_times(entries))),
    ensures
        r.count == entries.len(),
        forall|i: int|
            0 <= i < entries.len() ==> r.min_ms.nanos <= (#[trigger] entries[i]).elapsed_ms.nanos
                <= r.max_ms.nanos,
{
    let t = nanos(cold_times(entries));
    extremes_are_durations(r, t);
    assert forall|i: int| 0 <= i < entries.len() implies r.min_ms.nanos <= (
    #[trigger] entries[i]).elapsed_ms.nanos <= r.max_ms.nanos by {
        assert(t[i] == entries[i].elapsed_ms.nanos);
    }
}

/// The numbers of what is kept rise and are those of starts that are over.
pub proof fn numbers_rise_up_to_the_last_start(run: ColdRun, i: int, j: int)
    requires
        run.valid(),
        0 <= i < j < run.entries@.len(),
    ensures
        1 <= run.entries@[i].iteration < run.entries@[j].iteration <= run.schedule.timed,
{
}

} // verus!
