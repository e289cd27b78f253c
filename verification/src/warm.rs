//! How long executions take on a runner that is created once.

use vstd::prelude::*;
use vstd::string::*;
use crate::backend::{backend_display_name, display_name, ContainmentBackend};
use crate::output::{preview, stdout_preview};
use crate::schedule::{BenchStep, Schedule};
use crate::stats::{
    blank_stats, compute_stats, extremes_are_durations, is_blank, is_summary, nanos, Stats,
};
use crate::units::Millis;

verus! {

/// A timed execution, numbered from one.
#[derive(Debug)]
pub struct IterationResult {
    pub iteration: usize,
    pub elapsed_ms: Millis,
    pub exit_code: i32,
    /// The start of the first line of the output.
    pub stdout_preview: String,
}

/// The result of a warm-start benchmark.
#[derive(Debug)]
pub struct BackendResult {
    pub backend: String,
    pub workload: String,
    pub warmup_iterations: usize,
    pub stats: Stats,
    pub iterations: Vec<IterationResult>,
    /// How long it took to create the runner.
    pub runner_create_ms: Option<Millis>,
    pub error: Option<String>,
}

/// A warm-start benchmark under way.
#[derive(Debug)]
pub struct WarmRun {
    /// How long it took to create the runner.
    pub create_ms: Millis,
    pub schedule: Schedule,
    /// The timed executions that are over.
    pub results: Vec<IterationResult>,
}

/// How long each execution took.
pub open spec fn iteration_times(results: Seq<IterationResult>) -> Seq<Millis> {
    results.map_values(|e: IterationResult| e.elapsed_ms)
}

impl WarmRun {
    /// The timed executions that are over are kept, numbered from one.
    pub open spec fn valid(self) -> bool {
        &&& self.schedule.valid()
        &&& self.results@.len() == self.schedule.timed
        &&& forall|i: int|
            0 <= i < self.results@.len() ==> (#[trigger] self.results@[i]).iteration == i + 1
    }

    /// Begins a benchmark on a runner that took `create_ms` to create.
    pub fn new(create_ms: Millis, warmup: usize, iterations: usize) -> (r: WarmRun)
        ensures
            r.valid(),
            r.create_ms == create_ms,
            r.schedule.warmup == warmup,
            r.schedule.iterations == iterations,
            r.schedule.done() == 0,
    {
        WarmRun { create_ms, schedule: Schedule::new(warmup, iterations), results: Vec::new() }
    }

    /// Takes note that the next execution is over. It counts if it is a timed one.
    pub fn record(&mut self, elapsed_ms: Millis, exit_code: i32, stdout: &str)
        requires
            old(self).valid(),
            !(old(self).schedule.next() is Done),
        ensures
            final(self).valid(),
            final(self).create_ms == old(self).create_ms,
            final(self).schedule.warmup == old(self).schedule.warmup,
            final(self).schedule.iterations == old(self).schedule.iterations,
            final(self).schedule.done() == old(self).schedule.done() + 1,
            match old(self).schedule.next() {
                BenchStep::Timed(number) => {
                    &&& final(self).results@.len() == old(self).results@.len() + 1
                    &&& final(self).results@.drop_last() == old(self).results@
                    &&& final(self).results@.last().iteration == number
                    &&& final(self).results@.last().elapsed_ms == elapsed_ms
                    &&& final(self).results@.last().exit_code == exit_code
                    &&& final(self).results@.last().stdout_preview@ == preview(stdout@)
                },
                _ => final(self).results@ == old(self).results@,
            },
    {
        match self.schedule.step() {
            BenchStep::Timed(number) => {
                self.results.push(
                    IterationResult {
                        iteration: number,
                        elapsed_ms,
                        exit_code,
                        stdout_preview: stdout_preview(stdout),
                    },
                );
                assert(self.results@.drop_last() =~= old(self).results@);
            },
            _ => {},
        }
        self.schedule.advance();
    }
}

fn list_times(results: &Vec<IterationResult>) -> (r: Vec<Millis>)
    ensures
        r@ == iteration_times(results@),
{
    let mut out: Vec<Millis> = Vec::new();
    let mut i: usize = 0;
    while i < results.len()
        invariant
            i <= results@.len(),
            out@ == iteration_times(results@.take(i as int)),
        decreases results@.len() - i,
    {
        out.push(results[i].elapsed_ms);
        i += 1;
        assert(out@ =~= iteration_times(results@.take(i as int)));
    }
    assert(results@.take(i as int) =~= results@);
    out
}

/// The result of a warm-start benchmark that ran to its end, or why the runner could not be
/// created.
pub fn benchmark_backend(
    backend: &ContainmentBackend,
    warmup: usize,
    workload: &str,
    outcome: Result<WarmRun, String>,
) -> (r: BackendResult)
    requires
        outcome matches Ok(run) ==> run.results@.len() > 0,
    ensures
        r.backend@ == display_name(*backend)@,
        r.workload@ == workload@,
        r.warmup_iterations == warmup,
        match outcome {
            Ok(run) => {
                &&& is_summary(r.stats, nanos(iteration_times(run.results@)))
                &&& r.iterations@ == run.results@
                &&& r.runner_create_ms == Some(run.create_ms)
                &&& r.error is None
            },
            Err(cause) => {
                &&& is_blank(r.stats)
                &&& r.iterations@.len() == 0
                &&& r.runner_create_ms is None
                &&& r.error is Some
                &&& r.error->0@ == "failed to create "@ + display_name(*backend)@ + " runner: "@
                    + cause@
            },
        },
{
    let name = backend_display_name(backend);
    match outcome {
        Ok(run) => {
            let times = list_times(&run.results);
            BackendResult {
                backend: String::from_str(name),
                workload: String::from_str(workload),
                warmup_iterations: warmup,
                stats: compute_stats(&times),
                iterations: run.results,
                runner_create_ms: Some(run.create_ms),
                error: None,
            }
        },
        Err(cause) => {
            let mut message = String::from_str("failed to create ");
            message.append(name);
            message.append(" runner: ");
            message.append(cause.as_str());
            BackendResult {
                backend: String::from_str(name),
                workload: String::from_str(workload),
                warmup_iterations: warmup,
                stats: blank_stats(),
                iterations: Vec::new(),
                runner_create_ms: None,
                error: Some(message),
            }
        },
    }
}

/// Every timed execution counts with how long it took, whatever its exit code.
pub proof fn every_timed_execution_counts(results: Seq<IterationResult>)
    ensures
        iteration_times(results).len() == results.len(),
        forall|i: int|
            0 <= i < results.len() ==> #[trigger] iteration_times(results)[i] == results[i].elapsed_ms,
{
}

/// The timed executions that are over are all kept, and numbered from one without a gap.
pub proof fn timed_executions_are_all_kept(run: WarmRun)
    requires
        run.valid(),
    ensures
        run.results@.len() == run.schedule.timed,
        forall|i: int|
            0 <= i < run.results@.len() ==> (#[trigger] run.results@[i]).iteration == i + 1,
{
}

/// A summary of timed executions counts all of them, and each took at least the minimum and at most
/// the maximum.
pub proof fn summary_covers_every_execution(r: Stats, results: Seq<IterationResult>)
    requires
        results.len() > 0,
        is_summary(r, nanos(iteration_times(results))),
    ensures
        r.count == results.len(),
        forall|i: int|
            0 <= i < results.len() ==> r.min_ms.nanos <= (#[trigger] results[i]).elapsed_ms.nanos
                <= r.max_ms.nanos,
{
    let t = nanos(iteration_times(results));
    extremes_are_durations(r, t);
    assert forall|i: int| 0 <= i < results.len() implies r.min_ms.nanos <= (
    #[trigger] results[i]).elapsed_ms.nanos <= r.max_ms.nanos by {
        assert(t[i] == results[i].elapsed_ms.nanos);
    }
}

} // verus!
