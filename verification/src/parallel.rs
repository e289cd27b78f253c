//! How runners do that execute at the same time.

use vstd::prelude::*;
use vstd::string::*;
use crate::backend::{backend_display_name, display_name, ContainmentBackend};
use crate::schedule::{BenchStep, Schedule};
use crate::stats::{
    blank_stats, compute_stats, extremes_are_durations, is_blank, is_summary, nanos, Stats,
};
use crate::units::{Millis, Ratio};

verus! {

/// What one runner took in a round.
#[derive(Clone, Copy, Debug)]
pub struct ParallelEntry {
    pub runner_index: usize,
    pub elapsed_ms: Millis,
    pub exit_code: i32,
}

/// A round in which all runners executed once, numbered from one.
#[derive(Debug)]
pub struct ParallelRound {
    pub round: usize,
    /// From the start of the round until the last runner was done.
    pub wall_clock_ms: Millis,
    pub entries: Vec<ParallelEntry>,
}

/// The result of a parallel benchmark.
#[derive(Debug)]
pub struct ParallelResult {
    pub backend: String,
    pub concurrency: usize,
    pub rounds: Vec<ParallelRound>,
    /// Of how long the rounds took.
    pub wall_clock_stats: Stats,
    /// Of how long each runner took in each round.
    pub per_runner_stats: Stats,
    /// How many executions there are in a second: as many as run at once, over the median of how
    /// long the rounds took.
    pub throughput_per_sec: Ratio,
    pub error: Option<String>,
}

/// What a runner writes down when it is done with a round. Rounds are numbered from zero here, those
/// to warm up included.
#[derive(Clone, Copy, Debug)]
pub struct LogLine {
    pub round: usize,
    pub entry: ParallelEntry,
}

/// The entries of one round, in the order in which they were written down.
pub open spec fn entries_of_round(log: Seq<LogLine>, round: int) -> Seq<ParallelEntry>
    decreases log.len(),
{
    if log.len() == 0 {
        Seq::empty()
    } else {
        let rest = entries_of_round(log.drop_last(), round);
        if log.last().round == round {
            rest.push(log.last().entry)
        } else {
            rest
        }
    }
}

/// The entries of one round.
pub fn round_entries(log: &Vec<LogLine>, round: usize) -> (r: Vec<ParallelEntry>)
    ensures
        r@ == entries_of_round(log@, round as int),
{
    let mut out: Vec<ParallelEntry> = Vec::new();
    let mut i: usize = 0;
    while i < log.len()
        invariant
            i <= log@.len(),
            out@ == entries_of_round(log@.take(i as int), round as int),
        decreases log@.len() - i,
    {
        assert(log@.take(i + 1).drop_last() =~= log@.take(i as int));
        if log[i].round == round {
            out.push(log[i].entry);
        }
        i += 1;
    }
    assert(log@.take(i as int) =~= log@);
    out
}

/// How long each runner took.
pub open spec fn latencies(entries: Seq<ParallelEntry>) -> Seq<Millis> {
    entries.map_values(|e: ParallelEntry| e.elapsed_ms)
}

/// How long each runner took in each round, round after round.
pub open spec fn all_latencies(rounds: Seq<ParallelRound>) -> Seq<Millis>
    decreases rounds.len(),
{
    if rounds.len() == 0 {
        Seq::empty()
    } else {
        all_latencies(rounds.drop_last()) + latencies(rounds.last().entries@)
    }
}

/// How long each round took.
pub open spec fn wall_clocks(rounds: Seq<ParallelRound>) -> Seq<Millis> {
    rounds.map_values(|r: ParallelRound| r.wall_clock_ms)
}

/// A parallel benchmark under way.
#[derive(Debug)]
pub struct ParallelRun {
    pub backend: ContainmentBackend,
    /// How many runners execute at once.
    pub concurrency: usize,
    pub schedule: Schedule,
    /// The timed rounds that are over.
    pub rounds: Vec<ParallelRound>,
}

impl ParallelRun {
    /// All rounds can be counted, and the timed ones that are over are kept, numbered from one.
    pub open spec fn valid(self) -> bool {
        &&& self.schedule.valid()
        &&& self.schedule.warmup + self.schedule.iterations <= usize::MAX
        &&& self.rounds@.len() == self.schedule.timed
        &&& forall|i: int| 0 <= i < self.rounds@.len() ==> (#[trigger] self.rounds@[i]).round == i + 1
    }

    /// Begins a benchmark of `concurrency` runners.
    pub fn new(
        backend: ContainmentBackend,
        concurrency: usize,
        warmup: usize,
        iterations: usize,
    ) -> (r: ParallelRun)
        requires
            warmup + iterations <= usize::MAX,
        ensures
            r.valid(),
            r.backend == backend,
            r.concurrency == concurrency,
            r.schedule.warmup == warmup,
            r.schedule.iterations == iterations,
            r.schedule.done() == 0,
    {
        ParallelRun {
            backend,
            concurrency,
            schedule: Schedule::new(warmup, iterations),
            rounds: Vec::new(),
        }
    }

    /// The number, from zero, by which runners write down the round that comes next.
    pub fn round_index(&self) -> (r: usize)
        requires
            self.valid(),
        ensures
            r == self.schedule.done(),
    {
        self.schedule.warmed + self.schedule.timed
    }

    /// Takes note that the next round is over. It counts if it is a timed one.
    pub fn record(&mut self, wall_clock_ms: Millis, log: &Vec<LogLine>)
        requires
            old(self).valid(),
            !(old(self).schedule.next() is Done),
        ensures
            final(self).valid(),
            final(self).backend == old(self).backend,
            final(self).concurrency == old(self).concurrency,
            final(self).schedule.warmup == old(self).schedule.warmup,
            final(self).schedule.iterations == old(self).schedule.iterations,
            final(self).schedule.done() == old(self).schedule.done() + 1,
            match old(self).schedule.next() {
                BenchStep::Timed(number) => {
                    &&& final(self).rounds@.len() == old(self).rounds@.len() + 1
                    &&& final(self).rounds@.drop_last() == old(self).rounds@
                    &&& final(self).rounds@.last().round == number
                    &&& final(self).rounds@.last().wall_clock_ms == wall_clock_ms
                    &&& final(self).rounds@.last().entries@ == entries_of_round(
                        log@,
                        old(self).schedule.done(),
                    )
                },
                _ => final(self).rounds@ == old(self).rounds@,
            },
    {
        match self.schedule.step() {
            BenchStep::Timed(number) => {
                let entries = round_entries(log, self.round_index());
                self.rounds.push(ParallelRound { round: number, wall_clock_ms, entries });
                assert(self.rounds@.drop_last() =~= old(self).rounds@);
            },
            _ => {},
        }
        self.schedule.advance();
    }
}

/// Whether `r` is how many executions there are in a second if `concurrency` of them take `median`
/// milliseconds: none if they take no time.
pub open spec fn is_throughput(r: Ratio, concurrency: int, median: Ratio) -> bool {
    if median.top() > 0 {
        r.is(concurrency * 1000 * median.den, median.top())
    } else {
        r.is(0, 1)
    }
}

/// Whether `r` is what a parallel benchmark comes to.
pub open spec fn is_parallel_result(
    r: ParallelResult,
    backend: ContainmentBackend,
    concurrency: usize,
    rounds: Seq<ParallelRound>,
) -> bool {
    &&& r.backend@ == display_name(backend)@
    &&& r.concurrency == concurrency
    &&& if rounds.len() == 0 || all_latencies(rounds).len() == 0 {
        &&& r.rounds@.len() == 0
        &&& is_blank(r.wall_clock_stats)
        &&& is_blank(r.per_runner_stats)
        &&& r.throughput_per_sec.is(0, 1)
        &&& r.error is Some
        &&& r.error->0@ == "no successful rounds"@
    } else {
        &&& r.rounds@ == rounds
        &&& is_summary(r.wall_clock_stats, nanos(wall_clocks(rounds)))
        &&& is_summary(r.per_runner_stats, nanos(all_latencies(rounds)))
        &&& is_throughput(r.throughput_per_sec, concurrency as int, r.wall_clock_stats.median_ms)
        &&& r.error is None
    }
}

fn list_wall_clocks(rounds: &Vec<ParallelRound>) -> (r: Vec<Millis>)
    ensures
        r@ == wall_clocks(rounds@),
{
    let mut out: Vec<Millis> = Vec::new();
    let mut i: usize = 0;
    while i < rounds.len()
        invariant
            i <= rounds@.len(),
            out@ == wall_clocks(rounds@.take(i as int)),
        decreases rounds@.len() - i,
    {
        out.push(rounds[i].wall_clock_ms);
        i += 1;
        assert(out@ =~= wall_clocks(rounds@.take(i as int)));
    }
    assert(rounds@.take(i as int) =~= rounds@);
    out
}

fn list_latencies(rounds: &Vec<ParallelRound>) -> (r: Vec<Millis>)
    ensures
        r@ == all_latencies(rounds@),
{
    let mut out: Vec<Millis> = Vec::new();
    let mut i: usize = 0;
    while i < rounds.len()
        invariant
            i <= rounds@.len(),
            out@ == all_latencies(rounds@.take(i as int)),
        decreases rounds@.len() - i,
    {
        let entries = &rounds[i].entries;
        let ghost before = out@;
        let mut j: usize = 0;
        while j < entries.len()
            invariant
                j <= entries@.len(),
                out@ == before + latencies(entries@.take(j as int)),
            decreases entries@.len() - j,
        {
            out.push(entries[j].elapsed_ms);
            j += 1;
            assert(out@ =~= before + latencies(entries@.take(j as int)));
        }
        assert(entries@.take(j as int) =~= entries@);
        assert(rounds@.take(i + 1).drop_last() =~= rounds@.take(i as int));
        i += 1;
    }
    assert(rounds@.take(i as int) =~= rounds@);
    out
}

fn throughput(concurrency: usize, median: Ratio) -> (r: Ratio)
    requires
        median.valid(),
        median.den <= 0x1_0000_0000,
    ensures
        is_throughput(r, concurrency as int, median),
{
    if median.num == 0 || median.negative {
        return Ratio::zero();
    }
    assert(concurrency * 1000 * median.den <= 0xffff_ffff_ffff_ffff * 1000 * 0x1_0000_0000)
        by (nonlinear_arith)
        requires
            0 <= concurrency <= 0xffff_ffff_ffff_ffff,
            0 <= median.den <= 0x1_0000_0000,
    ;
    Ratio::of(concurrency as u128 * 1000 * median.den, 0, median.num)
}

/// The throughput, times the median time of a round in seconds, is how many runners execute at once.
/// It holds whenever rounds take any time.
pub proof fn throughput_times_median_is_concurrency(r: Ratio, concurrency: int, median: Ratio)
    requires
        concurrency >= 0,
        median.valid(),
        median.top() > 0,
        is_throughput(r, concurrency, median),
    ensures
        r.top() * median.top() == concurrency * (1000 * median.den) * r.den,
{
    let n = median.top();
    let d = median.den as int;
    assert((concurrency * 1000 * d) * n == concurrency * (1000 * d) * n) by (nonlinear_arith);
}

/// The result of a parallel benchmark.
pub fn parallel_benchmark(run: ParallelRun) -> (r: ParallelResult)
    ensures
        is_parallel_result(r, run.backend, run.concurrency, run.rounds@),
{
    let backend = String::from_str(backend_display_name(&run.backend));
    let concurrency: usize = run.concurrency;
    let rounds = run.rounds;
    let walls = list_wall_clocks(&rounds);
    let times = list_latencies(&rounds);
    if walls.len() == 0 || times.len() == 0 {
        return ParallelResult {
            backend,
            concurrency,
            rounds: Vec::new(),
            wall_clock_stats: blank_stats(),
            per_runner_stats: blank_stats(),
            throughput_per_sec: Ratio::zero(),
            error: Some(String::from_str("no successful rounds")),
        };
    }
    let wall_clock_stats = compute_stats(&walls);
    let per_runner_stats = compute_stats(&times);
    let throughput_per_sec = throughput(concurrency, wall_clock_stats.median_ms);
    ParallelResult {
        backend,
        concurrency,
        rounds,
        wall_clock_stats,
        per_runner_stats,
        throughput_per_sec,
        error: None,
    }
}

/// The shortest and the longest time that a runner took in a round, if there was any runner.
pub fn latency_range(entries: &Vec<ParallelEntry>) -> (r: Option<(Millis, Millis)>)
    ensures
        match r {
            Some((least, most)) => {
                &&& exists|i: int| 0 <= i < entries@.len() && entries@[i].elapsed_ms == least
                &&& exists|i: int| 0 <= i < entries@.len() && entries@[i].elapsed_ms == most
                &&& forall|i: int|
                    0 <= i < entries@.len() ==> least.nanos
                        <= (#[trigger] entries@[i]).elapsed_ms.nanos <= most.nanos
            },
            None => entries@.len() == 0,
        },
{
    if entries.len() == 0 {
        return None;
    }
    let mut least = entries[0].elapsed_ms;
    let mut most = entries[0].elapsed_ms;
    let mut i: usize = 1;
    while i < entries.len()
        invariant
            1 <= i <= entries@.len(),
            exists|j: int| 0 <= j < i && entries@[j].elapsed_ms == least,
            exists|j: int| 0 <= j < i && entries@[j].elapsed_ms == most,
            forall|j: int|
                0 <= j < i ==> least.nanos <= (#[trigger] entries@[j]).elapsed_ms.nanos
                    <= most.nanos,
        decreases entries@.len() - i,
    {
        let t = entries[i].elapsed_ms;
        if t.nanos < least.nanos {
            least = t;
        }
        if t.nanos > most.nanos {
            most = t;
        }
        i += 1;
    }
    Some((least, most))
}

/// A line is among the entries of a round if and only if it is of that round, whatever it says
/// besides, and the entries keep the order of the log.
pub proof fn round_has_just_its_own_lines(log: Seq<LogLine>, round: int)
    ensures
        entries_of_round(log, round) == log.filter(|l: LogLine| l.round == round).map_values(
            |l: LogLine| l.entry,
        ),
    decreases log.len(),
{
    let own = |l: LogLine| l.round == round;
    let entry = |l: LogLine| l.entry;
    reveal(Seq::filter);
    if log.len() > 0 {
        let rest = log.drop_last();
        round_has_just_its_own_lines(rest, round);
        if own(log.last()) {
            assert(log.filter(own) == rest.filter(own).push(log.last()));
            assert(log.filter(own).map_values(entry) =~= rest.filter(own).map_values(entry).push(
                log.last().entry,
            ));
        }
    }
    assert(entries_of_round(log, round) =~= log.filter(own).map_values(entry));
}

/// How many entries the first `rounds` rounds have together.
pub open spec fn entries_up_to(log: Seq<LogLine>, rounds: nat) -> nat
    decreases rounds,
{
    if rounds == 0 {
        0
    } else {
        entries_up_to(log, (rounds - 1) as nat) + entries_of_round(log, rounds - 1).len()
    }
}

/// Nothing in the log is lost and nothing counts twice: over all rounds the entries add up to the
/// log.
pub proof fn entries_add_up_to_the_log(log: Seq<LogLine>, rounds: nat)
    requires
        forall|i: int| 0 <= i < log.len() ==> (#[trigger] log[i]).round < rounds,
    ensures
        entries_up_to(log, rounds) == log.len(),
    decreases log.len(),
{
    if log.len() == 0 {
        lemma_no_entries(log, rounds);
    } else {
        let rest = log.drop_last();
        assert forall|i: int| 0 <= i < rest.len() implies (#[trigger] rest[i]).round < rounds by {
            assert(rest[i] == log[i]);
        }
        entries_add_up_to_the_log(rest, rounds);
        assert(log[log.len() - 1].round < rounds);
        lemma_one_more_line(log, rounds);
    }
}

proof fn lemma_no_entries(log: Seq<LogLine>, rounds: nat)
    requires
        log.len() == 0,
    ensures
        entries_up_to(log, rounds) == 0,
    decreases rounds,
{
    if rounds > 0 {
        lemma_no_entries(log, (rounds - 1) as nat);
    }
}

proof fn lemma_one_more_line(log: Seq<LogLine>, rounds: nat)
    requires
        log.len() > 0,
    ensures
        entries_up_to(log, rounds) == entries_up_to(log.drop_last(), rounds) + if log.last().round
            < rounds {
            1nat
        } else {
            0
        },
    decreases rounds,
{
    if rounds > 0 {
        lemma_one_more_line(log, (rounds - 1) as nat);
    }
}

/// Each round counts with how long it took, and each runner in it with how long that one took.
pub proof fn times_are_those_of_rounds_and_runners(rounds: Seq<ParallelRound>, entries: Seq<ParallelEntry>)
    ensures
        wall_clocks(rounds).len() == rounds.len(),
        forall|i: int|
            0 <= i < rounds.len() ==> #[trigger] wall_clocks(rounds)[i] == rounds[i].wall_clock_ms,
        latencies(entries).len() == entries.len(),
        forall|i: int|
            0 <= i < entries.len() ==> #[trigger] latencies(entries)[i] == entries[i].elapsed_ms,
{
}

/// The latencies are those of all entries of all rounds, one round after the other.
pub proof fn latencies_are_those_of_all_entries(rounds: Seq<ParallelRound>)
    ensures
        all_latencies(rounds) == rounds.fold_left(
            Seq::<ParallelEntry>::empty(),
            |all: Seq<ParallelEntry>, x: ParallelRound| all + x.entries@,
        ).map_values(|e: ParallelEntry| e.elapsed_ms),
    decreases rounds.len(),
{
    let more = |all: Seq<ParallelEntry>, x: ParallelRound| all + x.entries@;
    let none = Seq::<ParallelEntry>::empty();
    if rounds.len() > 0 {
        latencies_are_those_of_all_entries(rounds.drop_last());
        let rest = rounds.drop_last().fold_left(none, more);
        assert(rounds.fold_left(none, more) == rest + rounds.last().entries@);
    }
    assert(all_latencies(rounds) =~= rounds.fold_left(none, more).map_values(
        |e: ParallelEntry| e.elapsed_ms,
    ));
}

/// A benchmark fails if and only if no runner was ever timed. Otherwise all rounds are kept, every
/// one of them counts in how long rounds take and every entry in how long runners take.
pub proof fn result_counts_every_round_and_entry(
    r: ParallelResult,
    backend: ContainmentBackend,
    concurrency: usize,
    rounds: Seq<ParallelRound>,
)
    requires
        is_parallel_result(r, backend, concurrency, rounds),
    ensures
        r.concurrency == concurrency,
        r.error is Some <==> forall|i: int|
            0 <= i < rounds.len() ==> (#[trigger] rounds[i]).entries@.len() == 0,
        r.error is None ==> {
            &&& r.rounds@ == rounds
            &&& r.wall_clock_stats.count == rounds.len()
            &&& r.per_runner_stats.count == rounds.fold_left(
                0int,
                |n: int, x: ParallelRound| n + x.entries@.len(),
            )
            &&& forall|i: int|
                0 <= i < rounds.len() ==> r.wall_clock_stats.min_ms.nanos <= (
                #[trigger] rounds[i]).wall_clock_ms.nanos <= r.wall_clock_stats.max_ms.nanos
        },
        r.error is Some ==> {
            &&& r.rounds@.len() == 0
            &&& r.wall_clock_stats.count == 0
            &&& r.per_runner_stats.count == 0
            &&& r.throughput_per_sec.top() == 0
        },
{
    lemma_latency_count(rounds);
    if r.error is None {
        let t = nanos(wall_clocks(rounds));
        extremes_are_durations(r.wall_clock_stats, t);
        assert forall|i: int| 0 <= i < rounds.len() implies r.wall_clock_stats.min_ms.nanos <= (
        #[trigger] rounds[i]).wall_clock_ms.nanos <= r.wall_clock_stats.max_ms.nanos by {
            assert(t[i] == rounds[i].wall_clock_ms.nanos);
        }
        if forall|i: int| 0 <= i < rounds.len() ==> (#[trigger] rounds[i]).entries@.len() == 0 {
            lemma_empty_rounds(rounds);
        }
    } else {
        assert forall|i: int| 0 <= i < rounds.len() implies (
        #[trigger] rounds[i]).entries@.len() == 0 by {
            lemma_latencies_hold_rounds(rounds, i);
        }
    }
}

proof fn lemma_latency_count(rounds: Seq<ParallelRound>)
    ensures
        all_latencies(rounds).len() == rounds.fold_left(
            0int,
            |n: int, x: ParallelRound| n + x.entries@.len(),
        ),
    decreases rounds.len(),
{
    if rounds.len() > 0 {
        lemma_latency_count(rounds.drop_last());
    }
}

proof fn lemma_empty_rounds(rounds: Seq<ParallelRound>)
    requires
        forall|i: int| 0 <= i < rounds.len() ==> (#[trigger] rounds[i]).entries@.len() == 0,
    ensures
        all_latencies(rounds).len() == 0,
    decreases rounds.len(),
{
    if rounds.len() > 0 {
        let rest = rounds.drop_last();
        assert forall|i: int| 0 <= i < rest.len() implies (#[trigger] rest[i]).entries@.len() == 0 by {
            assert(rest[i] == rounds[i]);
        }
        lemma_empty_rounds(rest);
        assert(rounds[rounds.len() - 1].entries@.len() == 0);
    }
}

proof fn lemma_latencies_hold_rounds(rounds: Seq<ParallelRound>, i: int)
    requires
        0 <= i < rounds.len(),
    ensures
        all_latencies(rounds).len() >= rounds[i].entries@.len(),
    decreases rounds.len(),
{
    if i < rounds.len() - 1 {
        lemma_latencies_hold_rounds(rounds.drop_last(), i);
    }
}

/// Throughput is nothing exactly if rounds take no time or nothing runs at once.
pub proof fn throughput_is_positive_whenever_time_passes(r: Ratio, concurrency: int, median: Ratio)
    requires
        concurrency >= 0,
        median.valid(),
        median.top() >= 0,
        is_throughput(r, concurrency, median),
    ensures
        r.top() > 0 <==> concurrency > 0 && median.top() > 0,
        r.top() >= 0,
{
    assert(concurrency * 1000 * median.den > 0 <==> concurrency > 0) by (nonlinear_arith)
        requires
            concurrency >= 0,
            median.den > 0,
    ;
}

/// The timed rounds that are over are all kept, and numbered from one without a gap.
pub proof fn timed_rounds_are_all_kept(run: ParallelRun)
    requires
        run.valid(),
    ensures
        run.rounds@.len() == run.schedule.timed,
        forall|i: int| 0 <= i < run.rounds@.len() ==> (#[trigger] run.rounds@[i]).round == i + 1,
{
}

} // verus!
