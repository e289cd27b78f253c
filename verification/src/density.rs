//! How much memory each runner of a backend costs, and how many runners fit in a fixed amount.

use vstd::prelude::*;
use vstd::string::*;
use crate::backend::{
    backend_display_name, daemon_names, daemon_process_names, display_name, has_daemon, is_ephemeral,
    is_ephemeral_backend, ContainmentBackend,
};
use crate::memory::PeakCommit;
use crate::order::{ascending, lemma_ascending, lemma_ascending_is, sort};
use crate::units::{Megabytes, Millis, Ratio, BYTES_PER_MB};

verus! {

/// The memory that runners are fitted into: 1500 megabytes.
pub const BUDGET_BYTES: u64 = 1_572_864_000;

/// What one runner of a density test took, numbered from one.
#[derive(Clone, Copy, Debug)]
pub struct DensityEntry {
    pub index: usize,
    pub create_ms: Millis,
    pub execute_ms: Millis,
    pub exit_code: i32,
    /// Commit charge of the process after the execution: what stays.
    pub process_commit_mb: Megabytes,
    /// Largest commit charge of the process during the execution.
    pub peak_commit_during_exec_mb: Megabytes,
    /// Largest commit charge of the daemons during the execution.
    pub peak_daemon_commit_mb: Option<Megabytes>,
    /// Commit charge of the whole system after the execution.
    pub system_commit_mb: Megabytes,
    /// Memory of the container as its cgroup counts it.
    pub container_memory_mb: Option<Megabytes>,
}

/// Commit charges at one moment.
#[derive(Clone, Copy, Debug)]
pub struct CommitReadings {
    pub process: Megabytes,
    pub system: Megabytes,
    pub daemon: Megabytes,
}

/// The result of a density test.
#[derive(Debug)]
pub struct DensityResult {
    pub backend: String,
    /// How many runners were created.
    pub count: usize,
    /// Whether the memory of the VM or container is freed after each execution.
    pub ephemeral: bool,
    pub entries: Vec<DensityEntry>,
    pub baseline_commit_mb: Megabytes,
    pub final_commit_mb: Megabytes,
    pub baseline_system_commit_mb: Megabytes,
    pub final_system_commit_mb: Megabytes,
    /// What each runner leaves committed in the process, in megabytes.
    pub per_runner_persistent_mb: Ratio,
    /// What an execution commits in the process at its peak.
    pub per_exec_peak_mb: Megabytes,
    /// What each runner leaves committed in the whole system, in megabytes.
    pub per_runner_system_mb: Ratio,
    pub daemon_names: Option<Vec<String>>,
    pub baseline_daemon_commit_mb: Option<Megabytes>,
    pub final_daemon_commit_mb: Option<Megabytes>,
    /// What an execution commits in the daemons at its peak.
    pub per_runner_daemon_mb: Option<Megabytes>,
    /// What a container takes, as its cgroup counts it.
    pub per_container_memory_mb: Option<Megabytes>,
    /// The cost of a runner that the estimate goes by, in megabytes.
    pub density_cost_mb: Ratio,
    pub fits_in_1500mb: usize,
    pub note: Option<String>,
}

/// `a - b`, or nothing if `b` is larger.
pub open spec fn growth(a: Megabytes, b: Megabytes) -> u64 {
    if a.bytes >= b.bytes {
        (a.bytes - b.bytes) as u64
    } else {
        0
    }
}

fn growth_of(a: Megabytes, b: Megabytes) -> (r: u64)
    ensures
        r == growth(a, b),
{
    if a.bytes >= b.bytes {
        a.bytes - b.bytes
    } else {
        0
    }
}

/// The commit charge of the process before execution `i`.
pub open spec fn commit_before(entries: Seq<DensityEntry>, baseline: Megabytes, i: int) -> Megabytes {
    if i == 0 {
        baseline
    } else {
        entries[i - 1].process_commit_mb
    }
}

/// How far each execution drove the commit charge of the process above where it was before.
pub open spec fn exec_peaks(entries: Seq<DensityEntry>, baseline: Megabytes) -> Seq<u64> {
    Seq::new(
        entries.len(),
        |i: int|
            growth(entries[i].peak_commit_during_exec_mb, commit_before(entries, baseline, i)),
    )
}

/// How far each execution drove the commit charge of the daemons above the baseline.
pub open spec fn daemon_peaks(entries: Seq<DensityEntry>, baseline: Megabytes) -> Seq<u64>
    decreases entries.len(),
{
    if entries.len() == 0 {
        Seq::empty()
    } else {
        let rest = daemon_peaks(entries.drop_last(), baseline);
        match entries.last().peak_daemon_commit_mb {
            Some(p) => rest.push(growth(p, baseline)),
            None => rest,
        }
    }
}

/// The memory of the containers that told it.
pub open spec fn container_amounts(entries: Seq<DensityEntry>) -> Seq<u64>
    decreases entries.len(),
{
    if entries.len() == 0 {
        Seq::empty()
    } else {
        let rest = container_amounts(entries.drop_last());
        match entries.last().container_memory_mb {
            Some(m) => rest.push(m.bytes),
            None => rest,
        }
    }
}

/// The median of a list, the upper one of two, if the list is not empty.
pub open spec fn upper_median(s: Seq<u64>) -> Option<Megabytes> {
    if s.len() == 0 {
        None
    } else {
        Some(Megabytes { bytes: ascending(s)[s.len() as int / 2] })
    }
}

/// The amount, or nothing.
pub open spec fn amount(m: Option<Megabytes>) -> int {
    match m {
        Some(m) => m.bytes as int,
        None => 0,
    }
}

/// Whether `r` is the growth from `first` to `last`, in megabytes, for each of `count` runners.
pub open spec fn is_per_runner(r: Ratio, first: Megabytes, last: Megabytes, count: int) -> bool {
    if count == 0 {
        r.is(0, 1)
    } else {
        r.is(last.bytes - first.bytes, count * BYTES_PER_MB)
    }
}

/// The median peak of the daemons, for a backend that has any.
pub open spec fn daemon_cost(
    backend: ContainmentBackend,
    entries: Seq<DensityEntry>,
    baseline: Megabytes,
) -> Option<Megabytes> {
    if has_daemon(backend) {
        upper_median(daemon_peaks(entries, baseline))
    } else {
        None
    }
}

/// The median memory of the containers, for WSLc.
pub open spec fn container_cost(
    backend: ContainmentBackend,
    entries: Seq<DensityEntry>,
) -> Option<Megabytes> {
    if backend is Wslc {
        upper_median(container_amounts(entries))
    } else {
        None
    }
}

/// The cost of a runner in bytes, as a numerator and a denominator. Memory is counted where it
/// lives: for WSLc in the container, or else in the whole system; for other ephemeral backends in
/// the peak of an execution and of the daemons; and for the rest in what each runner leaves behind,
/// with the peak of the daemons.
pub open spec fn cost_of(
    backend: ContainmentBackend,
    entries: Seq<DensityEntry>,
    first: CommitReadings,
    last: CommitReadings,
) -> (int, int) {
    let n = entries.len() as int;
    let daemon = amount(daemon_cost(backend, entries, first.daemon));
    if backend is Wslc {
        match container_cost(backend, entries) {
            Some(m) => (m.bytes as int, 1),
            None => if n > 0 && last.system.bytes > first.system.bytes {
                (last.system.bytes - first.system.bytes, n)
            } else {
                (0, 1)
            },
        }
    } else if is_ephemeral(backend) {
        (amount(upper_median(exec_peaks(entries, first.process))) + daemon, 1)
    } else if n > 0 {
        (last.process.bytes - first.process.bytes + daemon * n, n)
    } else {
        (0, 1)
    }
}

/// How many runners of cost `top / parts` bytes fit in the budget beside `baseline`: none if they
/// cost nothing, and at most what can be counted.
pub open spec fn fitting(baseline: Megabytes, top: int, parts: int) -> int {
    if top <= 0 || baseline.bytes >= BUDGET_BYTES {
        0
    } else {
        let n = ((BUDGET_BYTES - baseline.bytes) * parts) / top;
        if n <= usize::MAX {
            n
        } else {
            usize::MAX as int
        }
    }
}

/// What was measured on one runner.
#[derive(Clone, Copy, Debug)]
pub struct RunnerReading {
    pub create_ms: Millis,
    pub execute_ms: Millis,
    pub exit_code: i32,
    /// Commit charge of the process after the execution.
    pub process: Megabytes,
    /// The largest commit charges during the execution.
    pub peak: PeakCommit,
    /// Commit charge of the whole system after the execution.
    pub system: Megabytes,
    /// What the container printed as its memory, if it did.
    pub container: Option<Megabytes>,
}

/// A density test under way: runners are created and executed once, one after the other, until
/// there are enough or one cannot be created.
#[derive(Debug)]
pub struct DensityRun {
    pub backend: ContainmentBackend,
    /// How many runners are wanted.
    pub target: usize,
    /// Commit charges before the first runner.
    pub first: CommitReadings,
    pub entries: Vec<DensityEntry>,
    /// Whether a runner could not be created.
    pub failed: bool,
}

/// Whether `e` records a reading of a runner of the backend. The peak of the daemons counts only
/// for a backend that has any, and the memory of the container only for WSLc.
pub open spec fn is_entry(
    e: DensityEntry,
    backend: ContainmentBackend,
    index: int,
    reading: RunnerReading,
) -> bool {
    &&& e.index == index
    &&& e.create_ms == reading.create_ms
    &&& e.execute_ms == reading.execute_ms
    &&& e.exit_code == reading.exit_code
    &&& e.process_commit_mb == reading.process
    &&& e.peak_commit_during_exec_mb == reading.peak.process_mb
    &&& e.peak_daemon_commit_mb == (if has_daemon(backend) {
        Some(reading.peak.daemon_mb)
    } else {
        None
    })
    &&& e.system_commit_mb == reading.system
    &&& e.container_memory_mb == (if backend is Wslc {
        reading.container
    } else {
        None
    })
}

impl DensityRun {
    /// There are no more runners than are wanted, and they are numbered from one. Each has a peak of
    /// the daemons if and only if the backend has any, and the memory of a container only on WSLc.
    pub open spec fn valid(self) -> bool {
        &&& self.entries@.len() <= self.target
        &&& forall|i: int|
            0 <= i < self.entries@.len() ==> {
                let e = #[trigger] self.entries@[i];
                &&& e.index == i + 1
                &&& e.peak_daemon_commit_mb is Some <==> has_daemon(self.backend)
                &&& e.container_memory_mb is Some ==> self.backend is Wslc
            }
    }

    /// Whether another runner is to be created.
    pub open spec fn goes_on(self) -> bool {
        !self.failed && self.entries@.len() < self.target
    }

    /// Begins a test of `target` runners.
    pub fn new(backend: ContainmentBackend, target: usize, first: CommitReadings) -> (r: DensityRun)
        ensures
            r.valid(),
            r.backend == backend,
            r.target == target,
            r.first == first,
            r.entries@.len() == 0,
            !r.failed,
    {
        DensityRun { backend, target, first, entries: Vec::new(), failed: false }
    }

    /// Whether another runner is to be created.
    pub fn wants_runner(&self) -> (r: bool)
        ensures
            r == self.goes_on(),
    {
        !self.failed && self.entries.len() < self.target
    }

    /// Takes note that a runner could not be created, which ends the test.
    pub fn runner_failed(&mut self)
        requires
            old(self).valid(),
        ensures
            *final(self) == (DensityRun { failed: true, ..*old(self) }),
            final(self).valid(),
            !final(self).goes_on(),
    {
        self.failed = true;
    }

    /// Takes note of what was measured on the next runner.
    pub fn record(&mut self, reading: RunnerReading)
        requires
            old(self).valid(),
            old(self).goes_on(),
        ensures
            final(self).valid(),
            final(self).backend == old(self).backend,
            final(self).target == old(self).target,
            final(self).first == old(self).first,
            final(self).failed == old(self).failed,
            final(self).entries@.len() == old(self).entries@.len() + 1,
            final(self).entries@.drop_last() == old(self).entries@,
            is_entry(
                final(self).entries@.last(),
                old(self).backend,
                old(self).entries@.len() as int + 1,
                reading,
            ),
    {
        let names = daemon_process_names(&self.backend);
        let index: usize = self.entries.len() + 1;
        let entry = DensityEntry {
            index,
            create_ms: reading.create_ms,
            execute_ms: reading.execute_ms,
            exit_code: reading.exit_code,
            process_commit_mb: reading.process,
            peak_commit_during_exec_mb: reading.peak.process_mb,
            peak_daemon_commit_mb: if names.len() > 0 {
                Some(reading.peak.daemon_mb)
            } else {
                None
            },
            system_commit_mb: reading.system,
            container_memory_mb: match self.backend {
                ContainmentBackend::Wslc => reading.container,
                _ => None,
            },
        };
        self.entries.push(entry);
        assert(self.entries@.drop_last() =~= old(self).entries@);
    }
}

fn list_exec_peaks(entries: &Vec<DensityEntry>, baseline: Megabytes) -> (r: Vec<u64>)
    ensures
        r@ == exec_peaks(entries@, baseline),
{
    let mut out: Vec<u64> = Vec::new();
    let mut i: usize = 0;
    while i < entries.len()
        invariant
            i <= entries@.len(),
            out@ == exec_peaks(entries@, baseline).take(i as int),
        decreases entries@.len() - i,
    {
        let before = if i == 0 {
            baseline
        } else {
            entries[i - 1].process_commit_mb
        };
        out.push(growth_of(entries[i].peak_commit_during_exec_mb, before));
        assert(exec_peaks(entries@, baseline).take(i + 1) =~= exec_peaks(entries@, baseline).take(
            i as int,
        ).push(exec_peaks(entries@, baseline)[i as int]));
        i += 1;
    }
    assert(out@ =~= exec_peaks(entries@, baseline));
    out
}

fn list_daemon_peaks(entries: &Vec<DensityEntry>, baseline: Megabytes) -> (r: Vec<u64>)
    ensures
        r@ == daemon_peaks(entries@, baseline),
{
    let mut out: Vec<u64> = Vec::new();
    let mut i: usize = 0;
    while i < entries.len()
        invariant
            i <= entries@.len(),
            out@ == daemon_peaks(entries@.take(i as int), baseline),
        decreases entries@.len() - i,
    {
        assert(entries@.take(i + 1).drop_last() =~= entries@.take(i as int));
        match entries[i].peak_daemon_commit_mb {
            Some(p) => {
                out.push(growth_of(p, baseline));
            },
            None => {},
        }
        i += 1;
    }
    assert(entries@.take(i as int) =~= entries@);
    out
}

fn list_container_amounts(entries: &Vec<DensityEntry>) -> (r: Vec<u64>)
    ensures
        r@ == container_amounts(entries@),
{
    let mut out: Vec<u64> = Vec::new();
    let mut i: usize = 0;
    while i < entries.len()
        invariant
            i <= entries@.len(),
            out@ == container_amounts(entries@.take(i as int)),
        decreases entries@.len() - i,
    {
        assert(entries@.take(i + 1).drop_last() =~= entries@.take(i as int));
        match entries[i].container_memory_mb {
            Some(m) => {
                out.push(m.bytes);
            },
            None => {},
        }
        i += 1;
    }
    assert(entries@.take(i as int) =~= entries@);
    out
}

/// The median of a list of amounts, the upper one of two, if the list is not empty.
pub fn median_amount(list: &Vec<u64>) -> (r: Option<Megabytes>)
    ensures
        r == upper_median(list@),
{
    if list.len() == 0 {
        None
    } else {
        proof {
            lemma_ascending(list@);
        }
        let sorted = sort(list);
        Some(Megabytes { bytes: sorted[sorted.len() / 2] })
    }
}

fn per_runner(first: Megabytes, last: Megabytes, count: usize) -> (r: Ratio)
    ensures
        is_per_runner(r, first, last, count as int),
{
    if count == 0 {
        Ratio::zero()
    } else {
        Ratio::of(last.bytes as u128, first.bytes as u128, count as u128 * BYTES_PER_MB)
    }
}

fn amount_of(m: Option<Megabytes>) -> (r: u64)
    ensures
        r == amount(m),
{
    match m {
        Some(m) => m.bytes,
        None => 0,
    }
}

/// How many runners fit in the budget beside `baseline`, at a cost of `top / parts` bytes each.
fn count_fitting(baseline: Megabytes, top: u128, parts: u64) -> (r: usize)
    ensures
        r == fitting(baseline, top as int, parts as int),
{
    if top == 0 || baseline.bytes >= BUDGET_BYTES {
        return 0;
    }
    let room: u128 = (BUDGET_BYTES - baseline.bytes) as u128;
    assert(room * parts <= 1_572_864_000 * 0xffff_ffff_ffff_ffff) by (nonlinear_arith)
        requires
            0 <= room <= 1_572_864_000,
            0 <= parts <= 0xffff_ffff_ffff_ffff,
    ;
    let n: u128 = (room * parts as u128) / top;
    if n <= usize::MAX as u128 {
        n as usize
    } else {
        usize::MAX
    }
}

fn owned_names(names: &Vec<&'static str>) -> (r: Vec<String>)
    ensures
        r@.len() == names@.len(),
        forall|i: int| 0 <= i < r@.len() ==> (#[trigger] r@[i])@ == names@[i]@,
{
    let mut out: Vec<String> = Vec::new();
    let mut i: usize = 0;
    while i < names.len()
        invariant
            i <= names@.len(),
            out@.len() == i,
            forall|j: int| 0 <= j < i ==> (#[trigger] out@[j])@ == names@[j]@,
        decreases names@.len() - i,
    {
        out.push(String::from_str(names[i]));
        i += 1;
    }
    out
}

/// Whether the list holds just the texts of `names`.
pub open spec fn spells(list: Option<Vec<String>>, names: Seq<&str>) -> bool {
    if names.len() == 0 {
        list is None
    } else {
        &&& list is Some
        &&& list->0@.len() == names.len()
        &&& forall|i: int| 0 <= i < names.len() ==> (#[trigger] list->0@[i])@ == names[i]@
    }
}

/// Whether `r` is what a density test comes to that took `entries` between two readings.
pub open spec fn is_density_result(
    r: DensityResult,
    backend: ContainmentBackend,
    entries: Seq<DensityEntry>,
    first: CommitReadings,
    last: CommitReadings,
) -> bool {
    let (top, parts) = cost_of(backend, entries, first, last);
    &&& r.backend@ == display_name(backend)@
    &&& r.count == entries.len()
    &&& r.ephemeral == is_ephemeral(backend)
    &&& r.entries@ == entries
    &&& r.baseline_commit_mb == first.process
    &&& r.final_commit_mb == last.process
    &&& r.baseline_system_commit_mb == first.system
    &&& r.final_system_commit_mb == last.system
    &&& is_per_runner(
        r.per_runner_persistent_mb,
        first.process,
        last.process,
        entries.len() as int,
    )
    &&& r.per_exec_peak_mb.bytes == amount(upper_median(exec_peaks(entries, first.process)))
    &&& is_per_runner(r.per_runner_system_mb, first.system, last.system, entries.len() as int)
    &&& spells(r.daemon_names, daemon_names(backend))
    &&& r.baseline_daemon_commit_mb == (if has_daemon(backend) {
        Some(first.daemon)
    } else {
        None
    })
    &&& r.final_daemon_commit_mb == (if has_daemon(backend) {
        Some(last.daemon)
    } else {
        None
    })
    &&& r.per_runner_daemon_mb == daemon_cost(backend, entries, first.daemon)
    &&& r.per_container_memory_mb == container_cost(backend, entries)
    &&& r.density_cost_mb.is(top, parts * BYTES_PER_MB)
    &&& r.fits_in_1500mb == fitting(first.process, top, parts)
    &&& r.note is None
}

/// The result of a density test: what each runner costs and how many fit in the budget, from what
/// the runners took and from the commit charges before the first and after the last of them.
pub fn density_test(run: DensityRun, last: CommitReadings) -> (r: DensityResult)
    ensures
        is_density_result(r, run.backend, run.entries@, run.first, last),
{
    let backend = &run.backend;
    let first = run.first;
    let entries = run.entries;
    let alive: usize = entries.len();
    let names = daemon_process_names(backend);
    let watched: bool = names.len() > 0;
    let ephemeral: bool = is_ephemeral_backend(backend);
    let persistent = per_runner(first.process, last.process, alive);
    let system = per_runner(first.system, last.system, alive);
    let exec_peak = amount_of(median_amount(&list_exec_peaks(&entries, first.process)));
    let daemon = if watched {
        median_amount(&list_daemon_peaks(&entries, first.daemon))
    } else {
        None
    };
    let container = match backend {
        ContainmentBackend::Wslc => median_amount(&list_container_amounts(&entries)),
        _ => None,
    };
    let d: u64 = amount_of(daemon);
    let wide: u128 = alive as u128;
    proof {
        assert(0 <= d * wide <= 0xffff_ffff_ffff_ffff * 0xffff_ffff_ffff_ffff) by (nonlinear_arith)
            requires
                0 <= d <= 0xffff_ffff_ffff_ffff,
                0 <= wide <= 0xffff_ffff_ffff_ffff,
        ;
    }
    let (plus, minus, parts): (u128, u128, u64) = match backend {
        ContainmentBackend::Wslc => match container {
            Some(m) => (m.bytes as u128, 0, 1),
            None => if alive > 0 && last.system.bytes > first.system.bytes {
                (last.system.bytes as u128, first.system.bytes as u128, alive as u64)
            } else {
                (0, 0, 1)
            },
        },
        _ => if ephemeral {
            (exec_peak as u128 + d as u128, 0, 1)
        } else if alive > 0 {
            (last.process.bytes as u128 + d as u128 * wide, first.process.bytes as u128, alive as u64)
        } else {
            (0, 0, 1)
        },
    };
    let cost = Ratio::of(plus, minus, parts as u128 * BYTES_PER_MB);
    let fits: usize = if plus > minus {
        count_fitting(first.process, plus - minus, parts)
    } else {
        0
    };
    let owned = owned_names(&names);
    DensityResult {
        backend: String::from_str(backend_display_name(backend)),
        count: alive,
        ephemeral,
        entries,
        baseline_commit_mb: first.process,
        final_commit_mb: last.process,
        baseline_system_commit_mb: first.system,
        final_system_commit_mb: last.system,
        per_runner_persistent_mb: persistent,
        per_exec_peak_mb: Megabytes { bytes: exec_peak },
        per_runner_system_mb: system,
        daemon_names: if watched {
            Some(owned)
        } else {
            None
        },
        baseline_daemon_commit_mb: if watched {
            Some(first.daemon)
        } else {
            None
        },
        final_daemon_commit_mb: if watched {
            Some(last.daemon)
        } else {
            None
        },
        per_runner_daemon_mb: daemon,
        per_container_memory_mb: container,
        density_cost_mb: cost,
        fits_in_1500mb: fits,
        note: None,
    }
}

/// The estimate is the right one: that many runners fit beside the baseline, and one more does
/// not, unless even the largest number that can be counted fits. It holds whenever a runner costs
/// something and the baseline leaves room. The costs are in megabytes, so both sides are in bytes
/// once multiplied out.
pub proof fn estimate_is_tight(
    r: DensityResult,
    backend: ContainmentBackend,
    entries: Seq<DensityEntry>,
    first: CommitReadings,
    last: CommitReadings,
)
    requires
        is_density_result(r, backend, entries, first, last),
        r.density_cost_mb.top() > 0,
        r.baseline_commit_mb.bytes <= BUDGET_BYTES,
    ensures
        r.fits_in_1500mb * r.density_cost_mb.top() * BYTES_PER_MB <= (BUDGET_BYTES
            - r.baseline_commit_mb.bytes) * r.density_cost_mb.den,
        r.fits_in_1500mb < usize::MAX ==> (BUDGET_BYTES - r.baseline_commit_mb.bytes)
            * r.density_cost_mb.den < (r.fits_in_1500mb + 1) * r.density_cost_mb.top() * BYTES_PER_MB,
{
    let (top, parts) = cost_of(backend, entries, first, last);
    let room = BUDGET_BYTES - first.process.bytes;
    let n = r.fits_in_1500mb as int;
    let q = (room * parts) / top;
    assert(q * top <= room * parts < (q + 1) * top) by (nonlinear_arith)
        requires
            top > 0,
            q == (room * parts) / top,
    ;
    assert(room * parts >= 0) by (nonlinear_arith)
        requires
            room >= 0,
            parts > 0,
    ;
    if first.process.bytes == BUDGET_BYTES {
        assert(room * parts == 0) by (nonlinear_arith)
            requires
                room == 0,
        ;
    } else {
        assert(n <= q);
        assert(n * top <= q * top) by (nonlinear_arith)
            requires
                n <= q,
                top > 0,
        ;
    }
    assert(n * top * 1_048_576 <= room * (parts * 1_048_576)) by (nonlinear_arith)
        requires
            n * top <= room * parts,
    ;
    if n < usize::MAX {
        assert(room * parts < (n + 1) * top);
        assert(room * (parts * 1_048_576) < (n + 1) * top * 1_048_576) by (nonlinear_arith)
            requires
                room * parts < (n + 1) * top,
        ;
    }
}

/// Nothing fits if a runner costs nothing, or if the baseline fills the budget, which is 1500
/// megabytes.
pub proof fn nothing_fits_without_cost_or_room(
    r: DensityResult,
    backend: ContainmentBackend,
    entries: Seq<DensityEntry>,
    first: CommitReadings,
    last: CommitReadings,
)
    requires
        is_density_result(r, backend, entries, first, last),
        r.density_cost_mb.top() <= 0 || r.baseline_commit_mb.bytes >= 1500 * 1_048_576,
    ensures
        r.fits_in_1500mb == 0,
        BUDGET_BYTES == 1500 * 1_048_576,
{
}

/// What each runner leaves behind, times the number of runners, is how far the commit charge of the
/// process grew, and likewise of the system. Without runners both are nothing.
pub proof fn growth_is_shared_by_the_runners(
    r: DensityResult,
    backend: ContainmentBackend,
    entries: Seq<DensityEntry>,
    first: CommitReadings,
    last: CommitReadings,
)
    requires
        is_density_result(r, backend, entries, first, last),
    ensures
        r.count == entries.len(),
        r.count > 0 ==> {
            &&& r.per_runner_persistent_mb.top() * r.count * 1_048_576 == (r.final_commit_mb.bytes
                - r.baseline_commit_mb.bytes) * r.per_runner_persistent_mb.den
            &&& r.per_runner_system_mb.top() * r.count * 1_048_576 == (
            r.final_system_commit_mb.bytes - r.baseline_system_commit_mb.bytes)
                * r.per_runner_system_mb.den
        },
        r.count == 0 ==> r.per_runner_persistent_mb.top() == 0 && r.per_runner_system_mb.top() == 0,
{
    let n = entries.len() as int;
    let a = last.process.bytes - first.process.bytes;
    let b = last.system.bytes - first.system.bytes;
    assert(a * n * 1_048_576 == a * (n * 1_048_576)) by (nonlinear_arith);
    assert(b * n * 1_048_576 == b * (n * 1_048_576)) by (nonlinear_arith);
}

/// Where the memory of a backend lives decides what a runner costs: for WSLc what the container
/// says, or else what the system lost, but not less than nothing; for other backends that free
/// everything the peak of an execution and of its daemons; and for the rest what each runner leaves
/// behind, with the peak of the daemons.
pub proof fn cost_is_counted_where_the_memory_lives(
    r: DensityResult,
    backend: ContainmentBackend,
    entries: Seq<DensityEntry>,
    first: CommitReadings,
    last: CommitReadings,
)
    requires
        is_density_result(r, backend, entries, first, last),
    ensures
        ({
            let cost = r.density_cost_mb;
            let daemon = match r.per_runner_daemon_mb {
                Some(d) => d.bytes as int,
                None => 0,
            };
            match (backend, r.per_container_memory_mb) {
                (ContainmentBackend::Wslc, Some(m)) => cost.top() * 1_048_576 == m.bytes * cost.den,
                (ContainmentBackend::Wslc, None) => {
                    &&& r.per_runner_system_mb.top() >= 0 ==> cost.top() * r.per_runner_system_mb.den
                        == r.per_runner_system_mb.top() * cost.den
                    &&& r.per_runner_system_mb.top() <= 0 ==> cost.top() == 0
                },
                (ContainmentBackend::MicroVm, _) => cost.top() * 1_048_576 == (
                r.per_exec_peak_mb.bytes + daemon) * cost.den,
                _ => cost.top() * r.per_runner_persistent_mb.den * 1_048_576 == (
                r.per_runner_persistent_mb.top() * 1_048_576 + daemon * r.per_runner_persistent_mb.den)
                    * cost.den,
            }
        }),
{
    let (top, parts) = cost_of(backend, entries, first, last);
    let n = entries.len() as int;
    let cost = r.density_cost_mb;
    let persistent = r.per_runner_persistent_mb;
    let system = r.per_runner_system_mb;
    let daemon = amount(r.per_runner_daemon_mb);
    let grown = last.process.bytes - first.process.bytes;
    let d = cost.den as int;
    assert(d == parts * 1_048_576);
    if backend is Wslc {
        if r.per_container_memory_mb is Some || (n > 0 && last.system.bytes > first.system.bytes) {
            if parts == 1 {
                assert(top * d == d * top) by (nonlinear_arith);
                assert(top * 1_048_576 == top * d);
            }
            assert(top * (n * 1_048_576) == top * (n * 1_048_576));
        } else {
            assert(0 * (system.den as int) == 0);
            assert(0 * d == 0) by (nonlinear_arith);
        }
    } else if backend is MicroVm {
        assert(d == 1_048_576);
        let both = r.per_exec_peak_mb.bytes + daemon;
        assert(both * d == both * 1_048_576);
    } else if n > 0 {
        let pd = persistent.den as int;
        assert(pd == n * 1_048_576);
        assert((grown + daemon * n) * pd * 1_048_576 == (grown * 1_048_576 + daemon * pd) * pd)
            by (nonlinear_arith)
            requires
                pd == n * 1_048_576,
        ;
    } else {
        assert(daemon_peaks(entries, first.daemon).len() == 0);
        assert(daemon == 0);
        let pd = persistent.den as int;
        assert(0 * pd * 1_048_576 == (0 * 1_048_576 + 0 * pd) * d) by (nonlinear_arith);
    }
}

/// The peak of an execution is the median, the upper one of two, of how far each execution drove the
/// commit charge of the process above what it was before: the baseline before the first, and before
/// any other what the one ahead of it left. An execution that stayed below counts as nothing.
pub proof fn exec_peak_is_the_median_growth(
    r: DensityResult,
    backend: ContainmentBackend,
    entries: Seq<DensityEntry>,
    first: CommitReadings,
    last: CommitReadings,
    u: Seq<u64>,
)
    requires
        is_density_result(r, backend, entries, first, last),
        u.to_multiset() == Seq::new(
            entries.len(),
            |i: int|
                {
                    let peak = entries[i].peak_commit_during_exec_mb.bytes;
                    let before = if i == 0 {
                        first.process.bytes
                    } else {
                        entries[i - 1].process_commit_mb.bytes
                    };
                    if peak > before {
                        (peak - before) as u64
                    } else {
                        0
                    }
                },
        ).to_multiset(),
        forall|i: int, j: int| 0 <= i < j < u.len() ==> #[trigger] u[i] <= #[trigger] u[j],
    ensures
        u.len() == entries.len(),
        u.len() > 0 ==> r.per_exec_peak_mb.bytes == u[u.len() as int / 2],
        u.len() == 0 ==> r.per_exec_peak_mb.bytes == 0,
{
    let grown = Seq::new(
        entries.len(),
        |i: int|
            {
                let peak = entries[i].peak_commit_during_exec_mb.bytes;
                let before = if i == 0 {
                    first.process.bytes
                } else {
                    entries[i - 1].process_commit_mb.bytes
                };
                if peak > before {
                    (peak - before) as u64
                } else {
                    0
                }
            },
    );
    assert(grown =~= exec_peaks(entries, first.process));
    vstd::seq_lib::to_multiset_len(u);
    vstd::seq_lib::to_multiset_len(grown);
    lemma_ascending_is(grown, u);
}

/// The share of the daemons is the median, the upper one of two, of how far each execution drove
/// their commit charge above the baseline, over the executions that tell. A backend without daemons
/// has none.
pub proof fn daemon_share_is_the_median_growth(
    r: DensityResult,
    backend: ContainmentBackend,
    entries: Seq<DensityEntry>,
    first: CommitReadings,
    last: CommitReadings,
    u: Seq<u64>,
)
    requires
        is_density_result(r, backend, entries, first, last),
        u.to_multiset() == entries.filter_map(
            |e: DensityEntry|
                match e.peak_daemon_commit_mb {
                    Some(p) => if p.bytes > first.daemon.bytes {
                        Some((p.bytes - first.daemon.bytes) as u64)
                    } else {
                        Some(0u64)
                    },
                    None => None,
                },
        ).to_multiset(),
        forall|i: int, j: int| 0 <= i < j < u.len() ==> #[trigger] u[i] <= #[trigger] u[j],
    ensures
        (backend is MicroVm || backend is Wslc) && u.len() > 0 ==> r.per_runner_daemon_mb == Some(
            Megabytes { bytes: u[u.len() as int / 2] },
        ),
        !(backend is MicroVm || backend is Wslc) || u.len() == 0 ==> r.per_runner_daemon_mb is None,
{
    lemma_daemon_peaks(entries, first.daemon);
    let grown = daemon_peaks(entries, first.daemon);
    vstd::seq_lib::to_multiset_len(u);
    vstd::seq_lib::to_multiset_len(grown);
    lemma_ascending_is(grown, u);
}

proof fn lemma_daemon_peaks(entries: Seq<DensityEntry>, baseline: Megabytes)
    ensures
        daemon_peaks(entries, baseline) == entries.filter_map(
            |e: DensityEntry|
                match e.peak_daemon_commit_mb {
                    Some(p) => if p.bytes > baseline.bytes {
                        Some((p.bytes - baseline.bytes) as u64)
                    } else {
                        Some(0u64)
                    },
                    None => None,
                },
        ),
    decreases entries.len(),
{
    if entries.len() > 0 {
        lemma_daemon_peaks(entries.drop_last(), baseline);
        match entries.last().peak_daemon_commit_mb {
            Some(p) => {
                let rest = daemon_peaks(entries.drop_last(), baseline);
                assert(rest.push(growth(p, baseline)) =~= rest + seq![growth(p, baseline)]);
            },
            None => {},
        }
    }
}

/// The memory of a container is the median, the upper one of two, of what the containers of WSLc
/// said. No other backend has any.
pub proof fn container_memory_is_the_median(
    r: DensityResult,
    backend: ContainmentBackend,
    entries: Seq<DensityEntry>,
    first: CommitReadings,
    last: CommitReadings,
    u: Seq<u64>,
)
    requires
        is_density_result(r, backend, entries, first, last),
        u.to_multiset() == entries.filter_map(
            |e: DensityEntry|
                match e.container_memory_mb {
                    Some(m) => Some(m.bytes),
                    None => None,
                },
        ).to_multiset(),
        forall|i: int, j: int| 0 <= i < j < u.len() ==> #[trigger] u[i] <= #[trigger] u[j],
    ensures
        backend is Wslc && u.len() > 0 ==> r.per_container_memory_mb == Some(
            Megabytes { bytes: u[u.len() as int / 2] },
        ),
        !(backend is Wslc) || u.len() == 0 ==> r.per_container_memory_mb is None,
{
    lemma_container_amounts(entries);
    let amounts = container_amounts(entries);
    vstd::seq_lib::to_multiset_len(u);
    vstd::seq_lib::to_multiset_len(amounts);
    lemma_ascending_is(amounts, u);
}

proof fn lemma_container_amounts(entries: Seq<DensityEntry>)
    ensures
        container_amounts(entries) == entries.filter_map(
            |e: DensityEntry|
                match e.container_memory_mb {
                    Some(m) => Some(m.bytes),
                    None => None,
                },
        ),
    decreases entries.len(),
{
    if entries.len() > 0 {
        lemma_container_amounts(entries.drop_last());
        match entries.last().container_memory_mb {
            Some(m) => {
                let rest = container_amounts(entries.drop_last());
                assert(rest.push(m.bytes) =~= rest + seq![m.bytes]);
            },
            None => {},
        }
    }
}

/// A result repeats what was measured: the runners in their order, and the commit charges before and
/// after them, those of the daemons only where there are any.
pub proof fn result_repeats_the_readings(
    r: DensityResult,
    backend: ContainmentBackend,
    entries: Seq<DensityEntry>,
    first: CommitReadings,
    last: CommitReadings,
)
    requires
        is_density_result(r, backend, entries, first, last),
    ensures
        r.entries@ == entries,
        r.ephemeral == (backend is MicroVm || backend is Wslc),
        r.baseline_commit_mb == first.process,
        r.final_commit_mb == last.process,
        r.baseline_system_commit_mb == first.system,
        r.final_system_commit_mb == last.system,
        if backend is MicroVm || backend is Wslc {
            &&& r.baseline_daemon_commit_mb == Some(first.daemon)
            &&& r.final_daemon_commit_mb == Some(last.daemon)
            &&& r.daemon_names is Some
            &&& r.daemon_names->0@.len() == 1
            &&& r.daemon_names->0@[0]@ == if backend is MicroVm {
                "nanvixd"@
            } else {
                "wslservice"@
            }
        } else {
            &&& r.baseline_daemon_commit_mb is None
            &&& r.final_daemon_commit_mb is None
            &&& r.daemon_names is None
        },
        r.note is None,
{
}

/// An entry holds what was measured on its runner. The peak of the daemons and the memory of the
/// container stand only where the backend has such a thing, and nothing else is left out.
pub proof fn entry_holds_the_reading(
    e: DensityEntry,
    backend: ContainmentBackend,
    index: int,
    reading: RunnerReading,
)
    requires
        is_entry(e, backend, index, reading),
    ensures
        e.index == index,
        e.create_ms == reading.create_ms,
        e.execute_ms == reading.execute_ms,
        e.exit_code == reading.exit_code,
        e.process_commit_mb == reading.process,
        e.peak_commit_during_exec_mb == reading.peak.process_mb,
        e.system_commit_mb == reading.system,
        backend is Wslc ==> e.container_memory_mb == reading.container,
        !(backend is Wslc) ==> e.container_memory_mb is None,
        backend is Wslc || backend is MicroVm ==> e.peak_daemon_commit_mb == Some(
            reading.peak.daemon_mb,
        ),
        backend is Hyperlight || backend is Other ==> e.peak_daemon_commit_mb is None,
{
}

/// A test goes on until there are as many runners as are wanted or one could not be created, and its
/// runners are numbered from one without a gap. Each has a peak of the daemons just where there are
/// any.
pub proof fn test_goes_on_until_done(run: DensityRun)
    requires
        run.valid(),
    ensures
        run.goes_on() <==> !run.failed && run.entries@.len() != run.target,
        forall|i: int|
            0 <= i < run.entries@.len() ==> {
                let e = #[trigger] run.entries@[i];
                &&& e.index == i + 1
                &&& e.peak_daemon_commit_mb is Some <==> run.backend is MicroVm || run.backend is Wslc
                &&& !(run.backend is Wslc) ==> e.container_memory_mb is None
            },
{
}

/// The median of readings is one of them, and in their order none before it is larger and none
/// after it is smaller.
pub proof fn median_is_one_of_the_readings(s: Seq<u64>)
    requires
        s.len() > 0,
    ensures
        upper_median(s) matches Some(m) && {
            &&& s.contains(m.bytes)
            &&& forall|i: int| 0 <= i <= s.len() as int / 2 ==> #[trigger] ascending(s)[i] <= m.bytes
            &&& forall|i: int|
                s.len() as int / 2 <= i < s.len() ==> m.bytes <= #[trigger] ascending(s)[i]
        },
{
    lemma_ascending(s);
    let m = ascending(s)[s.len() as int / 2];
    vstd::seq_lib::to_multiset_contains(ascending(s), m);
    vstd::seq_lib::to_multiset_contains(s, m);
}

/// What the daemon's share in a report is called: that of a short-lived process if next to nothing,
/// less than a tenth of a megabyte, was committed before, else that of a running service.
pub fn daemon_label(baseline: Megabytes) -> (r: &'static str)
    ensures
        r@ == (if baseline.bytes * 10 < BYTES_PER_MB {
            "subprocess"@
        } else {
            "service delta"@
        }),
{
    if (baseline.bytes as u128) * 10 < BYTES_PER_MB {
        "subprocess"
    } else {
        "service delta"
    }
}

} // verus!
