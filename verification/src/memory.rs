//! What processes, the system and files take up.

use vstd::prelude::*;
use vstd::string::*;
use crate::backend::{lowercase, to_lowercase};
use crate::text::same_text;
use crate::units::{Megabytes, Ratio, BYTES_PER_MB};

verus! {

/// The memory counters of a process, as Windows gives them.
#[allow(non_snake_case)]
#[derive(Clone, Copy, Debug)]
pub struct ProcessMemoryCounters {
    pub cb: u32,
    pub PageFaultCount: u32,
    pub PeakWorkingSetSize: usize,
    pub WorkingSetSize: usize,
    pub QuotaPeakPagedPoolUsage: usize,
    pub QuotaPagedPoolUsage: usize,
    pub QuotaPeakNonPagedPoolUsage: usize,
    pub QuotaNonPagedPoolUsage: usize,
    pub PagefileUsage: usize,
    pub PeakPagefileUsage: usize,
}

/// The commit charge of a process: the memory that RAM or the page file stands behind, whether it
/// is resident or not. It is nothing if the counters could not be had.
pub fn process_commit_mb(counters: &Option<ProcessMemoryCounters>) -> (r: Megabytes)
    ensures
        r.bytes == (match *counters {
            Some(c) => c.PagefileUsage as int,
            None => 0,
        }),
{
    match counters {
        Some(c) => Megabytes { bytes: c.PagefileUsage as u64 },
        None => Megabytes { bytes: 0 },
    }
}

/// The largest commit charge that a process ever had. It is nothing if the counters could not be
/// had.
pub fn process_peak_commit_by_handle(counters: &Option<ProcessMemoryCounters>) -> (r: Megabytes)
    ensures
        r.bytes == (match *counters {
            Some(c) => c.PeakPagefileUsage as int,
            None => 0,
        }),
{
    match counters {
        Some(c) => Megabytes { bytes: c.PeakPagefileUsage as u64 },
        None => Megabytes { bytes: 0 },
    }
}

/// How much memory the whole system can commit, and how much of it is free, in bytes.
#[derive(Clone, Copy, Debug)]
pub struct PageFileStatus {
    pub total: u64,
    pub available: u64,
}

/// The commit charge of the whole system, virtual machines included. It is nothing if the status
/// could not be had.
pub fn system_commit_used_mb(status: &Option<PageFileStatus>) -> (r: Megabytes)
    requires
        *status matches Some(s) ==> s.available <= s.total,
    ensures
        r.bytes == (match *status {
            Some(s) => s.total - s.available,
            None => 0,
        }),
{
    match status {
        Some(s) => Megabytes { bytes: s.total - s.available },
        None => Megabytes { bytes: 0 },
    }
}

/// What a file takes up on disk, given the two halves of its compressed size and the last error.
/// If the size could not be had, which the lower half and the error tell together, the file's
/// length counts instead, or nothing if that could not be had either.
pub fn file_actual_size_mb(
    low: u32,
    high: u32,
    last_error: Option<i32>,
    logical: Option<u64>,
) -> (r: Megabytes)
    ensures
        r.bytes == (if low == 0xffff_ffff && last_error != Some(0i32) {
            match logical {
                Some(n) => n as int,
                None => 0,
            }
        } else {
            high * 0x1_0000_0000 + low
        }),
{
    let fine: bool = match last_error {
        Some(e) => e == 0,
        None => false,
    };
    if low == 0xffff_ffff && !fine {
        match logical {
            Some(n) => Megabytes { bytes: n },
            None => Megabytes { bytes: 0 },
        }
    } else {
        Megabytes { bytes: (high as u64) * 0x1_0000_0000 + low as u64 }
    }
}

/// How long the name in a buffer is: it ends before the first zero, or with the buffer.
pub fn exe_name_len(buffer: &Vec<u16>) -> (r: usize)
    ensures
        r <= buffer@.len(),
        forall|i: int| 0 <= i < r ==> buffer@[i] != 0,
        r < buffer@.len() ==> buffer@[r as int] == 0,
{
    let mut i: usize = 0;
    while i < buffer.len()
        invariant
            i <= buffer@.len(),
            forall|j: int| 0 <= j < i ==> buffer@[j] != 0,
        decreases buffer@.len() - i,
    {
        if buffer[i] == 0 {
            return i;
        }
        i += 1;
    }
    i
}

/// Whether an executable's name is the target's, with or without the ending of executables. Both
/// are in lowercase.
pub open spec fn names_match(exe: Seq<char>, target: Seq<char>) -> bool {
    exe == target || exe == target + ".exe"@
}

/// Whether an executable's name is the target's, with or without the ending of executables. Both
/// are in lowercase.
pub fn name_matches(exe: &str, target: &str) -> (r: bool)
    ensures
        r == names_match(exe@, target@),
{
    let mut full = String::from_str(target);
    full.append(".exe");
    same_text(exe, target) || same_text(exe, full.as_str())
}

/// Whether an executable is one of the targets; upper and lower case are the same.
pub open spec fn is_target(exe: Seq<char>, targets: Seq<&str>) -> bool {
    exists|i: int|
        0 <= i < targets.len() && names_match(lowercase(exe), lowercase((#[trigger] targets[i])@))
}

/// Whether an executable is one of the targets; upper and lower case are the same.
pub fn is_target_process(exe_name: &str, target_names: &Vec<&str>) -> (r: bool)
    ensures
        r == is_target(exe_name@, target_names@),
{
    let exe = to_lowercase(exe_name);
    let mut i: usize = 0;
    while i < target_names.len()
        invariant
            exe@ == lowercase(exe_name@),
            i <= target_names@.len(),
            forall|j: int|
                0 <= j < i ==> !names_match(
                    lowercase(exe_name@),
                    lowercase((#[trigger] target_names@[j])@),
                ),
        decreases target_names@.len() - i,
    {
        let target = to_lowercase(target_names[i]);
        if name_matches(exe.as_str(), target.as_str()) {
            return true;
        }
        i += 1;
    }
    false
}

/// A running process: the name of its executable, and its memory counters if they could be had.
#[derive(Debug)]
pub struct ProcessReading {
    pub exe_name: String,
    pub counters: Option<ProcessMemoryCounters>,
}

/// The commit charges, added up, of the processes that are among the targets.
pub open spec fn targets_commit(readings: Seq<ProcessReading>, targets: Seq<&str>) -> int
    decreases readings.len(),
{
    if readings.len() == 0 {
        0
    } else {
        let p = readings.last();
        let rest = targets_commit(readings.drop_last(), targets);
        match p.counters {
            Some(c) => if is_target(p.exe_name@, targets) {
                rest + c.PagefileUsage
            } else {
                rest
            },
            None => rest,
        }
    }
}

/// The total commit charge of the processes with one of the given names, in megabytes.
pub fn external_process_commit_mb(
    target_names: &Vec<&str>,
    readings: &Vec<ProcessReading>,
) -> (r: Ratio)
    ensures
        r.is(targets_commit(readings@, target_names@), BYTES_PER_MB as int),
{
    let mut bytes: u128 = 0;
    let mut i: usize = 0;
    while i < readings.len()
        invariant
            i <= readings@.len(),
            bytes == targets_commit(readings@.take(i as int), target_names@),
            bytes <= i * usize::MAX,
        decreases readings@.len() - i,
    {
        assert(readings@.take(i + 1).drop_last() =~= readings@.take(i as int));
        assert(i * usize::MAX <= usize::MAX * usize::MAX) by (nonlinear_arith)
            requires
                0 <= i <= usize::MAX,
        ;
        assert((i + 1) * usize::MAX == i * usize::MAX + usize::MAX) by (nonlinear_arith);
        assert(usize::MAX * usize::MAX <= 0xffff_ffff_ffff_ffff * 0xffff_ffff_ffff_ffff)
            by (nonlinear_arith)
            requires
                0 <= usize::MAX <= 0xffff_ffff_ffff_ffff,
        ;
        if is_target_process(readings[i].exe_name.as_str(), target_names) {
            match readings[i].counters {
                Some(c) => {
                    bytes += c.PagefileUsage as u128;
                },
                None => {},
            }
        }
        i += 1;
    }
    assert(readings@.take(i as int) =~= readings@);
    Ratio::of(bytes, 0, BYTES_PER_MB)
}

/// Whether every name in `s` is in `t` too; upper and lower case are the same.
pub open spec fn names_among(s: Seq<&str>, t: Seq<&str>) -> bool {
    forall|i: int|
        0 <= i < s.len() ==> exists|j: int|
            0 <= j < t.len() && lowercase((#[trigger] s[i])@) == lowercase((#[trigger] t[j])@)
}

/// A process counts by its name alone: two lists of the same names, whatever their order, case and
/// repeats, give the same total.
pub proof fn total_ignores_order_case_and_repeats(
    readings: Seq<ProcessReading>,
    s: Seq<&str>,
    t: Seq<&str>,
)
    requires
        names_among(s, t),
        names_among(t, s),
    ensures
        targets_commit(readings, s) == targets_commit(readings, t),
    decreases readings.len(),
{
    if readings.len() > 0 {
        total_ignores_order_case_and_repeats(readings.drop_last(), s, t);
        let exe = readings.last().exe_name@;
        if is_target(exe, s) {
            lemma_target_among(exe, s, t);
        }
        if is_target(exe, t) {
            lemma_target_among(exe, t, s);
        }
    }
}

proof fn lemma_target_among(exe: Seq<char>, s: Seq<&str>, t: Seq<&str>)
    requires
        names_among(s, t),
        is_target(exe, s),
    ensures
        is_target(exe, t),
{
    let i = choose|i: int|
        0 <= i < s.len() && names_match(lowercase(exe), lowercase((#[trigger] s[i])@));
    let j = choose|j: int| 0 <= j < t.len() && lowercase(s[i]@) == lowercase((#[trigger] t[j])@);
    assert(names_match(lowercase(exe), lowercase(t[j]@)));
}

/// Without names nothing counts.
pub proof fn no_names_no_total(readings: Seq<ProcessReading>)
    ensures
        targets_commit(readings, Seq::empty()) == 0,
    decreases readings.len(),
{
    if readings.len() > 0 {
        no_names_no_total(readings.drop_last());
    }
}

/// The largest commit charges seen while something ran.
#[derive(Clone, Copy, Debug)]
pub struct PeakCommit {
    pub process_mb: Megabytes,
    pub daemon_mb: Megabytes,
}

/// The larger of two amounts.
pub open spec fn larger(a: u64, b: u64) -> u64 {
    if a >= b {
        a
    } else {
        b
    }
}

/// What is left of a series of readings after each was compared with the largest before it, which
/// begins at nothing.
pub open spec fn peak_of(readings: Seq<u64>) -> u64
    decreases readings.len(),
{
    if readings.len() == 0 {
        0
    } else {
        larger(peak_of(readings.drop_last()), readings.last())
    }
}

/// The peak of a series of readings is one of them, and none is larger. It is zero if there are
/// none.
pub proof fn peak_is_the_largest_reading(readings: Seq<u64>)
    ensures
        forall|i: int| 0 <= i < readings.len() ==> #[trigger] readings[i] <= peak_of(readings),
        if readings.len() == 0 {
            peak_of(readings) == 0
        } else {
            readings.contains(peak_of(readings))
        },
    decreases readings.len(),
{
    if readings.len() > 0 {
        let rest = readings.drop_last();
        peak_is_the_largest_reading(rest);
        assert forall|i: int| 0 <= i < readings.len() implies #[trigger] readings[i] <= peak_of(
            readings,
        ) by {
            if i < rest.len() {
                assert(rest[i] <= peak_of(rest));
            }
        }
        if peak_of(readings) == readings.last() {
            assert(readings[readings.len() - 1] == peak_of(readings));
        } else if rest.len() > 0 {
            let i = choose|i: int| 0 <= i < rest.len() && rest[i] == peak_of(rest);
            assert(readings[i] == peak_of(readings));
        }
    }
}

impl PeakCommit {
    /// Nothing seen yet.
    pub fn new() -> (r: PeakCommit)
        ensures
            r.process_mb.bytes == 0,
            r.daemon_mb.bytes == 0,
            r.process_mb.bytes == peak_of(Seq::empty()),
            r.daemon_mb.bytes == peak_of(Seq::empty()),
    {
        PeakCommit { process_mb: Megabytes { bytes: 0 }, daemon_mb: Megabytes { bytes: 0 } }
    }

    /// Takes note of the commit charge of the process, and of the daemons if there are any. What was
    /// the peak of all readings before is the peak of those and the new one after.
    pub fn observe(&mut self, process: Megabytes, daemon: Option<Megabytes>)
        ensures
            final(self).process_mb.bytes == larger(old(self).process_mb.bytes, process.bytes),
            final(self).daemon_mb.bytes == (match daemon {
                Some(d) => larger(old(self).daemon_mb.bytes, d.bytes),
                None => old(self).daemon_mb.bytes,
            }),
            forall|before: Seq<u64>|
                old(self).process_mb.bytes == peak_of(before) ==> final(self).process_mb.bytes
                    == peak_of(#[trigger] before.push(process.bytes)),
            daemon matches Some(d) ==> forall|before: Seq<u64>|
                old(self).daemon_mb.bytes == peak_of(before) ==> final(self).daemon_mb.bytes
                    == peak_of(#[trigger] before.push(d.bytes)),
    {
        proof {
            assert forall|before: Seq<u64>, x: u64| peak_of(#[trigger] before.push(x)) == larger(
                peak_of(before),
                x,
            ) by {
                assert(before.push(x).drop_last() =~= before);
            }
        }
        if process.bytes > self.process_mb.bytes {
            self.process_mb = process;
        }
        match daemon {
            Some(d) => {
                if d.bytes > self.daemon_mb.bytes {
                    self.daemon_mb = d;
                }
            },
            None => {},
        }
    }
}

/// A process counts once if its name, in lowercase, is one of the given names in lowercase or one of
/// them with the ending of executables, and then with its whole commit charge; one whose counters
/// could not be had, or with any other name, counts as nothing.
pub proof fn each_named_process_counts_once(
    readings: Seq<ProcessReading>,
    p: ProcessReading,
    targets: Seq<&str>,
)
    ensures
        targets_commit(Seq::empty(), targets) == 0,
        targets_commit(readings.push(p), targets) == targets_commit(readings, targets) + if p.counters
            is Some && (exists|i: int|
            0 <= i < targets.len() && (lowercase(p.exe_name@) == lowercase((#[trigger] targets[i])@)
                || lowercase(p.exe_name@) == lowercase(targets[i]@) + ".exe"@)) {
            p.counters->0.PagefileUsage as int
        } else {
            0
        },
{
    assert(readings.push(p).drop_last() =~= readings);
    let exe = lowercase(p.exe_name@);
    if is_target(p.exe_name@, targets) {
        let i = choose|i: int|
            0 <= i < targets.len() && names_match(exe, lowercase((#[trigger] targets[i])@));
        assert(exe == lowercase(targets[i]@) || exe == lowercase(targets[i]@) + ".exe"@);
    }
    if exists|i: int|
        0 <= i < targets.len() && (exe == lowercase((#[trigger] targets[i])@) || exe == lowercase(
            targets[i]@,
        ) + ".exe"@) {
        let i = choose|i: int|
            0 <= i < targets.len() && (exe == lowercase((#[trigger] targets[i])@) || exe == lowercase(
                targets[i]@,
            ) + ".exe"@);
        assert(names_match(exe, lowercase(targets[i]@)));
    }
}

/// The larger of two amounts is one of them, and neither is larger.
pub proof fn larger_is_the_larger(a: u64, b: u64)
    ensures
        larger(a, b) >= a,
        larger(a, b) >= b,
        larger(a, b) == a || larger(a, b) == b,
{
}

} // verus!
