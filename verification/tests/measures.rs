//! Memory, disk and the benchmarks that add them up.

use mxc_containment::backend::ContainmentBackend;
use mxc_containment::cold::{cold_start_benchmark, peak_commit, ColdExit, ColdRun};
use mxc_containment::density::{
    daemon_label, density_test, median_amount, CommitReadings, DensityRun, RunnerReading,
};
use mxc_containment::disk::{
    disk_files, measure_dir_recursive, measure_disk, measure_file, resolve_localappdata, CompressedSize, DirItem,
    DiskReading, FileReading, LocalAppData, WSL_DIR,
};
use mxc_containment::memory::{
    exe_name_len, external_process_commit_mb, file_actual_size_mb, is_target_process, name_matches,
    process_commit_mb, process_peak_commit_by_handle, system_commit_used_mb, PageFileStatus, PeakCommit,
    ProcessMemoryCounters, ProcessReading,
};
use mxc_containment::parallel::{
    latency_range, parallel_benchmark, round_entries, LogLine, ParallelEntry, ParallelRun,
};
use mxc_containment::schedule::{BenchStep, Schedule};
use mxc_containment::units::{Megabytes, Millis, Ratio};
use mxc_containment::warm::{benchmark_backend, WarmRun};

const MB: u64 = 1_048_576;

fn mb(n: u64) -> Megabytes {
    Megabytes { bytes: n * MB }
}

fn ms(n: u64) -> Millis {
    Millis { nanos: n * 1_000_000 }
}

fn value(r: Ratio) -> f64 {
    let v = r.num as f64 / r.den as f64;
    if r.negative { -v } else { v }
}

fn counters(usage: usize, peak: usize) -> ProcessMemoryCounters {
    ProcessMemoryCounters {
        cb: 0,
        PageFaultCount: 0,
        PeakWorkingSetSize: 1,
        WorkingSetSize: 2,
        QuotaPeakPagedPoolUsage: 3,
        QuotaPagedPoolUsage: 4,
        QuotaPeakNonPagedPoolUsage: 5,
        QuotaNonPagedPoolUsage: 6,
        PagefileUsage: usage,
        PeakPagefileUsage: peak,
    }
}

// Memory.

#[test]
fn commit_charges_come_from_the_page_file_counters() {
    assert_eq!(process_commit_mb(&Some(counters(10, 20))).bytes, 10);
    assert_eq!(process_peak_commit_by_handle(&Some(counters(10, 20))).bytes, 20);
    assert_eq!(process_commit_mb(&None).bytes, 0);
    assert_eq!(process_peak_commit_by_handle(&None).bytes, 0);
    assert_eq!(system_commit_used_mb(&Some(PageFileStatus { total: 9, available: 4 })).bytes, 5);
    assert_eq!(system_commit_used_mb(&None).bytes, 0);
}

#[test]
fn compressed_size_has_two_halves_and_may_fail() {
    assert_eq!(file_actual_size_mb(5, 1, None, Some(7)).bytes, 0x1_0000_0005);
    assert_eq!(file_actual_size_mb(0xffff_ffff, 0, Some(2), Some(7)).bytes, 7);
    assert_eq!(file_actual_size_mb(0xffff_ffff, 0, None, None).bytes, 0);
    assert_eq!(file_actual_size_mb(0xffff_ffff, 2, Some(0), Some(7)).bytes, 0x2_ffff_ffff);
    assert_eq!(file_actual_size_mb(0xffff_ffff, 0xffff_ffff, Some(0), None).bytes, u64::MAX);
}

#[test]
fn processes_match_by_name_with_or_without_ending() {
    assert_eq!(exe_name_len(&vec![97, 98, 0, 99]), 2);
    assert_eq!(exe_name_len(&vec![97, 98]), 2);
    assert_eq!(exe_name_len(&vec![0]), 0);
    assert!(name_matches("nanvixd", "nanvixd"));
    assert!(name_matches("nanvixd.exe", "nanvixd"));
    assert!(!name_matches("nanvixd.ex", "nanvixd"));
    assert!(is_target_process("NanvixD.EXE", &vec!["x", "nanvixd"]));
    assert!(is_target_process("wslservice.exe", &vec!["WSLService"]));
    assert!(!is_target_process("nanvixd2.exe", &vec!["nanvixd"]));
    assert!(!is_target_process("nanvixd.exe", &vec![]));
}

#[test]
fn daemons_are_added_up() {
    let readings = vec![
        ProcessReading { exe_name: "nanvixd.exe".to_string(), counters: Some(counters(10, 0)) },
        ProcessReading { exe_name: "other.exe".to_string(), counters: Some(counters(100, 0)) },
        ProcessReading { exe_name: "NANVIXD".to_string(), counters: Some(counters(5, 0)) },
        ProcessReading { exe_name: "nanvixd.exe".to_string(), counters: None },
    ];
    assert_eq!(
        external_process_commit_mb(&vec!["nanvixd"], &readings),
        Ratio { negative: false, num: 15, den: 1_048_576 }
    );
    assert_eq!(external_process_commit_mb(&vec![], &readings).num, 0);
    let huge = vec![
        ProcessReading { exe_name: "a".to_string(), counters: Some(counters(usize::MAX, 0)) },
        ProcessReading { exe_name: "a".to_string(), counters: Some(counters(usize::MAX, 0)) },
    ];
    assert_eq!(external_process_commit_mb(&vec!["a"], &huge).num, 2 * usize::MAX as u128);
    assert_eq!(Megabytes::at_most(2 * u64::MAX as u128), Megabytes { bytes: u64::MAX });
    assert_eq!(Megabytes::at_most(15), Megabytes { bytes: 15 });
}

#[test]
fn total_ignores_order_case_and_repeats() {
    let readings = vec![
        ProcessReading { exe_name: "a.exe".to_string(), counters: Some(counters(1, 0)) },
        ProcessReading { exe_name: "b".to_string(), counters: Some(counters(2, 0)) },
        ProcessReading { exe_name: "c".to_string(), counters: Some(counters(4, 0)) },
    ];
    let total = external_process_commit_mb(&vec!["a", "b"], &readings);
    assert_eq!(total.num, 3);
    assert_eq!(external_process_commit_mb(&vec!["B", "a", "A", "b"], &readings), total);
    assert_eq!(external_process_commit_mb(&vec!["a", "a.exe"], &readings).num, 1);
}

#[test]
fn peak_is_the_largest_reading() {
    let mut peak = PeakCommit::new();
    peak.observe(mb(3), None);
    peak.observe(mb(7), Some(mb(2)));
    peak.observe(mb(5), Some(mb(1)));
    assert_eq!(peak.process_mb, mb(7));
    assert_eq!(peak.daemon_mb, mb(2));
}

// The order of executions.

#[test]
fn only_timed_executions_count() {
    let mut schedule = Schedule::new(2, 3);
    let mut steps = Vec::new();
    while schedule.step() != BenchStep::Done {
        steps.push(schedule.step());
        schedule.advance();
    }
    assert_eq!(
        steps,
        vec![
            BenchStep::Warmup(1),
            BenchStep::Warmup(2),
            BenchStep::Timed(1),
            BenchStep::Timed(2),
            BenchStep::Timed(3),
        ]
    );
    assert_eq!(Schedule::new(0, 0).step(), BenchStep::Done);
    assert_eq!(Schedule::new(0, 1).step(), BenchStep::Timed(1));
}

// Warm starts.

#[test]
fn warm_start_discards_warmup() {
    let mut run = WarmRun::new(ms(50), 1, 2);
    run.record(ms(99), 1, "cold");
    run.record(ms(4), 0, "first\nline");
    run.record(ms(2), 3, "");
    assert_eq!(run.schedule.step(), BenchStep::Done);
    let r = benchmark_backend(&ContainmentBackend::MicroVm, 1, "hello", Ok(run));
    assert_eq!(r.backend, "NanVix (MicroVM)");
    assert_eq!(r.workload, "hello");
    assert_eq!(r.warmup_iterations, 1);
    assert_eq!(r.stats.count, 2);
    assert_eq!(value(r.stats.median_ms), 3.0);
    assert_eq!(r.iterations.len(), 2);
    assert_eq!(r.iterations[0].iteration, 1);
    assert_eq!(r.iterations[0].stdout_preview, "first");
    assert_eq!(r.iterations[1].iteration, 2);
    assert_eq!(r.iterations[1].elapsed_ms, ms(2));
    assert_eq!(r.iterations[1].exit_code, 3);
    assert_eq!(r.runner_create_ms, Some(ms(50)));
    assert!(r.error.is_none());
}

#[test]
fn warm_start_without_a_runner_is_an_error() {
    let r = benchmark_backend(&ContainmentBackend::Wslc, 3, "hello", Err("no WSL".to_string()));
    assert_eq!(r.error.unwrap(), "failed to create WSLc runner: no WSL");
    assert_eq!(r.stats.count, 0);
    assert!(r.iterations.is_empty());
    assert!(r.runner_create_ms.is_none());
    assert_eq!(r.warmup_iterations, 3);
}

// Cold starts.

#[test]
fn cold_start_keeps_the_numbers_of_what_succeeded() {
    let mut run = ColdRun::new(1, 3);
    let exit = |n: u64, code: Option<i32>, peak: u64| {
        Some(ColdExit { elapsed_ms: ms(n), exit_code: code, peak_commit_mb: mb(peak) })
    };
    run.record(exit(100, Some(0), 90));
    run.record(exit(10, Some(0), 5));
    run.record(None);
    run.record(exit(20, None, 8));
    let r = cold_start_benchmark(&ContainmentBackend::Hyperlight, Ok(run));
    assert_eq!(r.backend, "Hyperlight");
    assert!(r.error.is_none());
    assert_eq!(r.stats.count, 2);
    assert_eq!(value(r.stats.mean_ms), 15.0);
    let numbers: Vec<usize> = r.entries.iter().map(|e| e.iteration).collect();
    assert_eq!(numbers, vec![1, 3]);
    assert_eq!(r.entries[0].exit_code, 0);
    assert_eq!(r.entries[1].exit_code, -1);
    assert_eq!(peak_commit(&r.entries), mb(8));
    assert_eq!(peak_commit(&vec![]), mb(0));
}

#[test]
fn cold_start_reports_what_went_wrong() {
    let mut run = ColdRun::new(0, 1);
    run.record(None);
    let r = cold_start_benchmark(&ContainmentBackend::Wslc, Ok(run));
    assert_eq!(r.error.unwrap(), "all iterations failed");
    assert_eq!(r.stats.count, 0);
    let r = cold_start_benchmark(&ContainmentBackend::Wslc, Err("/x/wxc-exec.exe".to_string()));
    assert_eq!(r.error.unwrap(), "wxc-exec.exe not found at /x/wxc-exec.exe");
    assert!(r.entries.is_empty());
}

// Density.

fn readings(process: u64, system: u64, daemon: u64) -> CommitReadings {
    CommitReadings { process: mb(process), system: mb(system), daemon: mb(daemon) }
}

fn reading(process: u64, peak: u64, peak_daemon: u64, container: Option<u64>) -> RunnerReading {
    RunnerReading {
        create_ms: ms(1),
        execute_ms: ms(2),
        exit_code: 0,
        process: mb(process),
        peak: PeakCommit { process_mb: mb(peak), daemon_mb: mb(peak_daemon) },
        system: mb(1000),
        container: container.map(mb),
    }
}

#[test]
fn density_of_a_persistent_backend_is_what_stays() {
    let mut run = DensityRun::new(ContainmentBackend::Hyperlight, 2, readings(100, 1000, 0));
    assert!(run.wants_runner());
    run.record(reading(150, 180, 9, Some(4)));
    run.record(reading(220, 230, 9, Some(4)));
    assert!(!run.wants_runner());
    let r = density_test(run, readings(220, 1300, 0));
    assert_eq!(r.backend, "Hyperlight");
    assert_eq!(r.count, 2);
    assert!(!r.ephemeral);
    assert_eq!(value(r.per_runner_persistent_mb), 60.0);
    assert_eq!(value(r.per_runner_system_mb), 150.0);
    assert_eq!(r.per_exec_peak_mb, mb(80));
    assert_eq!(value(r.density_cost_mb), 60.0);
    assert_eq!(r.fits_in_1500mb, 23);
    assert!(r.daemon_names.is_none());
    assert!(r.baseline_daemon_commit_mb.is_none() && r.final_daemon_commit_mb.is_none());
    assert!(r.per_runner_daemon_mb.is_none() && r.per_container_memory_mb.is_none());
    assert!(r.entries[0].peak_daemon_commit_mb.is_none());
    assert!(r.entries[0].container_memory_mb.is_none());
    assert_eq!(r.entries[1].index, 2);
    assert!(r.note.is_none());
}

#[test]
fn density_of_an_ephemeral_backend_is_the_peak_and_its_daemon() {
    let mut run = DensityRun::new(ContainmentBackend::MicroVm, 3, readings(100, 1000, 0));
    run.record(reading(100, 110, 250, None));
    run.record(reading(105, 90, 258, None));
    run.record(reading(105, 106, 260, None));
    let r = density_test(run, readings(105, 1000, 0));
    assert!(r.ephemeral);
    assert_eq!(r.per_exec_peak_mb, mb(1));
    assert_eq!(r.per_runner_daemon_mb, Some(mb(258)));
    assert_eq!(value(r.density_cost_mb), 259.0);
    assert_eq!(r.fits_in_1500mb, 5);
    assert_eq!(r.daemon_names, Some(vec!["nanvixd".to_string()]));
    assert_eq!(r.final_daemon_commit_mb, Some(mb(0)));
    assert_eq!(r.entries[2].peak_daemon_commit_mb, Some(mb(260)));
}

#[test]
fn density_of_wslc_is_what_the_container_says() {
    let mut run = DensityRun::new(ContainmentBackend::Wslc, 2, readings(100, 1000, 20));
    run.record(reading(100, 110, 15, Some(40)));
    run.record(reading(100, 110, 30, Some(50)));
    let r = density_test(run, readings(100, 1200, 20));
    assert_eq!(r.per_container_memory_mb, Some(mb(50)));
    assert_eq!(r.per_runner_daemon_mb, Some(mb(10)));
    assert_eq!(value(r.density_cost_mb), 50.0);
    assert_eq!(r.fits_in_1500mb, 28);

    let mut run = DensityRun::new(ContainmentBackend::Wslc, 2, readings(100, 1000, 20));
    run.record(reading(100, 110, 15, None));
    run.record(reading(100, 110, 30, None));
    let r = density_test(run, readings(100, 1200, 20));
    assert!(r.per_container_memory_mb.is_none());
    assert_eq!(value(r.density_cost_mb), 100.0);
    assert_eq!(r.fits_in_1500mb, 14);
}

#[test]
fn density_stops_at_the_first_runner_that_fails() {
    let mut run = DensityRun::new(ContainmentBackend::Wslc, 5, readings(1, 1, 1));
    run.runner_failed();
    assert!(!run.wants_runner());
    let r = density_test(run, readings(2, 2, 2));
    assert_eq!(r.count, 0);
    assert_eq!(value(r.density_cost_mb), 0.0);
    assert_eq!(r.fits_in_1500mb, 0);
    assert_eq!(value(r.per_runner_persistent_mb), 0.0);
    assert!(r.per_runner_daemon_mb.is_none());
}

#[test]
fn nothing_fits_where_there_is_no_room_or_no_cost() {
    let mut run = DensityRun::new(ContainmentBackend::Hyperlight, 1, readings(1500, 0, 0));
    run.record(reading(1600, 1600, 0, None));
    let r = density_test(run, readings(1600, 0, 0));
    assert_eq!(value(r.density_cost_mb), 100.0);
    assert_eq!(r.fits_in_1500mb, 0);

    let mut run = DensityRun::new(ContainmentBackend::Hyperlight, 1, readings(200, 0, 0));
    run.record(reading(150, 150, 0, None));
    let r = density_test(run, readings(150, 0, 0));
    assert_eq!(value(r.per_runner_persistent_mb), -50.0);
    assert_eq!(value(r.density_cost_mb), -50.0);
    assert_eq!(r.fits_in_1500mb, 0);
}

#[test]
fn estimate_is_tight() {
    for cost in [1u64, 7, 60, 1399, 1400, 1401] {
        let mut run = DensityRun::new(ContainmentBackend::Hyperlight, 1, readings(100, 0, 0));
        run.record(reading(100 + cost, 100 + cost, 0, None));
        let fits = density_test(run, readings(100 + cost, 0, 0)).fits_in_1500mb as u64;
        assert!(fits * cost <= 1400);
        assert!((fits + 1) * cost > 1400);
    }
}

#[test]
fn median_is_the_upper_one_of_two() {
    assert_eq!(median_amount(&vec![]), None);
    assert_eq!(median_amount(&vec![4, 1, 3]), Some(Megabytes { bytes: 3 }));
    assert_eq!(median_amount(&vec![4, 1, 3, 2]), Some(Megabytes { bytes: 3 }));
}

#[test]
fn daemons_are_subprocesses_or_services() {
    assert_eq!(daemon_label(Megabytes { bytes: 0 }), "subprocess");
    assert_eq!(daemon_label(Megabytes { bytes: 104_857 }), "subprocess");
    assert_eq!(daemon_label(Megabytes { bytes: 104_858 }), "service delta");
}

// Parallel executions.

fn line(round: usize, runner_index: usize, elapsed: u64) -> LogLine {
    LogLine { round, entry: ParallelEntry { runner_index, elapsed_ms: ms(elapsed), exit_code: 0 } }
}

#[test]
fn parallel_rounds_count_after_warmup() {
    let mut log = vec![line(0, 0, 90), line(0, 1, 80)];
    let mut run = ParallelRun::new(ContainmentBackend::Hyperlight, 2, 1, 2);
    assert_eq!(run.round_index(), 0);
    run.record(ms(95), &log);
    assert_eq!(run.round_index(), 1);
    log.push(line(1, 1, 10));
    log.push(line(1, 0, 20));
    run.record(ms(25), &log);
    log.push(line(2, 0, 30));
    log.push(line(2, 1, 40));
    run.record(ms(75), &log);
    assert_eq!(run.schedule.step(), BenchStep::Done);
    let r = parallel_benchmark(run);
    assert_eq!(r.concurrency, 2);
    assert_eq!(r.rounds.len(), 2);
    assert_eq!(r.rounds[0].round, 1);
    assert_eq!(r.rounds[0].entries[0].runner_index, 1);
    assert_eq!(r.rounds[1].wall_clock_ms, ms(75));
    assert_eq!(value(r.wall_clock_stats.median_ms), 50.0);
    assert_eq!(r.per_runner_stats.count, 4);
    assert_eq!(value(r.per_runner_stats.mean_ms), 25.0);
    assert_eq!(value(r.throughput_per_sec), 40.0);
    assert!(r.error.is_none());
}

#[test]
fn parallel_without_latencies_is_an_error() {
    let mut run = ParallelRun::new(ContainmentBackend::Hyperlight, 2, 0, 1);
    run.record(ms(25), &vec![]);
    let r = parallel_benchmark(run);
    assert_eq!(r.error.unwrap(), "no successful rounds");
    assert!(r.rounds.is_empty());
    assert_eq!(r.wall_clock_stats.count, 0);
    assert_eq!(r.throughput_per_sec, Ratio::zero());
    let r = parallel_benchmark(ParallelRun::new(ContainmentBackend::Hyperlight, 2, 0, 0));
    assert_eq!(r.error.unwrap(), "no successful rounds");
}

#[test]
fn parallel_in_no_time_has_no_throughput() {
    let mut run = ParallelRun::new(ContainmentBackend::Hyperlight, 2, 0, 1);
    run.record(ms(0), &vec![line(0, 0, 0)]);
    let r = parallel_benchmark(run);
    assert!(r.error.is_none());
    assert_eq!(value(r.throughput_per_sec), 0.0);
}

#[test]
fn round_entries_and_their_range() {
    let log = vec![line(3, 0, 5), line(2, 1, 1), line(3, 2, 2)];
    let entries = round_entries(&log, 3);
    assert_eq!(entries.len(), 2);
    assert_eq!(entries[1].runner_index, 2);
    assert_eq!(latency_range(&entries), Some((ms(2), ms(5))));
    assert_eq!(latency_range(&vec![]), None);
}

// Disk.

fn file(name: &str, length: u64, exists: bool) -> FileReading {
    FileReading { exists, name: name.to_string(), length: Some(length), compressed: None }
}

#[test]
fn files_take_up_their_compressed_size() {
    let plain = measure_file(&file("a", 7, true)).unwrap();
    assert_eq!((plain.name.as_str(), plain.logical_mb.bytes, plain.actual_mb.bytes), ("a", 7, 7));
    assert!(measure_file(&file("a", 7, false)).is_none());
    let mut sparse = file("b", 9000, true);
    sparse.compressed = Some(CompressedSize { low: 10, high: 0, last_error: Some(0) });
    let sparse = measure_file(&sparse).unwrap();
    assert_eq!((sparse.logical_mb.bytes, sparse.actual_mb.bytes), (9000, 10));
    let mut failed = file("c", 9, true);
    failed.compressed = Some(CompressedSize { low: 0xffff_ffff, high: 0, last_error: Some(5) });
    assert_eq!(measure_file(&failed).unwrap().actual_mb.bytes, 9);
    let unknown = FileReading { exists: true, name: "d".to_string(), length: None, compressed: None };
    assert_eq!(measure_file(&unknown).unwrap().logical_mb.bytes, 0);
}

fn tree() -> Vec<DirItem> {
    vec![
        DirItem::File(file("a", 1, true)),
        DirItem::Directory(vec![
            DirItem::File(file("b", 2, true)),
            DirItem::Directory(vec![]),
            DirItem::Directory(vec![DirItem::File(file("c", 4, true))]),
        ]),
        DirItem::File(file("gone", 8, false)),
        DirItem::File(file("d", 16, true)),
    ]
}

#[test]
fn directories_are_walked_in_order() {
    let found = measure_dir_recursive(&tree());
    let names: Vec<&str> = found.iter().map(|f| f.name.as_str()).collect();
    assert_eq!(names, vec!["a", "b", "c", "d"]);
}

fn found() -> DiskReading {
    DiskReading {
        snapshot_dir: "/data/pyhl/snapshot".to_string(),
        snapshot: Some(tree()),
        files: vec![file("nanvixd.exe", MB, true), file("kernel.elf", MB, false), file("x", MB / 2, true)],
        image: Some(mb(3)),
    }
}

#[test]
fn disk_of_each_backend() {
    let r = measure_disk(&ContainmentBackend::Hyperlight, "img", &found());
    assert_eq!(r.total_mb, Ratio { negative: false, num: 23, den: 1_048_576 });
    assert_eq!(r.files.len(), 4);
    assert!(r.note.is_none());
    let r = measure_disk(&ContainmentBackend::MicroVm, "img", &found());
    assert_eq!(value(r.total_mb), 1.5);
    assert_eq!(r.files.len(), 2);
    let r = measure_disk(&ContainmentBackend::Wslc, "img", &found());
    assert_eq!(value(r.total_mb), 4.5);
    assert_eq!(r.files[2].name, "img (rootfs)");
    assert_eq!(r.files[2].logical_mb, mb(3));
    let r = measure_disk(&ContainmentBackend::Other, "img", &found());
    assert_eq!(r.backend, "Unknown");
    assert_eq!(value(r.total_mb), 0.0);
    assert!(r.files.is_empty() && r.note.is_none());
}

#[test]
fn disk_without_a_snapshot_says_where_it_was_looked_for() {
    let r = measure_disk(
        &ContainmentBackend::Hyperlight,
        "img",
        &DiskReading { snapshot: None, ..found() },
    );
    assert_eq!(r.note.unwrap(), "snapshot not found at /data/pyhl/snapshot");
    assert!(r.files.is_empty());
    assert_eq!(value(r.total_mb), 0.0);
    let r = measure_disk(&ContainmentBackend::Wslc, "img", &DiskReading { image: None, ..found() });
    assert_eq!(r.files.len(), 2);
}

#[test]
fn disk_files_of_each_backend() {
    assert_eq!(
        disk_files(&ContainmentBackend::MicroVm),
        vec!["nanvixd.exe", "nanvix_rootfs.img", "python3.initrd", "kernel.elf"]
    );
    let wsl = disk_files(&ContainmentBackend::Wslc);
    assert_eq!(wsl.len(), 11);
    assert_eq!((wsl[0], wsl[10]), ("system.vhd", "wsldevicehost.dll"));
    assert!(disk_files(&ContainmentBackend::Hyperlight).is_empty());
    assert_eq!(WSL_DIR, "C:\\Program Files\\WSL");
}

#[test]
fn local_app_data_falls_back_to_the_home_directory() {
    assert!(matches!(resolve_localappdata(true, Some(1), Some(2), Some(3)), LocalAppData::Given(1)));
    assert!(matches!(resolve_localappdata(false, Some(1), Some(2), Some(3)), LocalAppData::BelowHome(2)));
    assert!(matches!(resolve_localappdata(true, None, None, Some(3)), LocalAppData::BelowHome(3)));
    assert!(matches!(resolve_localappdata(false, Some(1), None, None), LocalAppData::Current));
}
