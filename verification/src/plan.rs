//! What a run of the benchmark covers, from what its command line asks for.

use vstd::prelude::*;
use vstd::string::*;
use crate::backend::ContainmentBackend;

verus! {

/// Where the report of a full benchmark goes if nothing else is asked for.
pub const DEFAULT_REPORT: &'static str = "bench_report.html";

/// The backends to benchmark: all of them if either option asks for that, else the one that is
/// named.
pub fn select_backends(
    all: bool,
    full: bool,
    backend: Option<ContainmentBackend>,
) -> (r: Result<Vec<ContainmentBackend>, &'static str>)
    ensures
        if all || full {
            r is Ok && r->Ok_0@ == seq![
                ContainmentBackend::Hyperlight,
                ContainmentBackend::MicroVm,
                ContainmentBackend::Wslc,
            ]
        } else {
            match backend {
                Some(b) => r is Ok && r->Ok_0@ == seq![b],
                None => r is Err && r->Err_0@ == "Specify --backend <name>, --all, or --full"@,
            }
        },
{
    if all || full {
        return Ok(
            vec![
                ContainmentBackend::Hyperlight,
                ContainmentBackend::MicroVm,
                ContainmentBackend::Wslc,
            ],
        );
    }
    match backend {
        Some(b) => Ok(vec![b]),
        None => Err("Specify --backend <name>, --all, or --full"),
    }
}

/// What a run of the benchmark does.
#[derive(Debug)]
pub enum BenchMode {
    /// Everything, for each of the workloads, with a report at the given path.
    Full { report: String, workloads: Vec<String> },
    /// A density test of that many runners.
    Density(usize),
    /// A warm-start benchmark.
    WarmStart,
}

/// What a run does: everything if asked for, else a density test if asked for, else a warm-start
/// benchmark. A list of workloads comes before the single one.
pub fn select_mode(
    full: bool,
    density: Option<usize>,
    output_html: Option<String>,
    workloads: Option<Vec<String>>,
    workload: String,
) -> (r: BenchMode)
    ensures
        if full {
            &&& r is Full
            &&& r->report@ == (match output_html {
                Some(path) => path@,
                None => DEFAULT_REPORT@,
            })
            &&& r->workloads@ == (match workloads {
                Some(list) => list@,
                None => seq![workload],
            })
        } else {
            match density {
                Some(n) => r == BenchMode::Density(n),
                None => r is WarmStart,
            }
        },
{
    if full {
        let report = match output_html {
            Some(path) => path,
            None => String::from_str(DEFAULT_REPORT),
        };
        let workloads = match workloads {
            Some(list) => list,
            None => vec![workload],
        };
        return BenchMode::Full { report, workloads };
    }
    match density {
        Some(n) => BenchMode::Density(n),
        None => BenchMode::WarmStart,
    }
}

} // verus!
