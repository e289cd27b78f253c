//! Backends, workloads, requests and what a run covers.

use mxc_containment::backend::{
    backend_display_name, daemon_process_names, is_ephemeral_backend, parse_backend, parse_lowercase_backend,
    ContainmentBackend,
};
use mxc_containment::home::{resolve_home, HomeProbe};
use mxc_containment::output::CGROUP_MARK;
use mxc_containment::plan::{select_backends, select_mode, BenchMode};
use mxc_containment::report::{generate_full_html, generate_html};
use mxc_containment::request::ExecutionRequest;
use mxc_containment::workload::{
    cold_config_file_name, cold_config_json, density_request, image_size_request, make_request, script_code,
    unknown_workload_message, workload_py_src, CGROUP_PROBE, COMPUTE_PY, HELLO_PY,
};

const ALL: [ContainmentBackend; 4] = [
    ContainmentBackend::Hyperlight,
    ContainmentBackend::MicroVm,
    ContainmentBackend::Wslc,
    ContainmentBackend::Other,
];

#[test]
fn backends_are_named_in_any_case() {
    assert_eq!(parse_backend("Hyperlight"), Ok(ContainmentBackend::Hyperlight));
    assert_eq!(parse_backend("microvm"), Ok(ContainmentBackend::MicroVm));
    assert_eq!(parse_backend("NANVIX"), Ok(ContainmentBackend::MicroVm));
    assert_eq!(parse_backend("WSLc"), Ok(ContainmentBackend::Wslc));
    assert_eq!(parse_lowercase_backend("wslc"), Ok(ContainmentBackend::Wslc));
}

#[test]
fn unknown_backend_is_repeated_in_lowercase() {
    assert_eq!(
        parse_backend("Docker\u{c9}"),
        Err("unknown backend 'docker\u{e9}'; expected: hyperlight, microvm, wslc".to_string())
    );
    assert_eq!(
        parse_lowercase_backend("WSLc"),
        Err("unknown backend 'WSLc'; expected: hyperlight, microvm, wslc".to_string())
    );
    assert!(parse_backend("").is_err());
}

#[test]
fn backends_have_names_daemons_and_memory_models() {
    let names: Vec<&str> = ALL.iter().map(backend_display_name).collect();
    assert_eq!(names, vec!["Hyperlight", "NanVix (MicroVM)", "WSLc", "Unknown"]);
    let daemons: Vec<Vec<&str>> = ALL.iter().map(daemon_process_names).collect();
    assert_eq!(daemons, vec![vec![], vec!["nanvixd"], vec!["wslservice"], vec![]]);
    let ephemeral: Vec<bool> = ALL.iter().map(is_ephemeral_backend).collect();
    assert_eq!(ephemeral, vec![false, true, true, false]);
}

#[test]
fn workloads_have_sources() {
    assert_eq!(workload_py_src("hello"), Some(HELLO_PY));
    assert_eq!(workload_py_src("compute"), Some(COMPUTE_PY));
    assert_eq!(workload_py_src("Hello"), None);
    assert_eq!(
        unknown_workload_message("x"),
        "Unknown workload 'x'; expected: hello, compute"
    );
}

#[test]
fn wslc_runs_a_command_line_and_the_others_run_source() {
    assert_eq!(script_code(&ContainmentBackend::Hyperlight, "a\n'b'"), "a\n'b'");
    assert_eq!(
        script_code(&ContainmentBackend::Wslc, "a\n'b\\n'"),
        "python3 -c \"exec('a\\n\\'b\\\\n\\'')\""
    );
}

#[test]
fn requests_carry_the_workload() {
    let r = make_request(&ContainmentBackend::MicroVm, "microvm", "img", "hello").unwrap();
    assert_eq!(r.schema_version, "0.8.0");
    assert_eq!(r.container_id, "bench-lib-microvm");
    assert_eq!(r.script_code, HELLO_PY);
    assert_eq!(r.script_timeout, 30000);
    assert_eq!(r.containment, ContainmentBackend::MicroVm);
    assert!(r.experimental_enabled);
    assert!(r.wslc.is_none());
    let r = make_request(&ContainmentBackend::Wslc, "wslc", "img", "compute").unwrap();
    assert_eq!(r.script_code, script_code(&ContainmentBackend::Wslc, COMPUTE_PY));
    assert_eq!(r.wslc.unwrap().image, "img");
    assert!(make_request(&ContainmentBackend::Wslc, "wslc", "img", "none").is_none());
}

#[test]
fn density_requests_on_wslc_ask_for_the_memory() {
    let r = density_request(&ContainmentBackend::Wslc, "wslc", "img", "hello").unwrap();
    let plain = script_code(&ContainmentBackend::Wslc, HELLO_PY);
    assert_eq!(r.script_code, format!("{plain}{CGROUP_PROBE}"));
    assert!(CGROUP_PROBE.contains(&format!("echo {CGROUP_MARK}")));
    let r = density_request(&ContainmentBackend::Hyperlight, "hyperlight", "img", "hello").unwrap();
    assert_eq!(r.script_code, HELLO_PY);
    assert_eq!(r.container_id, "bench-lib-hyperlight");
    assert!(density_request(&ContainmentBackend::Wslc, "wslc", "img", "none").is_none());
}

#[test]
fn image_size_is_asked_of_a_container() {
    let r = image_size_request("img");
    assert_eq!(r.container_id, "bench-disk-wslc");
    assert_eq!(r.script_code, "du -sx / 2>/dev/null | head -1");
    assert_eq!(r.containment, ContainmentBackend::Wslc);
    assert_eq!(r.wslc.unwrap().image, "img");
}

#[test]
fn default_request_is_empty() {
    let r = ExecutionRequest::default();
    assert!(r.schema_version.is_empty() && r.container_id.is_empty() && r.script_code.is_empty());
    assert_eq!(r.script_timeout, 0);
    assert_eq!(r.containment, ContainmentBackend::Other);
    assert!(!r.experimental_enabled);
    assert!(r.wslc.is_none());
}

#[test]
fn cold_configurations_read_back_as_json() {
    for (backend, name) in [
        (ContainmentBackend::Hyperlight, "hyperlight"),
        (ContainmentBackend::MicroVm, "microvm"),
    ] {
        for source in [HELLO_PY, COMPUTE_PY, "a\t\"b\"\\\r\n"] {
            let text = cold_config_json(&backend, "img", source);
            let v: serde_json::Value = serde_json::from_str(&text).unwrap();
            assert_eq!(v["process"]["commandLine"].as_str(), Some(source));
            assert_eq!(v["process"]["timeout"].as_u64(), Some(30000));
            assert_eq!(v["containment"].as_str(), Some(name));
        }
    }
}

#[test]
fn cold_configuration_of_wslc_hands_a_single_line_to_python() {
    assert_eq!(
        cold_config_json(&ContainmentBackend::Wslc, "img", "print('b')"),
        "{\"version\":\"0.8.0\",\"containerId\":\"bench-cold-wslc\",\"containment\":\"wslc\",\"process\":{\"commandLine\":\"python3 -c \\\"print('b')\\\"\",\"timeout\":30000},\"network\":{\"defaultPolicy\":\"block\"},\"experimental\":{\"wslc\":{\"image\":\"img\"}}}"
    );
    let text = cold_config_json(&ContainmentBackend::Wslc, "img", HELLO_PY);
    let v: serde_json::Value = serde_json::from_str(&text).unwrap();
    assert_eq!(
        v["process"]["commandLine"].as_str(),
        Some(format!("python3 -c \"{HELLO_PY}\"").as_str())
    );
    assert_eq!(cold_config_json(&ContainmentBackend::Other, "img", HELLO_PY), "");
}

#[test]
fn cold_configuration_of_wslc_keeps_line_breaks() {
    let text = cold_config_json(&ContainmentBackend::Wslc, "img", "for x in y:\n    print('b')");
    let v: serde_json::Value = serde_json::from_str(&text).unwrap();
    assert_eq!(
        v["process"]["commandLine"].as_str(),
        Some("python3 -c \"exec('for x in y:\\n    print(\\'b\\')')\"")
    );
    let text = cold_config_json(&ContainmentBackend::Wslc, "img", COMPUTE_PY);
    let v: serde_json::Value = serde_json::from_str(&text).unwrap();
    let request = make_request(&ContainmentBackend::Wslc, "wslc", "img", "compute").unwrap();
    assert_eq!(v["process"]["commandLine"].as_str(), Some(request.script_code.as_str()));
    assert_eq!(v["process"]["timeout"].as_u64(), Some(30000));
    assert_eq!(v["network"]["defaultPolicy"].as_str(), Some("block"));
    assert_eq!(v["experimental"]["wslc"]["image"].as_str(), Some("img"));
}

#[test]
fn workloads_have_nothing_that_a_shell_would_change() {
    for source in [HELLO_PY, COMPUTE_PY] {
        assert!(!source.contains(['"', '$', '`', '\\', '\r', '\0']));
        let script = script_code(&ContainmentBackend::Wslc, source);
        let literal = script
            .strip_prefix("python3 -c \"exec('")
            .and_then(|rest| rest.strip_suffix("')\""))
            .unwrap();
        assert_eq!(literal.replace("\\n", "\n").replace("\\'", "'"), source);
    }
}

#[test]
fn cold_configurations_have_files() {
    let names: Vec<String> = ALL.iter().map(cold_config_file_name).collect();
    assert_eq!(
        names,
        vec!["cold_hyperlight.json", "cold_nanvix_microvm.json", "cold_wslc.json", "cold_unknown.json"]
    );
}

#[test]
fn home_is_the_first_that_can_be_run_from() {
    let empty = HomeProbe { has_snapshot: false, has_source: false };
    let source = HomeProbe { has_snapshot: false, has_source: true };
    let snapshot = HomeProbe { has_snapshot: true, has_source: false };
    assert_eq!(resolve_home(&vec![empty, source, snapshot]), Some(1));
    assert_eq!(resolve_home(&vec![snapshot, source]), Some(0));
    assert_eq!(resolve_home(&vec![empty, empty]), None);
    assert_eq!(resolve_home(&vec![]), None);
}

#[test]
fn all_backends_or_the_one_that_is_named() {
    let three = vec![
        ContainmentBackend::Hyperlight,
        ContainmentBackend::MicroVm,
        ContainmentBackend::Wslc,
    ];
    assert_eq!(select_backends(true, false, Some(ContainmentBackend::Wslc)), Ok(three.clone()));
    assert_eq!(select_backends(false, true, None), Ok(three));
    assert_eq!(
        select_backends(false, false, Some(ContainmentBackend::Wslc)),
        Ok(vec![ContainmentBackend::Wslc])
    );
    assert_eq!(
        select_backends(false, false, None),
        Err("Specify --backend <name>, --all, or --full")
    );
}

#[test]
fn full_comes_before_density_and_density_before_warm_start() {
    match select_mode(true, Some(3), None, None, "hello".to_string()) {
        BenchMode::Full { report, workloads } => {
            assert_eq!(report, "bench_report.html");
            assert_eq!(workloads, vec!["hello"]);
        }
        _ => panic!("full was asked for"),
    }
    let list = Some(vec!["hello".to_string(), "compute".to_string()]);
    match select_mode(true, None, Some("out.html".to_string()), list, "hello".to_string()) {
        BenchMode::Full { report, workloads } => {
            assert_eq!(report, "out.html");
            assert_eq!(workloads, vec!["hello", "compute"]);
        }
        _ => panic!("full was asked for"),
    }
    assert!(matches!(
        select_mode(false, Some(8), None, None, "hello".to_string()),
        BenchMode::Density(8)
    ));
    assert!(matches!(
        select_mode(false, None, None, None, "hello".to_string()),
        BenchMode::WarmStart
    ));
}

#[test]
fn pages_hold_the_results() {
    let page = generate_html("[{\"backend\":\"x\"}]");
    assert!(page.starts_with("<!DOCTYPE html>\n<html lang=\"en\">"));
    assert!(page.contains("const DATA = [{\"backend\":\"x\"}];"));
    assert!(page.contains("<title>MXC Library-Mode Benchmark</title>"));
    assert!(page.ends_with("</body>\n</html>"));
    assert!(!page.contains("{{") && !page.contains("json_data"));
    let full = generate_full_html("{\"workloads\":[]}");
    assert!(full.starts_with("<!DOCTYPE html>\n<html lang=\"en\">"));
    assert!(full.contains("const D = {\"workloads\":[]};"));
    assert!(full.ends_with("</body>\n</html>"));
    assert!(!full.contains("json_data"));
}
