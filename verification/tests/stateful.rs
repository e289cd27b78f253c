//! The lifecycle of stateful sandboxes.

use mxc_containment::error::MxcErrorCode;
use mxc_containment::request::ExecutionRequest;
use mxc_containment::stateful::{
    malformed_id_error, sentinel_pipe, HyperlightStatefulBackend, ProvisionStep, BACKEND_KEY, ID_PREFIX,
};

type Backend = HyperlightStatefulBackend<Vec<String>, String>;

fn request(code: &str) -> ExecutionRequest {
    ExecutionRequest {
        script_code: code.to_string(),
        ..Default::default()
    }
}

fn start(backend: &mut Backend, id: &str) {
    let pending = backend.start(id, &ExecutionRequest::default(), None).unwrap();
    let plan = backend.start_home(Ok("home".to_string())).unwrap();
    assert_eq!(plan.home, "home");
    assert!(plan.mounts.is_empty() && plan.listen_ports.is_empty() && !plan.network);
    assert_eq!(plan.max_surrogates, Some(0));
    let started = backend.start_runtime(pending, plan.home, Ok(Vec::new())).unwrap();
    assert!(started.metadata.is_none());
}

fn run(backend: &mut Backend, id: &str, code: &str) -> Vec<String> {
    let step = backend.exec(id, &request(code), None).unwrap();
    step.runtime.push(step.code);
    step.runtime.clone()
}

// Constants of the wire format.

#[test]
fn id_prefix_matches_wire_format() {
    assert_eq!(ID_PREFIX, "hl");
}

#[test]
fn backend_key_matches_wire_format() {
    assert_eq!(BACKEND_KEY, "hyperlight");
}

// Sandbox ids.

#[test]
fn extract_token_unwraps_hl_prefix() {
    assert_eq!(Backend::extract_token("hl:abcd1234").unwrap(), "abcd1234");
}

#[test]
fn extract_token_rejects_other_prefix() {
    let err = Backend::extract_token("iso:abc").unwrap_err();
    assert_eq!(err.code, MxcErrorCode::MalformedId);
}

#[test]
fn extract_token_rejects_missing_colon() {
    let err = Backend::extract_token("no-colon").unwrap_err();
    assert_eq!(err.code, MxcErrorCode::MalformedId);
}

#[test]
fn extract_token_rejects_empty_payload() {
    let err = Backend::extract_token("hl:").unwrap_err();
    assert_eq!(err.code, MxcErrorCode::MalformedId);
}

#[test]
fn extract_token_splits_at_the_first_colon() {
    assert_eq!(Backend::extract_token("hl:a:b").unwrap(), "a:b");
    assert_eq!(Backend::extract_token("hl::").unwrap(), ":");
    assert_eq!(Backend::extract_token("hl:\u{e9}").unwrap(), "\u{e9}");
    assert!(Backend::extract_token(":abc").is_err());
    assert!(Backend::extract_token("HL:abc").is_err());
    assert!(Backend::extract_token("").is_err());
}

#[test]
fn malformed_id_is_quoted_in_the_message() {
    let err = Backend::extract_token("no\"colon\n").unwrap_err();
    assert_eq!(err.message, "expected hl:<token>, got \"no\\\"colon\\n\"");
    assert_eq!(malformed_id_error("'x'").message, "expected hl:<token>, got 'x'");
    assert_eq!(malformed_id_error("'x'").code, MxcErrorCode::MalformedId);
}

// The lifecycle.

#[test]
fn stop_without_start_returns_already_stopped() {
    let mut backend = Backend::new();
    let err = backend
        .stop("hl:fake123", &ExecutionRequest::default(), None)
        .unwrap_err();
    assert_eq!(err.code, MxcErrorCode::AlreadyStopped);
    assert_eq!(err.message, "no running session for hl:fake123");
}

#[test]
fn exec_without_start_returns_not_started() {
    let mut backend = Backend::new();
    let err = backend
        .exec(
            "hl:fake123",
            &ExecutionRequest {
                script_code: "print('hi')".to_string(),
                ..Default::default()
            },
            None,
        )
        .unwrap_err();
    assert_eq!(err.code, MxcErrorCode::NotStarted);
    assert_eq!(
        err.message,
        "no running session for hl:fake123 \u{2014} call start first"
    );
}

#[test]
fn deprovision_without_session_is_ok() {
    let mut backend = Backend::new();
    backend
        .deprovision("hl:fake123", &ExecutionRequest::default(), None)
        .unwrap();
}

#[test]
fn default_validate_hooks_all_pass() {
    let b = Backend::new();
    let req = ExecutionRequest::default();
    b.validate_provision(&req, None).unwrap();
    b.validate_start("hl:abcd1234", &req, None).unwrap();
    b.validate_exec("hl:abcd1234", &req, None).unwrap();
    b.validate_stop("hl:abcd1234", &req, None).unwrap();
    b.validate_deprovision("hl:abcd1234", &req, None).unwrap();
}

#[test]
fn malformed_id_is_refused_by_every_operation() {
    let mut backend = Backend::default();
    let req = ExecutionRequest::default();
    assert_eq!(backend.start("hl:", &req, None).unwrap_err().code, MxcErrorCode::MalformedId);
    assert_eq!(backend.exec("hl:", &req, None).unwrap_err().code, MxcErrorCode::MalformedId);
    assert_eq!(backend.stop("hl:", &req, None).unwrap_err().code, MxcErrorCode::MalformedId);
    assert_eq!(backend.deprovision("hl:", &req, None).unwrap_err().code, MxcErrorCode::MalformedId);
}

#[test]
fn provision_without_home_is_a_backend_error() {
    let backend = Backend::new();
    let err = backend
        .provision(&ExecutionRequest::default(), None, Err("nowhere".to_string()), true, true)
        .unwrap_err();
    assert_eq!(err.code, MxcErrorCode::BackendError);
    assert_eq!(err.message, "hyperlight provision: image home resolution: nowhere");
}

#[test]
fn provision_of_an_installed_home_mints_a_token() {
    let backend = Backend::new();
    let step = backend
        .provision(&ExecutionRequest::default(), None, Ok("home".to_string()), true, false)
        .unwrap();
    assert!(matches!(step, ProvisionStep::MintToken));
    let result = backend.provision_minted("0123");
    assert_eq!(result.sandbox_id, "hl:0123");
    assert!(result.metadata.is_none());
    assert_eq!(Backend::extract_token(&result.sandbox_id).unwrap(), "0123");
}

#[test]
fn provision_installs_from_the_files_in_the_home() {
    let backend = Backend::new();
    let step = backend
        .provision(&ExecutionRequest::default(), None, Ok("home".to_string()), false, true)
        .unwrap();
    match step {
        ProvisionStep::Install(plan) => {
            assert_eq!(plan.home, "home");
            assert!(plan.mounts.is_empty() && plan.listen_ports.is_empty() && !plan.network);
            assert_eq!(plan.max_surrogates, Some(0));
            assert!(!plan.force);
        }
        ProvisionStep::MintToken => panic!("nothing is installed"),
    }
    assert!(backend.provision_installed(Ok(())).is_ok());
    let err = backend.provision_installed(Err("no kernel".to_string())).unwrap_err();
    assert_eq!(err.code, MxcErrorCode::BackendError);
    assert_eq!(err.message, "hyperlight auto-install: no kernel");
}

#[test]
fn provision_of_an_empty_home_is_a_backend_error() {
    let backend = Backend::new();
    let err = backend
        .provision(&ExecutionRequest::default(), None, Ok("home".to_string()), false, false)
        .unwrap_err();
    assert_eq!(err.code, MxcErrorCode::BackendError);
    assert_eq!(
        err.message,
        "no warmed snapshot and no kernel/initrd to install from. run `--setup-hyperlight` first."
    );
}

#[test]
fn start_twice_returns_already_started() {
    let mut backend = Backend::new();
    start(&mut backend, "hl:a");
    let err = backend.start("hl:a", &ExecutionRequest::default(), None).unwrap_err();
    assert_eq!(err.code, MxcErrorCode::AlreadyStarted);
    assert_eq!(err.message, "session hl:a is already started");
}

#[test]
fn a_start_that_ends_second_leaves_the_running_session_alone() {
    let mut backend = Backend::new();
    let first = backend.start("hl:a", &ExecutionRequest::default(), None).unwrap();
    let second = backend.start("hl:a", &ExecutionRequest::default(), None).unwrap();
    let third = backend.start("hl:a", &ExecutionRequest::default(), None).unwrap();
    backend.start_runtime(first, "home".to_string(), Ok(Vec::new())).unwrap();
    run(&mut backend, "hl:a", "x = 1");
    let err = backend.start_runtime(second, "other".to_string(), Ok(Vec::new())).unwrap_err();
    assert_eq!(err.code, MxcErrorCode::AlreadyStarted);
    assert_eq!(err.message, "session hl:a is already started");
    let err = backend
        .start_runtime(third, "other".to_string(), Err("no hypervisor".to_string()))
        .unwrap_err();
    assert_eq!(err.code, MxcErrorCode::AlreadyStarted);
    assert_eq!(run(&mut backend, "hl:a", "print(x)"), vec!["x = 1", "print(x)"]);
}

#[test]
fn start_without_home_or_runtime_leaves_no_session() {
    let mut backend = Backend::new();
    let pending = backend.start("hl:a", &ExecutionRequest::default(), None).unwrap();
    let err = backend.start_home(Err("nowhere".to_string())).unwrap_err();
    assert_eq!(err.code, MxcErrorCode::BackendError);
    assert_eq!(err.message, "hyperlight start: image home resolution: nowhere");
    let err = backend
        .start_runtime(pending, "home".to_string(), Err("no hypervisor".to_string()))
        .unwrap_err();
    assert_eq!(err.code, MxcErrorCode::BackendError);
    assert_eq!(err.message, "hyperlight start: runtime init: no hypervisor");
    let err = backend.exec("hl:a", &request("x"), None).unwrap_err();
    assert_eq!(err.code, MxcErrorCode::NotStarted);
}

#[test]
fn state_persists_across_executions() {
    let mut backend = Backend::new();
    start(&mut backend, "hl:a");
    assert_eq!(run(&mut backend, "hl:a", "x = 1"), vec!["x = 1"]);
    assert_eq!(run(&mut backend, "hl:a", "print(x)"), vec!["x = 1", "print(x)"]);
}

#[test]
fn execution_is_bounded_by_the_timeout_of_its_request() {
    let mut backend = Backend::new();
    start(&mut backend, "hl:a");
    let slow = ExecutionRequest { script_timeout: 250, ..request("while True: pass") };
    let step = backend.exec("hl:a", &slow, None).unwrap();
    assert_eq!(step.timeout_ms, 250);
    assert_eq!(step.code, "while True: pass");
    assert_eq!(backend.exec("hl:a", &request("x"), None).unwrap().timeout_ms, 0);
}

#[test]
fn sessions_are_independent() {
    let mut backend = Backend::new();
    start(&mut backend, "hl:a");
    start(&mut backend, "hl:b");
    start(&mut backend, "hl:c");
    run(&mut backend, "hl:a", "a");
    run(&mut backend, "hl:b", "b");
    assert!(backend.stop("hl:a", &ExecutionRequest::default(), None).is_ok());
    assert_eq!(run(&mut backend, "hl:b", "bb"), vec!["b", "bb"]);
    assert_eq!(run(&mut backend, "hl:c", "c"), vec!["c"]);
    assert_eq!(
        backend.exec("hl:a", &request("a"), None).unwrap_err().code,
        MxcErrorCode::NotStarted
    );
}

#[test]
fn stopped_session_starts_anew_without_its_state() {
    let mut backend = Backend::new();
    start(&mut backend, "hl:a");
    run(&mut backend, "hl:a", "x = 1");
    assert!(backend.stop("hl:a", &ExecutionRequest::default(), None).unwrap().metadata.is_none());
    let err = backend.stop("hl:a", &ExecutionRequest::default(), None).unwrap_err();
    assert_eq!(err.code, MxcErrorCode::AlreadyStopped);
    start(&mut backend, "hl:a");
    assert_eq!(run(&mut backend, "hl:a", "print(x)"), vec!["print(x)"]);
}

#[test]
fn deprovision_stops_a_running_session() {
    let mut backend = Backend::new();
    start(&mut backend, "hl:a");
    let result = backend.deprovision("hl:a", &ExecutionRequest::default(), None).unwrap();
    assert!(result.metadata.is_none());
    let err = backend.stop("hl:a", &ExecutionRequest::default(), None).unwrap_err();
    assert_eq!(err.code, MxcErrorCode::AlreadyStopped);
    assert!(backend.deprovision("hl:a", &ExecutionRequest::default(), None).is_ok());
}

#[test]
fn execution_ends_with_its_exit_code_and_no_pipes() {
    let backend = Backend::new();
    let handle = backend.exec_done(Ok(3), false).unwrap();
    assert_eq!(handle.exit_code, 3);
    assert_eq!((handle.stdout, handle.stderr, handle.stdin), (-1, -1, -1));
    let handle = backend.exec_done(Ok(-7), true).unwrap();
    assert_eq!(handle.exit_code, -7);
    assert_eq!((handle.stdout, handle.stderr, handle.stdin), (0, 0, 0));
    let err = backend.exec_done(Err("guest died".to_string()), false).unwrap_err();
    assert_eq!(err.code, MxcErrorCode::BackendError);
    assert_eq!(err.message, "hyperlight exec: guest died");
    assert_eq!(sentinel_pipe(true), 0);
    assert_eq!(sentinel_pipe(false), -1);
}

#[test]
fn started_session_runs_until_it_stops() {
    let mut backend = Backend::new();
    let id = backend.provision_minted("77").sandbox_id;
    start(&mut backend, &id);
    assert_eq!(
        backend.start(&id, &ExecutionRequest::default(), None).unwrap_err().code,
        MxcErrorCode::AlreadyStarted
    );
    assert_eq!(run(&mut backend, &id, "1"), vec!["1"]);
    assert!(backend.stop(&id, &ExecutionRequest::default(), None).is_ok());
    assert_eq!(
        backend.exec(&id, &request("2"), None).unwrap_err().code,
        MxcErrorCode::NotStarted
    );
    assert!(backend.start(&id, &ExecutionRequest::default(), None).is_ok());
}
