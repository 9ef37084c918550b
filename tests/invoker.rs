use engine_bridge::error::EngineError;
use engine_bridge::invoker::{classify_outcome, engine_arguments, engine_program, ProcessOutcome};

fn exited(success: bool, stdout: &[u8], stderr: &[u8]) -> ProcessOutcome {
    ProcessOutcome::Exited { success, stdout: stdout.to_vec(), stderr: stderr.to_vec() }
}

#[test]
fn command_line_is_module_then_arguments() {
    assert_eq!(engine_program(), "python3");
    let args = vec!["analyze".to_string(), "--json".to_string(), "a b".to_string()];
    assert_eq!(engine_arguments(&args), vec!["-m", "engine", "analyze", "--json", "a b"]);
    assert_eq!(engine_arguments(&vec![]), vec!["-m", "engine"]);
}

#[test]
fn success_output_is_returned_verbatim() {
    assert_eq!(classify_outcome(exited(true, b"{}\n", b"")).unwrap(), "{}\n");
    assert_eq!(classify_outcome(exited(true, "  é \n".as_bytes(), b"warn")).unwrap(), "  é \n");
    assert_eq!(classify_outcome(exited(true, b"", b"")).unwrap(), "");
}

#[test]
fn failure_carries_stderr_and_stdout() {
    match classify_outcome(exited(false, b"partial", b"boom")) {
        Err(EngineError::ExecutionFailure(m)) => {
            assert!(m.contains("boom") && m.contains("partial"));
            assert_eq!(m, "Engine command failed: boom\nOutput: partial");
        }
        other => panic!("unexpected {:?}", other),
    }
}

#[test]
fn failure_without_stdout_has_no_output_part() {
    let e = classify_outcome(exited(false, b"", b"boom")).unwrap_err();
    assert_eq!(e.message(), "Engine command failed: boom");
}

#[test]
fn failure_text_is_decoded_lossily() {
    let e = classify_outcome(exited(false, b"\xffx", b"bad \xfe")).unwrap_err();
    assert_eq!(e.message(), "Engine command failed: bad \u{fffd}\nOutput: \u{fffd}x");
}

#[test]
fn launch_failure_wraps_os_error() {
    let os = "No such file or directory (os error 2)";
    match classify_outcome(ProcessOutcome::SpawnFailed(os.to_string())) {
        Err(EngineError::LaunchFailure(m)) => {
            assert_eq!(m, "Failed to execute Python engine: No such file or directory (os error 2)")
        }
        other => panic!("unexpected {:?}", other),
    }
}

#[test]
fn invalid_utf8_output_is_decode_failure() {
    match classify_outcome(exited(true, b"ok\xc3\x28", b"")) {
        Err(EngineError::OutputDecodeFailure(m)) => {
            assert!(m.starts_with("Failed to parse stdout: "));
            assert!(m.len() > "Failed to parse stdout: ".len());
        }
        other => panic!("unexpected {:?}", other),
    }
}
