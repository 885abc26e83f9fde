use shell_bridge::bridge::{
    BridgeError, EndNotice, SessionRegistry, StartStep, StatusMessage, write_outcome,
};
use shell_bridge::pump::{OutputChunk, Pump, ReadEvent};
use shell_bridge::shell::{Platform, compat_shell_path, locate};

fn start_running(reg: &mut SessionRegistry) -> String {
    let step = reg.start_session(Platform::Posix, false);
    let choice = match step {
        StartStep::Launch { choice } => choice,
        StartStep::AlreadyRunning => panic!("expected a launch directive"),
    };
    let r = reg.spawn_outcome(choice.program, Ok(()));
    match r {
        Ok(StatusMessage::Spawned { program }) => program,
        _ => panic!("expected a spawned status"),
    }
}

#[test]
fn locator_prefers_compat_shell_on_windows() {
    let choice = locate(Platform::Windows, true);
    assert_eq!(choice.program, "wsl.exe");
    assert!(choice.args.is_empty());
}

#[test]
fn locator_falls_back_to_native_interpreter() {
    // The compatibility-layer executable is absent: the native interpreter
    // is chosen unconditionally, with no error path at all.
    let choice = locate(Platform::Windows, false);
    assert_eq!(choice.program, "cmd.exe");
    assert!(choice.args.is_empty());
}

#[test]
fn locator_picks_posix_shell_elsewhere() {
    let choice = locate(Platform::Posix, false);
    assert_eq!(choice.program, "bash");
    let choice = locate(Platform::Posix, true);
    assert_eq!(choice.program, "bash");
}

#[test]
fn compat_shell_path_is_fixed() {
    assert_eq!(compat_shell_path(), "C:\\Windows\\System32\\wsl.exe");
}

#[test]
fn second_start_is_idempotent() {
    let mut reg = SessionRegistry::new();
    let program = start_running(&mut reg);
    assert_eq!(program, "bash");
    // Immediate second start: no second launch directive, status says so.
    let step = reg.start_session(Platform::Posix, false);
    assert!(matches!(step, StartStep::AlreadyRunning));
    let step = reg.start_session(Platform::Posix, false);
    assert!(matches!(step, StartStep::AlreadyRunning));
    assert!(reg.is_running());
}

#[test]
fn restart_succeeds_after_session_ended() {
    let mut reg = SessionRegistry::new();
    start_running(&mut reg);
    let notice: EndNotice = reg.session_ended(Some(0));
    assert_eq!(notice.exit_status, Some(0));
    assert!(!reg.is_running());
    // No permanent lockout: the next start is granted a launch again.
    let step = reg.start_session(Platform::Posix, false);
    assert!(matches!(step, StartStep::Launch { .. }));
}

#[test]
fn spawn_failure_leaves_slot_empty() {
    let mut reg = SessionRegistry::new();
    let step = reg.start_session(Platform::Windows, false);
    let choice = match step {
        StartStep::Launch { choice } => choice,
        StartStep::AlreadyRunning => panic!("expected a launch directive"),
    };
    let r = reg.spawn_outcome(choice.program, Err("No such file or directory".to_string()));
    match r {
        Err(BridgeError::SpawnFailed { program, os_error }) => {
            assert_eq!(program, "cmd.exe");
            assert_eq!(os_error, "No such file or directory");
        }
        _ => panic!("expected a spawn failure"),
    }
    assert!(!reg.is_running());
    // The failed attempt does not block a retry.
    let step = reg.start_session(Platform::Posix, false);
    assert!(matches!(step, StartStep::Launch { .. }));
}

#[test]
fn write_without_session_is_rejected() {
    let reg = SessionRegistry::new();
    let r = reg.write_session(b"ls\n".to_vec());
    assert!(matches!(r, Err(BridgeError::NoActiveSession)));
}

#[test]
fn write_with_session_forwards_bytes_verbatim() {
    let mut reg = SessionRegistry::new();
    start_running(&mut reg);
    let r = reg.write_session(b"echo hi\n".to_vec());
    let directive = r.expect("write must be granted while running");
    assert_eq!(directive.bytes, b"echo hi\n".to_vec());
}

#[test]
fn write_after_exit_surfaces_write_failed() {
    // The subprocess already exited: the pipe write fails and the error is
    // surfaced to the caller, not swallowed.
    let r = write_outcome(Err("Broken pipe (os error 32)".to_string()));
    match r {
        Err(BridgeError::WriteFailed { os_error }) => {
            assert_eq!(os_error, "Broken pipe (os error 32)");
        }
        _ => panic!("expected WriteFailed"),
    }
    assert!(write_outcome(Ok(())).is_ok());
}

#[test]
fn prompt_chunk_arrives_before_session_end() {
    // The subprocess prints "$ " with no trailing newline and exits with 0:
    // the subscriber sees the prompt chunk, then exactly one end notice.
    let mut reg = SessionRegistry::new();
    start_running(&mut reg);
    let mut pump = Pump::new();
    let out = pump.step(ReadEvent::Data { bytes: b"$ ".to_vec() });
    let chunk: OutputChunk = out.expect("a data read forwards a chunk at once");
    assert!(chunk.text.contains("$ "));
    assert_eq!(chunk.text, "$ ");
    let out = pump.step(ReadEvent::Eof);
    assert!(out.is_none());
    let notice = reg.session_ended(Some(0));
    assert_eq!(notice.exit_status, Some(0));
}

#[test]
fn chunks_concatenate_to_channel_bytes() {
    let mut pump = Pump::new();
    let mut delivered = String::new();
    for part in [&b"first line\r\n"[..], &b"$ "[..], &b"partial"[..]] {
        let out = pump.step(ReadEvent::Data { bytes: part.to_vec() });
        delivered.push_str(&out.expect("data forwards a chunk").text);
    }
    assert_eq!(delivered, "first line\r\n$ partial");
}

#[test]
fn invalid_bytes_are_replaced_never_fatal() {
    let mut pump = Pump::new();
    let out = pump.step(ReadEvent::Data { bytes: vec![0xff, b'a'] });
    let chunk = out.expect("a data read forwards a chunk");
    assert_eq!(chunk.text, "\u{fffd}a");
}

#[test]
fn read_error_ends_pump_with_report() {
    let mut pump = Pump::new();
    let out = pump.step(ReadEvent::Failed { os_error: "Input/output error".to_string() });
    let chunk = out.expect("a read error is reported via a final chunk");
    assert_eq!(chunk.text, "read error: Input/output error");
}

#[test]
fn phases_are_observable() {
    let mut reg = SessionRegistry::new();
    assert!(!reg.is_running());
    let _ = reg.start_session(Platform::Posix, false);
    let _ = reg.spawn_outcome("bash".to_string(), Ok(()));
    assert!(reg.is_running());
}
