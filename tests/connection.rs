use line_reactor::client::{AsyncClientHandler, ClientStates, PollAction, WriteOutcome};
use line_reactor::command::CommandKind;

fn waiting_handler() -> AsyncClientHandler {
    let mut h = AsyncClientHandler::new(7, "127.0.0.1:5000".to_string());
    match h.poll() {
        PollAction::Apply(s) => assert!(s.register && !s.schedule),
        other => panic!("unexpected {:?}", other),
    }
    assert!(matches!(h.state(), Some(ClientStates::Waiting)));
    h
}

/// Drives one request through the machine and returns the bytes written.
fn round_trip(h: &mut AsyncClientHandler, line: &str) -> Vec<u8> {
    assert!(h.handle_event(true, true, false));
    assert!(matches!(h.poll(), PollAction::ReadLine));
    let step = h.read_command(Some(line));
    if let Some(kind) = step.spawn {
        assert!(!step.schedule);
        assert!(h.has_worker());
        assert!(h.deliver_output(kind.run(line).into_bytes()));
    } else {
        assert!(step.schedule);
    }
    let out = match h.poll() {
        PollAction::Write(p) => p,
        other => panic!("unexpected {:?}", other),
    };
    let step = h.write_command(WriteOutcome::Written(out.len()));
    assert!(!step.schedule);
    assert!(matches!(h.state(), Some(ClientStates::Waiting)));
    assert!(!h.has_worker());
    out
}

#[test]
fn new_connection_starts_without_state() {
    let h = AsyncClientHandler::new(9, "peer".to_string());
    assert!(h.state().is_none());
    assert_eq!(h.id(), 9);
    assert_eq!(h.name(), "peer");
    assert!(!h.is_writeable());
}

#[test]
fn ping_happy_path() {
    let mut h = waiting_handler();
    assert_eq!(round_trip(&mut h, "ping\n"), b"+PONG\t\n".to_vec());
    assert!(matches!(h.state(), Some(ClientStates::Waiting)));
}

#[test]
fn echo_with_content_on_connection() {
    let mut h = waiting_handler();
    assert_eq!(round_trip(&mut h, "echo hello world\n"), b"hello world\n".to_vec());
}

#[test]
fn echo_empty_on_connection() {
    let mut h = waiting_handler();
    assert_eq!(round_trip(&mut h, "echo\n"), b"\n".to_vec());
}

#[test]
fn invalid_command_keeps_connection_open() {
    let mut h = waiting_handler();
    assert_eq!(round_trip(&mut h, "foo\n"), b"invalid command".to_vec());
    assert!(matches!(h.state(), Some(ClientStates::Waiting)));
}

#[test]
fn two_sequential_pings() {
    let mut h = waiting_handler();
    assert_eq!(round_trip(&mut h, "ping\n"), b"+PONG\t\n".to_vec());
    assert_eq!(round_trip(&mut h, "PING\n"), b"+PONG\t\n".to_vec());
}

#[test]
fn peer_disconnect_during_read() {
    let mut h = waiting_handler();
    assert!(h.handle_event(true, false, false));
    assert!(matches!(h.poll(), PollAction::ReadLine));
    let step = h.read_command(Some("ping"));
    assert!(step.schedule && step.spawn.is_none());
    assert!(matches!(h.state(), Some(ClientStates::ToBeClosed)));
    match h.poll() {
        PollAction::Apply(s) => assert!(s.schedule && !s.retire),
        other => panic!("unexpected {:?}", other),
    }
    assert!(matches!(h.state(), Some(ClientStates::Close)));
    match h.poll() {
        PollAction::Apply(s) => assert!(s.retire && !s.schedule),
        other => panic!("unexpected {:?}", other),
    }
    assert!(matches!(h.state(), Some(ClientStates::Closed)));
}

#[test]
fn read_error_closes() {
    let mut h = waiting_handler();
    h.handle_event(true, false, false);
    let step = h.read_command(None);
    assert!(step.schedule && !step.join_worker);
    assert!(matches!(h.state(), Some(ClientStates::ToBeClosed)));
}

#[test]
fn empty_payload_write_returns_to_waiting() {
    let mut h = waiting_handler();
    h.handle_event(true, false, false);
    h.read_command(Some("echo\n"));
    assert!(h.deliver_output(Vec::new()));
    match h.poll() {
        PollAction::Write(p) => assert!(p.is_empty()),
        other => panic!("unexpected {:?}", other),
    }
    let step = h.write_command(WriteOutcome::Written(0));
    assert!(!step.schedule && step.join_worker);
    assert!(matches!(h.state(), Some(ClientStates::Waiting)));
}

#[test]
fn short_write_keeps_only_the_rest() {
    let mut h = waiting_handler();
    h.handle_event(true, false, false);
    h.read_command(Some("ping\n"));
    h.deliver_output(b"+PONG\t\n".to_vec());
    assert!(matches!(h.poll(), PollAction::Write(_)));
    let step = h.write_command(WriteOutcome::Written(3));
    assert!(step.schedule && !step.join_worker);
    let mut sent = b"+PONG\t\n"[..3].to_vec();
    match h.poll() {
        PollAction::Write(p) => {
            assert_eq!(p, b"NG\t\n".to_vec());
            sent.extend_from_slice(&p);
        }
        other => panic!("unexpected {:?}", other),
    }
    let step = h.write_command(WriteOutcome::Written(4));
    assert!(!step.schedule && step.join_worker);
    assert_eq!(sent, b"+PONG\t\n".to_vec());
    assert!(matches!(h.state(), Some(ClientStates::Waiting)));
}

#[test]
fn transient_write_errors_retry_same_payload() {
    let mut h = waiting_handler();
    h.handle_event(true, false, false);
    h.read_command(Some("foo\n"));
    for outcome in [WriteOutcome::WouldBlock, WriteOutcome::Interrupted] {
        let step = h.write_command(outcome);
        assert!(step.schedule);
        match h.state() {
            Some(ClientStates::WriteOutput(p)) => assert_eq!(p, &b"invalid command".to_vec()),
            other => panic!("unexpected {:?}", other),
        }
    }
}

#[test]
fn write_failure_closes() {
    let mut h = waiting_handler();
    h.handle_event(true, false, false);
    h.read_command(Some("ping\n"));
    h.deliver_output(b"+PONG\t\n".to_vec());
    let step = h.write_command(WriteOutcome::Failed);
    assert!(step.schedule);
    assert!(matches!(h.state(), Some(ClientStates::ToBeClosed)));
    match h.poll() {
        PollAction::Apply(s) => assert!(s.join_worker && s.schedule),
        other => panic!("unexpected {:?}", other),
    }
    assert!(!h.has_worker());
}

#[test]
fn events_do_not_disturb_pending_states() {
    let mut h = waiting_handler();
    h.handle_event(true, false, false);
    let step = h.read_command(Some("ping\n"));
    assert_eq!(step.spawn, Some(CommandKind::Ping));
    assert!(!h.handle_event(true, true, false));
    assert!(matches!(h.state(), Some(ClientStates::RunningCommand)));
    assert!(h.is_writeable());
    match h.poll() {
        PollAction::Apply(s) => assert!(!s.schedule && !s.join_worker && !s.retire),
        other => panic!("unexpected {:?}", other),
    }
    assert!(matches!(h.state(), Some(ClientStates::RunningCommand)));
    h.deliver_output(b"+PONG\t\n".to_vec());
    assert!(!h.handle_event(true, false, true));
    assert!(!h.is_writeable());
    match h.state() {
        Some(ClientStates::WriteOutput(p)) => assert_eq!(p, &b"+PONG\t\n".to_vec()),
        other => panic!("unexpected {:?}", other),
    }
}

#[test]
fn delivery_outside_running_command_is_ignored() {
    let mut h = waiting_handler();
    assert!(!h.deliver_output(b"x".to_vec()));
    assert!(matches!(h.state(), Some(ClientStates::Waiting)));
}

#[test]
fn writable_event_while_waiting_sets_flag_only() {
    let mut h = waiting_handler();
    assert!(!h.handle_event(false, true, false));
    assert!(h.is_writeable());
    assert!(matches!(h.state(), Some(ClientStates::Waiting)));
}
