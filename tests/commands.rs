use line_reactor::command::{get_and_run_cmd, registered_commands, select_command, CommandKind, Echo, Ping};

#[test]
fn ping_claims_lines_in_any_case() {
    let p = Ping {};
    assert!(p.can_process("ping\n"));
    assert!(p.can_process("PING\n"));
    assert!(p.can_process("PiNg extra"));
    assert!(!p.can_process("pin"));
    assert!(!p.can_process(" ping"));
    assert!(!p.can_process(""));
}

#[test]
fn ping_answers_pong() {
    assert_eq!(Ping {}.run("ping\n"), "+PONG\t\n");
}

#[test]
fn echo_claims_lines_in_any_case() {
    let e = Echo {};
    assert!(e.can_process("echo\n"));
    assert!(e.can_process("EcHo hi\n"));
    assert!(!e.can_process("ech"));
    assert!(!e.can_process("ping"));
}

#[test]
fn echo_with_content() {
    assert_eq!(Echo {}.run("echo hello world\n"), "hello world\n");
}

#[test]
fn echo_empty() {
    assert_eq!(Echo {}.run("echo\n"), "\n");
}

#[test]
fn echo_trims_unicode_white_space() {
    assert_eq!(Echo {}.run("ECHO \u{3000}\t x y \u{a0}\r\n"), "x y\n");
}

#[test]
fn echo_stops_at_first_line_break() {
    assert_eq!(Echo {}.run("echo a\nb\n"), "a\n");
}

#[test]
fn echo_without_prefix_answers_nothing() {
    assert_eq!(Echo {}.run("ping\n"), "");
}

#[test]
fn registry_order() {
    assert_eq!(registered_commands(), vec![CommandKind::Ping, CommandKind::Echo]);
}

#[test]
fn select_first_claiming_command() {
    assert_eq!(select_command("ping\n"), Some(CommandKind::Ping));
    assert_eq!(select_command("Echo x\n"), Some(CommandKind::Echo));
    assert_eq!(select_command("foo\n"), None);
    assert_eq!(select_command(""), None);
}

#[test]
fn dispatch_runs_the_selected_command() {
    assert_eq!(get_and_run_cmd("PING\n"), Some("+PONG\t\n".to_string()));
    assert_eq!(get_and_run_cmd("echo  hi  \n"), Some("hi\n".to_string()));
    assert_eq!(get_and_run_cmd("foo\n"), None);
}

#[test]
fn answer_depends_on_line_only() {
    let a = CommandKind::Echo.run("echo same\n");
    let b = CommandKind::Echo.run("echo same\n");
    assert_eq!(a, b);
    assert_eq!(CommandKind::Ping.run("ping\n"), CommandKind::Ping.run("ping again\n"));
}

#[test]
fn echo_of_only_white_space_is_a_line_break() {
    assert_eq!(Echo {}.run("echo \t \u{2003} \n"), "\n");
    assert_eq!(Echo {}.run("echo"), "\n");
}
