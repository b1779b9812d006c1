use ned::command::{prepare_command, stdin_bytes, PreparedCommand};

fn exec_parts(c: &PreparedCommand) -> Option<(String, Vec<String>)> {
    match c {
        PreparedCommand::Exec { program, args } => Some((program.clone(), args.clone())),
        PreparedCommand::Shell { .. } => None,
    }
}

fn shell_part(c: &PreparedCommand) -> Option<String> {
    match c {
        PreparedCommand::Shell { command } => Some(command.clone()),
        PreparedCommand::Exec { .. } => None,
    }
}

#[test]
fn comma_list_becomes_program_and_args() {
    let c = prepare_command("cmd, --flag, value").ok().unwrap();
    assert_eq!(
        exec_parts(&c),
        Some(("cmd".to_string(), vec!["--flag".to_string(), "value".to_string()]))
    );
}

#[test]
fn comma_list_pieces_are_trimmed() {
    let c = prepare_command("  notify-send ,\thello\n,  world  ").ok().unwrap();
    assert_eq!(
        exec_parts(&c),
        Some(("notify-send".to_string(), vec!["hello".to_string(), "world".to_string()]))
    );
}

#[test]
fn comma_list_keeps_empty_trailing_argument() {
    let c = prepare_command("echo,").ok().unwrap();
    assert_eq!(exec_parts(&c), Some(("echo".to_string(), vec!["".to_string()])));
}

#[test]
fn comma_list_with_space_in_argument_is_rejected() {
    let e = prepare_command("echo, hello world").err().unwrap();
    assert_eq!(e.command, "echo, hello world");
}

#[test]
fn comma_list_with_space_in_program_is_rejected() {
    assert!(prepare_command("my prog, x").is_err());
}

#[test]
fn comma_list_with_empty_program_is_rejected() {
    let e = prepare_command(" , x").err().unwrap();
    assert_eq!(e.command, " , x");
    assert!(prepare_command(",").is_err());
}

#[test]
fn bare_word_is_program_without_args() {
    let c = prepare_command("notify-send").ok().unwrap();
    assert_eq!(exec_parts(&c), Some(("notify-send".to_string(), vec![])));
}

#[test]
fn empty_string_is_bare_program() {
    let c = prepare_command("").ok().unwrap();
    assert_eq!(exec_parts(&c), Some(("".to_string(), vec![])));
}

#[test]
fn string_with_space_goes_to_shell() {
    let c = prepare_command("echo hi").ok().unwrap();
    assert_eq!(shell_part(&c), Some("echo hi".to_string()));
    let inv = c.invocation();
    assert_eq!(inv.program, "sh");
    assert_eq!(inv.args, vec!["-c".to_string(), "echo hi".to_string()]);
}

#[test]
fn shell_string_is_kept_verbatim() {
    let c = prepare_command("  cat | wc -l > /tmp/out  ").ok().unwrap();
    assert_eq!(shell_part(&c), Some("  cat | wc -l > /tmp/out  ".to_string()));
}

#[test]
fn exec_invocation_runs_program_directly() {
    let c = prepare_command("cmd, --flag, value").ok().unwrap();
    let inv = c.invocation();
    assert_eq!(inv.program, "cmd");
    assert_eq!(inv.args, vec!["--flag".to_string(), "value".to_string()]);
}

#[test]
fn stdin_gets_payload_and_newline() {
    let payload = b"{\"WindowFocusChanged\":{\"id\":3}}".to_vec();
    let mut expected = payload.clone();
    expected.push(b'\n');
    assert_eq!(stdin_bytes(&payload), expected);
    assert_eq!(stdin_bytes(&vec![]), vec![b'\n']);
}
