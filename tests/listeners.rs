use ned::command::PreparedCommand;
use ned::dispatch::{dispatch_matches, Decision, PermitPool, COMMAND_TIMEOUT_SECS, MAX_CONCURRENT_TASKS};
use ned::dispatcher::Dispatcher;
use ned::event::{event_from_object, DecodeError};
use ned::listener::{parse_args, ArgError, Listener, Matcher};

fn strings(v: &[&str]) -> Vec<String> {
    v.iter().map(|s| s.to_string()).collect()
}

fn listeners(v: &[&str]) -> Vec<Listener> {
    match parse_args(&strings(v)) {
        Ok(ls) => ls,
        Err(_) => panic!("arguments should parse"),
    }
}

fn count(ds: &[Decision]) -> (usize, usize, usize) {
    let launched = ds.iter().filter(|d| matches!(d, Decision::Launch(_))).count();
    let dropped = ds.iter().filter(|d| matches!(d, Decision::Drop)).count();
    let skipped = ds.iter().filter(|d| matches!(d, Decision::Skip)).count();
    (launched, dropped, skipped)
}

#[test]
fn defaults() {
    assert_eq!(MAX_CONCURRENT_TASKS, 8);
    assert_eq!(COMMAND_TIMEOUT_SECS, 5);
}

#[test]
fn too_few_arguments_is_usage_error() {
    assert!(matches!(parse_args(&strings(&[])), Err(ArgError::Usage)));
    assert!(matches!(parse_args(&strings(&["a"])), Err(ArgError::Usage)));
}

#[test]
fn odd_arguments_are_rejected() {
    assert!(matches!(parse_args(&strings(&["a", "b", "c"])), Err(ArgError::OddArguments)));
}

#[test]
fn bad_pattern_is_rejected() {
    match parse_args(&strings(&["ok", "echo", "foo(", "echo"])) {
        Err(ArgError::RegexCompile { pattern, .. }) => assert_eq!(pattern, "foo("),
        _ => panic!("expected a pattern error"),
    }
}

#[test]
fn bad_command_is_rejected() {
    match parse_args(&strings(&["ok", "a, b c"])) {
        Err(ArgError::InvalidCommand(e)) => assert_eq!(e.command, "a, b c"),
        _ => panic!("expected a command error"),
    }
}

#[test]
fn first_bad_pair_decides_the_error() {
    match parse_args(&strings(&["x", ", y", "(", "echo"])) {
        Err(ArgError::InvalidCommand(e)) => assert_eq!(e.command, ", y"),
        _ => panic!("expected a command error"),
    }
}

#[test]
fn one_listener_per_pair_in_order() {
    let ls = listeners(&["a.*", "echo hi", "b", "cmd, x", "a.*", "true"]);
    assert_eq!(ls.len(), 3);
    assert!(ls[0].matches("abc"));
    assert!(!ls[0].matches("xyz"));
    assert!(ls[1].matches("b"));
    assert!(matches!(ls[0].command(), PreparedCommand::Shell { command } if command == "echo hi"));
    assert!(
        matches!(ls[1].command(), PreparedCommand::Exec { program, args } if program == "cmd" && args == &vec!["x".to_string()])
    );
    assert!(matches!(ls[2].command(), PreparedCommand::Exec { program, args } if program == "true" && args.is_empty()));
}

#[test]
fn matcher_compiles_or_fails() {
    assert!(Matcher::new("Focus").is_ok());
    assert!(Matcher::new("[unclosed").is_err());
}

#[test]
fn pattern_searches_anywhere_in_the_name() {
    let ls = listeners(&["Focus", "a", "^Focus", "b", "^Window.*Changed$", "c"]);
    assert!(ls[0].matches("WindowFocusChanged"));
    assert!(!ls[0].matches("WorkspaceActivated"));
    assert!(!ls[1].matches("WindowFocusChanged"));
    assert!(ls[2].matches("WindowFocusChanged"));
    assert!(!ls[2].matches("WindowFocusChangedTwice"));
}

#[test]
fn pattern_matches_only_its_listener() {
    let ls = listeners(&["window-focus.*", "notify-send hello", "workspace.*", "echo, test"]);
    assert!(matches!(ls[0].command(), PreparedCommand::Shell { command } if command == "notify-send hello"));
    let inv = ls[0].command().invocation();
    assert_eq!(inv.program, "sh");
    assert_eq!(inv.args, vec!["-c".to_string(), "notify-send hello".to_string()]);
    let mut d = Dispatcher::new(ls);
    let ds = d.on_event("window-focus-changed");
    assert!(matches!(ds[0], Decision::Launch(_)));
    assert!(matches!(ds[1], Decision::Skip));
    // The patterns are case sensitive: the compositor's own name matches neither.
    let ds = d.on_event("WindowFocusChanged");
    assert_eq!(count(&ds), (0, 0, 2));
}

#[test]
fn one_free_permit_for_three_matches() {
    let ls = listeners(&["Window", "a", "Focus", "b", "Changed", "c"]);
    let mut d = Dispatcher::with_capacity(ls, 1);
    let ds = d.on_event("WindowFocusChanged");
    assert!(matches!(ds[0], Decision::Launch(_)));
    assert!(matches!(ds[1], Decision::Drop));
    assert!(matches!(ds[2], Decision::Drop));
    assert_eq!(d.pool().in_use(), 1);
}

#[test]
fn full_pool_drops_without_waiting() {
    let ls = listeners(&[".*", "a", ".*", "b"]);
    let mut d = Dispatcher::with_capacity(ls, 2);
    let mut ds = d.on_event("E");
    assert_eq!(count(&ds), (2, 0, 0));
    let later = d.on_event("F");
    assert_eq!(count(&later), (0, 2, 0));
    assert_eq!(d.pool().in_use(), 2);
    // A finished task hands its permit back and the next event can launch.
    if let Decision::Launch(p) = ds.remove(0) {
        d.finish(p);
    }
    assert_eq!(d.pool().in_use(), 1);
    let after = d.on_event("G");
    assert!(matches!(after[0], Decision::Launch(_)));
    assert!(matches!(after[1], Decision::Drop));
}

#[test]
fn running_tasks_never_exceed_capacity() {
    let ls = listeners(&[".*", "a", "x", "b", ".*", "c"]);
    let mut d = Dispatcher::new(ls);
    let mut launched = 0;
    for _ in 0..10 {
        let ds = d.on_event("x");
        launched += count(&ds).0;
        assert!(d.pool().in_use() <= MAX_CONCURRENT_TASKS);
    }
    assert_eq!(launched, MAX_CONCURRENT_TASKS);
    assert_eq!(d.pool().available(), 0);
}

#[test]
fn pool_acquire_and_release() {
    let mut pool = PermitPool::new(1);
    assert_eq!(pool.capacity(), 1);
    let p = pool.try_acquire().unwrap();
    assert!(pool.try_acquire().is_none());
    pool.release(p);
    assert_eq!(pool.in_use(), 0);
    assert!(pool.try_acquire().is_some());
}

#[test]
fn event_needs_exactly_one_key() {
    let e = event_from_object(Some(strings(&["WindowFocusChanged"])), b"{}".to_vec()).ok().unwrap();
    assert_eq!(e.name, "WindowFocusChanged");
    assert_eq!(e.payload, b"{}".to_vec());
    assert!(matches!(event_from_object(None, vec![]), Err(DecodeError::NotAnObject)));
    assert!(matches!(
        event_from_object(Some(strings(&["A", "B"])), vec![]),
        Err(DecodeError::KeyCount(2))
    ));
    assert!(matches!(event_from_object(Some(vec![]), vec![]), Err(DecodeError::KeyCount(0))));
}

#[test]
fn last_free_permit_goes_to_first_match() {
    let mut pool = PermitPool::new(MAX_CONCURRENT_TASKS);
    let mut held = Vec::new();
    for _ in 0..MAX_CONCURRENT_TASKS - 1 {
        held.push(pool.try_acquire().unwrap());
    }
    assert_eq!(pool.available(), 1);
    let ds = dispatch_matches(&mut pool, &vec![false, true, true, false, true]);
    assert!(matches!(ds[0], Decision::Skip));
    assert!(matches!(ds[1], Decision::Launch(_)));
    assert!(matches!(ds[2], Decision::Drop));
    assert!(matches!(ds[3], Decision::Skip));
    assert!(matches!(ds[4], Decision::Drop));
    assert_eq!(count(&ds), (1, 2, 2));
    assert_eq!(pool.available(), 0);
}
