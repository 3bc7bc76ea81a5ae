use blitz::{background_message, cd_failed_message, spawn_failed_message, Action, Shell};

fn strings(v: &[&str]) -> Vec<String> {
    v.iter().map(|s| s.to_string()).collect()
}

fn printed(shell: &mut Shell, line: &str) -> Vec<String> {
    match shell.execute_command(line) {
        Action::Print(lines) => lines,
        other => panic!("expected output for {:?}, got {:?}", line, other),
    }
}

#[test]
fn add_prints_sum() {
    let mut shell = Shell::new();
    assert_eq!(printed(&mut shell, "add 3 4"), strings(&["Sum: 7"]));
}

#[test]
fn subtract_prints_difference() {
    let mut shell = Shell::new();
    assert_eq!(printed(&mut shell, "subtract 10 4"), strings(&["Difference: 6"]));
    assert_eq!(printed(&mut shell, "subtract 4 10"), strings(&["Difference: -6"]));
}

#[test]
fn add_with_one_argument_prints_usage() {
    let mut shell = Shell::new();
    assert_eq!(printed(&mut shell, "add 3"), strings(&["Usage: add <num1> <num2>"]));
    assert_eq!(printed(&mut shell, "subtract"), strings(&["Usage: subtract <num1> <num2>"]));
}

#[test]
fn add_with_words_prints_invalid_numbers() {
    let mut shell = Shell::new();
    assert_eq!(printed(&mut shell, "add x y"), strings(&["Invalid numbers"]));
    assert_eq!(printed(&mut shell, "subtract 1 2.5"), strings(&["Invalid numbers"]));
    assert_eq!(printed(&mut shell, "add 1 2147483648"), strings(&["Invalid numbers"]));
}

#[test]
fn add_extra_arguments_are_ignored() {
    let mut shell = Shell::new();
    assert_eq!(printed(&mut shell, "add 1 2 3"), strings(&["Sum: 3"]));
}

#[test]
fn add_at_the_limits_is_exact() {
    let mut shell = Shell::new();
    assert_eq!(printed(&mut shell, "add 2147483647 1"), strings(&["Sum: 2147483648"]));
    assert_eq!(
        printed(&mut shell, "subtract -2147483648 2147483647"),
        strings(&["Difference: -4294967295"])
    );
    assert_eq!(printed(&mut shell, "add +5 -7"), strings(&["Sum: -2"]));
}

#[test]
fn hello_prints_greeting() {
    let mut shell = Shell::new();
    assert_eq!(printed(&mut shell, "hello"), strings(&["Hello, welcome to my shell!"]));
    assert_eq!(printed(&mut shell, "hello there"), strings(&["Hello, welcome to my shell!"]));
}

#[test]
fn unknown_builtin_name_is_reported() {
    let shell = Shell::new();
    let r = shell.built_in_programs(&strings(&["frobnicate", "1"]));
    assert_eq!(r, "Unknown command: frobnicate");
}

#[test]
fn cd_without_argument_warns() {
    let mut shell = Shell::new();
    match shell.execute_command("cd") {
        Action::Warn(msg) => assert_eq!(msg, "cd: expected argument"),
        other => panic!("unexpected {:?}", other),
    }
    assert_eq!(shell.history_len(), 1);
}

#[test]
fn cd_with_path_asks_for_change() {
    let mut shell = Shell::new();
    match shell.execute_command("cd /nonexistent/path") {
        Action::ChangeDir(p) => assert_eq!(p, "/nonexistent/path"),
        other => panic!("unexpected {:?}", other),
    }
    assert_eq!(
        cd_failed_message("No such file or directory (os error 2)"),
        "cd failed: No such file or directory (os error 2)"
    );
}

#[test]
fn trailing_ampersand_runs_in_background() {
    let mut shell = Shell::new();
    match shell.execute_command("ls &") {
        Action::Run { program, args, background } => {
            assert_eq!(program, "ls");
            assert!(args.is_empty());
            assert!(background);
        }
        other => panic!("unexpected {:?}", other),
    }
    match shell.execute_command("ls -l /tmp") {
        Action::Run { program, args, background } => {
            assert_eq!(program, "ls");
            assert_eq!(args, strings(&["-l", "/tmp"]));
            assert!(!background);
        }
        other => panic!("unexpected {:?}", other),
    }
    assert_eq!(
        shell.history_listing(),
        strings(&["[1] ls &", "[2] ls -l /tmp"])
    );
}

#[test]
fn background_and_spawn_messages() {
    assert_eq!(background_message(4321), "Process running in background with PID: 4321");
    assert_eq!(background_message(0), "Process running in background with PID: 0");
    assert_eq!(
        spawn_failed_message("No such file or directory (os error 2)"),
        "Execution failed: No such file or directory (os error 2)"
    );
}

#[test]
fn quit_says_farewell() {
    let mut shell = Shell::new();
    match shell.execute_command("quit") {
        Action::Quit(msg) => assert_eq!(msg, "Thank you for using the shell...\nBye \u{1F609}"),
        other => panic!("unexpected {:?}", other),
    }
}

#[test]
fn blank_line_does_nothing() {
    let mut shell = Shell::new();
    assert!(matches!(shell.execute_command(""), Action::Nothing));
    assert!(matches!(shell.execute_command("   \t  "), Action::Nothing));
    assert_eq!(shell.history_len(), 0);
    assert!(shell.history_listing().is_empty());
}

#[test]
fn lone_ampersand_is_recorded_and_does_nothing() {
    let mut shell = Shell::new();
    assert!(matches!(shell.execute_command("  & "), Action::Nothing));
    assert_eq!(shell.history_listing(), strings(&["[1] &"]));
}

#[test]
fn history_records_trimmed_lines() {
    let mut shell = Shell::new();
    shell.execute_command("   hello   ");
    shell.execute_command("\tadd 1   2 ");
    assert_eq!(
        printed(&mut shell, "history"),
        strings(&["[1] hello", "[2] add 1   2", "[3] history"])
    );
}

#[test]
fn history_keeps_last_ten() {
    let mut shell = Shell::new();
    for i in 1..=12 {
        shell.add_to_history(&format!("cmd{}", i));
    }
    assert_eq!(shell.history_len(), 10);
    let expected: Vec<String> = (3..=12).enumerate().map(|(k, i)| format!("[{}] cmd{}", k + 1, i)).collect();
    assert_eq!(shell.history_listing(), expected);
}

#[test]
fn history_command_counts_itself() {
    let mut shell = Shell::new();
    for i in 0..10 {
        shell.execute_command(&format!("hello {}", i));
    }
    let lines = printed(&mut shell, "history");
    assert_eq!(lines.len(), 10);
    assert_eq!(lines[0], "[1] hello 1");
    assert_eq!(lines[9], "[10] history");
}
