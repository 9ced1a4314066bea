use sysinfo::SystemExt;
use sysshell::facade::ProcRow;
use sysshell::session::{df_divisor_exec, find_report, kill_report_line, App, Effect, Key, Mode};

fn editing_app() -> App {
    let mut app = App::new();
    app.handle_key(Key::Char('e'));
    assert_eq!(app.mode, Mode::Editing);
    app
}

fn type_line(app: &mut App, line: &str) {
    for c in line.chars() {
        app.handle_key(Key::Char(c));
    }
}

#[test]
fn normal_mode_shortcuts() {
    let mut app = App::new();
    assert_eq!(app.mode, Mode::Normal);
    assert!(matches!(app.handle_key(Key::Char('x')), Effect::Continue));
    assert_eq!(app.mode, Mode::Normal);
    assert!(matches!(app.handle_key(Key::Char('E')), Effect::Continue));
    assert_eq!(app.mode, Mode::Editing);
    assert!(matches!(app.handle_key(Key::Esc), Effect::Continue));
    assert_eq!(app.mode, Mode::Normal);
    assert!(matches!(app.handle_key(Key::Char('q')), Effect::Quit));
}

#[test]
fn editing_appends_and_backspaces() {
    let mut app = editing_app();
    type_line(&mut app, "abc");
    app.handle_key(Key::Backspace);
    assert_eq!(app.input, "ab");
    app.handle_key(Key::Backspace);
    app.handle_key(Key::Backspace);
    app.handle_key(Key::Backspace);
    assert_eq!(app.input, "");
}

#[test]
fn empty_submit_is_a_quiet_no_op() {
    let mut app = editing_app();
    let eff = app.handle_key(Key::Enter);
    assert!(matches!(eff, Effect::Continue));
    assert!(app.output.is_empty());
    assert_eq!(app.messages, vec!["".to_string()]);
}

#[test]
fn unknown_command_reports_one_line() {
    let mut app = editing_app();
    type_line(&mut app, "frobnicate now");
    app.handle_key(Key::Enter);
    assert_eq!(app.output, vec!["command not found".to_string()]);
    assert_eq!(app.messages, vec!["frobnicate now".to_string()]);
    assert_eq!(app.input, "");
}

#[test]
fn help_scenario_sixteen_lines() {
    let mut app = editing_app();
    type_line(&mut app, "help");
    app.handle_key(Key::Enter);
    assert_eq!(app.output.len(), 16);
    assert_eq!(app.output[0], "find (pid) --> retrieves the info of process with (pid)");
    assert_eq!(app.output[6], "uname --> prints the kernel version");
    assert_eq!(app.output[15], "memory --> prints information pertaining to memory utilization");
    assert_eq!(app.messages, vec!["help".to_string()]);
}

#[test]
fn clear_empties_output() {
    let mut app = editing_app();
    type_line(&mut app, "help");
    app.handle_key(Key::Enter);
    assert!(!app.output.is_empty());
    type_line(&mut app, "clear");
    app.handle_key(Key::Enter);
    assert!(app.output.is_empty());
}

#[test]
fn uname_matches_the_system_reading() {
    let mut app = editing_app();
    type_line(&mut app, "uname");
    app.handle_key(Key::Enter);
    assert_eq!(app.output.len(), 1);
    match sysinfo::System::new().kernel_version() {
        Some(v) => assert_eq!(app.output[0], v),
        None => assert_eq!(app.output[0], "Error: system query failed"),
    }
}

#[test]
fn memory_lines_use_pretty_units() {
    let mut app = editing_app();
    type_line(&mut app, "memory");
    app.handle_key(Key::Enter);
    assert_eq!(app.output.len(), 3);
    let sys = sysinfo::System::new_all();
    let expected = format!(
        "Total Memory: {}",
        pretty_bytes::converter::convert(sys.total_memory() as f64)
    );
    assert_eq!(app.output[0], expected);
    assert!(app.output[1].starts_with("Used Memory: "));
    assert!(app.output[2].starts_with("Free Memory: "));
}

#[test]
fn ptable_enables_paging_and_desc_disables_it() {
    let mut app = editing_app();
    type_line(&mut app, "ptable");
    app.handle_key(Key::Enter);
    assert!(app.scroll_enabled);
    assert_eq!(app.output.len(), 1 + app.total_rows);
    assert!(app.history.is_empty());
    type_line(&mut app, "desc");
    app.handle_key(Key::Enter);
    assert!(!app.scroll_enabled);
    assert!(!app.output.is_empty());
}

#[test]
fn paging_moves_one_row_at_a_time() {
    let mut app = editing_app();
    let mut lines = vec!["H".to_string()];
    for i in 1..=50 {
        lines.push(format!("r{}", i));
    }
    let snapshot = lines.clone();
    app.show_table(lines);
    assert_eq!(app.total_rows, 50);
    app.handle_key(Key::Down);
    assert_eq!(app.output.len(), 50);
    assert_eq!(app.output[0], "H");
    assert_eq!(app.output[1], "r2");
    assert_eq!(app.history, vec!["r1".to_string()]);
    assert_eq!(app.output.len() - 1 + app.history.len(), app.total_rows);
    app.handle_key(Key::Up);
    assert_eq!(app.output, snapshot);
    assert!(app.history.is_empty());
}

#[test]
fn page_down_stops_at_the_cap() {
    let mut app = editing_app();
    let mut lines = vec!["H".to_string()];
    for i in 1..=46 {
        lines.push(format!("r{}", i));
    }
    app.show_table(lines);
    for _ in 0..10 {
        app.handle_key(Key::Down);
    }
    // cap: page-down runs only while len(history) <= total_rows - 45
    assert_eq!(app.history.len(), 2);
    assert_eq!(app.output.len() - 1 + app.history.len(), app.total_rows);
}

#[test]
fn page_down_never_runs_on_small_tables() {
    let mut app = editing_app();
    let lines = vec!["H".to_string(), "r1".to_string(), "r2".to_string()];
    app.show_table(lines.clone());
    app.handle_key(Key::Down);
    assert_eq!(app.output, lines);
    assert!(app.history.is_empty());
}

#[test]
fn kill_missing_pid_reports_an_error_line() {
    let mut app = editing_app();
    type_line(&mut app, "kill 1999999999");
    app.handle_key(Key::Enter);
    assert_eq!(app.output.len(), 1);
    assert!(app.output[0].starts_with("Error killing process: "));
}

#[test]
fn kill_unmatched_name_does_nothing() {
    let mut app = editing_app();
    type_line(&mut app, "kill no_such_process_name_zz");
    app.handle_key(Key::Enter);
    assert!(app.output.is_empty());
}

#[test]
fn kill_without_argument_is_a_silent_no_op() {
    let mut app = editing_app();
    type_line(&mut app, "kill");
    app.handle_key(Key::Enter);
    assert!(app.output.is_empty());
}

#[test]
fn find_missing_pid_reports_not_found() {
    let mut app = editing_app();
    type_line(&mut app, "find 1999999999");
    app.handle_key(Key::Enter);
    assert_eq!(app.output, vec!["Process not found with PID 1999999999".to_string()]);
}

#[test]
fn find_malformed_pid_reports_an_error() {
    let mut app = editing_app();
    type_line(&mut app, "find notanumber");
    app.handle_key(Key::Enter);
    assert_eq!(app.output, vec!["Error: not a valid pid".to_string()]);
}

#[test]
fn ignite_hands_back_a_spawn_effect() {
    let mut app = editing_app();
    type_line(&mut app, "ignite true");
    let eff = app.handle_key(Key::Enter);
    match eff {
        Effect::Spawn(prog) => assert_eq!(prog, "true"),
        _ => panic!("expected a spawn effect"),
    }
    assert!(app.output.is_empty());
}

#[test]
fn df_unit_selectors() {
    let t = |words: &[&str]| words.iter().map(|w| w.to_string()).collect::<Vec<String>>();
    assert_eq!(df_divisor_exec(&t(&["df", "-k"])), 1024);
    assert_eq!(df_divisor_exec(&t(&["df", "-m"])), 1048576);
    assert_eq!(df_divisor_exec(&t(&["df"])), 1);
    assert_eq!(df_divisor_exec(&t(&["df", "k"])), 1);
}

#[test]
fn messages_log_every_submission() {
    let mut app = editing_app();
    type_line(&mut app, "help");
    app.handle_key(Key::Enter);
    type_line(&mut app, "clear");
    app.handle_key(Key::Enter);
    assert_eq!(app.messages, vec!["help".to_string(), "clear".to_string()]);
}

#[test]
fn kill_report_line_for_each_outcome() {
    assert_eq!(kill_report_line(&Ok(())), "Process killed successfully.");
    assert_eq!(
        kill_report_line(&Err("No such process".to_string())),
        "Error killing process: No such process"
    );
}

#[test]
fn find_report_for_each_outcome() {
    assert_eq!(find_report(7, &None), vec!["Process not found with PID 7".to_string()]);
    let p = ProcRow {
        pid: 7,
        name: "sh".to_string(),
        cpu_pct: "0.5".to_string(),
        mem_pct: "1".to_string(),
        cmdline: Some("/bin/sh".to_string()),
    };
    let lines = find_report(7, &Some(p));
    assert_eq!(lines.len(), 3);
    assert_eq!(lines[0], "Process with PID 7 found!: sh");
    assert_eq!(lines[1], format!("{:<30} {:<30} {:<30} {:<30}", "PID", "%CPU", "%MEM", "COMMAND"));
    assert_eq!(lines[2], format!("{:<30} {:<30} {:<30} {:<30}", 7, 0.5, 1, "/bin/sh"));
}

#[test]
fn spawn_failure_appends_one_error_line() {
    let mut app = App::new();
    app.note_spawn_failure();
    assert_eq!(app.output, vec!["Error: could not start process".to_string()]);
}
