use shell::builtins::{echo, exit, get_builtin, print_type, Builtin};
use shell::command::{
    Action, Command, CommandResult, CommandResultValue, CommandType, ProcessOutput,
};
use shell::path::{command_is_in_directory, file_stem_of, search_path, DirEntry};
use shell::shell::Shell;
use shell::text::{join_with_space, split_spaces, trimmed};

fn entry(file_name: &str, path: &str, is_file: bool, is_executable: bool) -> DirEntry {
    DirEntry {
        file_name: file_name.to_string(),
        path: path.to_string(),
        is_file,
        is_executable,
    }
}

fn strings(v: &[&str]) -> Vec<String> {
    v.iter().map(|s| s.to_string()).collect()
}

fn text_of(r: &CommandResult) -> Option<String> {
    match r {
        Ok(Some(CommandResultValue::Output(t))) => Some(t.clone()),
        _ => None,
    }
}

fn reason_of(r: &CommandResult) -> Option<String> {
    match r {
        Err(e) => Some(e.reason.clone()),
        _ => None,
    }
}

fn finished(a: Action) -> CommandResult {
    match a {
        Action::Finished(r) => r,
        Action::Spawn { .. } => panic!("expected a finished outcome"),
    }
}

#[test]
fn tokenize_keeps_empty_tokens_from_runs_of_spaces() {
    let c = Command::from_string(&"  echo   hello world  ".to_string()).unwrap();
    assert_eq!(c.name, "echo");
    assert_eq!(c.args, strings(&["", "", "hello", "world"]));
}

#[test]
fn tokenize_rejoin_differs_from_irregular_input() {
    let line = "  echo   hello world  ";
    let c = Command::from_string(&line.to_string()).unwrap();
    let mut all = vec![c.name.clone()];
    all.extend(c.args.clone());
    assert_ne!(join_with_space(&all), line);
    assert_eq!(join_with_space(&all), "echo   hello world");
}

#[test]
fn tokenize_single_spaced_round_trips() {
    let line = "echo a b c";
    let c = Command::from_string(&line.to_string()).unwrap();
    let mut all = vec![c.name.clone()];
    all.extend(c.args.clone());
    assert_eq!(join_with_space(&all), line);
}

#[test]
fn tokenize_empty_and_blank_lines_give_no_command() {
    assert!(Command::from_string(&"".to_string()).is_none());
    assert!(Command::from_string(&"   \t \n".to_string()).is_none());
}

#[test]
fn tokenize_trims_each_token_and_the_newline() {
    let c = Command::from_string(&"type \tls\n".to_string()).unwrap();
    assert_eq!(c.name, "type");
    assert_eq!(c.args, strings(&["ls"]));
    let c = Command::from_string(&"exit".to_string()).unwrap();
    assert_eq!(c.name, "exit");
    assert!(c.args.is_empty());
}

#[test]
fn split_and_trim_helpers() {
    assert_eq!(split_spaces("a  b"), strings(&["a", "", "b"]));
    assert_eq!(split_spaces(""), strings(&[""]));
    assert_eq!(trimmed("\u{3000} x y \t"), "x y");
    assert_eq!(trimmed(" \t "), "");
}

#[test]
fn builtin_names_are_recognised() {
    assert_eq!(get_builtin("exit"), Some(Builtin::Exit));
    assert_eq!(get_builtin("echo"), Some(Builtin::Echo));
    assert_eq!(get_builtin("type"), Some(Builtin::Type));
    assert_eq!(get_builtin("Exit"), None);
    assert_eq!(get_builtin("ls"), None);
}

#[test]
fn builtins_classify_as_builtin_even_when_shadowed_on_path() {
    let dirs = vec![vec![
        entry("exit", "/bin/exit", true, true),
        entry("echo", "/bin/echo", true, true),
        entry("type", "/bin/type", true, true),
    ]];
    for (name, b) in [("exit", Builtin::Exit), ("echo", Builtin::Echo), ("type", Builtin::Type)] {
        match CommandType::from_name(&name.to_string(), &dirs) {
            CommandType::Builtin(got) => assert_eq!(got, b),
            other => panic!("{} classified as {:?}", name, other),
        }
    }
}

#[test]
fn classify_external_and_unknown() {
    let dirs = vec![vec![entry("ls", "/bin/ls", true, true)]];
    match CommandType::from_name(&"ls".to_string(), &dirs) {
        CommandType::InPath(n, p) => {
            assert_eq!(n, "ls");
            assert_eq!(p, "/bin/ls");
        }
        other => panic!("unexpected {:?}", other),
    }
    match CommandType::from_name(&"nope".to_string(), &dirs) {
        CommandType::Invalid(n) => assert_eq!(n, "nope"),
        other => panic!("unexpected {:?}", other),
    }
}

#[test]
fn earlier_directory_wins() {
    let dirs = vec![
        vec![entry("other", "/a/other", true, true)],
        vec![entry("tool", "/b/tool", true, true)],
        vec![entry("tool", "/c/tool", true, true)],
    ];
    assert_eq!(search_path("tool", &dirs), Some("/b/tool".to_string()));
}

#[test]
fn resolution_skips_non_files_and_non_executables() {
    let dirs = vec![
        vec![entry("tool", "/a/tool", false, true), entry("tool", "/a2/tool", true, false)],
        vec![],
        vec![entry("tool.sh", "/c/tool.sh", true, true)],
    ];
    assert_eq!(search_path("tool", &dirs), Some("/c/tool.sh".to_string()));
    assert_eq!(search_path("tool.sh", &dirs), Some("/c/tool.sh".to_string()));
    assert_eq!(search_path("Tool", &dirs), None);
    assert_eq!(search_path("tool", &vec![]), None);
}

#[test]
fn entry_matching_by_name_or_stem() {
    assert!(command_is_in_directory("git", &entry("git", "/x/git", true, true)));
    assert!(command_is_in_directory("py", &entry("py.exe", "/x/py.exe", true, true)));
    assert!(!command_is_in_directory("py", &entry("py.exe", "/x/py.exe", true, false)));
    assert!(!command_is_in_directory("py", &entry("py.exe", "/x/py.exe", false, true)));
    assert!(!command_is_in_directory("bashrc", &entry(".bashrc", "/x/.bashrc", true, true)));
}

#[test]
fn file_stem_rules() {
    assert_eq!(file_stem_of("foo.tar.gz"), "foo.tar");
    assert_eq!(file_stem_of("foo"), "foo");
    assert_eq!(file_stem_of(".bashrc"), ".bashrc");
    assert_eq!(file_stem_of("foo."), "foo");
    assert_eq!(file_stem_of(".."), "..");
    assert_eq!(file_stem_of(""), "");
}

#[test]
fn echo_joins_arguments() {
    assert_eq!(text_of(&echo(&vec![])), Some(String::new()));
    assert_eq!(text_of(&echo(&strings(&["a", "b", "c"]))), Some("a b c".to_string()));
    assert_eq!(text_of(&echo(&strings(&["", "", "x"]))), Some("  x".to_string()));
}

#[test]
fn type_of_unknown_name_fails() {
    let r = print_type(&strings(&["nonexistent_cmd_xyz"]), &vec![]);
    assert_eq!(reason_of(&r), Some("nonexistent_cmd_xyz: not found".to_string()));
}

#[test]
fn type_of_builtin() {
    let dirs = vec![vec![entry("exit", "/bin/exit", true, true)]];
    let r = print_type(&strings(&["exit"]), &dirs);
    assert_eq!(text_of(&r), Some("exit is a shell builtin".to_string()));
}

#[test]
fn type_of_external_and_missing_argument() {
    let dirs = vec![vec![entry("ls", "/usr/bin/ls", true, true)]];
    let r = print_type(&strings(&["ls", "extra"]), &dirs);
    assert_eq!(text_of(&r), Some("ls is /usr/bin/ls".to_string()));
    let r = print_type(&vec![], &dirs);
    assert_eq!(reason_of(&r), Some("type: missing argument".to_string()));
}

#[test]
fn unknown_command_is_not_spawned() {
    let c = Command::from_string(&"foobarbaz".to_string()).unwrap();
    let r = finished(c.run(&vec![vec![entry("other", "/bin/other", true, true)]]));
    assert_eq!(reason_of(&r), Some("foobarbaz: command not found".to_string()));
}

#[test]
fn exit_always_terminates() {
    assert!(matches!(exit(), Ok(Some(CommandResultValue::Exit))));
    for line in ["exit", "exit 1", "exit a b c", "  exit   "] {
        let c = Command::from_string(&line.to_string()).unwrap();
        let r = finished(c.run(&vec![]));
        assert!(matches!(r, Ok(Some(CommandResultValue::Exit))));
    }
}

#[test]
fn run_dispatches_echo_and_type() {
    let c = Command::from_string(&"echo hi there".to_string()).unwrap();
    assert_eq!(text_of(&finished(c.run(&vec![]))), Some("hi there".to_string()));
    let c = Command::from_string(&"type echo".to_string()).unwrap();
    assert_eq!(
        text_of(&finished(c.run(&vec![]))),
        Some("echo is a shell builtin".to_string())
    );
}

#[test]
fn resolved_command_is_spawned_with_typed_name() {
    let dirs = vec![vec![entry("prog.sh", "/opt/prog.sh", true, true)]];
    let c = Command::from_string(&"prog a  b".to_string()).unwrap();
    match c.run(&dirs) {
        Action::Spawn { name, path, args } => {
            assert_eq!(name, "prog");
            assert_eq!(path, "/opt/prog.sh");
            assert_eq!(args, strings(&["a", "", "b"]));
        }
        Action::Finished(_) => panic!("expected a spawn"),
    }
}

#[test]
fn external_output_keeps_streams_apart() {
    let out = ProcessOutput {
        stdout: b"to stdout\n".to_vec(),
        stderr: b"to stderr\n".to_vec(),
        status: Some(0),
    };
    match Command::run_external_command("prog", Ok(out)) {
        Ok(Some(CommandResultValue::InPathOutput(o))) => {
            assert_eq!(o.stdout, b"to stdout\n".to_vec());
            assert_eq!(o.stderr, b"to stderr\n".to_vec());
            assert_eq!(o.status, Some(0));
        }
        _ => panic!("expected process output"),
    }
}

#[test]
fn spawn_failure_carries_reason() {
    let r = Command::run_external_command("prog", Err("No such file or directory".to_string()));
    assert_eq!(reason_of(&r), Some("prog failed. No such file or directory".to_string()));
}

#[test]
fn shell_prompt_print_and_exit() {
    let sh = Shell::new();
    assert_eq!(sh.prompt_sign, "$");
    assert_eq!(sh.prompt(), "$ ");
    assert!(sh.read(&"\n".to_string()).is_none());
    assert_eq!(sh.read(&"echo x\n".to_string()).unwrap().name, "echo");
    let text: CommandResult = Ok(Some(CommandResultValue::Output("hi".to_string())));
    assert_eq!(sh.print(&text), Some("hi".to_string()));
    assert!(!sh.should_exit(&text));
    let done: CommandResult = Ok(Some(CommandResultValue::Exit));
    assert_eq!(sh.print(&done), None);
    assert!(sh.should_exit(&done));
    let nothing: CommandResult = Ok(None);
    assert_eq!(sh.print(&nothing), None);
    let err = print_type(&vec![], &vec![]);
    assert_eq!(sh.print(&err), Some("type: missing argument".to_string()));
}
