use shell::command_node::CommandNode;
use shell::commands::{BuiltIn, Command, CommandType};
use shell::executor::{Answer, Execution, ExecutionError, ExecutionResult, Need};
use shell::parser::parse;
use shell::resolver::{lookup_in, resolve_command};

/// Answers a builtin's need as in an environment whose search path holds
/// none of the names looked up, and whose current directory is `/home`.
fn answer(need: Need) -> Answer {
    match need {
        Need::Nothing => Answer::Nothing,
        Need::Lookups(names) => Answer::Lookups(names.iter().map(|n| lookup_in(n, None)).collect()),
        Need::CurrentDir => Answer::CurrentDir(Ok("/home".into())),
        Need::Spawn { .. } => panic!("no program is run here"),
    }
}

fn build_command(input: &str) -> CommandNode<Command> {
    resolve_command(parse(input).unwrap(), None).unwrap()
}

fn execute(command: CommandNode<Command>) -> (String, String, Result<ExecutionResult, ExecutionError>) {
    match command {
        CommandNode::Single(Command::BuiltIn(b)) => {
            let Execution { out, err, result } = b.run(answer(b.need()));
            (out, err, Ok(result))
        }
        CommandNode::Single(Command::External(_)) => panic!("no program is run here"),
    }
}

fn test_execute(
    input: &str,
    expected_out: Option<&str>,
    expected_err: Option<&str>,
    expected_result: Result<ExecutionResult, ExecutionError>,
) {
    let command = build_command(input);
    let (out_buf, err_buf, result) = execute(command);

    assert_eq!(result, expected_result);

    if let Some(out) = expected_out {
        assert_eq!(out_buf, out);
    }

    if let Some(err) = expected_err {
        assert_eq!(err_buf, err);
    }
}

#[test]
fn exec_echo_with_args() {
    test_execute(
        "echo hello world!",
        Some("hello world!\n"),
        None,
        Ok(ExecutionResult::Continue),
    );
}

#[test]
fn exec_echo_without_args() {
    test_execute("echo", Some("\n"), None, Ok(ExecutionResult::Continue));
}

#[test]
fn exec_exit() {
    test_execute("exit", None, None, Ok(ExecutionResult::Exit));
}

#[test]
fn exec_type() {
    let expected_out = "echo is a shell builtin\nexit is a shell builtin\ntype is a shell builtin\nfoo not found\n";

    test_execute(
        "type echo exit type foo",
        Some(expected_out),
        None,
        Ok(ExecutionResult::Continue),
    );
}

#[test]
fn exec_type_without_args() {
    test_execute("type", Some(""), Some("type: too few arguments\n"), Ok(ExecutionResult::Continue));
    assert_eq!(BuiltIn::Type { args: Vec::new() }.need(), Need::Nothing);
}

#[test]
fn exec_type_reports_program_path() {
    let b = BuiltIn::Type { args: vec!["ls".into(), "pwd".into()] };
    assert_eq!(b.need(), Need::Lookups(vec!["ls".into(), "pwd".into()]));
    let found = vec![
        Some(CommandType::External { path: "/bin/ls".into() }),
        lookup_in("pwd", Some("/bin/pwd".into())),
    ];
    let run = b.run(Answer::Lookups(found));
    assert_eq!(run.out, "ls is /bin/ls\npwd is a shell builtin\n");
    assert_eq!(run.err, "");
    assert_eq!(run.result, ExecutionResult::Continue);
}

#[test]
fn exec_echo_keeps_arguments_as_written() {
    test_execute("ECHO  A   b", Some("A b\n"), Some(""), Ok(ExecutionResult::Continue));
}

#[test]
fn exec_pwd() {
    test_execute("pwd", Some("/home\n"), Some(""), Ok(ExecutionResult::Continue));
    assert_eq!(BuiltIn::Pwd.need(), Need::CurrentDir);
    let run = BuiltIn::Pwd.run(Answer::CurrentDir(Err("No such file or directory".into())));
    assert_eq!(run.out, "");
    assert_eq!(run.err, "No such file or directory\n");
    assert_eq!(run.result, ExecutionResult::Continue);
}

#[test]
fn only_exit_stops_the_shell() {
    for input in ["echo", "echo x", "type x", "type", "pwd"] {
        let (_, _, result) = execute(build_command(input));
        assert_eq!(result, Ok(ExecutionResult::Continue), "for {:?}", input);
    }
    let (out, err, result) = execute(build_command("exit 3"));
    assert_eq!((out.as_str(), err.as_str(), result), ("", "", Ok(ExecutionResult::Exit)));
}

#[test]
fn execution_error_message() {
    let e = ExecutionError { error: "permission denied".into() };
    assert_eq!(e.message(), "permission denied");
}
