use shell::command_node::CommandNode;
use shell::commands::{BuiltIn, BuiltInKind, Command, CommandType, External};
use shell::parser::parse;
use shell::resolver::{choose_binary, lookup_in, resolve_command, resolve_raw_command, Candidate, ResolveError};

fn build_args(args: &[&str]) -> Vec<String> {
    args.iter().map(|&arg| String::from(arg)).collect()
}

/// Resolves `input` as when a search of the path finds nothing for it.
fn test_resolve(input: &str, expected: Result<CommandNode<Command>, ResolveError>) {
    let parsed_command = parse(input).unwrap();
    let out = resolve_command(parsed_command, None);

    assert_eq!(out, expected);
}

#[test]
fn unknown_command() {
    let input = "unknown_command foo bar";
    let expected = Err(ResolveError::UnknownCommand {
        command: "unknown_command".into(),
    });
    test_resolve(input, expected);
}

#[test]
fn resolve_exit() {
    let input = "exit";
    let expected = Ok(CommandNode::Single(Command::BuiltIn(BuiltIn::Exit)));
    test_resolve(input, expected);
}

#[test]
fn resolve_echo_with_args() {
    let input = "echo hello world!";
    let expected = Ok(CommandNode::Single(Command::BuiltIn(BuiltIn::Echo {
        args: build_args(&["hello", "world!"]),
    })));

    test_resolve(input, expected);
}

#[test]
fn resolve_type_with_args() {
    let input = "type foo bar";
    let expected = Ok(CommandNode::Single(Command::BuiltIn(BuiltIn::Type {
        args: build_args(&["foo", "bar"]),
    })));

    test_resolve(input, expected);
}

#[test]
fn lookup_builtin() {
    let all = [BuiltInKind::Exit, BuiltInKind::Echo, BuiltInKind::Type, BuiltInKind::Pwd];
    for built_in in all {
        assert_eq!(
            lookup_in(built_in.as_str(), None),
            Some(CommandType::BuiltIn(built_in))
        );
    }
}

#[test]
fn lookup_unknown() {
    assert_eq!(lookup_in("unknown_command_foo", None), None);
}

#[test]
fn builtin_names() {
    assert_eq!(BuiltInKind::Exit.as_str(), "exit");
    assert_eq!(BuiltInKind::Echo.as_str(), "echo");
    assert_eq!(BuiltInKind::Type.as_str(), "type");
    assert_eq!(BuiltInKind::Pwd.as_str(), "pwd");
    assert_eq!(BuiltInKind::from_name("pwd"), Some(BuiltInKind::Pwd));
    assert_eq!(BuiltInKind::from_name("PWD"), None);
    assert_eq!(BuiltInKind::from_name("exi"), None);
    assert_eq!(BuiltInKind::from_name(""), None);
}

#[test]
fn builtin_wins_over_path() {
    assert_eq!(
        lookup_in("echo", Some("/bin/echo".into())),
        Some(CommandType::BuiltIn(BuiltInKind::Echo))
    );
    let out = resolve_command(parse("echo hi").unwrap(), Some("/bin/echo".into()));
    assert_eq!(
        out,
        Ok(CommandNode::Single(Command::BuiltIn(BuiltIn::Echo {
            args: build_args(&["hi"]),
        })))
    );
}

#[test]
fn program_found_on_path() {
    assert_eq!(
        lookup_in("ls", Some("/bin/ls".into())),
        Some(CommandType::External { path: "/bin/ls".into() })
    );
    let out = resolve_command(parse("LS -l /tmp").unwrap(), Some("/bin/ls".into()));
    let expected = External::new("/bin/ls".into(), build_args(&["-l", "/tmp"]));
    assert_eq!(out, Ok(CommandNode::Single(Command::External(expected))));
    if let Ok(CommandNode::Single(Command::External(e))) = resolve_command(parse("ls a").unwrap(), Some("/usr/bin/ls".into())) {
        assert_eq!(e.path(), "/usr/bin/ls");
        assert_eq!(e.args(), &build_args(&["a"]));
    } else {
        panic!("expected a program");
    }
}

#[test]
fn builtins_drop_unused_arguments() {
    let out = resolve_raw_command(
        shell::parser::RawCommand { command: "exit".into(), args: build_args(&["0"]) },
        None,
    );
    assert_eq!(out, Ok(Command::BuiltIn(BuiltIn::Exit)));
    let out = resolve_raw_command(
        shell::parser::RawCommand { command: "pwd".into(), args: build_args(&["-L"]) },
        None,
    );
    assert_eq!(out, Ok(Command::BuiltIn(BuiltIn::Pwd)));
}

#[test]
fn unknown_command_message() {
    let e = ResolveError::UnknownCommand { command: "frob".into() };
    assert_eq!(e.message(), "frob: command not found");
}

fn candidate(path: &str, is_file: bool, executable: bool) -> Candidate {
    Candidate { path: path.into(), is_file, executable }
}

#[test]
fn chooses_binary_in_first_directory() {
    let cs = vec![candidate("/a/mycmd", true, true), candidate("/b/mycmd", false, false)];
    assert_eq!(choose_binary(cs), Some("/a/mycmd".to_string()));
}

#[test]
fn chooses_binary_in_last_directory() {
    let cs = vec![candidate("/a/mycmd", false, false), candidate("/b/mycmd", true, true)];
    assert_eq!(choose_binary(cs), Some("/b/mycmd".to_string()));
}

#[test]
fn chooses_nothing_when_binary_is_missing() {
    let cs = vec![candidate("/a/mycmd", false, false), candidate("/b/mycmd", false, false)];
    assert_eq!(choose_binary(cs), None);
    assert_eq!(choose_binary(Vec::new()), None);
}

#[test]
fn chooses_first_of_several_matches() {
    let cs = vec![candidate("/a/mycmd", true, true), candidate("/b/mycmd", true, true)];
    assert_eq!(choose_binary(cs), Some("/a/mycmd".to_string()));
}

#[test]
fn passes_over_non_executable_files_and_directories() {
    assert_eq!(choose_binary(vec![candidate("/a/mycmd", true, false)]), None);
    assert_eq!(choose_binary(vec![candidate("/a/mycmd", false, true)]), None);
    let cs = vec![
        candidate("/a/mycmd", true, false),
        candidate("/b/mycmd", false, true),
        candidate("/c/mycmd", true, true),
    ];
    assert_eq!(choose_binary(cs), Some("/c/mycmd".to_string()));
}
