use shell::command_node::CommandNode;
use shell::parser::{parse, ParseError, RawCommand};

fn build_args(args: &[&str]) -> Vec<String> {
    args.iter().map(|&arg| String::from(arg)).collect()
}

#[test]
fn command_with_args() {
    let input = "echo hello world!";
    let out = parse(input).unwrap();
    let expected = CommandNode::Single(RawCommand {
        command: "echo".into(),
        args: build_args(&["hello", "world!"]),
    });

    assert_eq!(out, expected);
}

#[test]
fn command_without_args() {
    let input = "ls";
    let out = parse(input).unwrap();
    let expected = CommandNode::Single(RawCommand {
        command: "ls".into(),
        args: Vec::new(),
    });

    assert_eq!(out, expected);
}

#[test]
fn normalize_command_name() {
    let input = "CommAnD with Args NotNormalized";
    let out = parse(input).unwrap();
    let expected = CommandNode::Single(RawCommand {
        command: "command".into(),
        args: build_args(&["with", "Args", "NotNormalized"]),
    });

    assert_eq!(out, expected);
}

#[test]
fn empty_command() {
    let input = "";
    let out = parse(input);

    assert_eq!(out, Err(ParseError::EmptyInput));
}

#[test]
fn blank_command_is_empty() {
    assert_eq!(parse(" \t\n\u{3000} "), Err(ParseError::EmptyInput));
}

#[test]
fn extra_white_space_is_ignored() {
    assert_eq!(parse("  echo \t a\u{a0}\u{a0}b  "), parse("echo a b"));
    let expected = CommandNode::Single(RawCommand {
        command: "echo".into(),
        args: build_args(&["a", "b"]),
    });
    assert_eq!(parse("\techo a\nb\r"), Ok(expected));
}

#[test]
fn arguments_keep_their_case() {
    let expected = CommandNode::Single(RawCommand {
        command: "type".into(),
        args: build_args(&["ECHO", "Exit"]),
    });
    assert_eq!(parse("TYPE ECHO Exit"), Ok(expected));
}

#[test]
fn command_name_lowercased_beyond_ascii() {
    let expected = CommandNode::Single(RawCommand {
        command: "ÉcHO".to_lowercase(),
        args: Vec::new(),
    });
    assert_eq!(parse("ÉcHO"), Ok(expected));
    assert_eq!("ÉcHO".to_lowercase(), "écho");
}

#[test]
fn parse_error_message() {
    assert_eq!(
        ParseError::EmptyInput.message(),
        "Failed to parse, input cannot be empty"
    );
}

#[test]
fn from_words_drops_the_first_word() {
    let raw = RawCommand::from_words("echo".into(), vec!["ECHO".into(), "x".into()]);
    assert_eq!(
        raw,
        RawCommand {
            command: "echo".into(),
            args: vec!["x".into()],
        }
    );
}

#[test]
fn ascii_case_of_command_name_is_ignored() {
    assert_eq!(parse("echo Hi"), parse("ECHO Hi"));
    assert_eq!(parse("eChO Hi"), parse("Echo Hi"));
    assert_ne!(parse("echo Hi"), parse("echo hi"));
}

#[test]
fn writing_out_and_parsing_again_gives_the_same_command() {
    for input in ["  ECHO   hello \t World!  ", "Type a b", "ls", "x\u{a0}y z"] {
        let parsed = parse(input).unwrap();
        let CommandNode::Single(raw) = &parsed;
        let written = std::iter::once(raw.command.as_str())
            .chain(raw.args.iter().map(|a| a.as_str()))
            .collect::<Vec<&str>>()
            .join(" ");
        assert_eq!(parse(&written), Ok(parsed), "for {:?}", input);
    }
}
