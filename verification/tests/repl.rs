use shell::commands::CommandType;
use shell::executor::{Answer, Execution, ExecutionResult, Need};
use shell::repl::{LineStep, Session};
use shell::resolver::lookup_in;

/// Answers a need as in an environment whose search path holds nothing and
/// whose programs all run.
fn answer(need: Need) -> Answer {
    match need {
        Need::Nothing => Answer::Nothing,
        Need::Lookups(names) => Answer::Lookups(names.iter().map(|n| lookup_in(n, None)).collect()),
        Need::CurrentDir => Answer::CurrentDir(Ok("/home".into())),
        Need::Spawn { .. } => Answer::Spawned(Ok(())),
    }
}

#[test]
fn blank_line_is_skipped() {
    let mut s = Session::new();
    assert_eq!(s.read_line("   ", None), LineStep::Skip);
    assert_eq!(s.read_line("", Some("/bin/x".into())), LineStep::Skip);
    assert!(!s.is_stopped());
}

#[test]
fn unknown_command_is_reported() {
    let mut s = Session::new();
    assert_eq!(s.read_line("frob a b", None), LineStep::Report("frob: command not found".into()));
    assert_eq!(s.read_line("FROB", None), LineStep::Report("frob: command not found".into()));
    assert!(!s.is_stopped());
}

#[test]
fn builtin_runs_in_session() {
    let mut s = Session::new();
    assert_eq!(s.read_line("echo hi there", None), LineStep::Ready);
    assert_eq!(s.need(), Need::Nothing);
    let run = s.run(answer(s.need()));
    assert_eq!(
        run,
        Ok(Execution { out: "hi there\n".into(), err: "".into(), result: ExecutionResult::Continue })
    );
    assert!(!s.is_stopped());
}

#[test]
fn program_runs_in_session() {
    let mut s = Session::new();
    assert_eq!(s.read_line("ls -a", Some("/bin/ls".into())), LineStep::Ready);
    assert_eq!(
        s.need(),
        Need::Spawn { path: "/bin/ls".into(), args: vec!["-a".into()] }
    );
    assert_eq!(s.run(Answer::Spawned(Ok(()))).map(|e| e.result), Ok(ExecutionResult::Continue));
    assert!(!s.is_stopped());
    assert_eq!(s.read_line("nope", Some("/bin/nope".into())), LineStep::Ready);
    let failed = s.run(Answer::Spawned(Err("No such file or directory (os error 2)".into())));
    assert_eq!(failed.unwrap_err().message(), "No such file or directory (os error 2)");
    assert!(!s.is_stopped());
}

#[test]
fn session_stops_at_first_exit() {
    let mut s = Session::new();
    for line in ["", "echo a", "frob", "type exit ls", "pwd"] {
        if s.read_line(line, None) == LineStep::Ready {
            let run = s.run(answer(s.need())).unwrap();
            assert_eq!(run.result, ExecutionResult::Continue);
        }
        assert!(!s.is_stopped());
    }
    assert_eq!(s.read_line("  EXIT 0", Some("/bin/exit".into())), LineStep::Ready);
    let run = s.run(answer(s.need())).unwrap();
    assert_eq!(run, Execution { out: "".into(), err: "".into(), result: ExecutionResult::Exit });
    assert!(s.is_stopped());
}

#[test]
fn type_in_session_uses_lookups() {
    let mut s = Session::new();
    assert_eq!(s.read_line("type ls", None), LineStep::Ready);
    assert_eq!(s.need(), Need::Lookups(vec!["ls".into()]));
    let run = s.run(Answer::Lookups(vec![Some(CommandType::External { path: "/bin/ls".into() })]));
    assert_eq!(run.unwrap().out, "ls is /bin/ls\n");
}
