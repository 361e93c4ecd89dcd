//! Running builtins. A builtin first says what it needs to learn from
//! outside the shell (nothing, what some names stand for, or the current
//! directory); given that, it computes what it writes and whether the shell
//! goes on.

use vstd::prelude::*;

use crate::commands::{BuiltIn, BuiltInKind, Command, CommandModel, BuiltInModel, CommandType, CommandTypeModel};
use crate::resolver::looked_up;
use crate::commands::ExternalModel;
use crate::text::{join, join_with, lemma_join_laws};

verus! {

/// Whether the shell goes on reading commands after one ran.
#[derive(Debug, Clone, Copy, PartialEq, Eq, Structural)]
pub enum ExecutionResult {
    Continue,
    Exit,
}

/// A command that could not be run, with the reason.
#[derive(Debug, PartialEq, Eq)]
pub struct ExecutionError {
    pub error: String,
}

impl ExecutionError {
    /// The text that describes the error.
    pub fn message(&self) -> (r: String)
        ensures
            r@ == self.error@,
    {
        self.error.clone()
    }
}

/// What a command needs done or learned outside the shell before it runs.
#[derive(Debug, PartialEq, Eq)]
pub enum Need {
    Nothing,
    /// What each of these names stands for, in this order.
    Lookups(Vec<String>),
    /// The current working directory, or why it is not known.
    CurrentDir,
    /// The program at `path` run with `args`, waited for.
    Spawn { path: String, args: Vec<String> },
}

/// What was learned or done for a command.
#[derive(Debug, PartialEq, Eq)]
pub enum Answer {
    Nothing,
    Lookups(Vec<Option<CommandType>>),
    CurrentDir(Result<String, String>),
    /// The program ran to its end, or could not be started, with the reason.
    Spawned(Result<(), String>),
}

/// What running a builtin writes to standard output and to standard error,
/// and whether the shell goes on.
#[derive(Debug, PartialEq, Eq)]
pub struct Execution {
    pub out: String,
    pub err: String,
    pub result: ExecutionResult,
}

/// What an answer to a lookup stands for as a mathematical value.
pub open spec fn type_model(t: Option<CommandType>) -> Option<CommandTypeModel> {
    match t {
        Some(t) => Some(t@),
        None => None,
    }
}

/// What `echo` writes for `args`: the arguments separated by single spaces,
/// and a line end.
pub open spec fn echoed(args: Seq<Seq<char>>) -> Seq<char> {
    join(args, " "@) + "\n"@
}

/// The line `type` writes for a name that stands for `t`.
pub open spec fn type_line(name: Seq<char>, t: Option<CommandTypeModel>) -> Seq<char> {
    match t {
        Some(CommandTypeModel::BuiltIn(_)) => name + " is a shell builtin\n"@,
        Some(CommandTypeModel::External(path)) => name + " is "@ + path + "\n"@,
        None => name + " not found\n"@,
    }
}

/// What `type` writes for `names`, the `i`-th standing for `ts[i]`: one line
/// for each name, in order.
pub open spec fn type_report(names: Seq<Seq<char>>, ts: Seq<Option<CommandTypeModel>>) -> Seq<char>
    decreases names.len(),
{
    if names.len() == 0 {
        Seq::empty()
    } else {
        type_report(names.drop_last(), ts) + type_line(names.last(), ts[names.len() - 1])
    }
}

/// What `type` writes to standard error when it is given no name.
pub open spec fn type_usage() -> Seq<char> {
    "type: too few arguments\n"@
}

/// Whether `answer` answers what `b` needs.
pub open spec fn answers(b: BuiltIn, answer: Answer) -> bool {
    match b {
        BuiltIn::Type { args } => args.len() > 0 ==> (answer matches Answer::Lookups(ts) && ts.len()
            == args.len()),
        BuiltIn::Pwd => answer is CurrentDir,
        _ => true,
    }
}

/// `r` is what builtin `b` needs: `type` with names needs what each stands
/// for, `pwd` the current directory, and the others nothing.
pub open spec fn builtin_needs(b: BuiltIn, r: Need) -> bool {
    match b {
        BuiltIn::Type { args } => if args.len() > 0 {
            r matches Need::Lookups(names) && names.deep_view() == args.deep_view()
        } else {
            r is Nothing
        },
        BuiltIn::Pwd => r is CurrentDir,
        _ => r is Nothing,
    }
}

/// `r` is what running builtin `b` with `answer` writes, and whether the
/// shell goes on: only `exit` ends it.
pub open spec fn builtin_ran(b: BuiltIn, answer: Answer, r: Execution) -> bool {
    &&& (r.result == ExecutionResult::Exit) <==> (b is Exit)
    &&& match b {
        BuiltIn::Exit => r.out@.len() == 0 && r.err@.len() == 0,
        BuiltIn::Echo { args } => r.out@ == echoed(args.deep_view()) && r.err@.len() == 0,
        BuiltIn::Type { args } => if args.len() == 0 {
            r.out@.len() == 0 && r.err@ == type_usage()
        } else {
            &&& answer matches Answer::Lookups(ts)
            &&& r.out@ == type_report(
                args.deep_view(),
                ts@.map_values(|t: Option<CommandType>| type_model(t)),
            )
            &&& r.err@.len() == 0
        },
        BuiltIn::Pwd => match answer {
            Answer::CurrentDir(Ok(dir)) => r.out@ == dir@ + "\n"@ && r.err@.len() == 0,
            Answer::CurrentDir(Err(e)) => r.out@.len() == 0 && r.err@ == e@ + "\n"@,
            _ => false,
        },
    }
}

/// `r` is what command `c` needs: a builtin what it needs, a program to be
/// run with its arguments.
pub open spec fn command_needs(c: Command, r: Need) -> bool {
    match c {
        Command::BuiltIn(b) => builtin_needs(b, r),
        Command::External(e) => r matches Need::Spawn { path, args } && path@ == e@.path
            && args.deep_view() == e@.args,
    }
}

/// Whether `answer` answers what command `c` needs.
pub open spec fn command_answers(c: Command, answer: Answer) -> bool {
    match c {
        Command::BuiltIn(b) => answers(b, answer),
        Command::External(_) => answer is Spawned,
    }
}

/// `r` is what running command `c` with `answer` gives: a builtin's
/// execution; for a program, nothing written and the shell going on once it
/// ran, or the reason it could not be started.
pub open spec fn command_ran(c: Command, answer: Answer, r: Result<Execution, ExecutionError>) -> bool {
    match c {
        Command::BuiltIn(b) => r matches Ok(e) && builtin_ran(b, answer, e),
        Command::External(_) => match answer {
            Answer::Spawned(Ok(())) => r matches Ok(e) && e.out@.len() == 0 && e.err@.len() == 0
                && e.result == ExecutionResult::Continue,
            Answer::Spawned(Err(m)) => r matches Err(x) && x.error@ == m@,
            _ => false,
        },
    }
}

/// `type` with its names and what they stand for, in order.
fn type_lines(names: &Vec<String>, ts: &Vec<Option<CommandType>>) -> (r: String)
    requires
        names.len() == ts.len(),
    ensures
        r@ == type_report(names.deep_view(), ts@.map_values(|t: Option<CommandType>| type_model(t))),
{
    let ghost ns = names.deep_view();
    let ghost ms = ts@.map_values(|t: Option<CommandType>| type_model(t));
    let mut r = String::new();
    let n = names.len();
    let mut i: usize = 0;
    while i < n
        invariant
            0 <= i <= n,
            n == names.len(),
            n == ts.len(),
            ns == names.deep_view(),
            ms == ts@.map_values(|t: Option<CommandType>| type_model(t)),
            r@ == type_report(ns.take(i as int), ms),
        decreases n - i,
    {
        let ghost before = r@;
        r.append(names[i].as_str());
        match &ts[i] {
            Some(CommandType::BuiltIn(_)) => {
                r.append(" is a shell builtin\n");
            },
            Some(CommandType::External { path }) => {
                r.append(" is ");
                r.append(path.as_str());
                r.append("\n");
            },
            None => {
                r.append(" not found\n");
            },
        }
        assert(ns.take(i + 1).drop_last() =~= ns.take(i as int));
        assert(ms[i as int] == type_model(ts@[i as int]));
        assert(r@ =~= before + type_line(ns[i as int], ms[i as int]));
        i = i + 1;
    }
    assert(ns.take(n as int) =~= ns);
    r
}

impl BuiltIn {
    /// What the builtin needs to learn before it runs: `type` needs what
    /// each of its names stands for, `pwd` the current directory.
    pub fn need(&self) -> (r: Need)
        ensures
            builtin_needs(*self, r),
    {
        match self {
            BuiltIn::Type { args } => if args.len() > 0 {
                Need::Lookups(args.clone())
            } else {
                Need::Nothing
            },
            BuiltIn::Pwd => Need::CurrentDir,
            _ => Need::Nothing,
        }
    }

    /// Runs the builtin given the answer to what it needs.
    pub fn run(&self, answer: Answer) -> (r: Execution)
        requires
            answers(*self, answer),
        ensures
            (r.result == ExecutionResult::Exit) <==> (self is Exit),
            builtin_ran(*self, answer, r),
    {
        match self {
            BuiltIn::Exit => Execution {
                out: String::new(),
                err: String::new(),
                result: ExecutionResult::Exit,
            },
            BuiltIn::Echo { args } => {
                let mut out = join_with(args, " ");
                out.append("\n");
                Execution { out, err: String::new(), result: ExecutionResult::Continue }
            },
            BuiltIn::Type { args } => {
                if args.len() == 0 {
                    return Execution {
                        out: String::new(),
                        err: "type: too few arguments\n".to_owned(),
                        result: ExecutionResult::Continue,
                    };
                }
                match answer {
                    Answer::Lookups(ts) => Execution {
                        out: type_lines(args, &ts),
                        err: String::new(),
                        result: ExecutionResult::Continue,
                    },
                    _ => Execution {
                        out: String::new(),
                        err: String::new(),
                        result: ExecutionResult::Continue,
                    },
                }
            },
            BuiltIn::Pwd => match answer {
                Answer::CurrentDir(Ok(dir)) => {
                    let mut out = dir;
                    out.append("\n");
                    Execution { out, err: String::new(), result: ExecutionResult::Continue }
                },
                Answer::CurrentDir(Err(e)) => {
                    let mut err = e;
                    err.append("\n");
                    Execution { out: String::new(), err, result: ExecutionResult::Continue }
                },
                _ => Execution {
                    out: String::new(),
                    err: String::new(),
                    result: ExecutionResult::Continue,
                },
            },
        }
    }
}


impl Command {
    /// What the command needs done or learned before it runs.
    pub fn need(&self) -> (r: Need)
        ensures
            command_needs(*self, r),
    {
        match self {
            Command::BuiltIn(b) => b.need(),
            Command::External(e) => Need::Spawn { path: e.path().clone(), args: clone_all(e.args()) },
        }
    }

    /// Runs the command given the answer to what it needs. Only `exit`
    /// ends the shell.
    pub fn run(&self, answer: Answer) -> (r: Result<Execution, ExecutionError>)
        requires
            command_answers(*self, answer),
        ensures
            command_ran(*self, answer, r),
            (r matches Ok(e) && e.result == ExecutionResult::Exit) <==> self@ == CommandModel::BuiltIn(
                BuiltInModel::Exit,
            ),
    {
        match self {
            Command::BuiltIn(b) => Ok(b.run(answer)),
            Command::External(_) => match answer {
                Answer::Spawned(Ok(())) => Ok(
                    Execution {
                        out: String::new(),
                        err: String::new(),
                        result: ExecutionResult::Continue,
                    },
                ),
                Answer::Spawned(Err(m)) => Err(ExecutionError { error: m }),
                _ => Err(ExecutionError { error: String::new() }),
            },
        }
    }
}

/// A copy of each string.
fn clone_all(v: &Vec<String>) -> (r: Vec<String>)
    ensures
        r.deep_view() == v.deep_view(),
{
    let mut r: Vec<String> = Vec::new();
    let n = v.len();
    let mut i: usize = 0;
    while i < n
        invariant
            0 <= i <= n,
            n == v.len(),
            r.deep_view() == v.deep_view().take(i as int),
        decreases n - i,
    {
        let ghost before = r.deep_view();
        let s = v[i].clone();
        assert(s@ == v.deep_view()[i as int]);
        r.push(s);
        assert(r.deep_view() =~= before.push(s@));
        assert(r.deep_view() =~= v.deep_view().take(i + 1));
        i = i + 1;
    }
    assert(v.deep_view().take(n as int) =~= v.deep_view());
    r
}

/// `type` reports every builtin's name as a shell builtin, whatever a search
/// of the path found for it.
pub proof fn lemma_type_reports_builtins(kind: BuiltInKind, found: Option<Seq<char>>)
    ensures
        type_line(kind.name(), looked_up(kind.name(), found)) == kind.name()
            + " is a shell builtin\n"@,
{
    crate::resolver::lemma_builtin_wins_over_path(kind, Seq::empty(), found);
}


/// What each builtin asks of the outside world: `type` with names asks what
/// each of its names stands for, all of them and in order; `type` without
/// names, `exit` and `echo` ask nothing; `pwd` asks for the current
/// directory.
pub proof fn lemma_builtin_needs(b: BuiltIn, r: Need)
    requires
        builtin_needs(b, r),
    ensures
        b is Exit || b is Echo ==> r is Nothing,
        b is Pwd ==> r is CurrentDir,
        b matches BuiltIn::Type { args } ==> (args.len() == 0 ==> r is Nothing) && (args.len() > 0 ==> (
        r matches Need::Lookups(names) && names.len() == args.len() && forall|k: int|
            0 <= k < args.len() ==> #[trigger] names[k]@ == args[k]@)),
{
    match (b, r) {
        (BuiltIn::Type { args }, Need::Lookups(names)) => {
            assert(names.deep_view().len() == names.len());
            assert(args.deep_view().len() == args.len());
            assert forall|k: int| 0 <= k < args.len() implies #[trigger] names[k]@ == args[k]@ by {
                assert(names.deep_view()[k] == names[k]@);
                assert(args.deep_view()[k] == args[k]@);
            }
        },
        _ => {},
    }
}

/// A looked-up name stands for what the lookup answered.
pub proof fn lemma_type_model(t: CommandType)
    ensures
        type_model(Some(t)) == Some(t@),
        type_model(None) == None::<CommandTypeModel>,
        type_usage() == "type: too few arguments\n"@,
{
}

/// `echo` with no argument writes a line end alone; with one argument, the
/// argument and a line end; and each further argument is written after the
/// others, following one space. Its output always ends with a line end.
pub proof fn lemma_echo_output(ws: Seq<Seq<char>>, w: Seq<char>)
    ensures
        echoed(Seq::empty()) == "\n"@,
        echoed(seq![w]) == w + "\n"@,
        ws.len() > 0 ==> echoed(ws.push(w)) == echoed(ws).drop_last() + " "@ + w + "\n"@,
        echoed(ws).len() > 0 && echoed(ws).last() == '\n',
{
    reveal_strlit("\n");
    lemma_join_laws(ws, seq![w], w, " "@);
    assert(Seq::<char>::empty() + "\n"@ =~= "\n"@);
    if ws.len() > 0 {
        assert(ws + seq![w] =~= ws.push(w));
        assert(echoed(ws).drop_last() =~= join(ws, " "@));
    }
}

/// `exit` writes nothing and ends the shell, whatever it was answered; every
/// other builtin lets the shell go on.
pub proof fn lemma_exit_writes_nothing(b: BuiltIn, answer: Answer, r: Execution)
    requires
        builtin_ran(b, answer, r),
    ensures
        b is Exit ==> r.out@.len() == 0 && r.err@.len() == 0 && r.result == ExecutionResult::Exit,
        !(b is Exit) ==> r.result == ExecutionResult::Continue,
{
}

/// `echo` writes its arguments in order, one space between each two, then a
/// line end, and nothing to standard error; a single argument is written as
/// it is, followed by a line end.
pub proof fn lemma_echo_writes_arguments(args: Vec<String>, answer: Answer, r: Execution)
    requires
        builtin_ran(BuiltIn::Echo { args }, answer, r),
    ensures
        r.out@ == join(args.deep_view(), " "@) + "\n"@,
        args.len() == 1 ==> r.out@ == args[0]@ + "\n"@,
        args.len() == 0 ==> r.out@ == "\n"@,
        r.err@.len() == 0,
        r.result == ExecutionResult::Continue,
{
    lemma_echo_output(args.deep_view(), Seq::empty());
    if args.len() == 1 {
        lemma_echo_output(Seq::empty(), args[0]@);
        assert(args.deep_view() =~= seq![args[0]@]);
    }
    if args.len() == 0 {
        assert(args.deep_view() =~= Seq::<Seq<char>>::empty());
    }
}

/// `pwd` writes the current directory exactly as it was given, character for
/// character, then a line end; or, when the directory is not known, the
/// reason and a line end to standard error.
pub proof fn lemma_pwd_writes_directory(dir: String, e: String, r1: Execution, r2: Execution)
    requires
        builtin_ran(BuiltIn::Pwd, Answer::CurrentDir(Ok(dir)), r1),
        builtin_ran(BuiltIn::Pwd, Answer::CurrentDir(Err(e)), r2),
    ensures
        r1.out@ == dir@ + "\n"@,
        r1.out@.len() == dir@.len() + 1,
        forall|i: int| 0 <= i < dir@.len() ==> r1.out@[i] == #[trigger] dir@[i],
        r1.out@.last() == '\n',
        r1.err@.len() == 0,
        r1.result == ExecutionResult::Continue,
        r2.out@.len() == 0,
        r2.err@ == e@ + "\n"@,
        r2.result == ExecutionResult::Continue,
{
    reveal_strlit("\n");
}

/// The lines `type` writes for one name.
pub proof fn lemma_type_line_texts(name: Seq<char>, kind: BuiltInKind, path: Seq<char>)
    ensures
        type_line(name, Some(CommandTypeModel::BuiltIn(kind))) == name + " is a shell builtin\n"@,
        type_line(name, Some(CommandTypeModel::External(path))) == name + " is "@ + path + "\n"@,
        type_line(name, None) == name + " not found\n"@,
{
}

proof fn lemma_type_report_is_flatten_alt(names: Seq<Seq<char>>, ts: Seq<Option<CommandTypeModel>>)
    ensures
        type_report(names, ts) == Seq::new(names.len(), |k: int| type_line(names[k], ts[k])).flatten_alt(),
    decreases names.len(),
{
    let l = Seq::new(names.len(), |k: int| type_line(names[k], ts[k]));
    if names.len() > 0 {
        let init = names.drop_last();
        lemma_type_report_is_flatten_alt(init, ts);
        assert(l.drop_last() =~= Seq::new(init.len(), |k: int| type_line(init[k], ts[k])));
    } else {
        assert(l.flatten_alt() =~= Seq::<char>::empty());
    }
}

/// `type` writes one line for each name, in order, each saying what that
/// name stands for, whatever the other names stood for: its output is the
/// lines `type_line(names[k], ts[k])` one after another.
pub proof fn lemma_type_report_lines(names: Seq<Seq<char>>, ts: Seq<Option<CommandTypeModel>>)
    ensures
        type_report(names, ts) == Seq::new(names.len(), |k: int| type_line(names[k], ts[k])).flatten(),
        forall|k: int|
            0 <= k < names.len() ==> type_report(names.take(k + 1), ts) == type_report(names.take(k), ts)
                + #[trigger] type_line(names[k], ts[k]),
{
    lemma_type_report_is_flatten_alt(names, ts);
    Seq::new(names.len(), |k: int| type_line(names[k], ts[k])).lemma_flatten_and_flatten_alt_are_equivalent();
    assert forall|k: int| 0 <= k < names.len() implies type_report(names.take(k + 1), ts)
        == type_report(names.take(k), ts) + #[trigger] type_line(names[k], ts[k]) by {
        assert(names.take(k + 1).drop_last() =~= names.take(k));
        assert(names.take(k + 1).last() == names[k]);
    }
}

/// `type` given names writes, for each name in order, the line saying what
/// the lookup answered for it.
pub proof fn lemma_type_writes_lines(args: Vec<String>, ts: Vec<Option<CommandType>>, r: Execution)
    requires
        args.len() > 0,
        ts.len() == args.len(),
        builtin_ran(BuiltIn::Type { args }, Answer::Lookups(ts), r),
    ensures
        r.out@ == Seq::new(args.len() as nat, |k: int| type_line(args[k]@, type_model(ts[k]))).flatten(),
        r.err@.len() == 0,
        r.result == ExecutionResult::Continue,
{
    let ns = args.deep_view();
    let ms = ts@.map_values(|t: Option<CommandType>| type_model(t));
    lemma_type_report_lines(ns, ms);
    assert forall|k: int| 0 <= k < args.len() implies ns[k] == args[k]@ && ms[k] == type_model(
        ts[k],
    ) by {}
    assert(Seq::new(ns.len(), |k: int| type_line(ns[k], ms[k])) =~= Seq::new(
        args.len() as nat,
        |k: int| type_line(args[k]@, type_model(ts[k])),
    ));
}

/// A program is run with the path it was found at and with the command's
/// arguments, all of them and in the order they were written.
pub proof fn lemma_program_gets_its_arguments(
    c: Command,
    r: Need,
    path: Seq<char>,
    args: Seq<Seq<char>>,
)
    requires
        command_needs(c, r),
        c@ == CommandModel::External(ExternalModel { path, args }),
    ensures
        r matches Need::Spawn { path: p, args: a } && p@ == path && a.len() == args.len() && (forall|k: int|
            0 <= k < args.len() ==> #[trigger] a[k]@ == args[k]),
{
    match r {
        Need::Spawn { path: p, args: a } => {
            assert forall|k: int| 0 <= k < args.len() implies #[trigger] a[k]@ == args[k] by {
                assert(a.deep_view()[k] == a[k]@);
            }
        },
        _ => {},
    }
}

/// A program that ran lets the shell go on and writes nothing of the shell's
/// own; one that could not be started is an error with the reason given.
pub proof fn lemma_program_outcome(
    c: Command,
    m: String,
    r1: Result<Execution, ExecutionError>,
    r2: Result<Execution, ExecutionError>,
)
    requires
        c is External,
        command_ran(c, Answer::Spawned(Ok(())), r1),
        command_ran(c, Answer::Spawned(Err(m)), r2),
    ensures
        r1 matches Ok(e) && e.result == ExecutionResult::Continue && e.out@.len() == 0 && e.err@.len()
            == 0,
        r2 matches Err(x) && x.error@ == m@,
{
}

} // verus!
