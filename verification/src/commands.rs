//! The commands that a resolved command line can be: the shell's builtins,
//! and programs found on the search path.

use vstd::prelude::*;

use crate::text::same_text;

verus! {

/// The builtins of the shell, by name.
#[derive(Debug, Clone, Copy, PartialEq, Eq, Structural)]
pub enum BuiltInKind {
    Exit,
    Echo,
    Type,
    Pwd,
}

/// A builtin together with the arguments it uses.
#[derive(Debug, PartialEq, Eq)]
pub enum BuiltIn {
    Exit,
    Echo { args: Vec<String> },
    Type { args: Vec<String> },
    Pwd,
}

/// A builtin as a mathematical value.
pub enum BuiltInModel {
    Exit,
    Echo(Seq<Seq<char>>),
    Type(Seq<Seq<char>>),
    Pwd,
}

/// A program to run, with its arguments.
#[derive(Debug, PartialEq, Eq)]
pub struct External {
    path: String,
    args: Vec<String>,
}

/// A program to run as a mathematical value.
pub struct ExternalModel {
    pub path: Seq<char>,
    pub args: Seq<Seq<char>>,
}

/// A command ready to be executed.
#[derive(Debug, PartialEq, Eq)]
pub enum Command {
    BuiltIn(BuiltIn),
    External(External),
}

/// A command as a mathematical value.
pub enum CommandModel {
    BuiltIn(BuiltInModel),
    External(ExternalModel),
}

/// What a command name stands for: a builtin, or a program at a path.
#[derive(Debug, PartialEq, Eq)]
pub enum CommandType {
    BuiltIn(BuiltInKind),
    External { path: String },
}

/// What a command name stands for, as a mathematical value.
pub enum CommandTypeModel {
    BuiltIn(BuiltInKind),
    External(Seq<char>),
}

impl View for BuiltIn {
    type V = BuiltInModel;

    open spec fn view(&self) -> BuiltInModel {
        match self {
            BuiltIn::Exit => BuiltInModel::Exit,
            BuiltIn::Echo { args } => BuiltInModel::Echo(args.deep_view()),
            BuiltIn::Type { args } => BuiltInModel::Type(args.deep_view()),
            BuiltIn::Pwd => BuiltInModel::Pwd,
        }
    }
}

impl View for External {
    type V = ExternalModel;

    closed spec fn view(&self) -> ExternalModel {
        ExternalModel { path: self.path@, args: self.args.deep_view() }
    }
}

impl View for Command {
    type V = CommandModel;

    open spec fn view(&self) -> CommandModel {
        match self {
            Command::BuiltIn(b) => CommandModel::BuiltIn(b@),
            Command::External(e) => CommandModel::External(e@),
        }
    }
}

impl View for CommandType {
    type V = CommandTypeModel;

    open spec fn view(&self) -> CommandTypeModel {
        match self {
            CommandType::BuiltIn(k) => CommandTypeModel::BuiltIn(*k),
            CommandType::External { path } => CommandTypeModel::External(path@),
        }
    }
}

impl BuiltInKind {
    /// The name by which the builtin is invoked.
    pub open spec fn name(self) -> Seq<char> {
        match self {
            BuiltInKind::Exit => "exit"@,
            BuiltInKind::Echo => "echo"@,
            BuiltInKind::Type => "type"@,
            BuiltInKind::Pwd => "pwd"@,
        }
    }

    /// The builtin, if any, that `name` invokes; names are matched exactly.
    pub open spec fn named(name: Seq<char>) -> Option<BuiltInKind> {
        if name == "exit"@ {
            Some(BuiltInKind::Exit)
        } else if name == "echo"@ {
            Some(BuiltInKind::Echo)
        } else if name == "type"@ {
            Some(BuiltInKind::Type)
        } else if name == "pwd"@ {
            Some(BuiltInKind::Pwd)
        } else {
            None
        }
    }

    /// The builtin of this kind given `args`: `exit` and `pwd` take none.
    pub open spec fn with_args(self, args: Seq<Seq<char>>) -> BuiltInModel {
        match self {
            BuiltInKind::Exit => BuiltInModel::Exit,
            BuiltInKind::Echo => BuiltInModel::Echo(args),
            BuiltInKind::Type => BuiltInModel::Type(args),
            BuiltInKind::Pwd => BuiltInModel::Pwd,
        }
    }

    /// The name by which the builtin is invoked.
    pub fn as_str(&self) -> (r: &'static str)
        ensures
            r@ == self.name(),
    {
        match self {
            BuiltInKind::Exit => "exit",
            BuiltInKind::Echo => "echo",
            BuiltInKind::Type => "type",
            BuiltInKind::Pwd => "pwd",
        }
    }

    /// The builtin that `name` invokes, if any.
    pub fn from_name(name: &str) -> (r: Option<BuiltInKind>)
        ensures
            r == Self::named(name@),
            r matches Some(k) ==> name@ == k.name(),
    {
        if same_text(name, "exit") {
            Some(BuiltInKind::Exit)
        } else if same_text(name, "echo") {
            Some(BuiltInKind::Echo)
        } else if same_text(name, "type") {
            Some(BuiltInKind::Type)
        } else if same_text(name, "pwd") {
            Some(BuiltInKind::Pwd)
        } else {
            None
        }
    }

    /// The builtin of this kind, given the arguments of its command line.
    pub fn build(self, args: Vec<String>) -> (b: BuiltIn)
        ensures
            b@ == self.with_args(args.deep_view()),
    {
        match self {
            BuiltInKind::Exit => BuiltIn::Exit,
            BuiltInKind::Echo => BuiltIn::Echo { args },
            BuiltInKind::Type => BuiltIn::Type { args },
            BuiltInKind::Pwd => BuiltIn::Pwd,
        }
    }
}

impl External {
    /// A program at `path` to be run with `args`.
    pub fn new(path: String, args: Vec<String>) -> (e: Self)
        ensures
            e@ == (ExternalModel { path: path@, args: args.deep_view() }),
    {
        External { path, args }
    }

    /// The path of the program.
    pub fn path(&self) -> (r: &String)
        ensures
            r@ == self@.path,
    {
        &self.path
    }

    /// The arguments the program is run with.
    pub fn args(&self) -> (r: &Vec<String>)
        ensures
            r.deep_view() == self@.args,
    {
        &self.args
    }
}

/// Every builtin is invoked by its own name.
pub proof fn lemma_builtin_name_round_trip(kind: BuiltInKind)
    ensures
        BuiltInKind::named(kind.name()) == Some(kind),
{
    reveal_strlit("exit");
    reveal_strlit("echo");
    reveal_strlit("type");
    reveal_strlit("pwd");
    assert("exit"@[1] != "echo"@[1]);
    assert("exit"@[0] != "type"@[0]);
    assert("exit"@.len() != "pwd"@.len());
    assert("echo"@[0] != "type"@[0]);
    assert("echo"@.len() != "pwd"@.len());
    assert("type"@.len() != "pwd"@.len());
}

/// `echo` and `type` keep all the arguments of their command line, in order;
/// `exit` and `pwd` take none, and each kind builds its own builtin.
pub proof fn lemma_builtins_take_arguments(kind: BuiltInKind, args: Seq<Seq<char>>)
    ensures
        kind == BuiltInKind::Exit ==> kind.with_args(args) == BuiltInModel::Exit,
        kind == BuiltInKind::Echo ==> kind.with_args(args) == BuiltInModel::Echo(args),
        kind == BuiltInKind::Type ==> kind.with_args(args) == BuiltInModel::Type(args),
        kind == BuiltInKind::Pwd ==> kind.with_args(args) == BuiltInModel::Pwd,
{
}

/// A name stands for a builtin only when it is exactly that builtin's name;
/// every other name is left to the search of the path.
pub proof fn lemma_only_builtin_names_are_builtins(name: Seq<char>, kind: BuiltInKind)
    ensures
        BuiltInKind::named(name) == Some(kind) ==> name == kind.name(),
        name != "exit"@ && name != "echo"@ && name != "type"@ && name != "pwd"@ ==> BuiltInKind::named(name) is None,
{
}

} // verus!
