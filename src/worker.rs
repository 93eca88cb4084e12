//! The worker: turns one input line into the action the shell takes.
use vstd::prelude::*;
use crate::number::{i32_of, parse_i32};
use crate::parser::{parse_cmd, parsed, ParseError};
use crate::redirect::{
    program_args, redirect_cmd, redirection_of, redirection_view, opt_view, RedirectOp,
    Redirection,
};
use crate::redirect::is_op;
use crate::text::{is_white, tokens, trim_end, trim_line, trim_start, trimmed, views};

verus! {

pub open spec fn exit_word() -> Seq<char> {
    seq!['e', 'x', 'i', 't']
}

pub open spec fn cd_word() -> Seq<char> {
    seq!['c', 'd']
}

pub open spec fn jobs_word() -> Seq<char> {
    seq!['j', 'o', 'b', 's']
}

pub open spec fn fg_word() -> Seq<char> {
    seq!['f', 'g']
}

/// Whether a program name names a built-in command.
pub open spec fn is_builtin(p: Seq<char>) -> bool {
    p == exit_word() || p == cd_word() || p == jobs_word() || p == fg_word()
}

/// What the shell does for one line, over plain values.
pub enum Step {
    /// Blank line: nothing is dispatched.
    Nothing,
    /// The line could not be parsed.
    Report(ParseError),
    /// Terminate the shell with this status.
    Exit(i32),
    /// `exit` with an argument that is not an `i32`; the shell keeps running.
    InvalidExit(Seq<char>),
    /// Change directory: to the given path, or to the home directory.
    ChangeDir(Option<Seq<char>>),
    /// A reserved built-in that is not supported.
    NotCompatible(Seq<char>),
    /// Run an external program in a child process.
    Run {
        program: Seq<char>,
        argv: Seq<Seq<char>>,
        redirect: Option<(RedirectOp, Option<Seq<char>>)>,
    },
}

/// The step for `exit` with the given argument vector.
pub open spec fn exit_step(args: Seq<Seq<char>>) -> Step {
    if args.len() >= 2 {
        match i32_of(args[1]) {
            Some(n) => Step::Exit(n),
            None => Step::InvalidExit(args[1]),
        }
    } else {
        Step::Exit(0)
    }
}

/// The step for a built-in command, if `args[0]` names one.
pub open spec fn builtin_step(args: Seq<Seq<char>>) -> Option<Step> {
    let p = args[0];
    if p == exit_word() {
        Some(exit_step(args))
    } else if p == jobs_word() || p == fg_word() {
        Some(Step::NotCompatible(p))
    } else if p == cd_word() {
        Some(
            Step::ChangeDir(
                if args.len() >= 2 {
                    Some(args[1])
                } else {
                    None
                },
            ),
        )
    } else {
        None
    }
}

/// The step for a parsed, non-empty argument vector.
pub open spec fn command_step(args: Seq<Seq<char>>) -> Step {
    match builtin_step(args) {
        Some(s) => s,
        None => Step::Run {
            program: args[0],
            argv: program_args(args),
            redirect: redirection_of(args),
        },
    }
}

/// The step for one raw input line.
pub open spec fn decide(line: Seq<char>) -> Step {
    let t = trimmed(line);
    if t.len() == 0 {
        Step::Nothing
    } else {
        match parsed(t) {
            Err(e) => Step::Report(e),
            Ok((_p, args)) => command_step(args),
        }
    }
}

/// Where `cd` goes.
#[derive(Debug)]
pub enum CdTarget {
    /// The user's home directory, or the root where it is unknown.
    Home,
    /// The given path.
    Path(String),
}

impl CdTarget {
    pub open spec fn model(&self) -> Option<Seq<char>> {
        match self {
            CdTarget::Home => None,
            CdTarget::Path(p) => Some(p@),
        }
    }

    /// The directory to change to, given the home directory if it is known.
    pub fn resolve(self, home: Option<String>) -> (r: String)
        ensures
            r@ == match self.model() {
                Some(p) => p,
                None => match opt_view(home) {
                    Some(h) => h,
                    None => seq!['/'],
                },
            },
    {
        match self {
            CdTarget::Path(p) => p,
            CdTarget::Home => match home {
                Some(h) => h,
                None => {
                    let r = String::from_str("/");
                    proof {
                        reveal_strlit("/");
                        assert(r@ =~= seq!['/']);
                    }
                    r
                },
            },
        }
    }
}

/// An external program to run, with its argument vector and redirection.
#[derive(Debug)]
pub struct ExternalCommand {
    pub program: String,
    pub argv: Vec<String>,
    pub redirect: Option<Redirection>,
}

/// What the shell does for one line.
#[derive(Debug)]
pub enum Action {
    Nothing,
    Report(ParseError),
    Exit(i32),
    InvalidExit(String),
    ChangeDir(CdTarget),
    NotCompatible(String),
    Run(ExternalCommand),
}

impl Action {
    pub open spec fn model(&self) -> Step {
        match self {
            Action::Nothing => Step::Nothing,
            Action::Report(e) => Step::Report(*e),
            Action::Exit(n) => Step::Exit(*n),
            Action::InvalidExit(a) => Step::InvalidExit(a@),
            Action::ChangeDir(t) => Step::ChangeDir(t.model()),
            Action::NotCompatible(p) => Step::NotCompatible(p@),
            Action::Run(c) => Step::Run {
                program: c.program@,
                argv: views(c.argv@),
                redirect: redirection_view(c.redirect),
            },
        }
    }
}

/// Whether two strings hold the same characters.
pub fn text_eq(a: &str, b: &str) -> (r: bool)
    ensures
        r == (a@ == b@),
{
    let n = a.unicode_len();
    if n != b.unicode_len() {
        return false;
    }
    let mut i: usize = 0;
    while i < n
        invariant
            n == a@.len(),
            n == b@.len(),
            i <= n,
            forall|j: int| 0 <= j < i ==> a@[j] == b@[j],
        decreases n - i,
    {
        if a.get_char(i) != b.get_char(i) {
            return false;
        }
        i = i + 1;
    }
    assert(a@ =~= b@);
    true
}

/// The action for `exit`: the status given as argument, 0 without one, and
/// a report where the argument is not an `i32`.
pub fn run_exit(args: &Vec<String>) -> (r: Action)
    requires
        args.len() >= 1,
    ensures
        r.model() == exit_step(views(args@)),
{
    if args.len() >= 2 {
        assert(views(args@)[1] == args@[1]@);
        match parse_i32(args[1].as_str()) {
            Some(n) => Action::Exit(n),
            None => Action::InvalidExit(args[1].clone()),
        }
    } else {
        Action::Exit(0)
    }
}

/// The action for `cd`: the path given as argument, else the home directory.
pub fn run_cd(args: &Vec<String>) -> (r: Action)
    requires
        args.len() >= 1,
    ensures
        r.model() == Step::ChangeDir(
            if args.len() >= 2 {
                Some(views(args@)[1])
            } else {
                None
            },
        ),
{
    if args.len() >= 2 {
        assert(views(args@)[1] == args@[1]@);
        Action::ChangeDir(CdTarget::Path(args[1].clone()))
    } else {
        Action::ChangeDir(CdTarget::Home)
    }
}

/// The action for a built-in command, or `None` where `program` names none.
pub fn built_in_cmd(program: &str, args: &Vec<String>) -> (r: Option<Action>)
    requires
        args.len() >= 1,
        program@ == args@[0]@,
    ensures
        match r {
            Some(a) => builtin_step(views(args@)) == Some(a.model()),
            None => builtin_step(views(args@)) is None,
        },
{
    proof {
        reveal_strlit("exit");
        reveal_strlit("jobs");
        reveal_strlit("fg");
        reveal_strlit("cd");
        assert("exit"@ =~= exit_word());
        assert("jobs"@ =~= jobs_word());
        assert("fg"@ =~= fg_word());
        assert("cd"@ =~= cd_word());
        assert(views(args@)[0] == program@);
    }
    if text_eq(program, "exit") {
        Some(run_exit(args))
    } else if text_eq(program, "jobs") || text_eq(program, "fg") {
        Some(Action::NotCompatible(String::from_str(program)))
    } else if text_eq(program, "cd") {
        Some(run_cd(args))
    } else {
        None
    }
}

/// The worker that decides, line by line, what the shell does.
#[derive(Debug)]
pub struct Worker {}

impl Worker {
    pub fn new() -> (r: Worker) {
        Worker {  }
    }

    /// Decides the action for one raw input line: nothing for a blank line, a
    /// built-in, or an external program with its redirection taken out of
    /// its argument vector.
    pub fn handle_line(&self, line: &str) -> (r: Action)
        ensures
            r.model() == decide(line@),
    {
        let t = trim_line(line);
        if t.as_str().unicode_len() == 0 {
            return Action::Nothing;
        }
        match parse_cmd(t.as_str()) {
            Err(e) => Action::Report(e),
            Ok((program, args)) => {
                let b = built_in_cmd(program.as_str(), &args);
                match b {
                    Some(a) => a,
                    None => {
                        let mut argv = args;
                        let redirect = redirect_cmd(&mut argv);
                        Action::Run(ExternalCommand { program, argv, redirect })
                    },
                }
            },
        }
    }
}

/// The argument vector handed to an external program holds no redirection
/// operator, and is the part of the line's tokens before the first one.
pub proof fn law_argv_without_operators(line: Seq<char>)
    ensures
        decide(line) matches Step::Run { argv, .. } ==> (forall|i: int|
            0 <= i < argv.len() ==> !is_op(#[trigger] argv[i])) && argv
            == program_args(tokens(trimmed(line))),
{
    let t = trimmed(line);
    let a = tokens(t);
    if t.len() > 0 && a.len() > 0 && builtin_step(a) is None {
        crate::redirect::lemma_first_op(a);
    }
}

/// A built-in command is never run as an external program.
pub proof fn law_builtins_never_run(line: Seq<char>)
    ensures
        decide(line) matches Step::Run { program, .. } ==> !is_builtin(program),
{
}

/// `exit` ends the shell with the status given, or 0 without one; with an
/// argument that is not an `i32` the shell keeps running.
pub proof fn law_exit_status(line: Seq<char>)
    requires
        tokens(trimmed(line)).len() >= 1,
        tokens(trimmed(line))[0] == exit_word(),
    ensures
        tokens(trimmed(line)).len() == 1 ==> decide(line) == Step::Exit(0),
        tokens(trimmed(line)).len() >= 2 ==> match i32_of(tokens(trimmed(line))[1]) {
            Some(n) => decide(line) == Step::Exit(n),
            None => decide(line) == Step::InvalidExit(tokens(trimmed(line))[1]),
        },
{
    lemma_trimmed_nonempty(line);
}

/// `cd` with a path goes to that path, whatever came before it.
pub proof fn law_cd_path(line: Seq<char>)
    requires
        tokens(trimmed(line)).len() >= 2,
        tokens(trimmed(line))[0] == cd_word(),
    ensures
        decide(line) == Step::ChangeDir(Some(tokens(trimmed(line))[1])),
{
    lemma_trimmed_nonempty(line);
}

/// A line of nothing but white space dispatches nothing.
pub proof fn law_blank_line(line: Seq<char>)
    requires
        forall|i: int| 0 <= i < line.len() ==> is_white(line[i]),
    ensures
        decide(line) == Step::Nothing,
{
    lemma_all_white(line);
}

proof fn lemma_all_white(s: Seq<char>)
    requires
        forall|i: int| 0 <= i < s.len() ==> is_white(s[i]),
    ensures
        trim_start(s).len() == 0,
    decreases s.len(),
{
    if s.len() > 0 {
        assert forall|i: int| 0 <= i < s.drop_first().len() implies is_white(s.drop_first()[i]) by {
            assert(s.drop_first()[i] == s[i + 1]);
        }
        lemma_all_white(s.drop_first());
    }
}

proof fn lemma_trimmed_nonempty(line: Seq<char>)
    requires
        tokens(trimmed(line)).len() >= 1,
    ensures
        trimmed(line).len() > 0,
{
    if trimmed(line).len() == 0 {
        assert(trimmed(line) =~= Seq::<char>::empty());
    }
}

} // verus!
