use mysh::messages::{
    cd_failed_message, fork_failure_message, invalid_value_message, missing_input_message,
    not_compatible_message, parse_error_message, prompt, unknown_command_message,
};
use mysh::number::parse_i32;
use mysh::parser::{parse_cmd, parse_cmd_one, ParseError};
use mysh::redirect::{redirect_cmd, redirect_op, RedirectOp};
use mysh::text::{is_white_char, split_tokens, trim_line};
use mysh::worker::{built_in_cmd, run_cd, run_exit, text_eq, Action, CdTarget, Worker};

fn strings(v: &[&str]) -> Vec<String> {
    v.iter().map(|s| s.to_string()).collect()
}

fn run_of(line: &str) -> (String, Vec<String>, Option<(RedirectOp, Option<String>)>) {
    match Worker::new().handle_line(line) {
        Action::Run(c) => (c.program, c.argv, c.redirect.map(|r| (r.op, r.target))),
        other => panic!("expected an external command, got {:?}", other),
    }
}

#[test]
fn parses_program_and_arguments() {
    let (p, a) = parse_cmd("echo hello world").unwrap();
    assert_eq!(p, "echo");
    assert_eq!(a, strings(&["echo", "hello", "world"]));
}

#[test]
fn parse_rejects_spaces_only() {
    assert_eq!(parse_cmd("   ").unwrap_err(), ParseError::EmptyCommand);
    assert_eq!(parse_cmd_one("").unwrap_err(), ParseError::EmptyCommand);
    assert_eq!(ParseError::EmptyCommand.message(), "command is empty");
}

#[test]
fn surrounding_spaces_parse_as_trimmed() {
    assert_eq!(parse_cmd("   ls -l   ").unwrap(), parse_cmd("ls -l").unwrap());
}

#[test]
fn space_runs_parse_as_one_space() {
    assert_eq!(parse_cmd("echo    a     b").unwrap(), parse_cmd("echo a b").unwrap());
}

#[test]
fn tabs_stay_inside_tokens() {
    assert_eq!(split_tokens("a\tb c"), strings(&["a\tb", "c"]));
    assert_eq!(split_tokens(""), Vec::<String>::new());
}

#[test]
fn trims_white_space_at_both_ends() {
    assert_eq!(trim_line("  \t echo hi \r\n"), "echo hi");
    assert_eq!(trim_line(" \t\n"), "");
    assert_eq!(trim_line("\u{3000}x\u{a0}"), "x");
    assert!(is_white_char('\u{2028}'));
    assert!(!is_white_char('x'));
}

#[test]
fn reads_signed_integers() {
    assert_eq!(parse_i32("7"), Some(7));
    assert_eq!(parse_i32("-7"), Some(-7));
    assert_eq!(parse_i32("+7"), Some(7));
    assert_eq!(parse_i32("007"), Some(7));
    assert_eq!(parse_i32("2147483647"), Some(i32::MAX));
    assert_eq!(parse_i32("-2147483648"), Some(i32::MIN));
    assert_eq!(parse_i32("2147483648"), None);
    assert_eq!(parse_i32("-2147483649"), None);
    assert_eq!(parse_i32("99999999999999999999"), None);
    assert_eq!(parse_i32(""), None);
    assert_eq!(parse_i32("-"), None);
    assert_eq!(parse_i32("+"), None);
    assert_eq!(parse_i32("1a"), None);
    assert_eq!(parse_i32("abc"), None);
}

#[test]
fn reads_integers_as_std_does() {
    for s in ["0", "-0", "12", "-12", "+3", "x", "1 ", " 1", "--1", "2147483647", "2147483648"] {
        assert_eq!(parse_i32(s), s.parse::<i32>().ok(), "{}", s);
    }
}

#[test]
fn echo_runs_as_external_program() {
    let (p, a, r) = run_of("echo hello world\n");
    assert_eq!(p, "echo");
    assert_eq!(a, strings(&["echo", "hello", "world"]));
    assert!(r.is_none());
}

#[test]
fn output_redirection_is_taken_out_of_argv() {
    let (p, a, r) = run_of("echo hi > out.txt\n");
    assert_eq!(p, "echo");
    assert_eq!(a, strings(&["echo", "hi"]));
    assert_eq!(r, Some((RedirectOp::Write, Some("out.txt".to_string()))));
}

#[test]
fn append_redirection() {
    let (_, a, r) = run_of("echo more >> out.txt");
    assert_eq!(a, strings(&["echo", "more"]));
    assert_eq!(r, Some((RedirectOp::Append, Some("out.txt".to_string()))));
}

#[test]
fn input_redirection_keeps_the_command() {
    let (p, a, r) = run_of("cat < missing_file.txt");
    assert_eq!(p, "cat");
    assert_eq!(a, strings(&["cat"]));
    assert_eq!(r, Some((RedirectOp::Read, Some("missing_file.txt".to_string()))));
}

#[test]
fn only_first_redirection_counts() {
    let (_, a, r) = run_of("sort < in.txt > out.txt");
    assert_eq!(a, strings(&["sort"]));
    assert_eq!(r, Some((RedirectOp::Read, Some("in.txt".to_string()))));
}

#[test]
fn heredoc_operator_is_stripped() {
    let (_, a, r) = run_of("cat << END");
    assert_eq!(a, strings(&["cat"]));
    assert_eq!(r, Some((RedirectOp::Heredoc, Some("END".to_string()))));
}

#[test]
fn operator_without_target() {
    let (_, a, r) = run_of("ls >");
    assert_eq!(a, strings(&["ls"]));
    assert_eq!(r, Some((RedirectOp::Write, None)));
}

#[test]
fn glued_operator_is_a_plain_argument() {
    let (_, a, r) = run_of("echo >file");
    assert_eq!(a, strings(&["echo", ">file"]));
    assert!(r.is_none());
}

#[test]
fn redirect_cmd_rewrites_argv() {
    let mut args = strings(&["echo", "a", ">", "f", "b"]);
    let r = redirect_cmd(&mut args).unwrap();
    assert_eq!(args, strings(&["echo", "a"]));
    assert_eq!(r.op, RedirectOp::Write);
    assert_eq!(r.target, Some("f".to_string()));
    let mut plain = strings(&["ls", "-l"]);
    assert!(redirect_cmd(&mut plain).is_none());
    assert_eq!(plain, strings(&["ls", "-l"]));
}

#[test]
fn recognizes_operators() {
    assert_eq!(redirect_op(">"), Some(RedirectOp::Write));
    assert_eq!(redirect_op(">>"), Some(RedirectOp::Append));
    assert_eq!(redirect_op("<"), Some(RedirectOp::Read));
    assert_eq!(redirect_op("<<"), Some(RedirectOp::Heredoc));
    assert_eq!(redirect_op("><"), None);
    assert_eq!(redirect_op(">>>"), None);
    assert_eq!(redirect_op(""), None);
}

#[test]
fn exit_with_status() {
    assert!(matches!(Worker::new().handle_line("exit 7\n"), Action::Exit(7)));
    assert!(matches!(Worker::new().handle_line("exit -3"), Action::Exit(-3)));
}

#[test]
fn exit_without_argument() {
    assert!(matches!(Worker::new().handle_line("exit"), Action::Exit(0)));
}

#[test]
fn exit_with_invalid_value_keeps_running() {
    match Worker::new().handle_line("exit abc") {
        Action::InvalidExit(a) => {
            assert_eq!(a, "abc");
            assert_eq!(invalid_value_message(&a), "abc is an invalid value");
        }
        other => panic!("{:?}", other),
    }
}

#[test]
fn cd_with_path_and_home() {
    match Worker::new().handle_line("cd /tmp") {
        Action::ChangeDir(t) => assert_eq!(t.resolve(Some("/home/u".to_string())), "/tmp"),
        other => panic!("{:?}", other),
    }
    match Worker::new().handle_line("cd") {
        Action::ChangeDir(t) => assert_eq!(t.resolve(Some("/home/u".to_string())), "/home/u"),
        other => panic!("{:?}", other),
    }
    assert_eq!(CdTarget::Home.resolve(None), "/");
}

#[test]
fn cd_a_b_a_ends_at_a() {
    let w = Worker::new();
    let mut dir = String::new();
    for line in ["cd A", "cd B", "cd A"] {
        if let Action::ChangeDir(t) = w.handle_line(line) {
            dir = t.resolve(None);
        }
    }
    assert_eq!(dir, "A");
}

#[test]
fn reserved_builtins_are_not_run() {
    for name in ["jobs", "fg"] {
        match Worker::new().handle_line(name) {
            Action::NotCompatible(n) => {
                assert_eq!(n, name);
                assert_eq!(
                    not_compatible_message(&n),
                    format!("{} command is currently not compatible with MySh", name)
                );
            }
            other => panic!("{:?}", other),
        }
    }
}

#[test]
fn builtins_never_fork() {
    for line in ["exit 1", "exit x", "cd /", "cd", "jobs", "fg extra"] {
        assert!(!matches!(Worker::new().handle_line(line), Action::Run(_)), "{}", line);
    }
}

#[test]
fn built_in_dispatch_by_name() {
    let args = strings(&["cd", "/x"]);
    assert!(matches!(built_in_cmd("cd", &args), Some(Action::ChangeDir(CdTarget::Path(_)))));
    let args = strings(&["ls"]);
    assert!(built_in_cmd("ls", &args).is_none());
    let args = strings(&["exit", "4"]);
    assert!(matches!(run_exit(&args), Action::Exit(4)));
    let args = strings(&["cd"]);
    assert!(matches!(run_cd(&args), Action::ChangeDir(CdTarget::Home)));
}

#[test]
fn unknown_program_is_dispatched() {
    let (p, a, _) = run_of("nosuchprogramxyz\n");
    assert_eq!(p, "nosuchprogramxyz");
    assert_eq!(a, strings(&["nosuchprogramxyz"]));
    assert_eq!(unknown_command_message(), "unknown command");
}

#[test]
fn blank_line_dispatches_nothing() {
    assert!(matches!(Worker::new().handle_line("   \n"), Action::Nothing));
    assert!(matches!(Worker::new().handle_line("\t \n"), Action::Nothing));
    assert!(matches!(Worker::new().handle_line(""), Action::Nothing));
}

#[test]
fn repeated_line_gives_same_action() {
    let w = Worker::new();
    assert_eq!(run_of("ls -l"), run_of("ls -l"));
    assert!(matches!(w.handle_line("ls"), Action::Run(_)));
    assert!(matches!(w.handle_line("ls"), Action::Run(_)));
}

#[test]
fn surrounding_spaces_decide_the_same() {
    assert_eq!(run_of("   echo  hi   "), run_of("echo hi"));
}

#[test]
fn message_texts() {
    assert_eq!(prompt(), "$ ");
    assert_eq!(parse_error_message(&ParseError::EmptyCommand), "MySh: command is empty");
    assert_eq!(cd_failed_message("No such file"), "cd failed: No such file");
    assert_eq!(missing_input_message("a.txt"), "MySh: no such file or directory: a.txt");
    assert_eq!(fork_failure_message(), "fork failure");
}

#[test]
fn compares_texts() {
    assert!(text_eq("cd", "cd"));
    assert!(!text_eq("cd", "c"));
    assert!(!text_eq("ab", "ac"));
}
