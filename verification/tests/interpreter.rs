use lisp_shell::scan::{scan, Piece};
use lisp_shell::binding::bind_plan;
use lisp_shell::text::{chars_of, count_string, string_of, trim, trim_end};
use lisp_shell::apply::{analyze_form, eval_analyzed};
use lisp_shell::builtins_file::{
    add_file_builtins, cd_directory, cd_expand_all_dots, cd_outcome, cd_target, expand_tilde, feeds,
    gather, glob_pattern, last_stage, link_stage, pipe_outcome, Link,
};
use lisp_shell::steps::{trampoline_step, Step};
use lisp_shell::builtins_values::{add_values_builtins, make_function};
use lisp_shell::environment::{Environment, FormType, IOState, JobStatus};
use lisp_shell::error::{ErrorKind, Fault};
use lisp_shell::eval::{call_lambda, eval, eval_data, eval_no_values, eval_nr};
use lisp_shell::host::Host;
use lisp_shell::process::{
    as_string, background_flag, capture_flag, command_args, do_command, interrupt, refusal, started,
};
use lisp_shell::types::{
    box_slice_it, Callable, Capture, ExpEnum, Expression, FileState, Lambda, ProcessState, SymLoc,
    Symbols,
};
use nix::spawn::{posix_spawnp, PosixSpawnAttr, PosixSpawnFileActions};
use nix::sys::signal::Signal;
use nix::sys::wait::{waitpid, WaitStatus};
use nix::unistd::Pid;
use std::collections::HashMap;

const ADD: u64 = 1;
const SUB: u64 = 2;
const EQ: u64 = 3;

/// The first process id that the host makes up: above any that the operating
/// system gives out.
const MADE_UP: u32 = 2_000_000_000;

/// A host with a small process layer of its own: a handful of programs that
/// work on text, pipes that hold text, and a record of what it was asked. A
/// process that a test has really started can be handed out by `spawn`.
struct ShellHost {
    reports: Vec<String>,
    next_token: i32,
    next_pid: u32,
    started: Vec<u32>,
    pipes: HashMap<i32, String>,
    write_to_read: HashMap<i32, i32>,
    outputs: HashMap<u32, String>,
    exit_codes: HashMap<u32, i32>,
    stdin: Option<String>,
    spawned: Vec<(String, Option<i32>, Option<i32>)>,
    commands: Vec<(String, Vec<String>, bool, bool)>,
    waits: Vec<u32>,
    drained: Vec<FileState>,
    cwd: String,
    unreadable: bool,
    analyzed: usize,
    analysis_fails: bool,
}

impl ShellHost {
    fn new() -> ShellHost {
        ShellHost {
            reports: Vec::new(),
            next_token: 100,
            next_pid: MADE_UP,
            started: Vec::new(),
            pipes: HashMap::new(),
            write_to_read: HashMap::new(),
            outputs: HashMap::new(),
            exit_codes: HashMap::new(),
            stdin: None,
            spawned: Vec::new(),
            commands: Vec::new(),
            waits: Vec::new(),
            drained: Vec::new(),
            cwd: String::from("/start"),
            unreadable: false,
            analyzed: 0,
            analysis_fails: false,
        }
    }

    fn new_pid(&mut self) -> u32 {
        match self.started.pop() {
            Some(pid) => pid,
            None => {
                self.next_pid += 1;
                self.next_pid
            }
        }
    }
}

fn lines_of(input: &str) -> Vec<String> {
    input.lines().map(|l| format!("{}\n", l)).collect()
}

/// Runs one of the host's programs on `input`: its output and its exit status.
fn run_program(name: &str, args: &[String], input: &str) -> Result<(String, i32), String> {
    match name {
        "echo" => Ok((format!("{}\n", args.join(" ")), 0)),
        "indent" => Ok((format!("  {}  \n", args.join(" ")), 0)),
        "cat" => Ok((input.to_string(), 0)),
        "true" | "sleep" => Ok((String::new(), 0)),
        "false" => Ok((String::new(), 1)),
        "grep" => {
            let kept: Vec<String> = lines_of(input).into_iter().filter(|l| l.contains(&args[0])).collect();
            let status = if kept.is_empty() { 1 } else { 0 };
            Ok((kept.concat(), status))
        }
        "sort" => {
            let mut lines = lines_of(input);
            lines.sort();
            Ok((lines.concat(), 0))
        }
        "head" => {
            let count: usize = args[1].parse().map_err(|_| String::from("head: bad count"))?;
            Ok((lines_of(input).into_iter().take(count).collect::<Vec<String>>().concat(), 0))
        }
        _ => Err(format!("{}: No such file or directory", name)),
    }
}

fn text_of(e: &Expression) -> String {
    match e.get() {
        ExpEnum::String(s, _) => s.clone(),
        ExpEnum::Symbol(s, _) => s.clone(),
        ExpEnum::Int(n) => format!("{}", n),
        _ => String::new(),
    }
}

fn command_line(stage: &Expression) -> (String, Vec<String>) {
    match stage.get() {
        ExpEnum::Vector(items) => {
            let name = text_of(&items[0]);
            let args = items[1..].iter().map(text_of).collect();
            (name, args)
        }
        _ => (text_of(stage), Vec::new()),
    }
}

fn read_items(chars: &[char], pos: &mut usize) -> Vec<Expression> {
    let mut items = Vec::new();
    while *pos < chars.len() {
        let c = chars[*pos];
        if c == ')' {
            *pos += 1;
            break;
        } else if c == '(' {
            *pos += 1;
            items.push(Expression::with_list(read_items(chars, pos)));
        } else if c == ' ' {
            *pos += 1;
        } else {
            let start = *pos;
            while *pos < chars.len() && chars[*pos] != ' ' && chars[*pos] != ')' {
                *pos += 1;
            }
            let word: String = chars[start..*pos].iter().collect();
            match word.parse::<i64>() {
                Ok(n) => items.push(Expression::make_int(n)),
                Err(_) => items.push(sym(&word)),
            }
        }
    }
    items
}

impl Host for ShellHost {
    fn read_form(&mut self, text: &str) -> Result<Expression, String> {
        let chars: Vec<char> = text.chars().collect();
        if self.unreadable || chars.first() != Some(&'(') || chars.last() != Some(&')') {
            return Err(format!("cannot read {}", text));
        }
        let mut pos = 1;
        Ok(Expression::with_list(read_items(&chars, &mut pos)))
    }

    fn analyze(&mut self, form: &Expression, _symbols: &Symbols) -> Result<Expression, String> {
        self.analyzed += 1;
        if self.analysis_fails {
            return Err(String::from("cannot resolve"));
        }
        Ok(form.dup())
    }

    fn call_native(&mut self, id: u64, args: &Vec<Expression>) -> Result<Expression, String> {
        let ints: Vec<i64> = args
            .iter()
            .map(|a| match a.get() {
                ExpEnum::Int(n) => *n,
                _ => 0,
            })
            .collect();
        match id {
            ADD => Ok(Expression::make_int(ints.iter().sum())),
            SUB => Ok(Expression::make_int(ints[0] - ints[1])),
            EQ => {
                if ints[0] == ints[1] {
                    Ok(Expression::make_true())
                } else {
                    Ok(Expression::make_nil())
                }
            }
            _ => Err(format!("no native {}", id)),
        }
    }

    fn create_pipe(&mut self) -> Result<(i32, i32), String> {
        let read_end = self.next_token;
        let write_end = self.next_token + 1;
        self.next_token += 2;
        self.write_to_read.insert(write_end, read_end);
        Ok((read_end, write_end))
    }

    fn spawn(
        &mut self,
        stage: &Expression,
        stdin: Option<i32>,
        stdout: Option<i32>,
    ) -> Result<u32, String> {
        let (name, args) = command_line(stage);
        self.spawned.push((name.clone(), stdin, stdout));
        let input = stdin.and_then(|token| self.pipes.remove(&token)).unwrap_or_default();
        let (output, status) = run_program(&name, &args, &input)?;
        let pid = self.new_pid();
        self.exit_codes.insert(pid, status);
        if let Some(token) = stdout {
            let read_end = self.write_to_read[&token];
            self.pipes.insert(read_end, output);
        }
        Ok(pid)
    }

    fn run_command(
        &mut self,
        command: &str,
        args: &Vec<String>,
        capture: bool,
        background: bool,
    ) -> Result<ProcessState, String> {
        self.commands.push((command.to_string(), args.clone(), capture, background));
        let input = self.stdin.take().unwrap_or_default();
        let (output, status) = run_program(command, args, &input)?;
        let pid = self.new_pid();
        self.exit_codes.insert(pid, status);
        self.outputs.insert(pid, output);
        Ok(ProcessState::Over(pid, status))
    }

    fn output_of(&mut self, pid: u32) -> Result<String, String> {
        self.outputs.get(&pid).cloned().ok_or_else(|| format!("no output of {}", pid))
    }

    fn wait(&mut self, pid: u32) -> Option<i32> {
        self.waits.push(pid);
        if pid > MADE_UP {
            return self.exit_codes.get(&pid).copied();
        }
        match waitpid(Pid::from_raw(pid as i32), None) {
            Ok(WaitStatus::Exited(_, status)) => Some(status),
            _ => None,
        }
    }

    fn replace_stdin(&mut self, fd: i32) -> Result<i32, String> {
        self.stdin = self.pipes.remove(&fd);
        Ok(0)
    }

    fn restore_stdin(&mut self, _saved: i32) -> Result<(), String> {
        self.stdin = None;
        Ok(())
    }

    fn drain_stdin(&mut self, sink: &FileState) -> Result<(), String> {
        self.drained.push(match sink {
            FileState::Stdout => FileState::Stdout,
            FileState::Stderr => FileState::Stderr,
            FileState::Write(n) => FileState::Write(*n),
            _ => FileState::Closed,
        });
        Ok(())
    }

    fn change_dir(&mut self, path: &str) -> Result<(), String> {
        if path.starts_with("/missing") {
            Err(String::from("No such file or directory"))
        } else {
            self.cwd = path.to_string();
            Ok(())
        }
    }

    fn current_dir(&mut self) -> Result<String, String> {
        Ok(self.cwd.clone())
    }

    fn report(&mut self, message: &str) {
        self.reports.push(message.to_string());
    }
}

/// Starts `sleep 30` as a real process.
fn start_sleeper() -> u32 {
    let actions = PosixSpawnFileActions::init().unwrap();
    let attr = PosixSpawnAttr::init().unwrap();
    let pid = posix_spawnp(c"sleep", &actions, &attr, &[c"sleep", c"30"], &[c""; 0]).unwrap();
    pid.as_raw() as u32
}

/// Starts a real process that ends with status 3 after a moment.
fn start_exit_three() -> u32 {
    let actions = PosixSpawnFileActions::init().unwrap();
    let attr = PosixSpawnAttr::init().unwrap();
    let pid = posix_spawnp(c"sh", &actions, &attr, &[c"sh", c"-c", c"sleep 0.2; exit 3"], &[c"PATH=/usr/bin:/bin"]).unwrap();
    pid.as_raw() as u32
}

fn sym(name: &str) -> Expression {
    Expression::alloc_data(ExpEnum::Symbol(name.to_string(), SymLoc::Unresolved))
}

fn num(n: i64) -> Expression {
    Expression::make_int(n)
}

fn text(s: &str) -> Expression {
    Expression::make_string(s.to_string())
}

fn list(items: Vec<Expression>) -> Expression {
    Expression::with_list(items)
}

fn lambda(params: &[&str], body: Expression) -> Expression {
    let mut names: Vec<String> = params.iter().filter(|p| **p != "&rest").map(|p| p.to_string()).collect();
    names.push(String::from("this-fn"));
    Expression::alloc_data(ExpEnum::Lambda(Lambda {
        params: params.iter().map(|p| p.to_string()).collect(),
        body,
        syms: Symbols { namespace: 0, names, captures: Vec::new() },
        namespace: 0,
    }))
}

fn shell() -> (Environment, ShellHost) {
    let mut env = Environment::new();
    add_values_builtins(&mut env.namespaces[0]);
    add_file_builtins(&mut env.namespaces[0]);
    let root = &mut env.namespaces[0];
    root.insert(String::from("if"), make_function(Callable::If), String::new());
    root.insert(String::from("recur"), make_function(Callable::Recur), String::new());
    root.insert(String::from("+"), make_function(Callable::Native(ADD)), String::new());
    root.insert(String::from("-"), make_function(Callable::Native(SUB)), String::new());
    root.insert(String::from("="), make_function(Callable::Native(EQ)), String::new());
    root.insert(String::from("quote"), Expression::alloc_data(ExpEnum::Quote), String::new());
    root.insert(String::from("bquote"), Expression::alloc_data(ExpEnum::BackQuote), String::new());
    root.insert(String::from("def"), Expression::alloc_data(ExpEnum::DeclareDef), String::new());
    root.insert(String::from("var"), Expression::alloc_data(ExpEnum::DeclareVar), String::new());
    (env, ShellHost::new())
}

fn sum_to() -> Expression {
    lambda(
        &["n", "acc"],
        list(vec![
            sym("if"),
            list(vec![sym("="), sym("n"), num(0)]),
            sym("acc"),
            list(vec![
                sym("recur"),
                list(vec![sym("-"), sym("n"), num(1)]),
                list(vec![sym("+"), sym("acc"), sym("n")]),
            ]),
        ]),
    )
}

#[test]
fn literals_evaluate_to_themselves() {
    let (mut env, mut host) = shell();
    for e in [num(7), Expression::make_nil(), Expression::make_true(), Expression::alloc_data(ExpEnum::CodePoint('x'))] {
        assert_eq!(eval(&mut env, &mut host, &e), Ok(e.dup()));
    }
    assert_eq!(env.steps_left, u64::MAX - 4);
    assert_eq!(env.state.eval_level, 0);
}

#[test]
fn markers_and_natives_evaluate_to_nil() {
    let (mut env, mut host) = shell();
    for data in [ExpEnum::Quote, ExpEnum::BackQuote, ExpEnum::Function(Callable::Pid), ExpEnum::File(FileState::Stdout)] {
        assert_eq!(eval_data(&mut env, &mut host, data), Ok(Expression::make_nil()));
    }
}

#[test]
fn unreplaced_markers_are_an_internal_fault() {
    let (mut env, mut host) = shell();
    for data in [ExpEnum::DeclareDef, ExpEnum::DeclareVar, ExpEnum::DeclareFn, ExpEnum::DeclareMacro, ExpEnum::Undefined] {
        let err = eval_data(&mut env, &mut host, data).unwrap_err();
        assert_eq!(err.fault, Fault::IllegalState);
        assert_eq!(err.kind(), ErrorKind::Internal);
    }
}

#[test]
fn interrupt_flag_fails_and_is_cleared() {
    let (mut env, mut host) = shell();
    env.sig_int = true;
    let err = eval(&mut env, &mut host, &num(1)).unwrap_err();
    assert_eq!(err.fault, Fault::Interrupted { in_lambda: false });
    assert_eq!(err.kind(), ErrorKind::Interrupted);
    assert_eq!(err.backtrace, Some(vec![num(1)]));
    assert!(!env.sig_int);
    assert_eq!(eval(&mut env, &mut host, &num(1)), Ok(num(1)));
}

#[test]
fn depth_beyond_the_limit_fails() {
    let (mut env, mut host) = shell();
    env.state.eval_level = 501;
    let err = eval(&mut env, &mut host, &num(1)).unwrap_err();
    assert_eq!(err.fault, Fault::TooDeep);
    assert_eq!(err.kind(), ErrorKind::RecursionLimit);
    assert_eq!(err.backtrace, None);
    env.state.eval_level = 500;
    assert_eq!(eval(&mut env, &mut host, &num(1)), Ok(num(1)));
    assert_eq!(env.state.eval_level, 500);
}

#[test]
fn no_steps_left_fails() {
    let (mut env, mut host) = shell();
    env.steps_left = 0;
    let err = eval(&mut env, &mut host, &num(1)).unwrap_err();
    assert_eq!(err.fault, Fault::OutOfSteps);
    env.steps_left = 3;
    let forever = lambda(&[], list(vec![sym("recur")]));
    let err = call_lambda(&mut env, &mut host, &forever, &vec![], false).unwrap_err();
    assert_eq!(err.fault, Fault::OutOfSteps);
    assert_eq!(env.stack.len(), 0);
}

#[test]
fn suppressed_evaluation_and_pending_return() {
    let (mut env, mut host) = shell();
    env.supress_eval = true;
    let form = list(vec![sym("nothing")]);
    assert_eq!(eval_nr(&mut env, &mut host, &form), Ok(form.dup()));
    env.supress_eval = false;
    env.return_val = Some(num(3));
    assert_eq!(eval_nr(&mut env, &mut host, &num(5)), Ok(Expression::make_nil()));
}

#[test]
fn pending_exit_unwinds_with_nil() {
    let (mut env, mut host) = shell();
    env.exit_code = Some(2);
    assert_eq!(eval(&mut env, &mut host, &num(5)), Ok(Expression::make_nil()));
}

#[test]
fn symbols_resolve_by_their_location() {
    let (mut env, mut host) = shell();
    env.cells.push(num(11));
    env.namespaces[0].insert(String::from("x"), num(22), String::new());
    let slot = env.namespaces[0].find(&String::from("x")).unwrap();
    env.stack.push(num(33));
    let by = |loc| Expression::alloc_data(ExpEnum::Symbol(String::from("x"), loc));
    assert_eq!(eval(&mut env, &mut host, &by(SymLoc::Ref(0))), Ok(num(11)));
    assert_eq!(eval(&mut env, &mut host, &by(SymLoc::Namespace(0, slot))), Ok(num(22)));
    assert_eq!(eval(&mut env, &mut host, &by(SymLoc::Stack(0))), Ok(num(33)));
    assert_eq!(eval(&mut env, &mut host, &by(SymLoc::Unresolved)), Ok(num(22)));
    let err = eval(&mut env, &mut host, &by(SymLoc::Namespace(0, 9999))).unwrap_err();
    assert_eq!(err.fault, Fault::SymbolNotInNamespace(String::from("x"), String::from("root")));
    let err = eval(&mut env, &mut host, &by(SymLoc::Stack(5))).unwrap_err();
    assert_eq!(err.fault, Fault::IllegalState);
}

#[test]
fn dynamic_binding_overrides_a_global_cell() {
    let (mut env, mut host) = shell();
    env.cells.push(num(1));
    let cell = Expression::alloc_data(ExpEnum::Symbol(String::from("v"), SymLoc::Ref(0)));
    env.dynamic_scope.push(lisp_shell::environment::DynBinding { name: String::from("v"), value: num(2) });
    env.dynamic_scope.push(lisp_shell::environment::DynBinding { name: String::from("v"), value: num(3) });
    assert_eq!(eval(&mut env, &mut host, &cell), Ok(num(3)));
    env.dynamic_scope.pop();
    assert_eq!(eval(&mut env, &mut host, &cell), Ok(num(2)));
    env.dynamic_scope.pop();
    assert_eq!(eval(&mut env, &mut host, &cell), Ok(num(1)));
}

#[test]
fn unresolved_symbols() {
    let (mut env, mut host) = shell();
    env.set_var(String::from("GREETING"), String::from("hello"));
    assert_eq!(eval(&mut env, &mut host, &sym("$GREETING")), Ok(text("hello")));
    assert_eq!(eval(&mut env, &mut host, &sym("$UNSET_VAR_X")), Ok(Expression::make_nil()));
    assert_eq!(eval(&mut env, &mut host, &sym(":key")), Ok(sym(":key")));
    let err = eval(&mut env, &mut host, &sym("missing")).unwrap_err();
    assert_eq!(err.fault, Fault::SymbolNotFound(String::from("missing")));
    assert_eq!(err.kind(), ErrorKind::NotFound);
    env.loose_symbols = true;
    assert_eq!(eval(&mut env, &mut host, &sym("missing")), Ok(text("missing")));
}

#[test]
fn too_few_arguments_is_an_arity_error() {
    let (mut env, mut host) = shell();
    let f = lambda(&["a", "b", "c"], sym("a"));
    let err = call_lambda(&mut env, &mut host, &f, &vec![num(1)], true).unwrap_err();
    assert_eq!(err.fault, Fault::WrongParamCount { expected: 3, got: 1, at_least: false });
    assert_eq!(err.kind(), ErrorKind::Arity);
    assert_eq!(err.message(), "wrong number of parameters, expected 3 got 1");
    let err = call_lambda(&mut env, &mut host, &f, &vec![num(1), num(2), num(3), num(4)], false).unwrap_err();
    assert_eq!(err.fault, Fault::WrongParamCount { expected: 3, got: 4, at_least: false });
    assert_eq!(env.stack.len(), 0);
    assert_eq!(env.stack_frames.len(), 0);
}

#[test]
fn rest_parameter_takes_what_remains() {
    let (mut env, mut host) = shell();
    let f = lambda(&["a", "&rest", "more"], sym("more"));
    assert_eq!(call_lambda(&mut env, &mut host, &f, &vec![num(1)], true), Ok(Expression::make_nil()));
    assert_eq!(
        call_lambda(&mut env, &mut host, &f, &vec![num(1), num(2), num(3), num(4)], true),
        Ok(list(vec![num(2), num(3), num(4)]))
    );
    let first = lambda(&["a", "&rest", "more"], sym("a"));
    assert_eq!(call_lambda(&mut env, &mut host, &first, &vec![num(9), num(2)], true), Ok(num(9)));
    let err = call_lambda(&mut env, &mut host, &f, &vec![], true).unwrap_err();
    assert_eq!(err.fault, Fault::WrongParamCount { expected: 1, got: 0, at_least: true });
    assert_eq!(err.message(), "wrong number of parameters, expected at least 1 got 0");
}

#[test]
fn misplaced_rest_marker_is_malformed() {
    let (mut env, mut host) = shell();
    let cases = [
        (vec!["a", "&rest"], Fault::RestWithoutName),
        (vec!["a", "&rest", "&rest"], Fault::RestTwice),
        (vec!["a", "&rest", "b", "c"], Fault::RestNotLast),
    ];
    for (params, fault) in cases {
        let f = lambda(&params, sym("a"));
        let err = call_lambda(&mut env, &mut host, &f, &vec![num(1), num(2)], false).unwrap_err();
        assert_eq!(err.fault, fault);
        assert_eq!(err.kind(), ErrorKind::MalformedSyntax);
    }
}

#[test]
fn calling_what_is_no_lambda_is_a_type_error() {
    let (mut env, mut host) = shell();
    let err = call_lambda(&mut env, &mut host, &num(3), &vec![], true).unwrap_err();
    assert_eq!(err.fault, Fault::LambdaRequired);
    assert_eq!(err.kind(), ErrorKind::Type);
}

#[test]
fn recur_sums_ten_thousand_numbers() {
    let (mut env, mut host) = shell();
    env.stack.push(num(-1));
    let r = call_lambda(&mut env, &mut host, &sum_to(), &vec![num(10000), num(0)], true);
    assert_eq!(r, Ok(num(50005000)));
    assert_eq!(env.stack.len(), 1);
    assert_eq!(env.stack_frames.len(), 0);
    assert_eq!(env.stack_frame_base, 0);
    assert_eq!(env.state.eval_level, 0);
    assert_eq!(env.state.recur_num_args, None);
}

#[test]
fn recur_through_a_call_form() {
    let (mut env, mut host) = shell();
    env.namespaces[0].insert(String::from("sum-to"), sum_to(), String::new());
    let call = list(vec![sym("sum-to"), num(100), num(0)]);
    assert_eq!(eval(&mut env, &mut host, &call), Ok(num(5050)));
}

#[test]
fn recur_outside_tail_position_is_rejected() {
    let (mut env, mut host) = shell();
    let right_count = lambda(&["n"], list(vec![sym("values"), list(vec![sym("recur"), num(1)]), num(2)]));
    let err = call_lambda(&mut env, &mut host, &right_count, &vec![num(1)], true).unwrap_err();
    assert_eq!(err.fault, Fault::NonTailRecur);
    assert_eq!(err.kind(), ErrorKind::RecursionLimit);
    assert_eq!(env.state.recur_num_args, None);
    let wrong_count = lambda(&["n"], list(vec![sym("values"), list(vec![sym("recur"), num(1), num(2)]), num(2)]));
    let err = call_lambda(&mut env, &mut host, &wrong_count, &vec![num(1)], true).unwrap_err();
    assert_eq!(err.fault, Fault::NonTailRecur);
}

#[test]
fn recur_with_wrong_count_in_tail_position_is_an_arity_error() {
    let (mut env, mut host) = shell();
    let f = lambda(&["a", "b"], list(vec![sym("recur"), num(1)]));
    let err = call_lambda(&mut env, &mut host, &f, &vec![num(1), num(2)], true).unwrap_err();
    assert_eq!(err.fault, Fault::WrongParamCount { expected: 2, got: 1, at_least: false });
    assert_eq!(env.stack.len(), 0);
}

#[test]
fn deferred_calls_hop_between_lambdas() {
    let (mut env, mut host) = shell();
    let even = lambda(
        &["n"],
        list(vec![
            sym("if"),
            list(vec![sym("="), sym("n"), num(0)]),
            Expression::make_true(),
            list(vec![sym("odd?"), list(vec![sym("-"), sym("n"), num(1)])]),
        ]),
    );
    let odd = lambda(
        &["n"],
        list(vec![
            sym("if"),
            list(vec![sym("="), sym("n"), num(0)]),
            Expression::make_nil(),
            list(vec![sym("even?"), list(vec![sym("-"), sym("n"), num(1)])]),
        ]),
    );
    env.namespaces[0].insert(String::from("even?"), even, String::new());
    env.namespaces[0].insert(String::from("odd?"), odd, String::new());
    env.allow_lazy_fn = true;
    let call = list(vec![sym("even?"), num(3000)]);
    assert_eq!(eval(&mut env, &mut host, &call), Ok(Expression::make_true()));
    let call = list(vec![sym("even?"), num(3001)]);
    assert_eq!(eval(&mut env, &mut host, &call), Ok(Expression::make_nil()));
    assert_eq!(env.stack.len(), 0);
}

#[test]
fn a_lambda_binds_itself() {
    let (mut env, mut host) = shell();
    let f = lambda(&["a"], sym("this-fn"));
    assert_eq!(call_lambda(&mut env, &mut host, &f, &vec![num(1)], true), Ok(f.dup()));
}

#[test]
fn captured_values_fill_their_slots() {
    let (mut env, mut host) = shell();
    let f = Expression::alloc_data(ExpEnum::Lambda(Lambda {
        params: vec![String::from("a")],
        body: list(vec![sym("+"), sym("a"), sym("seen"), sym("also")]),
        syms: Symbols {
            namespace: 0,
            names: vec![String::from("a"), String::from("this-fn"), String::from("seen"), String::from("also")],
            captures: vec![Capture { slot: 2, value: num(40) }, Capture { slot: 3, value: num(2) }],
        },
        namespace: 0,
    }));
    assert_eq!(call_lambda(&mut env, &mut host, &f, &vec![num(100)], true), Ok(num(142)));
}

#[test]
fn a_closure_template_captures_anew() {
    let (mut env, mut host) = shell();
    let template = Expression::alloc_data(ExpEnum::Wrapper(Expression::alloc_data(ExpEnum::Lambda(Lambda {
        params: vec![],
        body: sym("free"),
        syms: Symbols {
            namespace: 0,
            names: vec![String::from("this-fn"), String::from("free")],
            captures: vec![Capture { slot: 1, value: Expression::alloc_data(ExpEnum::Undefined) }],
        },
        namespace: 0,
    }))));
    env.namespaces[0].insert(String::from("free"), num(77), String::new());
    let made = eval(&mut env, &mut host, &template).unwrap();
    match made.get() {
        ExpEnum::Lambda(l) => assert_eq!(l.syms.captures, vec![Capture { slot: 1, value: num(77) }]),
        _ => panic!("a lambda was expected"),
    }
    assert_eq!(call_lambda(&mut env, &mut host, &made, &vec![], true), Ok(num(77)));
    let plain = Expression::alloc_data(ExpEnum::Wrapper(num(5)));
    assert_eq!(eval(&mut env, &mut host, &plain), Ok(num(5)));
}

#[test]
fn call_restores_scope_and_flags_on_error() {
    let (mut env, mut host) = shell();
    env.namespaces.push(lisp_shell::environment::Namespace::new(String::from("other")));
    env.namespace = 1;
    env.loose_symbols = true;
    env.stack.push(num(1));
    env.stack_frame_base = 0;
    let failing = lambda(&["a"], list(vec![sym("values-nth")]));
    let err = call_lambda(&mut env, &mut host, &failing, &vec![num(1)], true).unwrap_err();
    assert_eq!(err.fault, Fault::Usage(Callable::ValuesNth));
    assert_eq!(env.namespace, 1);
    assert!(env.loose_symbols);
    assert_eq!(env.stack, vec![num(1)]);
    assert_eq!(env.stack_frames.len(), 0);
    assert_eq!(env.stack_frame_base, 0);
}

#[test]
fn macros_get_their_arguments_unevaluated() {
    let (mut env, mut host) = shell();
    let first_form = Expression::alloc_data(ExpEnum::Macro(Lambda {
        params: vec![String::from("a"), String::from("b")],
        body: sym("a"),
        syms: Symbols { namespace: 0, names: vec![String::from("a"), String::from("b"), String::from("this-fn")], captures: vec![] },
        namespace: 0,
    }));
    env.namespaces[0].insert(String::from("first-form"), first_form, String::new());
    let call = list(vec![sym("first-form"), list(vec![sym("+"), num(1), num(2)]), list(vec![sym("no-such-thing")])]);
    assert_eq!(eval(&mut env, &mut host, &call), Ok(num(3)));
}

#[test]
fn call_forms_that_cannot_be_applied() {
    let (mut env, mut host) = shell();
    let empty = list(vec![]);
    assert_eq!(eval(&mut env, &mut host, &empty).unwrap_err().fault, Fault::NoCommand);
    let number_first = list(vec![num(1), num(2)]);
    let err = eval(&mut env, &mut host, &number_first).unwrap_err();
    assert_eq!(err.fault, Fault::InvalidCommand);
    env.form_type = FormType::FormOnly;
    let unknown = list(vec![sym("no-such-program"), num(2)]);
    let err = eval(&mut env, &mut host, &unknown).unwrap_err();
    assert_eq!(err.fault, Fault::FormNotFound(String::from("no-such-program")));
    assert_eq!(err.kind(), ErrorKind::NotFound);
    assert_eq!(err.message(), "Not a valid form no-such-program, not found.");
    assert!(host.commands.is_empty());
    let nameless = list(vec![sym("")]);
    assert_eq!(eval(&mut env, &mut host, &nameless), Ok(Expression::make_nil()));
}

#[test]
fn pair_forms_are_calls_too() {
    let (mut env, mut host) = shell();
    let tail = Expression::alloc_data(ExpEnum::Pair(
        num(1),
        Expression::alloc_data(ExpEnum::Pair(num(2), Expression::make_nil())),
    ));
    let call = Expression::alloc_data(ExpEnum::Pair(sym("+"), tail));
    assert_eq!(eval(&mut env, &mut host, &call), Ok(num(3)));
    let call = Expression::alloc_data(ExpEnum::Pair(sym("+"), list(vec![num(4), num(5)])));
    assert_eq!(eval(&mut env, &mut host, &call), Ok(num(9)));
}

#[test]
fn special_forms() {
    let (mut env, mut host) = shell();
    let quoted = list(vec![sym("quote"), list(vec![sym("+"), num(1)])]);
    assert_eq!(eval(&mut env, &mut host, &quoted), Ok(list(vec![sym("+"), num(1)])));
    let def = list(vec![sym("def"), sym("answer"), list(vec![sym("+"), num(40), num(2)])]);
    assert_eq!(eval(&mut env, &mut host, &def), Ok(num(42)));
    assert_eq!(eval(&mut env, &mut host, &sym("answer")), Ok(num(42)));
    let template = list(vec![sym("bquote"), list(vec![num(1), sym(","), sym("answer"), sym(",@"), list(vec![sym("quote"), list(vec![num(2), num(3)])]), list(vec![sym("x")])])]);
    assert_eq!(
        eval(&mut env, &mut host, &template),
        Ok(list(vec![num(1), num(42), num(2), num(3), list(vec![sym("x")])]))
    );
    let bad = list(vec![sym("quote")]);
    assert_eq!(eval(&mut env, &mut host, &bad).unwrap_err().fault, Fault::BadForm);
    let local = lambda(&["a"], list(vec![sym("values"), list(vec![sym("var"), sym("a"), num(8)]), sym("a")]));
    let both = call_lambda(&mut env, &mut host, &local, &vec![num(1)], true).unwrap();
    assert_eq!(both, Expression::alloc_data(ExpEnum::Values(vec![num(8), num(8)])));
}

#[test]
fn multi_value_results() {
    let (mut env, mut host) = shell();
    let three = list(vec![sym("values"), num(1), text("str"), list(vec![sym("+"), num(2), num(3)])]);
    let made = eval(&mut env, &mut host, &three).unwrap();
    assert_eq!(made, Expression::alloc_data(ExpEnum::Values(vec![num(1), text("str"), num(5)])));
    let length = list(vec![sym("values-length"), three.dup()]);
    assert_eq!(eval(&mut env, &mut host, &length), Ok(num(3)));
    let none = list(vec![sym("values-length"), list(vec![sym("values")])]);
    assert_eq!(eval(&mut env, &mut host, &none), Ok(num(0)));
    for (index, value) in [(0, num(1)), (1, text("str")), (2, num(5))] {
        let nth = list(vec![sym("values-nth"), num(index), three.dup()]);
        assert_eq!(eval(&mut env, &mut host, &nth), Ok(value));
    }
    for index in [3, -1] {
        let nth = list(vec![sym("values-nth"), num(index), three.dup()]);
        let err = eval(&mut env, &mut host, &nth).unwrap_err();
        assert_eq!(err.fault, Fault::ValuesRange { index, len: 3 });
    }
    let err = eval(&mut env, &mut host, &list(vec![sym("values-nth"), num(3), three.dup()])).unwrap_err();
    assert_eq!(err.message(), "values-nth index 3 out of range 3");
    let err = eval(&mut env, &mut host, &list(vec![sym("values-nth"), text("0"), three.dup()])).unwrap_err();
    assert_eq!(err.fault, Fault::Usage(Callable::ValuesNth));
    let err = eval(&mut env, &mut host, &list(vec![sym("values-length"), num(0)])).unwrap_err();
    assert_eq!(err.fault, Fault::Usage(Callable::ValuesLength));
    assert_eq!(err.message(), "values-length takes one form- a muti values object");
}

#[test]
fn multi_value_result_in_scalar_context() {
    let (mut env, mut host) = shell();
    let three = Expression::alloc_data(ExpEnum::Values(vec![num(1), num(2), num(3)]));
    let none = Expression::alloc_data(ExpEnum::Values(vec![]));
    assert_eq!(eval(&mut env, &mut host, &three), Ok(num(1)));
    assert_eq!(eval(&mut env, &mut host, &none), Ok(Expression::make_nil()));
    let nested = Expression::alloc_data(ExpEnum::Values(vec![three.dup(), num(9)]));
    assert_eq!(eval(&mut env, &mut host, &nested), Ok(num(1)));
    env.namespaces[0].insert(String::from("kept"), three.dup(), String::new());
    env.namespaces[0].insert(String::from("kept-none"), none.dup(), String::new());
    assert_eq!(eval(&mut env, &mut host, &sym("kept")), Ok(three.dup()));
    assert_eq!(eval_no_values(&mut env, &mut host, &sym("kept")), Ok(num(1)));
    assert_eq!(eval_no_values(&mut env, &mut host, &sym("kept-none")), Ok(Expression::make_nil()));
    assert_eq!(eval_no_values(&mut env, &mut host, &num(4)), Ok(num(4)));
    let call = list(vec![sym("values"), num(7), num(8)]);
    assert_eq!(eval_no_values(&mut env, &mut host, &call), Ok(num(7)));
}

#[test]
fn registered_natives_are_documented() {
    let (env, _host) = shell();
    let root = &env.namespaces[0];
    for (name, callable) in [
        ("values", Callable::Values),
        ("values-nth", Callable::ValuesNth),
        ("values-length", Callable::ValuesLength),
        ("cd", Callable::Cd),
        ("fs-exists?", Callable::PathExists),
        ("fs-file?", Callable::IsFile),
        ("fs-dir?", Callable::IsDir),
        ("pipe", Callable::Pipe),
        ("wait", Callable::Wait),
        ("pid", Callable::Pid),
        ("glob", Callable::Glob),
    ] {
        let at = root.find(&name.to_string()).unwrap();
        assert_eq!(root.entries[at].value, make_function(callable));
        assert!(root.entries[at].doc.starts_with(&format!("Usage: ({}", name)));
    }
    assert_eq!(root.get(&String::from("values-nope")), None);
}

#[test]
fn registering_twice_adds_nothing() {
    let mut env = Environment::new();
    add_values_builtins(&mut env.namespaces[0]);
    add_file_builtins(&mut env.namespaces[0]);
    let count = env.namespaces[0].entries.len();
    assert_eq!(count, 11);
    add_values_builtins(&mut env.namespaces[0]);
    add_file_builtins(&mut env.namespaces[0]);
    assert_eq!(env.namespaces[0].entries.len(), count);
}

#[test]
fn substitution_of_variables() {
    let (mut env, mut host) = shell();
    env.set_var(String::from("USER"), String::from("ada"));
    env.set_var(String::from("HOME"), String::from("/home/ada"));
    let cases = [
        ("$UNSET_VAR_X", ""),
        ("$USER", "ada"),
        ("hi $USER and welcome", "hi ada and welcome"),
        ("hi $USER, welcome", "hi  welcome"),
        ("$USER:$HOME", "ada:/home/ada"),
        ("\"$USER\"", "\"ada\""),
        ("$USER$HOME", "adaHOME"),
        ("cost: \\$5", "cost: $5"),
        ("a\\b", "a\\b"),
        ("no dollars here", "no dollars here"),
        ("$USER\tand", "ada\tand"),
        ("$UNSET_VAR_X.", ""),
    ];
    for (input, expected) in cases {
        assert_eq!(eval(&mut env, &mut host, &text(input)), Ok(text(expected)), "{}", input);
    }
    let done = Expression::alloc_data(ExpEnum::String(String::from("$USER"), true));
    assert_eq!(eval(&mut env, &mut host, &done), Ok(done.dup()));
    env.str_ignore_expand = true;
    assert_eq!(eval(&mut env, &mut host, &text("$USER")), Ok(text("$USER")));
}

#[test]
fn command_substitution() {
    let (mut env, mut host) = shell();
    env.state.stdout_status = Some(IOState::Inherit);
    env.in_pipe = true;
    env.state.pipe_pgid = Some(5);
    let r = eval(&mut env, &mut host, &text("prefix $(echo mid) suffix"));
    assert_eq!(r, Ok(text("prefix mid suffix")));
    assert_eq!(host.commands, vec![(String::from("echo"), vec![String::from("mid")], true, false)]);
    assert_eq!(env.state.stdout_status, Some(IOState::Inherit));
    assert_eq!(env.state.stderr_status, None);
    assert!(env.in_pipe);
    assert_eq!(env.state.pipe_pgid, Some(5));
    let nested = eval(&mut env, &mut host, &text("$(echo (echo inner) there)!"));
    assert_eq!(nested, Ok(text("inner\n there!")));
}

#[test]
fn unterminated_command_substitution_is_malformed() {
    let (mut env, mut host) = shell();
    for input in ["$(", "before $(echo mid", "$(echo (a)", "$(echo \\)"] {
        let err = eval(&mut env, &mut host, &text(input)).unwrap_err();
        assert_eq!(err.fault, Fault::UnterminatedCommand, "{}", input);
        assert_eq!(err.kind(), ErrorKind::MalformedSyntax);
    }
    assert!(host.commands.is_empty());
}

#[test]
fn failing_command_substitution_restores_redirection() {
    let (mut env, mut host) = shell();
    env.state.stdout_status = Some(IOState::Null);
    env.form_type = FormType::FormOnly;
    let err = eval(&mut env, &mut host, &text("x $(no-such-form 1) y")).unwrap_err();
    assert_eq!(err.fault, Fault::FormNotFound(String::from("no-such-form")));
    assert_eq!(env.state.stdout_status, Some(IOState::Null));
    assert_eq!(env.state.stderr_status, None);
    let err = eval(&mut env, &mut host, &text("x $() y")).unwrap_err();
    assert_eq!(err.fault, Fault::NoCommand);
}

#[test]
fn pipeline_of_echo_and_grep() {
    let (mut env, mut host) = shell();
    env.state.stdout_status = Some(IOState::Pipe);
    let pipeline = list(vec![
        sym("pipe"),
        list(vec![sym("echo"), text("one\ntwo\nthree")]),
        list(vec![sym("grep"), sym("two")]),
    ]);
    let result = eval(&mut env, &mut host, &pipeline).unwrap();
    assert_eq!(as_string(&mut host, &result), Ok(String::from("two\n")));
    assert_eq!(host.spawned, vec![(String::from("echo"), None, Some(101))]);
    assert_eq!(host.commands, vec![(String::from("grep"), vec![String::from("two")], true, false)]);
    assert_eq!(env.jobs.len(), 1);
    assert_eq!(env.jobs[0].pids.len(), 1);
    assert_eq!(env.jobs[0].names, vec![String::from("echo")]);
    assert_eq!(env.jobs[0].status, JobStatus::Running);
    assert_eq!(env.state.pipe_pgid, None);
    assert!(host.reports.is_empty());
}

#[test]
fn pipeline_of_three_stages_is_wired_in_order() {
    let (mut env, mut host) = shell();
    env.state.stdout_status = Some(IOState::Pipe);
    let pipeline = list(vec![
        sym("pipe"),
        list(vec![sym("echo"), text("b\na\nc")]),
        list(vec![sym("sort")]),
        list(vec![sym("head"), sym("-n"), num(2)]),
    ]);
    let result = eval(&mut env, &mut host, &pipeline).unwrap();
    assert_eq!(as_string(&mut host, &result), Ok(String::from("a\nb\n")));
    assert_eq!(
        host.spawned,
        vec![(String::from("echo"), None, Some(101)), (String::from("sort"), Some(100), Some(103))]
    );
    assert_eq!(env.jobs[0].pids.len(), 2);
    assert_eq!(env.jobs[0].names, vec![String::from("echo"), String::from("sort")]);
}

#[test]
fn failing_last_stage_interrupts_the_feeding_process() {
    let (mut env, mut host) = shell();
    let sleeper = start_sleeper();
    host.started.push(sleeper);
    let pipeline = list(vec![
        sym("pipe"),
        list(vec![sym("sleep"), num(30)]),
        list(vec![sym("values-nth")]),
    ]);
    let err = eval(&mut env, &mut host, &pipeline).unwrap_err();
    assert_eq!(err.fault, Fault::Usage(Callable::ValuesNth));
    assert_eq!(env.jobs.len(), 1);
    assert_eq!(env.jobs[0].pids, vec![sleeper]);
    let ended = waitpid(Pid::from_raw(sleeper as i32), None);
    assert_eq!(ended, Ok(WaitStatus::Signaled(Pid::from_raw(sleeper as i32), Signal::SIGINT, false)));
    assert!(host.reports.is_empty());
    assert_eq!(env.state.pipe_pgid, None);
}

#[test]
fn interrupting_a_process_that_is_gone_is_reported() {
    let (mut env, mut host) = shell();
    let pipeline = list(vec![
        sym("pipe"),
        list(vec![sym("echo"), sym("a")]),
        list(vec![sym("values-nth")]),
    ]);
    let err = eval(&mut env, &mut host, &pipeline).unwrap_err();
    assert_eq!(err.fault, Fault::Usage(Callable::ValuesNth));
    assert_eq!(host.reports.len(), 1);
    assert!(host.reports[0].starts_with("ERROR, sending SIGINT to pid 2000000001: "));
    assert!(host.reports[0].contains("No such process"));
}

#[test]
fn a_pipeline_that_succeeds_interrupts_nothing() {
    let (mut env, mut host) = shell();
    let sleeper = start_sleeper();
    host.started.push(sleeper);
    let pipeline = list(vec![sym("pipe"), list(vec![sym("sleep"), num(30)]), num(1)]);
    assert_eq!(eval(&mut env, &mut host, &pipeline), Ok(num(1)));
    assert_eq!(waitpid(Pid::from_raw(sleeper as i32), Some(nix::sys::wait::WaitPidFlag::WNOHANG)), Ok(WaitStatus::StillAlive));
    assert_eq!(interrupt(sleeper), None);
    let ended = waitpid(Pid::from_raw(sleeper as i32), None);
    assert_eq!(ended, Ok(WaitStatus::Signaled(Pid::from_raw(sleeper as i32), Signal::SIGINT, false)));
    assert!(interrupt(0).is_some());
    assert!(interrupt(u32::MAX).is_some());
}

#[test]
fn pipeline_without_stages_and_with_one() {
    let (mut env, mut host) = shell();
    assert_eq!(eval(&mut env, &mut host, &list(vec![sym("pipe")])), Ok(Expression::make_nil()));
    assert_eq!(env.jobs.len(), 1);
    assert!(env.jobs[0].pids.is_empty());
    assert_eq!(eval(&mut env, &mut host, &list(vec![sym("pipe"), num(4)])), Ok(num(4)));
    assert_eq!(env.jobs.len(), 2);
    assert!(host.spawned.is_empty());
}

#[test]
fn pipeline_that_ends_in_a_file() {
    let (mut env, mut host) = shell();
    env.namespaces[0].insert(String::from("out"), Expression::alloc_data(ExpEnum::Process(ProcessState::Over(1, 0))), String::new());
    env.cells.push(Expression::alloc_data(ExpEnum::File(FileState::Write(7))));
    env.cells.push(Expression::alloc_data(ExpEnum::File(FileState::Read(8))));
    let sink = |cell| Expression::alloc_data(ExpEnum::Symbol(String::from("f"), SymLoc::Ref(cell)));
    let to_file = list(vec![sym("pipe"), list(vec![sym("echo"), sym("data")]), sink(0)]);
    let written = eval(&mut env, &mut host, &to_file).unwrap();
    assert_eq!(written, Expression::alloc_data(ExpEnum::File(FileState::Write(7))));
    assert_eq!(host.drained, vec![FileState::Write(7)]);
    let to_reader = list(vec![sym("pipe"), list(vec![sym("echo"), sym("data")]), sink(1)]);
    let err = eval(&mut env, &mut host, &to_reader).unwrap_err();
    assert_eq!(err.fault, Fault::PipeEndNotWritable);
    assert_eq!(err.kind(), ErrorKind::IO);
    assert_eq!(host.drained.len(), 1);
}

#[test]
fn wait_on_a_finished_process_does_not_block() {
    let (mut env, mut host) = shell();
    let over = Expression::alloc_data(ExpEnum::Process(ProcessState::Over(4242, 3)));
    let call = list(vec![sym("wait"), over]);
    assert_eq!(eval(&mut env, &mut host, &call), Ok(num(3)));
    assert!(host.waits.is_empty());
}

#[test]
fn wait_on_a_live_process_id_blocks_for_its_status() {
    let (mut env, mut host) = shell();
    let pid = start_exit_three();
    let call = list(vec![sym("wait"), num(pid as i64)]);
    assert_eq!(eval(&mut env, &mut host, &call), Ok(num(3)));
    assert_eq!(host.waits, vec![pid]);
    let started = eval(&mut env, &mut host, &list(vec![sym("false")])).unwrap();
    let made_up = match started.get() {
        ExpEnum::Process(ProcessState::Over(pid, 1)) => *pid,
        _ => panic!("a finished process was expected"),
    };
    let running = Expression::alloc_data(ExpEnum::Process(ProcessState::Running(made_up)));
    assert_eq!(eval(&mut env, &mut host, &list(vec![sym("wait"), running])), Ok(num(1)));
    let unknown = list(vec![sym("wait"), num(1)]);
    assert_eq!(eval(&mut env, &mut host, &unknown), Ok(Expression::make_nil()));
}

#[test]
fn wait_and_pid_reject_other_values() {
    let (mut env, mut host) = shell();
    let err = eval(&mut env, &mut host, &list(vec![sym("wait"), text("1")])).unwrap_err();
    assert_eq!(err.fault, Fault::Operand(Callable::Wait));
    assert_eq!(err.message(), "wait error: not a pid");
    let err = eval(&mut env, &mut host, &list(vec![sym("wait"), num(-1)])).unwrap_err();
    assert_eq!(err.fault, Fault::Operand(Callable::Wait));
    let err = eval(&mut env, &mut host, &list(vec![sym("wait")])).unwrap_err();
    assert_eq!(err.fault, Fault::Usage(Callable::Wait));
    assert_eq!(err.message(), "wait takes one form (a pid to wait on)");
    let err = eval(&mut env, &mut host, &list(vec![sym("pid"), num(1)])).unwrap_err();
    assert_eq!(err.fault, Fault::Operand(Callable::Pid));
    assert_eq!(err.kind(), ErrorKind::Type);
    let err = eval(&mut env, &mut host, &list(vec![sym("pid"), num(1), num(2)])).unwrap_err();
    assert_eq!(err.fault, Fault::Usage(Callable::Pid));
    assert!(host.waits.is_empty());
}

#[test]
fn pid_of_a_process_in_either_state() {
    let (mut env, mut host) = shell();
    let running = Expression::alloc_data(ExpEnum::Process(ProcessState::Running(77)));
    let over = Expression::alloc_data(ExpEnum::Process(ProcessState::Over(78, 1)));
    assert_eq!(eval(&mut env, &mut host, &list(vec![sym("pid"), running])), Ok(num(77)));
    assert_eq!(eval(&mut env, &mut host, &list(vec![sym("pid"), over])), Ok(num(78)));
    let started = eval(&mut env, &mut host, &list(vec![sym("pid"), list(vec![sym("true")])])).unwrap();
    assert!(matches!(started.get(), ExpEnum::Int(n) if *n > 0));
}

#[test]
fn external_commands_get_loose_arguments() {
    let (mut env, mut host) = shell();
    env.state.stdout_status = Some(IOState::Pipe);
    let call = list(vec![sym("echo"), sym("bare"), text("quoted text"), num(3), list(vec![sym("+"), num(1), num(1)])]);
    let r = eval(&mut env, &mut host, &call).unwrap();
    assert_eq!(as_string(&mut host, &r), Ok(String::from("bare quoted text 3 2\n")));
    assert!(!env.loose_symbols);
    env.set_var(String::from("TOOL"), String::from("echo"));
    let call = list(vec![sym("$TOOL"), sym("x")]);
    let r = eval(&mut env, &mut host, &call).unwrap();
    assert_eq!(as_string(&mut host, &r), Ok(String::from("x\n")));
    let by_text = list(vec![text("  echo  "), sym("y")]);
    let r = eval(&mut env, &mut host, &by_text).unwrap();
    assert_eq!(as_string(&mut host, &r), Ok(String::from("y\n")));
    let missing = list(vec![sym("surely-no-such-program-here")]);
    let err = eval(&mut env, &mut host, &missing).unwrap_err();
    assert_eq!(err.kind(), ErrorKind::Process);
}

#[test]
fn change_of_directory() {
    let (mut env, mut host) = shell();
    env.set_var(String::from("HOME"), String::from("/home/ada"));
    assert_eq!(eval(&mut env, &mut host, &list(vec![sym("cd")])), Ok(Expression::make_true()));
    assert_eq!(host.cwd, "/home/ada");
    assert_eq!(env.get_var(&String::from("OLDPWD")), Some(String::from("/start")));
    assert_eq!(env.get_var(&String::from("PWD")), Some(String::from("/home/ada")));
    assert_eq!(eval(&mut env, &mut host, &list(vec![sym("cd"), text("~/src")])), Ok(Expression::make_true()));
    assert_eq!(host.cwd, "/home/ada/src");
    assert_eq!(eval(&mut env, &mut host, &list(vec![sym("cd"), sym("-")])), Ok(Expression::make_true()));
    assert_eq!(host.cwd, "/home/ada");
    assert_eq!(eval(&mut env, &mut host, &list(vec![sym("cd"), text("....")])), Ok(Expression::make_true()));
    assert_eq!(host.cwd, "../../../");
    assert_eq!(eval(&mut env, &mut host, &list(vec![sym("cd"), sym("glob")])), Ok(Expression::make_true()));
    assert_eq!(host.cwd, "glob");
    assert_eq!(eval(&mut env, &mut host, &list(vec![sym("cd"), text("/missing/dir")])), Ok(Expression::make_nil()));
    assert_eq!(host.reports, vec![String::from("Error changing to /missing/dir, No such file or directory")]);
    assert_eq!(host.cwd, "glob");
    let err = eval(&mut env, &mut host, &list(vec![sym("cd"), text("a"), text("b")])).unwrap_err();
    assert_eq!(err.fault, Fault::Usage(Callable::Cd));
    assert_eq!(err.message(), "cd can not have more then one form");
}

#[test]
fn tests_on_paths() {
    let (mut env, mut host) = shell();
    let ask = |name: &str, path: &str| list(vec![sym(name), text(path)]);
    assert_eq!(eval(&mut env, &mut host, &ask("fs-exists?", "/")), Ok(Expression::make_true()));
    assert_eq!(eval(&mut env, &mut host, &ask("fs-dir?", "/")), Ok(Expression::make_true()));
    assert_eq!(eval(&mut env, &mut host, &ask("fs-file?", "/")), Ok(Expression::make_nil()));
    assert_eq!(eval(&mut env, &mut host, &ask("fs-exists?", "/no/such/path/here")), Ok(Expression::make_nil()));
    assert_eq!(eval(&mut env, &mut host, &ask("fs-file?", "src/lib.rs")), Ok(Expression::make_true()));
    assert_eq!(eval(&mut env, &mut host, &ask("fs-dir?", "src/lib.rs")), Ok(Expression::make_nil()));
    env.set_var(String::from("HOME"), String::from("/"));
    assert_eq!(eval(&mut env, &mut host, &ask("fs-dir?", "~")), Ok(Expression::make_true()));
    let err = eval(&mut env, &mut host, &list(vec![sym("fs-file?"), num(1)])).unwrap_err();
    assert_eq!(err.fault, Fault::Operand(Callable::IsFile));
    assert_eq!(err.message(), "fs-file? path must be a string");
    let err = eval(&mut env, &mut host, &list(vec![sym("fs-dir?")])).unwrap_err();
    assert_eq!(err.fault, Fault::Usage(Callable::IsDir));
    assert_eq!(err.message(), "fs-dir? takes a string (a path)");
    let err = eval(&mut env, &mut host, &list(vec![sym("fs-exists?"), text("a"), text("b")])).unwrap_err();
    assert_eq!(err.fault, Fault::Usage(Callable::PathExists));
}

#[test]
fn globs_expand_to_paths() {
    let (mut env, mut host) = shell();
    let found = eval(&mut env, &mut host, &list(vec![sym("glob"), text("src/li?.rs"), text("src/tex*.rs")])).unwrap();
    assert_eq!(found, list(vec![text("src/lib.rs"), text("src/text.rs")]));
    let nothing = eval(&mut env, &mut host, &list(vec![sym("glob"), text("/no/such/dir/*")])).unwrap();
    assert_eq!(nothing, list(vec![]));
    assert_eq!(eval(&mut env, &mut host, &list(vec![sym("glob")])), Ok(list(vec![])));
    let err = eval(&mut env, &mut host, &list(vec![sym("glob"), num(1)])).unwrap_err();
    assert_eq!(err.fault, Fault::Operand(Callable::Glob));
    assert_eq!(err.message(), "globs need to be strings");
    let err = eval(&mut env, &mut host, &list(vec![sym("glob"), text("a***")])).unwrap_err();
    assert!(matches!(&err.fault, Fault::GlobPattern(pattern, _) if pattern == "a***"));
    assert!(err.message().starts_with("glob error on a***, "));
}

#[test]
fn errors_collect_a_backtrace() {
    let (mut env, mut host) = shell();
    let inner = list(vec![sym("values-length"), num(1)]);
    let outer = list(vec![sym("values"), inner.dup()]);
    let err = eval(&mut env, &mut host, &outer).unwrap_err();
    assert_eq!(err.backtrace, Some(vec![inner, outer]));
}

#[test]
fn handles_are_copied_without_their_nodes() {
    let items = vec![num(1), text("two")];
    let copies = box_slice_it(&items);
    assert_eq!(copies, items);
    assert!(std::rc::Rc::ptr_eq(&copies[1].node, &items[1].node));
}

#[test]
fn interrupt_flag_stops_the_call_loop() {
    let (mut env, mut host) = shell();
    env.sig_int = true;
    let f = lambda(&["a"], sym("a"));
    let err = call_lambda(&mut env, &mut host, &f, &vec![num(1)], false).unwrap_err();
    assert_eq!(err.fault, Fault::Interrupted { in_lambda: true });
    assert_eq!(err.message(), "Lambda interupted by SIGINT.");
    assert!(!env.sig_int);
    assert_eq!(env.stack.len(), 0);
    assert_eq!(call_lambda(&mut env, &mut host, &f, &vec![num(1)], false), Ok(num(1)));
    assert_eq!(env.steps_left, u64::MAX - 2);
}

#[test]
fn unreadable_command_substitution() {
    let (mut env, mut host) = shell();
    host.unreadable = true;
    let err = eval(&mut env, &mut host, &text("a $(echo b) c")).unwrap_err();
    assert_eq!(err.fault, Fault::Unreadable(String::from("cannot read (echo b)")));
    assert_eq!(err.kind(), ErrorKind::MalformedSyntax);
    assert!(host.commands.is_empty());
}

#[test]
fn macro_expansion_is_resolved_against_the_calling_frame() {
    let (mut env, mut host) = shell();
    let twice = Expression::alloc_data(ExpEnum::Macro(Lambda {
        params: vec![String::from("form")],
        body: list(vec![sym("bquote"), list(vec![sym("+"), sym(","), sym("form"), sym(","), sym("form")])]),
        syms: Symbols { namespace: 0, names: vec![String::from("form"), String::from("this-fn")], captures: vec![] },
        namespace: 0,
    }));
    env.namespaces[0].insert(String::from("twice"), twice, String::new());
    assert_eq!(eval(&mut env, &mut host, &list(vec![sym("twice"), num(4)])), Ok(num(8)));
    assert_eq!(host.analyzed, 0);
    let caller = lambda(&["x"], list(vec![sym("twice"), sym("x")]));
    assert_eq!(call_lambda(&mut env, &mut host, &caller, &vec![num(5)], true), Ok(num(10)));
    assert_eq!(host.analyzed, 1);
    host.analysis_fails = true;
    let err = call_lambda(&mut env, &mut host, &caller, &vec![num(5)], true).unwrap_err();
    assert_eq!(err.fault, Fault::Analysis(String::from("cannot resolve")));
}

#[test]
fn a_value_without_text_is_no_argument() {
    let (mut env, mut host) = shell();
    env.namespaces[0].insert(String::from("f"), lambda(&[], num(1)), String::new());
    let call = list(vec![sym("echo"), list(vec![sym("quote"), list(vec![num(1)])])]);
    let err = eval(&mut env, &mut host, &call).unwrap_err();
    assert_eq!(err.fault, Fault::NoText);
    assert_eq!(err.kind(), ErrorKind::Type);
    assert_eq!(as_string(&mut host, &sym("word")), Ok(String::from("word")));
    assert_eq!(as_string(&mut host, &num(-12)), Ok(String::from("-12")));
    assert_eq!(as_string(&mut host, &Expression::make_nil()), Ok(String::from("nil")));
    assert_eq!(as_string(&mut host, &Expression::make_true()), Ok(String::from("true")));
    assert_eq!(as_string(&mut host, &Expression::alloc_data(ExpEnum::CodePoint('x'))), Ok(String::from("x")));
}

#[test]
fn what_is_no_list_cannot_be_called() {
    let (mut env, mut host) = shell();
    let err = lisp_shell::apply::fn_eval_lazy(&mut env, &mut host, &num(3)).unwrap_err();
    assert_eq!(err.fault, Fault::NotCallable);
    assert_eq!(err.message(), "Not a callable expression.");
    assert_eq!(lisp_shell::apply::fn_eval_lazy(&mut env, &mut host, &Expression::make_nil()), Ok(Expression::make_nil()));
}

#[test]
fn scanning_text_into_pieces() {
    let pieces = |s: &str| scan(&s.chars().collect());
    assert_eq!(
        pieces("a$B c"),
        Ok(vec![Piece::Char('a'), Piece::Var(String::from("B")), Piece::Char(' '), Piece::Char('c')])
    );
    assert_eq!(pieces("$(x (y))"), Ok(vec![Piece::Command(String::from("(x (y))"))]));
    assert_eq!(pieces("$(a \\) b)"), Ok(vec![Piece::Command(String::from("(a \\) b)"))]));
    assert_eq!(pieces("\\$x"), Ok(vec![Piece::Char('$'), Piece::Char('x')]));
    assert_eq!(pieces("$A$B"), Ok(vec![Piece::Var(String::from("A")), Piece::Char('B')]));
    assert_eq!(pieces("$"), Ok(vec![Piece::Var(String::new())]));
    assert_eq!(pieces(""), Ok(vec![]));
    assert_eq!(pieces("$x(").unwrap(), vec![Piece::Var(String::from("x("))]);
    assert_eq!(pieces("$(").unwrap_err().fault, Fault::UnterminatedCommand);
}

#[test]
fn matching_arguments_against_parameters() {
    let names = |list: &[&str]| list.iter().map(|n| n.to_string()).collect::<Vec<String>>();
    let plan = bind_plan(&names(&["a", "b"]), 2).ok().unwrap();
    assert_eq!((plan.fixed, plan.rest), (2, false));
    let plan = bind_plan(&names(&["a", "&rest", "r"]), 5).ok().unwrap();
    assert_eq!((plan.fixed, plan.rest), (1, true));
    let plan = bind_plan(&names(&["&rest", "r"]), 0).ok().unwrap();
    assert_eq!((plan.fixed, plan.rest), (0, true));
    let plan = bind_plan(&names(&[]), 0).ok().unwrap();
    assert_eq!((plan.fixed, plan.rest), (0, false));
    let fault = |list: &[&str], n| bind_plan(&names(list), n).err().unwrap().fault;
    assert_eq!(fault(&[], 1), Fault::WrongParamCount { expected: 0, got: 1, at_least: false });
    assert_eq!(fault(&["a", "b", "&rest", "r"], 1), Fault::WrongParamCount { expected: 2, got: 1, at_least: true });
    assert_eq!(fault(&["a", "&rest"], 0), Fault::WrongParamCount { expected: 1, got: 0, at_least: true });
    assert_eq!(fault(&["a", "&rest"], 1), Fault::RestWithoutName);
}

#[test]
fn text_helpers() {
    assert_eq!(chars_of("añ→b"), vec!['a', 'ñ', '→', 'b']);
    assert_eq!(string_of(&vec!['a', 'ñ', '→', 'b'], 1, 3), "ñ→");
    assert_eq!(trim(&String::from(" \t two words\n ")), "two words");
    assert_eq!(trim_end(&String::from(" x \r\n")), " x");
    assert_eq!(trim(&String::from("   ")), "");
    assert_eq!(count_string(0), "0");
    assert_eq!(count_string(1234567890), "1234567890");
}

#[test]
fn directories_of_dots_and_tildes() {
    assert_eq!(cd_expand_all_dots(String::from("...")), "../../");
    assert_eq!(cd_expand_all_dots(String::from(".....")), "../../../../");
    assert_eq!(cd_expand_all_dots(String::from("..")), "..");
    assert_eq!(cd_expand_all_dots(String::from("..a")), "..a");
    assert_eq!(cd_expand_all_dots(String::new()), "");
    let home = String::from("/home/ada");
    assert_eq!(expand_tilde(&String::from("~"), &home), Some(String::from("/home/ada")));
    assert_eq!(expand_tilde(&String::from("~/x"), &home), Some(String::from("/home/ada/x")));
    assert_eq!(expand_tilde(&String::from("~x"), &home), None);
    assert_eq!(expand_tilde(&String::from("x~"), &home), None);
    assert_eq!(cd_target(String::from("/h"), String::from("/old"), None), "/h");
    assert_eq!(cd_target(String::from("/h"), String::from("/old"), Some(String::from("-"))), "/old");
    assert_eq!(cd_target(String::from("/h"), String::from("/old"), Some(String::from("...."))), "../../../");
}

#[test]
fn scopes_and_variables() {
    let mut env = Environment::new();
    assert_eq!(env.namespaces[0].name, "root");
    env.namespaces[0].insert(String::from("a"), num(1), String::from("first"));
    env.namespaces[0].insert(String::from("b"), num(2), String::new());
    env.namespaces[0].insert(String::from("a"), num(3), String::from("again"));
    assert_eq!(env.namespaces[0].entries.len(), 2);
    assert_eq!(env.namespaces[0].get(&String::from("a")), Some(num(3)));
    assert_eq!(env.namespaces[0].entries[0].doc, "again");
    assert_eq!(env.namespaces[0].get_idx(1), Some(num(2)));
    assert_eq!(env.namespaces[0].get_idx(2), None);
    env.set_var(String::from("A"), String::from("1"));
    env.set_var(String::from("B"), String::from("2"));
    env.set_var(String::from("A"), String::from("3"));
    assert_eq!(env.vars.len(), 2);
    assert_eq!(env.get_var(&String::from("A")), Some(String::from("3")));
    assert_eq!(env.get_var(&String::from("C")), None);
}

#[test]
fn steps_of_the_call_loop() {
    let values = list(vec![num(1), num(2)]);
    assert!(matches!(trampoline_step(&values, Some(2), false), Step::Recur(args) if args == vec![num(1), num(2)]));
    assert!(matches!(trampoline_step(&values, Some(3), false), Step::Fail(Fault::NonTailRecur)));
    assert!(matches!(trampoline_step(&num(1), Some(1), false), Step::Again));
    assert!(matches!(trampoline_step(&values, Some(2), true), Step::Return));
    assert!(matches!(trampoline_step(&values, None, false), Step::Return));
    let f = lambda(&[], num(1));
    let deferred = Expression::alloc_data(ExpEnum::LazyFn(f.dup(), vec![num(7)]));
    assert!(matches!(trampoline_step(&deferred, None, false), Step::Hop(target, parts) if target == f && parts == vec![num(7)]));
    let not_a_lambda = Expression::alloc_data(ExpEnum::LazyFn(num(1), vec![]));
    assert!(matches!(trampoline_step(&not_a_lambda, None, false), Step::Return));
}

#[test]
fn deferred_call_as_an_expression_is_forced() {
    let (mut env, mut host) = shell();
    let add = lambda(&["a", "b"], list(vec![sym("+"), sym("a"), sym("b")]));
    let deferred = Expression::alloc_data(ExpEnum::LazyFn(add, vec![num(2), num(3)]));
    assert_eq!(eval(&mut env, &mut host, &deferred), Ok(num(5)));
    let not_a_lambda = Expression::alloc_data(ExpEnum::LazyFn(num(1), vec![]));
    assert_eq!(eval(&mut env, &mut host, &not_a_lambda).unwrap_err().fault, Fault::LambdaRequired);
}

#[test]
fn interrupt_reports_in_words() {
    assert_eq!(interrupt(0), Some(String::from("not the id of a process")));
    assert_eq!(interrupt(u32::MAX), Some(String::from("not the id of a process")));
    assert_eq!(interrupt(MADE_UP + 5), Some(String::from("ESRCH: No such process")));
    assert_eq!(refusal(Ok(())), None);
    assert_eq!(refusal(Err(1)), Some(String::from("EPERM: Operation not permitted")));
    assert_eq!(refusal(Err(3)), Some(String::from("ESRCH: No such process")));
}

#[test]
fn command_arguments_are_the_texts_of_the_parts() {
    let (mut env, mut host) = shell();
    let parts = vec![sym("bare"), text("two words"), num(-3), list(vec![sym("+"), num(1), num(1)])];
    let args = command_args(&mut env, &mut host, &parts);
    assert_eq!(
        args,
        Ok(vec![String::from("bare"), String::from("two words"), String::from("-3"), String::from("2")])
    );
    assert!(!env.loose_symbols);
    assert_eq!(command_args(&mut env, &mut host, &Vec::new()), Ok(Vec::new()));
    let no_text = vec![sym("first"), list(vec![sym("quote"), list(vec![num(1)])]), sym("last")];
    let err = command_args(&mut env, &mut host, &no_text).unwrap_err();
    assert_eq!(err.fault, Fault::NoText);
    assert!(!env.loose_symbols);
}

#[test]
fn a_command_with_a_failing_argument_is_not_run() {
    let (mut env, mut host) = shell();
    let parts = vec![sym("one"), list(vec![sym("values-nth")]), sym("three")];
    let err = do_command(&mut env, &mut host, &String::from("echo"), &parts).unwrap_err();
    assert_eq!(err.fault, Fault::Usage(Callable::ValuesNth));
    assert!(host.commands.is_empty());
    assert!(!env.loose_symbols);
}

#[test]
fn a_command_is_run_with_its_arguments() {
    let (mut env, mut host) = shell();
    env.state.stdout_status = Some(IOState::Pipe);
    let parts = vec![sym("one"), num(2)];
    let r = do_command(&mut env, &mut host, &String::from("echo"), &parts).unwrap();
    let expected = (String::from("echo"), vec![String::from("one"), String::from("2")], true, false);
    assert_eq!(host.commands, vec![expected]);
    assert!(matches!(r.get(), ExpEnum::Process(ProcessState::Over(_, 0))));
    assert_eq!(as_string(&mut host, &r), Ok(String::from("one 2\n")));
    env.state.stdout_status = None;
    env.run_background = true;
    let err = do_command(&mut env, &mut host, &String::from("surely-no-such-program-here"), &Vec::new());
    assert!(matches!(err.unwrap_err().fault, Fault::Host(_)));
    assert_eq!(host.commands[1].2, false);
    assert_eq!(host.commands[1].3, true);
}

#[test]
fn the_answer_of_the_host_becomes_the_value_of_a_command() {
    let over = started(Ok(ProcessState::Over(7, 2))).unwrap();
    assert!(matches!(over.get(), ExpEnum::Process(ProcessState::Over(7, 2))));
    let running = started(Ok(ProcessState::Running(8))).unwrap();
    assert!(matches!(running.get(), ExpEnum::Process(ProcessState::Running(8))));
    let err = started(Err(String::from("no such program"))).unwrap_err();
    assert_eq!(err.fault, Fault::Host(String::from("no such program")));
    assert!(err.backtrace.is_none());
}

#[test]
fn a_command_in_a_text_leaves_the_redirections_as_they_were() {
    let (mut env, mut host) = shell();
    env.state.stdout_status = Some(IOState::Null);
    env.state.stderr_status = Some(IOState::Inherit);
    env.in_pipe = true;
    env.state.pipe_pgid = Some(41);
    let r = eval(&mut env, &mut host, &text("<$(echo in)>")).unwrap();
    assert_eq!(as_string(&mut host, &r), Ok(String::from("<in>")));
    assert_eq!(env.state.stdout_status, Some(IOState::Null));
    assert_eq!(env.state.stderr_status, Some(IOState::Inherit));
    assert!(env.in_pipe);
    assert_eq!(env.state.pipe_pgid, Some(41));
    assert!(!env.loose_symbols);
    assert_eq!(host.commands[0].2, true);
    let failing = eval(&mut env, &mut host, &text("$(values-nth)"));
    assert_eq!(failing.unwrap_err().fault, Fault::Usage(Callable::ValuesNth));
    assert_eq!(env.state.stdout_status, Some(IOState::Null));
    assert_eq!(env.state.pipe_pgid, Some(41));
}

#[test]
fn the_end_of_a_change_of_directory() {
    let mut env = Environment::new();
    env.set_var(String::from("PWD"), String::from("/start"));
    let refused = cd_outcome(&mut env, Err(String::from("no")), Err(String::from("no")));
    assert_eq!(refused, Ok(Expression::make_nil()));
    assert_eq!(env.get_var(&String::from("PWD")), Some(String::from("/start")));
    let lost = cd_outcome(&mut env, Ok(()), Err(String::from("gone"))).unwrap_err();
    assert_eq!(lost.fault, Fault::Host(String::from("gone")));
    assert_eq!(env.get_var(&String::from("PWD")), Some(String::from("/start")));
    let made = cd_outcome(&mut env, Ok(()), Ok(String::from("/there")));
    assert_eq!(made, Ok(Expression::make_true()));
    assert_eq!(env.get_var(&String::from("PWD")), Some(String::from("/there")));
}

#[test]
fn a_refused_change_of_directory_leaves_the_variable() {
    let (mut env, mut host) = shell();
    env.set_var(String::from("PWD"), String::from("/start"));
    let r = eval(&mut env, &mut host, &list(vec![sym("cd"), text("/missing/dir")]));
    assert_eq!(r, Ok(Expression::make_nil()));
    assert_eq!(env.get_var(&String::from("PWD")), Some(String::from("/start")));
    assert_eq!(env.get_var(&String::from("OLDPWD")), Some(String::from("/start")));
    assert_eq!(host.reports, vec![String::from("Error changing to /missing/dir, No such file or directory")]);
    let failing = eval(&mut env, &mut host, &list(vec![sym("cd"), list(vec![sym("values-nth")])]));
    assert_eq!(failing.unwrap_err().fault, Fault::Usage(Callable::ValuesNth));
    assert_eq!(host.cwd, "/start");
}

#[test]
fn the_directory_that_cd_asks_for() {
    let (mut env, mut host) = shell();
    env.set_var(String::from("HOME"), String::from("/home/me"));
    env.set_var(String::from("OLDPWD"), String::from("/before"));
    assert_eq!(cd_directory(&mut env, &mut host, &vec![]), Ok(String::from("/home/me")));
    assert_eq!(cd_directory(&mut env, &mut host, &vec![text("-")]), Ok(String::from("/before")));
    assert_eq!(cd_directory(&mut env, &mut host, &vec![text("~/src")]), Ok(String::from("/home/me/src")));
    assert_eq!(cd_directory(&mut env, &mut host, &vec![text("...")]), Ok(String::from("../../")));
    assert_eq!(cd_directory(&mut env, &mut host, &vec![sym("pipe")]), Ok(String::from("pipe")));
    let two = cd_directory(&mut env, &mut host, &vec![text("a"), text("b")]).unwrap_err();
    assert_eq!(two.fault, Fault::Usage(Callable::Cd));
    let no_text = cd_directory(&mut env, &mut host, &vec![list(vec![sym("quote"), list(vec![num(1)])])]);
    assert_eq!(no_text.unwrap_err().fault, Fault::NoText);
}

#[test]
fn the_steps_of_a_pipeline() {
    assert!(feeds(0, 3));
    assert!(feeds(1, 3));
    assert!(!feeds(2, 3));
    assert!(!feeds(0, 1));
    assert!(!feeds(0, 0));
    let first = link_stage(Link { pipe_in: None, last_pid: None, group: None }, 7, 41);
    assert_eq!((first.pipe_in, first.last_pid, first.group), (Some(7), Some(41), Some(41)));
    let second = link_stage(first, 9, 42);
    assert_eq!((second.pipe_in, second.last_pid, second.group), (Some(9), Some(42), Some(41)));
    let kept = link_stage(Link { pipe_in: None, last_pid: None, group: Some(5) }, 7, 41);
    assert_eq!(kept.group, Some(5));
}

#[test]
fn the_result_of_a_pipeline() {
    let no = || Err(String::from("no"));
    assert_eq!(pipe_outcome(Ok(num(3)), Ok(()), Ok(())), Ok(num(3)));
    assert_eq!(pipe_outcome(Ok(num(3)), no(), Ok(())), Ok(num(3)));
    let out = || Expression::alloc_data(ExpEnum::File(FileState::Stdout));
    assert_eq!(pipe_outcome(Ok(out()), Ok(()), Ok(())), Ok(out()));
    assert_eq!(pipe_outcome(Ok(out()), no(), Ok(())).unwrap_err().fault, Fault::Host(String::from("no")));
    let closed = Expression::alloc_data(ExpEnum::File(FileState::Closed));
    assert_eq!(pipe_outcome(Ok(closed), Ok(()), Ok(())).unwrap_err().fault, Fault::PipeEndNotWritable);
    let failed = || Err(lisp_shell::error::LispError::new(Fault::NoText));
    assert_eq!(pipe_outcome(failed(), Ok(()), Ok(())).unwrap_err().fault, Fault::NoText);
    assert_eq!(pipe_outcome(failed(), Ok(()), no()).unwrap_err().fault, Fault::Host(String::from("no")));
    assert_eq!(pipe_outcome(Ok(num(3)), Ok(()), no()).unwrap_err().fault, Fault::Host(String::from("no")));
}

#[test]
fn a_pipeline_of_one_stage_asks_the_host_for_nothing() {
    let (mut env, mut host) = shell();
    env.state.pipe_pgid = Some(9);
    env.grab_proc_output = true;
    let one = list(vec![sym("pipe"), list(vec![sym("+"), num(1), num(2)])]);
    assert_eq!(eval(&mut env, &mut host, &one), Ok(num(3)));
    assert!(host.spawned.is_empty());
    assert!(host.drained.is_empty());
    assert_eq!(env.state.pipe_pgid, None);
    assert!(env.grab_proc_output);
    assert_eq!(env.jobs.len(), 1);
    assert!(env.jobs[0].pids.is_empty());
    let failing = list(vec![sym("pipe"), list(vec![sym("values-nth")])]);
    assert_eq!(eval(&mut env, &mut host, &failing).unwrap_err().fault, Fault::Usage(Callable::ValuesNth));
    assert_eq!(env.state.pipe_pgid, None);
    assert_eq!(env.jobs.len(), 2);
    let closed = Expression::alloc_data(ExpEnum::Wrapper(Expression::alloc_data(ExpEnum::File(FileState::Closed))));
    let not_writable = Expression::with_list(vec![sym("pipe"), closed]);
    assert_eq!(eval(&mut env, &mut host, &not_writable).unwrap_err().fault, Fault::PipeEndNotWritable);
}

#[test]
fn a_failing_last_stage_clears_the_group_and_keeps_the_job() {
    let (mut env, mut host) = shell();
    let pipeline = list(vec![
        sym("pipe"),
        list(vec![sym("echo"), sym("a")]),
        list(vec![sym("cat")]),
        list(vec![sym("values-nth")]),
    ]);
    let err = eval(&mut env, &mut host, &pipeline).unwrap_err();
    assert_eq!(err.fault, Fault::Usage(Callable::ValuesNth));
    assert_eq!(env.state.pipe_pgid, None);
    assert_eq!(env.jobs.len(), 1);
    assert_eq!(env.jobs[0].pids, vec![MADE_UP + 1, MADE_UP + 2]);
    assert_eq!(env.jobs[0].names, vec![String::from("echo"), String::from("cat")]);
    assert_eq!(env.jobs[0].status, JobStatus::Running);
    assert_eq!(host.spawned.len(), 2);
    assert_eq!(host.spawned[0].1, None);
    assert_eq!(host.spawned[1].1, Some(100));
    assert_eq!(host.reports.len(), 1);
    assert!(host.reports[0].starts_with("ERROR, sending SIGINT to pid 2000000002: "));
}

#[test]
fn the_last_stage_reads_the_pipe_and_gives_it_back() {
    let (mut env, mut host) = shell();
    host.pipes.insert(5, String::from("data"));
    let r = last_stage(&mut env, &mut host, &num(4), Some(5));
    assert_eq!(r, Ok(num(4)));
    assert_eq!(host.stdin, None);
    let out = Expression::alloc_data(ExpEnum::Wrapper(Expression::alloc_data(ExpEnum::File(FileState::Stderr))));
    let r = last_stage(&mut env, &mut host, &out, None);
    assert!(r.is_ok());
    assert_eq!(host.drained, vec![FileState::Stderr]);
}

#[test]
fn the_patterns_of_a_glob() {
    let (mut env, mut host) = shell();
    env.set_var(String::from("HOME"), String::from("/home/me"));
    assert_eq!(glob_pattern(&mut env, &mut host, &text("~/*.rs")), Ok(String::from("/home/me/*.rs")));
    assert_eq!(glob_pattern(&mut env, &mut host, &text("src/*")), Ok(String::from("src/*")));
    assert_eq!(glob_pattern(&mut env, &mut host, &num(3)).unwrap_err().fault, Fault::Operand(Callable::Glob));
    let failing = list(vec![sym("values-nth")]);
    assert_eq!(glob_pattern(&mut env, &mut host, &failing).unwrap_err().fault, Fault::Usage(Callable::ValuesNth));
    let r = eval(&mut env, &mut host, &list(vec![sym("glob"), num(3), text("*")]));
    assert_eq!(r.unwrap_err().fault, Fault::Operand(Callable::Glob));
    let mut files = vec![text("kept")];
    let listed = gather(&String::from("p"), vec![Ok(Some(String::from("a"))), Ok(None), Ok(Some(String::from("b")))], &mut files);
    assert_eq!(listed, Ok(()));
    assert_eq!(files, vec![text("kept"), text("a"), text("b")]);
}

#[test]
fn the_flags_of_a_command() {
    let mut env = Environment::new();
    assert!(!capture_flag(&env));
    assert!(!background_flag(&env));
    env.state.stdout_status = Some(IOState::Pipe);
    assert!(capture_flag(&env));
    env.state.stdout_status = Some(IOState::Null);
    assert!(!capture_flag(&env));
    env.in_pipe = true;
    assert!(background_flag(&env));
    env.in_pipe = false;
    env.run_background = true;
    assert!(background_flag(&env));
}

#[test]
fn the_symbol_pass_is_asked_where_a_call_is_active() {
    let (mut env, mut host) = shell();
    assert_eq!(analyze_form(&env, &mut host, num(1)), Ok(num(1)));
    assert_eq!(host.analyzed, 0);
    host.analysis_fails = true;
    assert_eq!(analyze_form(&env, &mut host, num(1)), Ok(num(1)));
    assert_eq!(eval_analyzed(&mut env, &mut host, Ok(list(vec![sym("+"), num(1), num(2)]))), Ok(num(3)));
    let refused = eval_analyzed(&mut env, &mut host, Err(String::from("cannot resolve"))).unwrap_err();
    assert_eq!(refused.fault, Fault::Analysis(String::from("cannot resolve")));
    assert_eq!(refused.kind(), ErrorKind::MalformedSyntax);
}

#[test]
fn a_call_leaves_the_stack_as_it_found_it() {
    let (mut env, mut host) = shell();
    env.stack.push(num(10));
    env.stack.push(num(20));
    let f = lambda(&["a", "&rest", "more"], sym("more"));
    let r = call_lambda(&mut env, &mut host, &f, &vec![num(1), num(2)], false);
    assert_eq!(r, Ok(list(vec![num(2)])));
    assert_eq!(env.stack, vec![num(10), num(20)]);
    assert!(env.stack_frames.is_empty());
    let err = call_lambda(&mut env, &mut host, &f, &vec![], true);
    assert!(err.is_err());
    assert_eq!(env.stack, vec![num(10), num(20)]);
    assert_eq!(call_lambda(&mut env, &mut host, &sum_to(), &vec![num(100), num(0)], true), Ok(num(5050)));
    assert_eq!(env.stack, vec![num(10), num(20)]);
    assert!(env.stack_frames.is_empty());
}

#[test]
fn a_name_is_bound_once() {
    let mut env = Environment::new();
    let root = &mut env.namespaces[0];
    let before = root.entries.len();
    root.insert(String::from("x"), num(1), String::new());
    root.insert(String::from("y"), num(2), String::new());
    root.insert(String::from("x"), num(3), String::from("again"));
    assert_eq!(root.entries.len(), before + 2);
    assert_eq!(root.entries.iter().filter(|e| e.name == "x").count(), 1);
    env.set_var(String::from("V"), String::from("1"));
    env.set_var(String::from("W"), String::from("2"));
    env.set_var(String::from("V"), String::from("3"));
    assert_eq!(env.vars.iter().filter(|v| v.name == "V").count(), 1);
    assert_eq!(env.get_var(&String::from("V")), Some(String::from("3")));
}

#[test]
fn only_the_end_of_a_command_output_is_trimmed() {
    let (mut env, mut host) = shell();
    let r = eval(&mut env, &mut host, &text("a$(indent x)b")).unwrap();
    assert_eq!(as_string(&mut host, &r), Ok(String::from("a  xb")));
    env.state.pipe_pgid = Some(3);
    let r = eval(&mut env, &mut host, &text("$(echo one)-$(echo two)")).unwrap();
    assert_eq!(as_string(&mut host, &r), Ok(String::from("one-two")));
    assert_eq!(env.state.pipe_pgid, Some(3));
}
