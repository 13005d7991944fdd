//! The one error type of the interpreter: what went wrong, and the expressions
//! that were being evaluated when it did.

use crate::text::{count_string, decimal, decimal_string, digits};
use crate::types::{forms_of, Callable, Expression, Form};
use vstd::prelude::*;
use vstd::string::*;

verus! {

/// The categories of failure.
#[derive(Debug, PartialEq, Eq, Clone, Copy)]
pub enum ErrorKind {
    Arity,
    NotFound,
    Type,
    MalformedSyntax,
    Interrupted,
    RecursionLimit,
    Process,
    IO,
    Internal,
}

/// What went wrong.
#[derive(Debug, PartialEq, Eq)]
pub enum Fault {
    /// A call with the wrong number of arguments: the count the parameter list
    /// asks for, the count given, and whether the list ends in a rest parameter.
    WrongParamCount { expected: usize, got: usize, at_least: bool },
    /// The rest marker is the last name of a parameter list.
    RestWithoutName,
    /// The rest marker is followed by another rest marker.
    RestTwice,
    /// More than one name follows the rest marker.
    RestNotLast,
    /// A `$(` in a string that no `)` closes.
    UnterminatedCommand,
    /// The text of a command substitution could not be read as a form.
    Unreadable(String),
    /// The expansion of a macro could not be resolved against the calling frame.
    Analysis(String),
    /// A special form with the wrong number or the wrong kind of parts.
    BadForm,
    /// A return value was left pending at the outermost evaluation.
    ReturnWithoutBlock,
    /// Something other than a lambda or a macro was called as one.
    LambdaRequired,
    /// The form is neither a list nor nil.
    NotCallable,
    /// The operator of a call is a value that cannot be called.
    InvalidCommand,
    /// A native was called with a form of the wrong type.
    Operand(Callable),
    /// An index into a multi-value result that it does not have.
    ValuesRange { index: i64, len: usize },
    /// A value that has no text was used where text is needed.
    NoText,
    /// A native was called with the wrong number of forms.
    Usage(Callable),
    /// An empty list in call position.
    NoCommand,
    /// The operator is a symbol that names nothing, and commands are not allowed.
    FormNotFound(String),
    /// A symbol that names nothing.
    SymbolNotFound(String),
    /// A symbol resolved to a slot that its scope does not have: the symbol and
    /// the scope's name.
    SymbolNotInNamespace(String, String),
    /// `recur` was evaluated where something still had to be evaluated after it,
    /// or what came back is not what it handed over.
    NonTailRecur,
    /// Evaluation is nested too deeply.
    TooDeep,
    /// The allowance of evaluation steps is used up.
    OutOfSteps,
    /// The interrupt flag was found set; `in_lambda` tells whether a call loop
    /// found it, or an evaluation step.
    Interrupted { in_lambda: bool },
    /// The file at the end of a pipeline cannot be written to.
    PipeEndNotWritable,
    /// A glob pattern that is not well formed: the pattern and the reason.
    GlobPattern(String, String),
    /// A path that could not be read while a glob was expanded: the pattern and
    /// the reason.
    GlobWalk(String, String),
    /// The host reported a failure of the process or file layer.
    Host(String),
    /// A node that must never be evaluated was, or a stack slot that does not
    /// exist was read.
    IllegalState,
}

/// A fault as a mathematical value: the names in it as their characters.
pub enum FaultModel {
    WrongParamCount { expected: usize, got: usize, at_least: bool },
    RestWithoutName,
    RestTwice,
    RestNotLast,
    UnterminatedCommand,
    Unreadable(Seq<char>),
    Analysis(Seq<char>),
    BadForm,
    ReturnWithoutBlock,
    LambdaRequired,
    NotCallable,
    InvalidCommand,
    Operand(Callable),
    ValuesRange { index: i64, len: usize },
    NoText,
    Usage(Callable),
    NoCommand,
    FormNotFound(Seq<char>),
    SymbolNotFound(Seq<char>),
    SymbolNotInNamespace(Seq<char>, Seq<char>),
    NonTailRecur,
    TooDeep,
    OutOfSteps,
    Interrupted { in_lambda: bool },
    PipeEndNotWritable,
    GlobPattern(Seq<char>, Seq<char>),
    GlobWalk(Seq<char>, Seq<char>),
    Host(Seq<char>),
    IllegalState,
}

impl View for Fault {
    type V = FaultModel;

    open spec fn view(&self) -> FaultModel {
        match *self {
            Fault::WrongParamCount { expected, got, at_least } => FaultModel::WrongParamCount { expected, got, at_least },
            Fault::RestWithoutName => FaultModel::RestWithoutName,
            Fault::RestTwice => FaultModel::RestTwice,
            Fault::RestNotLast => FaultModel::RestNotLast,
            Fault::UnterminatedCommand => FaultModel::UnterminatedCommand,
            Fault::Unreadable(a0) => FaultModel::Unreadable(a0@),
            Fault::Analysis(a0) => FaultModel::Analysis(a0@),
            Fault::BadForm => FaultModel::BadForm,
            Fault::ReturnWithoutBlock => FaultModel::ReturnWithoutBlock,
            Fault::LambdaRequired => FaultModel::LambdaRequired,
            Fault::NotCallable => FaultModel::NotCallable,
            Fault::InvalidCommand => FaultModel::InvalidCommand,
            Fault::Operand(a0) => FaultModel::Operand(a0),
            Fault::ValuesRange { index, len } => FaultModel::ValuesRange { index, len },
            Fault::NoText => FaultModel::NoText,
            Fault::Usage(a0) => FaultModel::Usage(a0),
            Fault::NoCommand => FaultModel::NoCommand,
            Fault::FormNotFound(a0) => FaultModel::FormNotFound(a0@),
            Fault::SymbolNotFound(a0) => FaultModel::SymbolNotFound(a0@),
            Fault::SymbolNotInNamespace(a0, a1) => FaultModel::SymbolNotInNamespace(a0@, a1@),
            Fault::NonTailRecur => FaultModel::NonTailRecur,
            Fault::TooDeep => FaultModel::TooDeep,
            Fault::OutOfSteps => FaultModel::OutOfSteps,
            Fault::Interrupted { in_lambda } => FaultModel::Interrupted { in_lambda },
            Fault::PipeEndNotWritable => FaultModel::PipeEndNotWritable,
            Fault::GlobPattern(a0, a1) => FaultModel::GlobPattern(a0@, a1@),
            Fault::GlobWalk(a0, a1) => FaultModel::GlobWalk(a0@, a1@),
            Fault::Host(a0) => FaultModel::Host(a0@),
            Fault::IllegalState => FaultModel::IllegalState,
        }
    }
}

impl FaultModel {
    /// The category a fault belongs to.
    pub open spec fn kind(self) -> ErrorKind {
        match self {
            FaultModel::WrongParamCount { .. } => ErrorKind::Arity,
            FaultModel::RestWithoutName => ErrorKind::MalformedSyntax,
            FaultModel::RestTwice => ErrorKind::MalformedSyntax,
            FaultModel::RestNotLast => ErrorKind::MalformedSyntax,
            FaultModel::UnterminatedCommand => ErrorKind::MalformedSyntax,
            FaultModel::Unreadable(_) => ErrorKind::MalformedSyntax,
            FaultModel::Analysis(_) => ErrorKind::MalformedSyntax,
            FaultModel::BadForm => ErrorKind::MalformedSyntax,
            FaultModel::ReturnWithoutBlock => ErrorKind::MalformedSyntax,
            FaultModel::LambdaRequired => ErrorKind::Type,
            FaultModel::NotCallable => ErrorKind::Type,
            FaultModel::InvalidCommand => ErrorKind::Type,
            FaultModel::Operand(_) => ErrorKind::Type,
            FaultModel::ValuesRange { .. } => ErrorKind::Type,
            FaultModel::NoText => ErrorKind::Type,
            FaultModel::Usage(_) => ErrorKind::Arity,
            FaultModel::NoCommand => ErrorKind::NotFound,
            FaultModel::FormNotFound(_) => ErrorKind::NotFound,
            FaultModel::SymbolNotFound(_) => ErrorKind::NotFound,
            FaultModel::SymbolNotInNamespace(_, _) => ErrorKind::NotFound,
            FaultModel::NonTailRecur => ErrorKind::RecursionLimit,
            FaultModel::TooDeep => ErrorKind::RecursionLimit,
            FaultModel::OutOfSteps => ErrorKind::RecursionLimit,
            FaultModel::Interrupted { .. } => ErrorKind::Interrupted,
            FaultModel::PipeEndNotWritable => ErrorKind::IO,
            FaultModel::GlobPattern(_, _) => ErrorKind::IO,
            FaultModel::GlobWalk(_, _) => ErrorKind::IO,
            FaultModel::Host(_) => ErrorKind::Process,
            FaultModel::IllegalState => ErrorKind::Internal,
        }
    }
}

/// An error: the fault, and the expressions that were under evaluation, innermost
/// first, once the error has passed through an evaluation.
#[derive(Debug, PartialEq, Eq)]
pub struct LispError {
    pub fault: Fault,
    pub backtrace: Option<Vec<Expression>>,
}

/// An error as a mathematical value.
pub struct Failure {
    pub fault: FaultModel,
    pub trace: Option<Seq<Form>>,
}

impl View for LispError {
    type V = Failure;

    open spec fn view(&self) -> Failure {
        Failure {
            fault: self.fault@,
            trace: match self.backtrace {
                Some(b) => Some(forms_of(b@)),
                None => None,
            },
        }
    }
}

/// The error for `fault` before any evaluation has added to its backtrace.
pub open spec fn fresh(fault: FaultModel) -> Failure {
    Failure { fault, trace: None }
}

impl LispError {
    /// An error that has not passed through any evaluation yet.
    pub fn new(fault: Fault) -> (r: LispError)
        ensures
            r@ == fresh(fault@),
            r.fault == fault,
    {
        LispError { fault, backtrace: None }
    }

    /// The category of the error.
    pub fn kind(&self) -> (k: ErrorKind)
        ensures
            k == self@.fault.kind(),
    {
        match &self.fault {
            Fault::WrongParamCount { .. } => ErrorKind::Arity,
            Fault::RestWithoutName => ErrorKind::MalformedSyntax,
            Fault::RestTwice => ErrorKind::MalformedSyntax,
            Fault::RestNotLast => ErrorKind::MalformedSyntax,
            Fault::UnterminatedCommand => ErrorKind::MalformedSyntax,
            Fault::Unreadable(_) => ErrorKind::MalformedSyntax,
            Fault::Analysis(_) => ErrorKind::MalformedSyntax,
            Fault::BadForm => ErrorKind::MalformedSyntax,
            Fault::ReturnWithoutBlock => ErrorKind::MalformedSyntax,
            Fault::LambdaRequired => ErrorKind::Type,
            Fault::NotCallable => ErrorKind::Type,
            Fault::InvalidCommand => ErrorKind::Type,
            Fault::Operand(_) => ErrorKind::Type,
            Fault::ValuesRange { .. } => ErrorKind::Type,
            Fault::NoText => ErrorKind::Type,
            Fault::Usage(_) => ErrorKind::Arity,
            Fault::NoCommand => ErrorKind::NotFound,
            Fault::FormNotFound(_) => ErrorKind::NotFound,
            Fault::SymbolNotFound(_) => ErrorKind::NotFound,
            Fault::SymbolNotInNamespace(_, _) => ErrorKind::NotFound,
            Fault::NonTailRecur => ErrorKind::RecursionLimit,
            Fault::TooDeep => ErrorKind::RecursionLimit,
            Fault::OutOfSteps => ErrorKind::RecursionLimit,
            Fault::Interrupted { .. } => ErrorKind::Interrupted,
            Fault::PipeEndNotWritable => ErrorKind::IO,
            Fault::GlobPattern(_, _) => ErrorKind::IO,
            Fault::GlobWalk(_, _) => ErrorKind::IO,
            Fault::Host(_) => ErrorKind::Process,
            Fault::IllegalState => ErrorKind::Internal,
        }
    }
}

/// What is said of a native that was called with the wrong number of forms.
pub open spec fn usage_text(callable: Callable) -> Seq<char> {
    match callable {
        Callable::Cd => "cd can not have more then one form"@,
        Callable::PathExists => "fs-exists? takes a string (a path)"@,
        Callable::IsFile => "fs-file? takes a string (a path)"@,
        Callable::IsDir => "fs-dir? takes a string (a path)"@,
        Callable::Wait => "wait takes one form (a pid to wait on)"@,
        Callable::Pid => "pid takes one form (a process)"@,
        Callable::ValuesNth => "values-nth takes two forms (int and multi values object)"@,
        Callable::ValuesLength => "values-length takes one form- a muti values object"@,
        Callable::If => "if takes a test and one or two forms"@,
        _ => "wrong number of forms"@,
    }
}

/// What is said of a native that was called with a form of the wrong type.
pub open spec fn operand_text(callable: Callable) -> Seq<char> {
    match callable {
        Callable::PathExists => "fs-exists? path must be a string"@,
        Callable::IsFile => "fs-file? path must be a string"@,
        Callable::IsDir => "fs-dir? path must be a string"@,
        Callable::Wait => "wait error: not a pid"@,
        Callable::Pid => "pid error: not a process"@,
        Callable::Glob => "globs need to be strings"@,
        _ => "wrong type of form"@,
    }
}

/// The text that tells of a fault.
pub open spec fn message_of(fault: FaultModel) -> Seq<char> {
    match fault {
        FaultModel::WrongParamCount { expected, got, at_least } => (if at_least {
            "wrong number of parameters, expected at least "@
        } else {
            "wrong number of parameters, expected "@
        }) + digits(expected as nat) + " got "@ + digits(got as nat),
        FaultModel::RestWithoutName => "&rest requires a parameter to follow"@,
        FaultModel::RestTwice => "&rest can only appear once"@,
        FaultModel::RestNotLast => "&rest must be before the last parameter"@,
        FaultModel::UnterminatedCommand => "Malformed command embedded in string (missing ')'?)."@,
        FaultModel::LambdaRequired => "Lambda required."@,
        FaultModel::NotCallable => "Not a callable expression."@,
        FaultModel::NoCommand => "No valid command."@,
        FaultModel::InvalidCommand => "Not a valid command."@,
        FaultModel::NonTailRecur => "Called recur in a non-tail position."@,
        FaultModel::TooDeep => "Eval calls to deep."@,
        FaultModel::OutOfSteps => "Evaluation took more steps than it was allowed."@,
        FaultModel::ReturnWithoutBlock => "Return without matching block."@,
        FaultModel::PipeEndNotWritable => "File at pipe end must be writable."@,
        FaultModel::NoText => "Value has no text."@,
        FaultModel::BadForm => "Malformed special form."@,
        FaultModel::IllegalState => "Illegal state in eval."@,
        FaultModel::Unreadable(reason) => reason,
        FaultModel::Analysis(reason) => reason,
        FaultModel::Host(reason) => reason,
        FaultModel::FormNotFound(name) => "Not a valid form "@ + name + ", not found."@,
        FaultModel::SymbolNotFound(name) => "Symbol "@ + name + " not found."@,
        FaultModel::SymbolNotInNamespace(name, scope) => "Symbol "@ + name
            + " not found in namespace "@ + scope + "."@,
        FaultModel::Interrupted { in_lambda } => if in_lambda {
            "Lambda interupted by SIGINT."@
        } else {
            "Script interupted by SIGINT."@
        },
        FaultModel::Usage(callable) => usage_text(callable),
        FaultModel::Operand(callable) => operand_text(callable),
        FaultModel::ValuesRange { index, len } => "values-nth index "@ + decimal(index as int)
            + " out of range "@ + digits(len as nat),
        FaultModel::GlobPattern(pattern, reason) => "glob error on "@ + pattern + ", "@ + reason,
        FaultModel::GlobWalk(pattern, reason) => "glob error on while iterating "@ + pattern
            + ", "@ + reason,
    }
}

fn usage_message(callable: &Callable) -> (r: String)
    ensures
        r@ == usage_text(*callable),
{
    match callable {
        Callable::Cd => String::from_str("cd can not have more then one form"),
        Callable::PathExists => String::from_str("fs-exists? takes a string (a path)"),
        Callable::IsFile => String::from_str("fs-file? takes a string (a path)"),
        Callable::IsDir => String::from_str("fs-dir? takes a string (a path)"),
        Callable::Wait => String::from_str("wait takes one form (a pid to wait on)"),
        Callable::Pid => String::from_str("pid takes one form (a process)"),
        Callable::ValuesNth => String::from_str("values-nth takes two forms (int and multi values object)"),
        Callable::ValuesLength => String::from_str("values-length takes one form- a muti values object"),
        Callable::If => String::from_str("if takes a test and one or two forms"),
        _ => String::from_str("wrong number of forms"),
    }
}

fn operand_message(callable: &Callable) -> (r: String)
    ensures
        r@ == operand_text(*callable),
{
    match callable {
        Callable::PathExists => String::from_str("fs-exists? path must be a string"),
        Callable::IsFile => String::from_str("fs-file? path must be a string"),
        Callable::IsDir => String::from_str("fs-dir? path must be a string"),
        Callable::Wait => String::from_str("wait error: not a pid"),
        Callable::Pid => String::from_str("pid error: not a process"),
        Callable::Glob => String::from_str("globs need to be strings"),
        _ => String::from_str("wrong type of form"),
    }
}

/// `first`, `second` and `third` in a row.
fn join3(first: &str, second: &str, third: &str) -> (r: String)
    ensures
        r@ == first@ + second@ + third@,
{
    let mut out = String::from_str(first);
    out.append(second);
    out.append(third);
    out
}

impl LispError {
    /// The text that tells of the error.
    pub fn message(&self) -> (r: String)
        ensures
            r@ == message_of(self@.fault),
    {
        match &self.fault {
            Fault::WrongParamCount { expected, got, at_least } => {
                let mut out = if *at_least {
                    String::from_str("wrong number of parameters, expected at least ")
                } else {
                    String::from_str("wrong number of parameters, expected ")
                };
                out.append(count_string(*expected).as_str());
                out.append(" got ");
                out.append(count_string(*got).as_str());
                out
            },
            Fault::RestWithoutName => String::from_str("&rest requires a parameter to follow"),
            Fault::RestTwice => String::from_str("&rest can only appear once"),
            Fault::RestNotLast => String::from_str("&rest must be before the last parameter"),
            Fault::UnterminatedCommand => String::from_str("Malformed command embedded in string (missing ')'?)."),
            Fault::LambdaRequired => String::from_str("Lambda required."),
            Fault::NotCallable => String::from_str("Not a callable expression."),
            Fault::NoCommand => String::from_str("No valid command."),
            Fault::InvalidCommand => String::from_str("Not a valid command."),
            Fault::NonTailRecur => String::from_str("Called recur in a non-tail position."),
            Fault::TooDeep => String::from_str("Eval calls to deep."),
            Fault::OutOfSteps => String::from_str("Evaluation took more steps than it was allowed."),
            Fault::ReturnWithoutBlock => String::from_str("Return without matching block."),
            Fault::PipeEndNotWritable => String::from_str("File at pipe end must be writable."),
            Fault::NoText => String::from_str("Value has no text."),
            Fault::BadForm => String::from_str("Malformed special form."),
            Fault::IllegalState => String::from_str("Illegal state in eval."),
            Fault::Unreadable(reason) => reason.clone(),
            Fault::Analysis(reason) => reason.clone(),
            Fault::Host(reason) => reason.clone(),
            Fault::FormNotFound(name) => join3("Not a valid form ", name.as_str(), ", not found."),
            Fault::SymbolNotFound(name) => join3("Symbol ", name.as_str(), " not found."),
            Fault::SymbolNotInNamespace(name, scope) => {
                let mut out = join3("Symbol ", name.as_str(), " not found in namespace ");
                out.append(scope.as_str());
                out.append(".");
                out
            },
            Fault::Interrupted { in_lambda } => {
                if *in_lambda {
                    String::from_str("Lambda interupted by SIGINT.")
                } else {
                    String::from_str("Script interupted by SIGINT.")
                }
            },
            Fault::Usage(callable) => usage_message(callable),
            Fault::Operand(callable) => operand_message(callable),
            Fault::ValuesRange { index, len } => {
                let mut out = join3(
                    "values-nth index ",
                    decimal_string(*index).as_str(),
                    " out of range ",
                );
                out.append(count_string(*len).as_str());
                out
            },
            Fault::GlobPattern(pattern, reason) => {
                let mut out = join3("glob error on ", pattern.as_str(), ", ");
                out.append(reason.as_str());
                out
            },
            Fault::GlobWalk(pattern, reason) => {
                let mut out = join3("glob error on while iterating ", pattern.as_str(), ", ");
                out.append(reason.as_str());
                out
            },
        }
    }
}

} // verus!
