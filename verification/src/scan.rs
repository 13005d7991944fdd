//! The grammar of substitution in literal text: `$name` stands for an environment
//! variable and `$(` ... `)` for the output of a command.

use crate::error::{fresh, Fault, FaultModel, LispError};
use crate::text::{char_is_space, is_space, string_of};
use vstd::prelude::*;

verus! {

/// One piece of scanned text.
#[derive(Debug, PartialEq, Eq)]
pub enum Piece {
    /// A character that stands for itself.
    Char(char),
    /// A reference to the environment variable of that name.
    Var(String),
    /// A command, from its opening parenthesis to the one that closes it.
    Command(String),
}

/// A piece, with its text as a sequence of characters.
pub enum Part {
    Char(char),
    Var(Seq<char>),
    Command(Seq<char>),
}

impl View for Piece {
    type V = Part;

    open spec fn view(&self) -> Part {
        match *self {
            Piece::Char(c) => Part::Char(c),
            Piece::Var(s) => Part::Var(s@),
            Piece::Command(s) => Part::Command(s@),
        }
    }
}

pub open spec fn parts_of(pieces: Seq<Piece>) -> Seq<Part> {
    Seq::new(pieces.len(), |i: int| pieces[i]@)
}

/// Where the scanner is: in plain text, in a variable's name that began with the
/// `$` at `start`, or in a command that began there, with `depth` parentheses open.
#[derive(Clone, Copy)]
pub enum Mode {
    Plain,
    Var { start: usize },
    Command { start: usize, depth: usize },
}

/// The character before position `i`, or NUL at the start.
pub open spec fn before(text: Seq<char>, i: int) -> char {
    if 0 < i <= text.len() {
        text[i - 1]
    } else {
        '\0'
    }
}

/// Whether `ch` ends the name of a variable: white space, a double quote, a
/// colon, or a `$` that no backslash stands before.
pub open spec fn ends_name(ch: char, last: char) -> bool {
    is_space(ch) || ch == '"' || ch == ':' || (ch == '$' && last != '\\')
}

/// What the character at `i` does in mode `mode`: the mode after it, and the
/// pieces it completes.
///
/// In plain text an unescaped `$` begins a name; a backslash is held back and
/// comes out only before a character other than `$`, so `\$` is a plain `$`.
/// A `(` directly after the `$` turns the name into a command. A name ends at
/// white space, a quote or a colon, which stay in the text, or at an unescaped
/// `$`, which does not. In a command unescaped parentheses nest, and the one that
/// closes the first ends it.
pub open spec fn scan_step(text: Seq<char>, i: int, mode: Mode) -> (Mode, Seq<Part>) {
    let ch = text[i];
    let last = before(text, i);
    match mode {
        Mode::Var { start } => {
            if ch == '(' && start + 1 == i {
                (Mode::Command { start, depth: 1 }, Seq::empty())
            } else if ends_name(ch, last) {
                let name = Part::Var(text.subrange(start + 1, i));
                if ch == '$' {
                    (Mode::Plain, seq![name])
                } else {
                    (Mode::Plain, seq![name, Part::Char(ch)])
                }
            } else {
                (mode, Seq::empty())
            }
        },
        Mode::Command { start, depth } => {
            if ch == ')' && last != '\\' {
                if depth <= 1 {
                    (Mode::Plain, seq![Part::Command(text.subrange(start + 1, i + 1))])
                } else {
                    (Mode::Command { start, depth: (depth - 1) as usize }, Seq::empty())
                }
            } else if ch == '(' && last != '\\' {
                (Mode::Command { start, depth: (depth + 1) as usize }, Seq::empty())
            } else {
                (mode, Seq::empty())
            }
        },
        Mode::Plain => {
            if ch == '$' && last != '\\' {
                (Mode::Var { start: i as usize }, Seq::empty())
            } else if ch != '\\' {
                if last == '\\' && ch != '$' {
                    (Mode::Plain, seq![Part::Char('\\'), Part::Char(ch)])
                } else {
                    (Mode::Plain, seq![Part::Char(ch)])
                }
            } else {
                (Mode::Plain, Seq::empty())
            }
        },
    }
}

/// `parts` in front of what the rest of a scan gives.
pub open spec fn prepend(parts: Seq<Part>, rest: Result<Seq<Part>, FaultModel>) -> Result<
    Seq<Part>,
    FaultModel,
> {
    match rest {
        Ok(more) => Ok(parts + more),
        Err(fault) => Err(fault),
    }
}

/// The pieces of `text` from position `i` on, when the scanner is in `mode`
/// there. At the end of the text a name that is still open is complete, and a
/// command that is still open is a fault.
pub open spec fn scan_from(text: Seq<char>, i: int, mode: Mode) -> Result<
    Seq<Part>,
    FaultModel,
>
    decreases text.len() - i,
{
    if i < 0 || i >= text.len() {
        match mode {
            Mode::Plain => Ok(Seq::empty()),
            Mode::Var { start } => Ok(seq![Part::Var(text.subrange(start + 1, text.len() as int))]),
            Mode::Command { .. } => Err(FaultModel::UnterminatedCommand),
        }
    } else {
        let (next, parts) = scan_step(text, i, mode);
        prepend(parts, scan_from(text, i + 1, next))
    }
}

/// The pieces of `text`.
pub open spec fn scanned(text: Seq<char>) -> Result<Seq<Part>, FaultModel> {
    scan_from(text, 0, Mode::Plain)
}

/// The mode keeps to the text that has been read: a name or a command began
/// before position `i`, and no more parentheses are open than were read.
pub open spec fn mode_within(mode: Mode, i: int) -> bool {
    match mode {
        Mode::Plain => true,
        Mode::Var { start } => start < i,
        Mode::Command { start, depth } => start < i && 1 <= depth <= i,
    }
}

/// Scans `text` into its pieces.
pub fn scan(text: &Vec<char>) -> (r: Result<Vec<Piece>, LispError>)
    ensures
        match scanned(text@) {
            Ok(parts) => r matches Ok(pieces) && parts_of(pieces@) == parts,
            Err(fault) => r matches Err(err) && err@ == fresh(fault),
        },
{
    let mut out: Vec<Piece> = Vec::new();
    let mut mode = Mode::Plain;
    let mut last: char = '\0';
    let mut i: usize = 0;
    while i < text.len()
        invariant
            i <= text.len(),
            last == before(text@, i as int),
            mode_within(mode, i as int),
            scanned(text@) == prepend(parts_of(out@), scan_from(text@, i as int, mode)),
        decreases text.len() - i,
    {
        let ch = text[i];
        let ghost parts_before = parts_of(out@);
        let ghost step = scan_step(text@, i as int, mode);
        match mode {
            Mode::Var { start } => {
                if ch == '(' && start + 1 == i {
                    mode = Mode::Command { start, depth: 1 };
                } else if char_is_space(ch) || ch == '"' || ch == ':' || (ch == '$' && last
                    != '\\') {
                    out.push(Piece::Var(string_of(text, start + 1, i)));
                    if ch != '$' {
                        out.push(Piece::Char(ch));
                    }
                    mode = Mode::Plain;
                }
            },
            Mode::Command { start, depth } => {
                if ch == ')' && last != '\\' {
                    if depth <= 1 {
                        out.push(Piece::Command(string_of(text, start + 1, i + 1)));
                        mode = Mode::Plain;
                    } else {
                        mode = Mode::Command { start, depth: depth - 1 };
                    }
                } else if ch == '(' && last != '\\' {
                    mode = Mode::Command { start, depth: depth + 1 };
                }
            },
            Mode::Plain => {
                if ch == '$' && last != '\\' {
                    mode = Mode::Var { start: i };
                } else if ch != '\\' {
                    if last == '\\' && ch != '$' {
                        out.push(Piece::Char('\\'));
                    }
                    out.push(Piece::Char(ch));
                }
            },
        }
        proof {
            assert(mode == step.0);
            assert(parts_of(out@) =~= parts_before + step.1);
            let rest = scan_from(text@, i + 1, step.0);
            if rest is Ok {
                assert((parts_before + step.1) + rest->Ok_0 =~= parts_before + (step.1
                    + rest->Ok_0));
            }
        }
        last = ch;
        i += 1;
    }
    match mode {
        Mode::Plain => {
            assert(parts_of(out@) + Seq::<Part>::empty() =~= parts_of(out@));
            Ok(out)
        },
        Mode::Var { start } => {
            let ghost parts_before = parts_of(out@);
            out.push(Piece::Var(string_of(text, start + 1, text.len())));
            assert(parts_of(out@) =~= parts_before + seq![
                Part::Var(text@.subrange(start + 1, text@.len() as int)),
            ]);
            Ok(out)
        },
        Mode::Command { .. } => Err(LispError::new(Fault::UnterminatedCommand)),
    }
}

/// Whether `text` holds the character `c`.
pub fn holds_char(text: &Vec<char>, c: char) -> (r: bool)
    ensures
        r == text@.contains(c),
{
    let mut i: usize = 0;
    while i < text.len()
        invariant
            i <= text.len(),
            forall|j: int| 0 <= j < i ==> text@[j] != c,
        decreases text.len() - i,
    {
        if text[i] == c {
            return true;
        }
        i += 1;
    }
    false
}

} // verus!
