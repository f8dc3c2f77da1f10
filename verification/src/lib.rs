//! An interpreter for Hexagony, a language whose programs are laid out on a
//! hexagonal grid and whose memory is a hexagonal lattice of integers.
//!
//! The library holds the core of the interpreter: the source grid and its
//! parser, the six instruction pointers and how they wrap at the edges of
//! the grid, the memory, and the loop that carries out instructions.  It
//! reads no file and touches neither standard input nor standard output:
//! input is fed to an interpreter as bytes, and what the program writes is
//! handed back as bytes.

use vstd::prelude::*;
use vstd::std_specs::convert::FromSpecImpl;

pub mod arith;
pub mod bigint;
pub mod coords;
pub mod direction;
pub mod grid;
pub mod interpreter;
pub mod machine;
pub mod memory;
pub mod op;
pub mod template;
pub mod text;

use crate::grid::{parse, template, Grid};
use crate::interpreter::{reported, ticks_granted, Hexagony, Status};
use crate::machine::{InputEnd, Machine};
use crate::text::{chars_of, string_of};

verus! {

/// `std::io::Error`, made known to the verifier as a type whose values it
/// cannot look into.
#[verifier::external_type_specification]
#[verifier::external_body]
pub struct ExIoError(std::io::Error);

/// Error type returned by functions in this crate.
#[derive(Debug)]
pub enum Error {
    /// The source text holds a character that is no instruction.
    SyntaxError(char),
    /// Reading the program's input failed.
    IOError(std::io::Error),
    /// A division or modulo instruction met a zero divisor.
    ZeroDivisionError,
}

impl FromSpecImpl<std::io::Error> for Error {
    open spec fn obeys_from_spec() -> bool {
        true
    }

    open spec fn from_spec(e: std::io::Error) -> Error {
        Error::IOError(e)
    }
}

impl From<std::io::Error> for Error {
    fn from(e: std::io::Error) -> (res: Error) {
        Error::IOError(e)
    }
}

/// `std::io::Error`'s `to_string`: the description that the error gives of
/// itself.  Nothing is known of the text.
#[verifier::external_body]
fn io_error_text(e: &std::io::Error) -> (s: String) {
    e.to_string()
}

impl Error {
    /// A description of the error for people to read.
    pub fn message(&self) -> (text: String)
        ensures
            match *self {
                Error::SyntaxError(c) => text@ == "Unrecognized character in source code: "@.push(
                    c,
                ),
                Error::IOError(_) => true,
                Error::ZeroDivisionError => text@ == "Division by zero"@,
            },
    {
        match self {
            Error::SyntaxError(c) => {
                let mut chars = chars_of("Unrecognized character in source code: ");
                chars.push(*c);
                string_of(&chars)
            },
            Error::IOError(e) => io_error_text(e),
            Error::ZeroDivisionError => string_of(&chars_of("Division by zero")),
        }
    }
}

/// Returns a `String` representation of an empty `Grid` with the given side length.
pub fn source_template(size: usize) -> (text: String)
    requires
        2 * size <= isize::MAX,
    ensures
        text@ == template(size as nat),
{
    match size {
        0 => String::new(),
        _ => Grid::new(size).to_string(),
    }
}

/// Parses and runs a string slice of Hexagony source code on the input
/// `input`, for at most `max_ticks` ticks.
///
/// Returns what the program wrote, and how it stood when the run ended:
/// `Ok(Status::Halted)` where it met its terminate instruction,
/// `Ok(Status::Running)` where the ticks ran out first, and an error where
/// the source text holds a character that is no instruction or the program
/// divided by zero.  What was written before an error is still returned.
pub fn run(src: &str, input: &[u8], max_ticks: u64) -> (out: (Vec<u8>, Result<Status, Error>))
    ensures
        match parse(src@) {
            Ok(grid) => {
                let start = Machine::start(grid).fed(input@).ended(InputEnd::Eof);
                let (end, event) = start.run(ticks_granted(start, max_ticks));
                out.0@ == end.output && reported(event, out.1, None)
            },
            Err(c) => out.1 matches Err(Error::SyntaxError(bad)) && bad == c && out.0@.len() == 0,
        },
{
    let mut hexagony = match Hexagony::new(src, 0) {
        Ok(hexagony) => hexagony,
        Err(e) => {
            return (Vec::new(), Err(e));
        },
    };
    hexagony.feed(input);
    hexagony.close_input();
    let res = hexagony.run(max_ticks);
    (hexagony.take_output(), res)
}

} // verus!
