//! Errors reported by the lexer, the parser and the interpreter, and the exit
//! status a driver maps them to.
use vstd::prelude::*;
use crate::text::{decimal, push_decimal};

verus! {

/// An error with a message and, where known, the source line it concerns.
#[derive(Debug)]
pub struct LoxError {
    pub message: String,
    pub line: Option<usize>,
}

/// What a user sees for an error: `[line N] Error: <message>`, or
/// `Error: <message>` when no line is known.
pub open spec fn error_text(message: Seq<char>, line: Option<usize>) -> Seq<char> {
    match line {
        Some(n) => "[line "@ + decimal(n as nat) + "] Error: "@ + message,
        None => "Error: "@ + message,
    }
}

impl LoxError {
    pub fn new(message: &str, line: Option<usize>) -> (r: Self)
        ensures
            r.message@ == message@,
            r.line == line,
    {
        LoxError { message: message.to_owned(), line }
    }

    /// An error whose message is already a `String`.
    pub fn with_message(message: String, line: Option<usize>) -> (r: Self)
        ensures
            r.message == message,
            r.line == line,
    {
        LoxError { message, line }
    }

    /// The text a user sees for this error.
    pub fn render(&self) -> (r: String)
        ensures
            r@ == error_text(self.message@, self.line),
    {
        match self.line {
            Some(n) => {
                let mut out = String::from_str("[line ");
                push_decimal(&mut out, n as u128);
                out.append("] Error: ");
                out.append(self.message.as_str());
                out
            },
            None => {
                let mut out = String::from_str("Error: ");
                out.append(self.message.as_str());
                out
            },
        }
    }
}

/// The status a finished command asks the process to exit with.
#[derive(Debug)]
pub struct ExitCode(pub i32);

impl ExitCode {
    pub fn new(code: i32) -> (r: Self)
        ensures
            r.0 == code,
    {
        ExitCode(code)
    }

    pub fn code(&self) -> (r: i32)
        ensures
            r == self.0,
    {
        self.0
    }
}

} // verus!
