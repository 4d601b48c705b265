//! What the runtime needs from its surroundings: output, the file system, terminals,
//! and the number system of the language.
use crate::parser::expressions::BinaryOperator;
use vstd::prelude::*;

verus! {

/// A number of the language, in the representation of the host's number system.
#[derive(PartialEq, Eq, Debug, Clone, Copy, Structural)]
pub struct NumberValue {
    pub bits: u32,
}

/// The services a program run needs and the library cannot perform itself. Nothing is
/// assumed of an implementation: what the library proves holds for every one.
pub trait Host {
    /// Writes a line to standard output.
    fn print(&self, text: &str);

    /// Writes a line to standard error.
    fn print_error(&self, text: &str);

    /// The user's home directory (`$HOME`), or why it is unknown.
    fn home_directory(&self) -> Result<String, String>;

    /// The canonical absolute form of `path`, or why it cannot be resolved.
    fn canonicalize(&self, path: &str) -> Result<String, String>;

    /// Opens a terminal in `path` that runs `cmd`, if any, and stays open.
    fn spawn_open(&self, path: &str, cmd: Option<&str>) -> Result<(), String>;

    /// Opens a terminal in `path` that runs `cmd` and closes with it.
    fn spawn_run(&self, path: &str, cmd: &str) -> Result<(), String>;

    /// Reads a number literal.
    fn parse_number(&self, text: &str) -> Option<NumberValue>;

    /// The number equal to a count.
    fn number_from_count(&self, n: usize) -> NumberValue;

    /// `left op right` for `op` one of `+ - * /`.
    fn number_arithmetic(&self, op: BinaryOperator, left: NumberValue, right: NumberValue) -> NumberValue;

    /// `left op right` for `op` one of `== != > < >= <=`.
    fn number_compare(&self, op: BinaryOperator, left: NumberValue, right: NumberValue) -> bool;

    /// `-n`.
    fn number_negate(&self, n: NumberValue) -> NumberValue;

    /// The text a number prints as.
    fn number_to_string(&self, n: NumberValue) -> String;

    /// The index a number denotes, or `None` where it is not a whole number.
    fn number_to_index(&self, n: NumberValue) -> Option<usize>;
}

} // verus!
