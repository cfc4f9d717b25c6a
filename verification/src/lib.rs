//! The decision core of a small interactive shell.
//!
//! The shell shows a prompt, reads a line, parses it into a pipeline of
//! stages, and runs the stages from left to right, the output of each one
//! piped into the next. This library holds what in that loop is a decision
//! rather than an effect:
//!
//! - [`prompt`] says how the working directory is shown, with the home
//!   directory abbreviated to `~`;
//! - [`parse`] turns a line into a pipeline, on top of [`text`], which knows
//!   what whitespace is;
//! - [`run`] says which action each stage calls for (a builtin, a spawn and
//!   how it is wired, a report to the user) and when a line is done with.
//!
//! The program around the library carries the actions out. Contracts are
//! stated over sequences of characters; the `laws` modules hold what
//! follows from the definitions for every input.

mod home;
pub mod parse;
pub mod prompt;
pub mod run;
pub mod text;
