//! A todo list kept in two plain-text files: the todo file, one todo per
//! line, and the done file, one completed todo per line.
//!
//! The library reads no file and prints nothing. It parses the command line,
//! and from what the two files hold it computes what a command writes and
//! prints. The caller reads the files beforehand and carries out the
//! effects.

pub mod clock;
pub mod command;
pub mod dispatch;
pub mod laws;
pub mod lines;
pub mod number;
pub mod store;
pub mod text;

pub use command::Command;
pub use dispatch::{after_failed_write, run, run_at, Effect, Outcome};
pub use store::{handle_io_err, Config, IoFailure};
