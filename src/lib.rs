//! A minimal command interpreter: a line is cut into a command name and arguments, the
//! name is classified as a built-in, an executable on the search path, or unknown, and
//! the command is carried out as far as the interpreter itself can. Reading the
//! filesystem, spawning processes and talking to the terminal are left to the caller,
//! which hands the library plain snapshots and outcomes.
use vstd::prelude::*;

pub mod builtins;
pub mod command;
pub mod path;
pub mod shell;
pub mod text;

pub use command::Command;
pub use shell::Shell;

verus! {

} // verus!
