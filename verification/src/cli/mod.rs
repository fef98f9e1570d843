//! The command line and the conversation that it opens.
pub mod args;
pub mod command;
pub mod dump;
pub mod repl;
pub mod words;
