//! Commit-message templating and git command pipelines.
//!
//! The library expands a commit-message template against positional
//! arguments, resolves named custom tasks into command lines, and decides
//! how a sequence of external commands proceeds. Running the commands,
//! reading configuration and talking to the terminal is left to the caller.
pub mod case;
pub mod cli;
pub mod config;
pub mod runner;
pub mod tasks;
pub mod template;
pub mod text;
