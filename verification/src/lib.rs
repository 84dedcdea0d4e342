//! A command line multiplexer: one command line, or one pipeline, run in
//! each of a set of named working directories.
//!
//! This library holds the rules of the session: how a line is split into
//! words and stages, which terminals are active, in which order the stages
//! of a pipeline are started, and when every terminal has answered.
//! Starting processes, threads and reading the configuration are left to
//! the program around it.

pub mod command;
pub mod dispatch;
pub mod executor;
pub mod help;
pub mod input_line;
pub mod output;
pub mod pipeline;
pub mod ports;
pub mod runner;
pub mod selection;
pub mod sila;
pub mod terminal;
pub mod text;
pub mod tokenizer;
