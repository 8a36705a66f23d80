//! A startup-readiness gate: wait for hosts and paths to become available,
//! then hand over to a command.
//!
//! The library holds the decisions. `engine` is the wait itself, written as a
//! state machine that asks its driver to sleep, to probe a target or to read
//! the timer, and is told the answer. `command` turns a command line into a
//! program and its arguments, `config` builds the configuration record from a
//! snapshot of the environment (read through `env_reader`), `text` holds the
//! trimming, list splitting and number parsing they share, and `sleeper` is
//! the time source interface. `runs` states what holds of every run of the
//! engine, whatever its driver answers.
use vstd::prelude::*;

pub mod command;
pub mod config;
pub mod engine;
pub mod env_reader;
pub mod runs;
pub mod sleeper;
pub mod text;

