//! Locates the directory of a command-line computation engine and turns the
//! outcome of running it into a decoded text or a classified error.
//!
//! The library makes no system calls of its own. The host supplies the
//! working directory, the executable's path and the answers to the
//! "does this path exist" questions that the resolver asks
//! ([`resolver::next_probe`]); it spawns the process described by
//! [`invoker::engine_program`] and [`invoker::engine_arguments`] and hands the
//! outcome to [`invoker::classify_outcome`].
pub mod error;
pub mod invoker;
pub mod paths;
pub mod resolver;
pub mod text;
