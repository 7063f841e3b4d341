//! Core of a Windows service wrapper: the logic that turns an arbitrary
//! command line into a managed service — service naming, launch-argument
//! encoding, the output-decoding ladder, log-record rendering, working-directory
//! resolution, the supervision state machine, and the status/error rules used
//! by the command-line verbs.

pub mod cli;
pub mod cmdline;
pub mod decode;
pub mod digits;
pub mod log_writer;
pub mod logs;
pub mod runner;
pub mod service;
pub mod supervisor;
pub mod text;
