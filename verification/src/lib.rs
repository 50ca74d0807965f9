//! An asynchronous log pipeline, stated as verified decisions.
//!
//! Producers hand records to an ingest channel; one dispatcher formats each
//! record once and fans it out; one worker per appender delivers in order;
//! `Exit` travels the same path and drains the pipeline. This crate holds the
//! rules of that protocol and of the rotating file appender. Threads, files
//! and the process-wide logger belong to the program that embeds it.
//!
//! - [`appender`]: records, commands, and what an appender, a filter and a
//!   formatter are.
//! - [`fast_log`]: the logger, the dispatcher, the workers and the set-up.
//! - [`protocol`]: the pipeline as a transition system, with the proofs that
//!   order is kept and that `Exit` drains it.
//! - [`plugin::file_split`]: the rotating file appender and its archives.
//! - [`wait`]: the count of tasks that still run.
//! - [`consts`], [`error`], [`text`]: sizes, the error, and text for file
//!   names.
//! - [`archive`], [`channel`], [`clock`]: what is taken on trust from the
//!   archive writer, the channels and the clock.

pub mod error;
pub mod consts;
pub mod text;
pub mod appender;
pub mod archive;
pub mod channel;
pub mod clock;
pub mod plugin;
pub mod wait;
pub mod fast_log;
pub mod protocol;

pub use crate::consts::LogSize;
pub use crate::error::LogError;
pub use crate::fast_log::{
    exit, flush, init_custom_log, init_log, init_split_log, Logger, LoggerSender,
};
pub use crate::wait::FastLogWaitGroup;
