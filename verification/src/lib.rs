//! A shell-like pipeline of external programs, described programmatically or
//! parsed from a `|`-delimited string, together with the sequential
//! spawn/connect/wait protocol that drives it and the captured output of the
//! terminal stage.
//!
//! The library holds the data model and every decision of the protocol: which
//! program each stage runs, where its standard input comes from, how a failure
//! is classified, and how the terminal stage's results are cached. Starting
//! and reaping the operating-system processes themselves is left to a driver
//! outside the library, which performs each action the pipeline asks for and
//! reports the outcome back.

pub mod command;
pub mod error;
pub mod output;
pub mod pipe;
pub mod tokenize;

pub use command::Command;
pub use error::APipeError;
pub use error::ParseFault;
pub use error::SegFault;
pub use output::Output;
pub use pipe::CommandPipe;
pub use pipe::OutputAction;
pub use pipe::StageOutcome;
