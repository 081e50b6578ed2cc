//! A verified interpreter core for the Brainf*ck tape-machine language.
//!
//! Source bytes are tokenized into instructions that remember where they stood, the brackets
//! are matched into a jump table, and a tape machine executes the result one instruction at a
//! time. Every function states what it computes and is proved to do so.

pub mod brackets;
pub mod cell;
pub mod error;
pub mod instruction;
pub mod program;
pub mod runner;
pub mod semantics;
pub mod text;
pub mod tokenizer;
pub mod vm;

pub use cell::Cell;
pub use error::{BracketMatchError, ExecutionError};
pub use instruction::{InputInstruction, Instruction};
pub use program::BFprogram;
pub use runner::{run_bft, Opt, RunError};
pub use semantics::{Action, Event, RunStatus};
pub use vm::{ByteStreams, BFVM};
