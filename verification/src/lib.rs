//! Kernel session and execution protocol management for running selected
//! code against long-lived interpreter processes, together with the small
//! text-command helpers that sit beside it in the editor: a runtime catalog,
//! a per-context session manager that launches and reuses kernels, an
//! execution coordinator that multiplexes tagged requests over a kernel's
//! control channel, slash-command line parsing, and language-server command
//! assembly.

pub mod blocks;
pub mod catalog;
pub mod channel;
pub mod haskell;
pub mod manager;
pub mod messages;
pub mod prompt;
pub mod slash;
pub mod text;
