//! A cancellable search for one named file or directory beneath a root.
//!
//! The library holds the decisions of the search: which subtrees are pruned,
//! which entries qualify, how the walker counts and samples progress, how the
//! workers decide whether to go on, and how the outcome is classified, along
//! with the command line that configures a search. The filesystem walk, the
//! worker pool and the signal handler drive these decisions from outside.

pub mod names;
pub mod entry;
pub mod coordinator;
pub mod run;
pub mod walk;
pub mod laws;
pub mod decimal;
pub mod cli;
