//! Decision logic of the ds4 inference host.

pub mod agent;
pub mod args;
pub mod batch;
pub mod bench;
pub mod bytes;
pub mod cli;
pub mod gguf;
pub mod identify;
pub mod layout;
pub mod mapped;
pub mod mem;
pub mod mem_gov;
pub mod metadata;
pub mod model;
pub mod num;
pub mod opening;
pub mod repl;
pub mod session;
pub mod shape;
pub mod text;
pub mod token_printer;
pub mod vocab;
pub mod worker;
