//! The agent: its options, its turn, its tools.

pub mod approval;
pub mod bash;
pub mod compact;
pub mod dsml;
pub mod edit;
pub mod kv;
pub mod lines;
pub mod options;
pub mod output;
pub mod round;
pub mod search;
pub mod trace;
pub mod tui;
pub mod turn;
pub mod web_tools;
pub mod write;
