//! Partition-table logic for the rspfdisk disk tool: MBR and GPT sector
//! codecs, write-safety rules, and the state machine of the terminal UI.

pub mod bytes;
pub mod text;
pub mod model;
pub mod mbr;
pub mod gpt;
pub mod token;
pub mod safety;
pub mod tui_state;
pub mod tui;
pub mod tui_laws;

