//! A multitrack media-session recorder core: session lifecycle state machine,
//! per-participant track pipelines with byte-exact accounting, storage layout
//! and metadata with a verified document codec, plus the room-membership
//! registry of the companion signaling service. All logic is verified; file,
//! clock and id generation effects sit behind small trusted wrappers or in
//! the surrounding application.

pub mod clock;
pub mod config;
pub mod json;
pub mod models;
pub mod recorder;
pub mod rooms;
pub mod storage;
pub mod text;
pub mod track;
pub mod types;
