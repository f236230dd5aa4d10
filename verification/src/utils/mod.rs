//! Small helpers that every other part of the library leans on.
pub mod bytes;
pub mod fifo;
pub mod format;
pub mod indexes;
pub mod inference;
pub mod json;
pub mod keyboard;
pub mod logger;
pub mod name_map;
pub mod parse;
pub mod paths;
pub mod stats;
pub mod text;
pub mod transcription;
