pub mod action_handler;
pub mod app;
pub mod conduct;
pub mod dialog_handler;
pub mod edits;
pub mod effects;
pub mod graphs;
pub mod playback;
pub mod recording;
pub mod run;
