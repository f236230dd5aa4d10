//! Verified core of an audiobook recorder: chunked recordings, a marker
//! timeline, an export plan and the rules of the editor around them.
pub mod app;
pub mod audio;
pub mod project;
pub mod ui;
pub mod utils;
