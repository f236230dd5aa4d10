pub mod compile_progress;
pub mod compiler;
pub mod dialog_edit;
pub mod export_run;
pub mod export_workspace;
pub mod marker_map;
pub mod markers;
pub mod metadata;
pub mod mixing;
pub mod outcome;
pub mod project;
pub mod wav_chapters;
pub mod wav_metadata;
