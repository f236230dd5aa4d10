pub mod dialogs;
pub mod display;
pub mod snapshot;
pub mod status;
pub mod ui;
pub mod updater;
pub mod window;
