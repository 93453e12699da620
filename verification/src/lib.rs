//! Text-mode animations for command-line programs: the frames of a polling
//! progress bar and the screens of a keyboard-driven selection menu, computed
//! as plain values that a caller writes to its terminal.

pub mod command;
pub mod interactive_menu;
pub mod progress;
pub mod text;
pub mod utils;
