//! Device management logic for a graphical front-end to the Android Debug
//! Bridge: the command lines it sends, the text it reads back, and the state
//! of each panel.

pub mod adb;
pub mod feedback;
pub mod listing;
pub mod path;
pub mod shell;
pub mod tabs;
pub mod text;
