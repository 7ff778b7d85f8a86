//! What the parts of the window show: texts, icons, sizes and which buttons work.

pub mod artist;
pub mod backdrop;
pub mod header;
pub mod home;
pub mod layout;
pub mod lyrics;
pub mod player;
pub mod search;
pub mod settings;
pub mod shell;
