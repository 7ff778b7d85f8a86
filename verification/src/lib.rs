//! The logic of a desktop music player: lyrics, queue, history, settings and
//! the decisions behind its windows.

pub mod account;
pub mod bluetooth_bridge;
pub mod bluetooth_lyrics;
pub mod browser;
pub mod catalog;
pub mod directory;
pub mod fonts;
pub mod format;
pub mod icons;
pub mod library;
pub mod library_load;
pub mod likes;
pub mod listening;
pub mod loading;
pub mod lyrics;
pub mod mpris;
pub mod navigation;
pub mod number;
pub mod offset;
pub mod page_cache;
pub mod pages;
pub mod playback;
pub mod queue;
pub mod remote;
pub mod resources;
pub mod scan;
pub mod session;
pub mod settings;
pub mod text;
pub mod time;
pub mod tray;
pub mod views;
pub mod volume;
