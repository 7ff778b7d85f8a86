//! Timed lyrics: reading them, matching their translations and readings, and
//! deciding what is shown at a moment of the song.

pub mod align;
pub mod documents;
pub mod fragment;
pub mod line;
pub mod lrc;
pub mod markup;
pub mod parse;
pub mod qrc;
pub mod relaxed;
pub mod ruby;
pub mod store;
pub mod stretches;
pub mod timing;
