//! A terminal music player's library: the track list, the playback state, the
//! key bindings, the text that the interface shows and the arithmetic of the
//! audio buffer.

pub mod app;
pub mod audio;
pub mod playback;
pub mod text;
pub mod time;
pub mod track;
pub mod ui;
