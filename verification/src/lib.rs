pub mod consumer;
pub mod lrc;
pub mod modes;
pub mod playlists;
pub mod ui;
pub mod worker;
