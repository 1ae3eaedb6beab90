//! What the command-line tool decides and writes.

pub mod dump;
pub mod export;
pub mod guess;
pub mod m3u;
pub mod naming;
pub mod playlists;
pub mod tree;
