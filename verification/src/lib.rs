//! Verified core of a Rekordbox device-export toolkit.

pub mod anlz;
pub mod cli;
pub mod cpp;
pub mod device;
pub mod pdb;
pub mod setting;
pub mod text;
pub mod util;
