//! Value types shared by the database and the analysis files.

use vstd::prelude::*;

verus! {

/// Star rating of a track.
#[derive(Debug, Clone, Copy, PartialEq, Eq, Structural)]
pub enum Rating {
    Zero,
    One,
    Two,
    Three,
    Four,
    Five,
}

/// Color label of a track or cue.
#[derive(Debug, Clone, Copy, PartialEq, Eq, Structural)]
pub enum ColorIndex {
    NoColor,
    Pink,
    Red,
    Orange,
    Yellow,
    Green,
    Aqua,
    Blue,
    Purple,
}

/// Audio file format as stored in a track row.
#[derive(Debug, Clone, Copy, PartialEq, Eq, Structural)]
pub enum FileType {
    Unknown,
    Mp3,
    M4a,
    Flac,
    Wav,
    Aiff,
    /// A raw value without a name of its own.
    Other(u16),
}

} // verus!
