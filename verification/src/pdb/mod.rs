//! Row and page vocabulary of the device database.

pub mod bitfields;

use vstd::prelude::*;

use crate::util::FileType;

verus! {

/// Identifier of a node of the playlist tree. The root of the tree is zero.
#[derive(Debug, Clone, Copy, PartialEq, Eq, Structural)]
pub struct PlaylistTreeNodeId(pub u32);

/// Identifier of a track row.
#[derive(Debug, Clone, Copy, PartialEq, Eq, Structural)]
pub struct TrackId(pub u32);

/// Identifier of an artist row. Zero stands for no artist.
#[derive(Debug, Clone, Copy, PartialEq, Eq, Structural)]
pub struct ArtistId(pub u32);

/// Identifier of an album row. Zero stands for no album.
#[derive(Debug, Clone, Copy, PartialEq, Eq, Structural)]
pub struct AlbumId(pub u32);

/// Kind of a device database.
#[derive(Debug, Clone, Copy, PartialEq, Eq, Structural)]
pub enum DatabaseType {
    /// The main database, `export.pdb`.
    Plain,
    /// The extension database, `exportExt.pdb`.
    Ext,
}

/// A row of the playlist tree.
#[derive(Debug)]
pub struct PlaylistTreeNode {
    pub parent_id: PlaylistTreeNodeId,
    pub id: PlaylistTreeNodeId,
    pub is_folder: bool,
    pub name: String,
}

/// A row that puts a track into a playlist.
#[derive(Debug, Clone, Copy, PartialEq, Eq, Structural)]
pub struct PlaylistEntry {
    pub playlist_id: PlaylistTreeNodeId,
    pub entry_index: u32,
    pub track_id: TrackId,
}

/// The part of an artist row that playlists show.
#[derive(Debug)]
pub struct ArtistName {
    pub id: ArtistId,
    pub name: String,
}

/// The part of a track row that playlists show.
#[derive(Debug)]
pub struct TrackTitle {
    pub id: TrackId,
    pub artist_id: ArtistId,
    pub title: String,
}

/// The part of a track row that playlist files need.
#[derive(Debug)]
pub struct TrackPath {
    pub id: TrackId,
    pub file_path: String,
}

/// Kind of the rows of a table of the main database.
#[derive(Debug, Clone, Copy, PartialEq, Eq, Structural)]
pub enum PlainPageType {
    Tracks,
    Genres,
    Artists,
    Albums,
    Labels,
    Keys,
    Colors,
    PlaylistTree,
    PlaylistEntries,
    HistoryPlaylists,
    HistoryEntries,
    Artwork,
    Columns,
    Menu,
    History,
}

/// Kind of the rows of a table.
#[derive(Debug, Clone, Copy, PartialEq, Eq, Structural)]
pub enum PageType {
    Plain(PlainPageType),
    /// A table whose rows are not understood, by its number.
    Unknown(u32),
}

impl PageType {
    /// The number of a table kind in the database, which is also its place among the tables.
    pub open spec fn number(self) -> int {
        match self {
            PageType::Plain(PlainPageType::Tracks) => 0,
            PageType::Plain(PlainPageType::Genres) => 1,
            PageType::Plain(PlainPageType::Artists) => 2,
            PageType::Plain(PlainPageType::Albums) => 3,
            PageType::Plain(PlainPageType::Labels) => 4,
            PageType::Plain(PlainPageType::Keys) => 5,
            PageType::Plain(PlainPageType::Colors) => 6,
            PageType::Plain(PlainPageType::PlaylistTree) => 7,
            PageType::Plain(PlainPageType::PlaylistEntries) => 8,
            PageType::Plain(PlainPageType::HistoryPlaylists) => 11,
            PageType::Plain(PlainPageType::HistoryEntries) => 12,
            PageType::Plain(PlainPageType::Artwork) => 13,
            PageType::Plain(PlainPageType::Columns) => 16,
            PageType::Plain(PlainPageType::Menu) => 17,
            PageType::Plain(PlainPageType::History) => 19,
            PageType::Unknown(number) => number as int,
        }
    }

    /// Whether a dump leaves out a table: its rows are not understood, and the caller does not ask
    /// for an attempt.
    pub fn is_skipped(self, parse_unknown_tables: bool) -> (r: bool)
        ensures
            r == (self is Unknown && !parse_unknown_tables),
    {
        match self {
            PageType::Plain(_) => false,
            PageType::Unknown(_) => !parse_unknown_tables,
        }
    }
}

/// The row that says when a database was last synchronised.
#[derive(Debug)]
pub struct History {
    pub subtype: u16,
    pub index_shift: u16,
    pub unknown: u32,
    pub zeroes: u32,
    pub date: String,
    pub magic: u16,
    pub version: String,
    pub label: String,
}

/// The filled fields of an album row.
#[derive(Debug)]
pub struct Album {
    pub id: AlbumId,
    pub artist_id: ArtistId,
    pub name: String,
}

/// The filled fields of a track row.
#[derive(Debug)]
pub struct Track {
    pub id: TrackId,
    pub title: String,
    pub artist_id: ArtistId,
    pub album_id: AlbumId,
    pub file_path: String,
    pub filename: String,
    pub sample_rate: u32,
    pub sample_depth: u16,
    pub bitrate: u32,
    pub duration: u16,
    pub file_size: u32,
    pub file_type: FileType,
    /// Tempo in centi-BPM.
    pub tempo: u32,
    pub autoload_hotcues: String,
    pub date_added: String,
}

} // verus!
