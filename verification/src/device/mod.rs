//! High-level data of a Rekordbox device export.

pub mod analysis;
pub mod anlz_build;
pub mod beatgrid;
pub mod cues;
pub mod layout;

use vstd::prelude::*;

use crate::anlz::{
    Beat, Cue, CueListType, ExtendedCue, TinyWaveformPreviewColumn, Waveform3BandDetailColumn,
    Waveform3BandPreviewColumn, WaveformColorDetailColumn, WaveformColorPreviewColumn,
    WaveformPreviewColumn,
};
use crate::pdb::PlaylistTreeNodeId;
use crate::util::{ColorIndex, FileType, Rating};

verus! {

/// A playlist of the playlist tree.
#[derive(Debug)]
pub struct Playlist {
    pub id: PlaylistTreeNodeId,
    pub name: String,
}

/// A folder of the playlist tree with everything below it.
#[derive(Debug)]
pub struct PlaylistFolder {
    pub id: PlaylistTreeNodeId,
    pub name: String,
    pub children: Vec<PlaylistNode>,
}

/// A node of the playlist tree.
#[derive(Debug)]
pub enum PlaylistNode {
    Folder(PlaylistFolder),
    Playlist(Playlist),
}

/// A track as the export writer takes it.
///
/// `tempo_bits` holds the IEEE 754 single-precision bits of the tempo in BPM.
#[derive(Debug)]
pub struct Track {
    pub title: String,
    pub artist: String,
    pub album: String,
    pub genre: String,
    pub key: String,
    pub label: String,
    pub composer: String,
    pub remixer: String,
    pub orig_artist: String,
    pub comment: String,
    pub isrc: String,
    pub lyricist: String,
    pub mix_name: String,
    pub release_date: String,
    pub date_added: String,
    pub file_path: String,
    pub filename: String,
    pub artwork_device_path: String,
    pub message: String,
    pub tempo_bits: u32,
    pub bitrate: u32,
    pub sample_rate: u32,
    pub sample_depth: u16,
    pub duration_secs: u16,
    pub file_size: u32,
    pub track_number: u32,
    pub disc_number: u16,
    pub year: u16,
    pub play_count: u16,
    pub rating: Rating,
    pub color: ColorIndex,
    pub file_type: FileType,
    pub autoload_hotcues: bool,
}

impl Track {
    /// Whether every text is empty, every number zero and every label the neutral one.
    pub open spec fn is_blank(&self) -> bool {
        &&& self.title@ == Seq::<char>::empty()
        &&& self.artist@ == Seq::<char>::empty()
        &&& self.album@ == Seq::<char>::empty()
        &&& self.genre@ == Seq::<char>::empty()
        &&& self.key@ == Seq::<char>::empty()
        &&& self.label@ == Seq::<char>::empty()
        &&& self.composer@ == Seq::<char>::empty()
        &&& self.remixer@ == Seq::<char>::empty()
        &&& self.orig_artist@ == Seq::<char>::empty()
        &&& self.comment@ == Seq::<char>::empty()
        &&& self.isrc@ == Seq::<char>::empty()
        &&& self.lyricist@ == Seq::<char>::empty()
        &&& self.mix_name@ == Seq::<char>::empty()
        &&& self.release_date@ == Seq::<char>::empty()
        &&& self.date_added@ == Seq::<char>::empty()
        &&& self.file_path@ == Seq::<char>::empty()
        &&& self.filename@ == Seq::<char>::empty()
        &&& self.artwork_device_path@ == Seq::<char>::empty()
        &&& self.message@ == Seq::<char>::empty()
        &&& self.tempo_bits == 0
        &&& self.bitrate == 0
        &&& self.sample_rate == 0
        &&& self.sample_depth == 0
        &&& self.duration_secs == 0
        &&& self.file_size == 0
        &&& self.track_number == 0
        &&& self.disc_number == 0
        &&& self.year == 0
        &&& self.play_count == 0
        &&& self.rating == Rating::Zero
        &&& self.color == ColorIndex::NoColor
        &&& self.file_type == FileType::Unknown
        &&& !self.autoload_hotcues
    }
}

impl Default for Track {
    /// A track with nothing filled in.
    fn default() -> (r: Self)
        ensures
            r.is_blank(),
    {
        Track {
            title: String::new(),
            artist: String::new(),
            album: String::new(),
            genre: String::new(),
            key: String::new(),
            label: String::new(),
            composer: String::new(),
            remixer: String::new(),
            orig_artist: String::new(),
            comment: String::new(),
            isrc: String::new(),
            lyricist: String::new(),
            mix_name: String::new(),
            release_date: String::new(),
            date_added: String::new(),
            file_path: String::new(),
            filename: String::new(),
            artwork_device_path: String::new(),
            message: String::new(),
            tempo_bits: 0,
            bitrate: 0,
            sample_rate: 0,
            sample_depth: 0,
            duration_secs: 0,
            file_size: 0,
            track_number: 0,
            disc_number: 0,
            year: 0,
            play_count: 0,
            rating: Rating::Zero,
            color: ColorIndex::NoColor,
            file_type: FileType::Unknown,
            autoload_hotcues: false,
        }
    }
}

/// The analysis data of a track as the export writer takes it.
#[derive(Debug)]
pub struct AnlzInput {
    pub beats: Vec<Beat>,
    pub cues: Vec<Cue>,
    pub cues_extended: Vec<ExtendedCue>,
    pub cue_list_type: CueListType,
    pub preview_mono: Vec<WaveformPreviewColumn>,
    pub tiny_preview: Vec<TinyWaveformPreviewColumn>,
    pub detail_mono: Option<Vec<WaveformPreviewColumn>>,
    pub color_preview: Option<Vec<WaveformColorPreviewColumn>>,
    pub color_detail: Option<Vec<WaveformColorDetailColumn>>,
    pub band3_preview: Option<Vec<Waveform3BandPreviewColumn>>,
    pub band3_detail: Option<Vec<Waveform3BandDetailColumn>>,
}

/// A track with nothing filled in has no characters in any of its texts, and zero in every number.
pub proof fn law_blank_tracks(t: Track)
    requires
        t.is_blank(),
    ensures
        t.title@.len() == 0,
        t.artist@.len() == 0,
        t.album@.len() == 0,
        t.genre@.len() == 0,
        t.key@.len() == 0,
        t.label@.len() == 0,
        t.composer@.len() == 0,
        t.remixer@.len() == 0,
        t.orig_artist@.len() == 0,
        t.comment@.len() == 0,
        t.isrc@.len() == 0,
        t.lyricist@.len() == 0,
        t.mix_name@.len() == 0,
        t.release_date@.len() == 0,
        t.date_added@.len() == 0,
        t.file_path@.len() == 0,
        t.filename@.len() == 0,
        t.artwork_device_path@.len() == 0,
        t.message@.len() == 0,
        t.tempo_bits == 0,
        t.bitrate == 0,
        t.sample_rate == 0,
        t.sample_depth == 0,
        t.duration_secs == 0,
        t.file_size == 0,
        t.track_number == 0,
        t.disc_number == 0,
        t.year == 0,
        t.play_count == 0,
        t.autoload_hotcues == false,
        t.rating is Zero,
        t.color is NoColor,
        t.file_type is Unknown,
{
}

} // verus!
