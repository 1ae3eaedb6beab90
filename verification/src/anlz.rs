//! Columns, beats and cues of the analysis files.

use vstd::prelude::*;

use crate::util::ColorIndex;

verus! {

/// One column of a mono waveform (PWAV, PWV3): five bits of height, three bits of whiteness.
#[derive(Debug, Clone, Copy, PartialEq, Eq, Structural)]
pub struct WaveformPreviewColumn {
    pub height: u8,
    pub whiteness: u8,
}

impl WaveformPreviewColumn {
    /// Whether both values fit their bits.
    pub open spec fn wf(&self) -> bool {
        self.height <= 31 && self.whiteness <= 7
    }

    /// An empty column.
    pub fn new() -> (r: Self)
        ensures
            r == (WaveformPreviewColumn { height: 0, whiteness: 0 }),
    {
        WaveformPreviewColumn { height: 0, whiteness: 0 }
    }

    /// The height in pixels.
    pub fn height(&self) -> (r: u8)
        ensures
            r == self.height,
    {
        self.height
    }

    /// The shade of white.
    pub fn whiteness(&self) -> (r: u8)
        ensures
            r == self.whiteness,
    {
        self.whiteness
    }

    /// The same column with another height.
    pub fn with_height(self, height: u8) -> (r: Self)
        requires
            height <= 31,
        ensures
            r == (WaveformPreviewColumn { height, whiteness: self.whiteness }),
    {
        WaveformPreviewColumn { height, whiteness: self.whiteness }
    }

    /// The same column with another shade.
    pub fn with_whiteness(self, whiteness: u8) -> (r: Self)
        requires
            whiteness <= 7,
        ensures
            r == (WaveformPreviewColumn { height: self.height, whiteness }),
    {
        WaveformPreviewColumn { height: self.height, whiteness }
    }
}

/// One column of the tiny mono waveform (PWV2): four bits of height.
#[derive(Debug, Clone, Copy, PartialEq, Eq, Structural)]
pub struct TinyWaveformPreviewColumn {
    pub height: u8,
}

impl TinyWaveformPreviewColumn {
    /// Whether the height fits its bits.
    pub open spec fn wf(&self) -> bool {
        self.height <= 15
    }

    /// An empty column.
    pub fn new() -> (r: Self)
        ensures
            r == (TinyWaveformPreviewColumn { height: 0 }),
    {
        TinyWaveformPreviewColumn { height: 0 }
    }

    /// The height in pixels.
    pub fn height(&self) -> (r: u8)
        ensures
            r == self.height,
    {
        self.height
    }

    /// The same column with another height.
    pub fn with_height(self, height: u8) -> (r: Self)
        requires
            height <= 15,
        ensures
            r == (TinyWaveformPreviewColumn { height }),
    {
        TinyWaveformPreviewColumn { height }
    }
}

/// One column of the color preview (PWV4).
#[derive(Debug, Clone, Copy, PartialEq, Eq, Structural)]
pub struct WaveformColorPreviewColumn {
    pub energy_bottom_half_freq: u8,
    pub energy_bottom_third_freq: u8,
    pub energy_mid_third_freq: u8,
    pub energy_top_third_freq: u8,
}

impl WaveformColorPreviewColumn {
    /// A column with the given band energies.
    pub fn new(bottom_half: u8, bottom_third: u8, mid_third: u8, top_third: u8) -> (r: Self)
        ensures
            r == (WaveformColorPreviewColumn {
                energy_bottom_half_freq: bottom_half,
                energy_bottom_third_freq: bottom_third,
                energy_mid_third_freq: mid_third,
                energy_top_third_freq: top_third,
            }),
    {
        WaveformColorPreviewColumn {
            energy_bottom_half_freq: bottom_half,
            energy_bottom_third_freq: bottom_third,
            energy_mid_third_freq: mid_third,
            energy_top_third_freq: top_third,
        }
    }
}

/// One column of the color detail (PWV5): three bits per color and five bits of height.
#[derive(Debug, Clone, Copy, PartialEq, Eq, Structural)]
pub struct WaveformColorDetailColumn {
    pub red: u8,
    pub green: u8,
    pub blue: u8,
    pub height: u8,
}

impl WaveformColorDetailColumn {
    /// Whether all values fit their bits.
    pub open spec fn wf(&self) -> bool {
        self.red <= 7 && self.green <= 7 && self.blue <= 7 && self.height <= 31
    }

    /// A column of the given color and height.
    pub fn of(color: (u8, u8, u8), height: u8) -> (r: Self)
        requires
            color.0 <= 7,
            color.1 <= 7,
            color.2 <= 7,
            height <= 31,
        ensures
            r == (WaveformColorDetailColumn {
                red: color.0,
                green: color.1,
                blue: color.2,
                height,
            }),
    {
        WaveformColorDetailColumn { red: color.0, green: color.1, blue: color.2, height }
    }
}

/// One column of the 3-band preview (PWV6).
#[derive(Debug, Clone, Copy, PartialEq, Eq, Structural)]
pub struct Waveform3BandPreviewColumn {
    pub energy_mid_third_freq: u8,
    pub energy_top_third_freq: u8,
    pub energy_bottom_third_freq: u8,
}

/// One column of the 3-band detail (PWV7).
#[derive(Debug, Clone, Copy, PartialEq, Eq, Structural)]
pub struct Waveform3BandDetailColumn {
    pub energy_mid_third_freq: u8,
    pub energy_top_third_freq: u8,
    pub energy_bottom_third_freq: u8,
}

/// A single beat of the beatgrid.
#[derive(Debug, Clone, Copy, PartialEq, Eq, Structural)]
pub struct Beat {
    /// Position in the bar, 1 to 4.
    pub beat_number: u16,
    /// Tempo in centi-BPM.
    pub tempo: u16,
    /// Time in milliseconds.
    pub time: u32,
}

/// Whether a cue is a point or a loop.
#[derive(Debug, Clone, Copy, PartialEq, Eq, Structural)]
pub enum CueType {
    Point,
    Loop,
}

/// The kind of cues that a list holds.
#[derive(Debug, Clone, Copy, PartialEq, Eq, Structural)]
pub enum CueListType {
    MemoryCues,
    HotCues,
}

/// An entry of the plain cue list.
#[derive(Debug, Clone, Copy, PartialEq, Eq, Structural)]
pub struct Cue {
    /// Hot-cue slot, counted from one; zero for a memory cue.
    pub hot_cue: u32,
    pub cue_type: CueType,
    /// Position in milliseconds.
    pub time: u32,
    /// End of the loop in milliseconds; all bits set for a point.
    pub loop_time: u32,
}

/// An entry of the extended cue list.
#[derive(Debug)]
pub struct ExtendedCue {
    /// Hot-cue slot, counted from one; zero for a memory cue.
    pub hot_cue: u32,
    pub cue_type: CueType,
    /// Position in milliseconds.
    pub time: u32,
    /// End of the loop in milliseconds; all bits set for a point.
    pub loop_time: u32,
    /// Color of a memory cue.
    pub color: ColorIndex,
    pub comment: String,
    /// Palette slot of a hot cue.
    pub hot_cue_color_index: u8,
    pub hot_cue_color_rgb: (u8, u8, u8),
}

} // verus!
