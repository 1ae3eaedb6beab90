//! Audio analysis: how decoded samples are cut into columns, how spectrum bins fall into bands,
//! and how the measured heights and energies become the waveform column vectors.

use vstd::prelude::*;
use vstd::string::*;

use crate::anlz::{
    CueListType, TinyWaveformPreviewColumn, Waveform3BandDetailColumn, Waveform3BandPreviewColumn,
    WaveformColorDetailColumn, WaveformColorPreviewColumn, WaveformPreviewColumn,
};
use crate::device::anlz_build::{
    band3_detail_columns, band3_details, band3_preview_columns, band3_previews,
    color_detail_column, color_details, highs, law_color_detail_fields, law_mean, law_windows,
    lemma_mean_bound, lemma_window_step, lows, mean, mean_bands, mids, total, window, window_count,
    DETAIL_PER_PREVIEW,
};
use crate::device::{AnlzInput, Track};

verus! {

/// Window size of the Fourier transform in samples, a power of two.
pub const FFT_SIZE: usize = 1024;

/// The first spectrum bin of the mid band: a third of the way to the Nyquist frequency, rounded.
pub const MID_BIN: usize = 171;

/// The first spectrum bin of the high band: two thirds of the way to the Nyquist frequency,
/// rounded.
pub const HIGH_BIN: usize = 341;

/// `numerator / denominator` rounded to the nearest integer, a half upwards.
pub open spec fn nearest(numerator: int, denominator: int) -> int {
    (2 * numerator + denominator) / (2 * denominator)
}

/// The samples that one detail column covers: there are 150 columns per second. This is the
/// sample rate divided by 150, rounded to the nearest integer.
pub open spec fn detail_step(sample_rate: u32) -> int {
    (2 * sample_rate + 150) / 300
}

/// The samples that one preview column covers: there are 6.667 columns per second. This is the
/// sample rate divided by 6.667, rounded to the nearest integer.
pub open spec fn preview_step(sample_rate: u32) -> int {
    (2000 * sample_rate + 6667) / 13334
}

/// The steps are the sample rate divided by the columns per second, rounded to the nearest
/// integer, a half upwards.
pub proof fn law_steps_are_nearest(sample_rate: u32)
    ensures
        detail_step(sample_rate) == nearest(sample_rate as int, 150),
        preview_step(sample_rate) == nearest(1000 * sample_rate as int, 6667),
        -150 <= 2 * (sample_rate - 150 * detail_step(sample_rate)) < 150,
        -6667 <= 2 * (1000 * sample_rate - 6667 * preview_step(sample_rate)) < 6667,
{
    assert(2 * 150int == 300);
    assert(2 * 6667int == 13334);
}

/// The samples that one detail column covers.
pub fn samples_per_detail_column(sample_rate: u32) -> (r: usize)
    ensures
        r == detail_step(sample_rate),
        sample_rate >= 75 ==> r > 0,
{
    ((2 * (sample_rate as u64) + 150) / 300) as usize
}

/// The samples that one preview column covers.
pub fn samples_per_preview_column(sample_rate: u32) -> (r: usize)
    ensures
        r == preview_step(sample_rate),
        sample_rate >= 75 ==> r > 0,
{
    ((2000 * (sample_rate as u64) + 6667) / 13334) as usize
}

/// The third of the spectrum that a bin belongs to.
#[derive(Debug, Clone, Copy, PartialEq, Eq, Structural)]
pub enum Band {
    Low,
    Mid,
    High,
}

/// The band that a spectrum bin adds its magnitude to.
pub fn band_of_bin(bin: usize) -> (r: Band)
    ensures
        r == if bin < MID_BIN {
            Band::Low
        } else if bin < HIGH_BIN {
            Band::Mid
        } else {
            Band::High
        },
{
    if bin < MID_BIN {
        Band::Low
    } else if bin < HIGH_BIN {
        Band::Mid
    } else {
        Band::High
    }
}

/// The band boundaries are the thirds of the spectrum rounded to bins.
pub proof fn law_bands_are_thirds()
    ensures
        MID_BIN == nearest(FFT_SIZE as int, 6),
        HIGH_BIN == nearest(FFT_SIZE as int, 3),
{
    assert(nearest(1024, 6) == 2054int / 12int);
    assert(nearest(1024, 3) == 2051int / 6int);
}

/// The number of columns that cover `samples` samples at `step` samples per column.
pub open spec fn column_count(samples: int, step: int) -> int {
    window_count(samples, step)
}

/// The samples of column number `k`, from the first up to but not with the last.
pub open spec fn column_range(samples: int, step: int, k: int) -> (int, int) {
    (
        k * step,
        if (k + 1) * step <= samples {
            (k + 1) * step
        } else {
            samples
        },
    )
}

/// Cuts `samples` samples into columns of `step` samples; the last column takes what is left.
pub fn column_ranges(samples: usize, step: usize) -> (r: Vec<(usize, usize)>)
    requires
        step > 0,
    ensures
        r@.len() == column_count(samples as int, step as int),
        forall|k: int|
            0 <= k < r@.len() ==> ((#[trigger] r@[k]).0 as int, r@[k].1 as int) == column_range(
                samples as int,
                step as int,
                k,
            ),
        r@.len() == 0 <==> samples == 0,
        r@.len() > 0 ==> r@[0].0 == 0 && r@.last().0 < r@.last().1 <= r@.last().0 + step
            && r@.last().1 == samples,
        forall|k: int|
            0 <= k < r@.len() - 1 ==> (#[trigger] r@[k]).1 == r@[k].0 + step && r@[k + 1].0
                == r@[k].1,
{
    let mut r: Vec<(usize, usize)> = Vec::new();
    let mut at: usize = 0;
    let ghost size = step as int;
    proof {
        lemma_window_step(samples as int, size, 0);
    }
    while at < samples
        invariant
            step > 0,
            size == step,
            at == r@.len() * size || (at == samples && r@.len() * size >= samples),
            at <= samples,
            r@.len() <= column_count(samples as int, size),
            forall|k: int|
                0 <= k < r@.len() ==> ((#[trigger] r@[k]).0 as int, r@[k].1 as int)
                    == column_range(samples as int, size, k),
            r@.len() == 0 <==> at == 0,
            r@.len() > 0 ==> r@[0].0 == 0 && r@.last().0 < r@.last().1 <= r@.last().0 + step
                && r@.last().1 == at,
            r@.len() > 0 && at < samples ==> r@.last().1 == r@.last().0 + step,
            forall|k: int|
                0 <= k < r@.len() - 1 ==> (#[trigger] r@[k]).1 == r@[k].0 + step && r@[k + 1].0
                    == r@[k].1,
        decreases samples - at,
    {
        let end: usize = if samples - at > step {
            at + step
        } else {
            samples
        };
        proof {
            let k = r@.len() as int;
            lemma_window_step(samples as int, size, k);
            assert((k + 1) * size == k * size + size) by (nonlinear_arith);
        }
        r.push((at, end));
        at = end;
    }
    proof {
        lemma_window_step(samples as int, size, r@.len() as int);
    }
    r
}

/// Every sample falls into exactly one column, and no column is empty.
pub proof fn law_columns_partition_samples(samples: int, step: int, i: int, k: int)
    requires
        step > 0,
        0 <= i < samples,
        0 <= k < column_count(samples, step),
    ensures
        0 <= i / step < column_count(samples, step),
        column_range(samples, step, k).0 <= i < column_range(samples, step, k).1 <==> k == i / step,
        column_range(samples, step, k).0 < column_range(samples, step, k).1 <= samples,
{
    let home = i / step;
    vstd::arithmetic::div_mod::lemma_fundamental_div_mod(i, step);
    vstd::arithmetic::div_mod::lemma_mod_bound(i, step);
    assert(step * home == home * step) by (nonlinear_arith);
    assert((home + 1) * step == home * step + step) by (nonlinear_arith);
    assert(home >= 0) by (nonlinear_arith)
        requires
            (home + 1) * step > 0,
            step > 0,
    ;
    lemma_window_step(samples, step, home);
    lemma_window_step(samples, step, k);
    assert((k + 1) * step == k * step + step) by (nonlinear_arith);
    if k < home {
        assert((k + 1) * step <= home * step) by (nonlinear_arith)
            requires
                k + 1 <= home,
                step > 0,
        ;
    } else if k > home {
        assert((home + 1) * step <= k * step) by (nonlinear_arith)
            requires
                home + 1 <= k,
                step > 0,
        ;
    }
}

/// What the container says of one of its tracks.
#[derive(Debug, Clone, Copy, PartialEq, Eq, Structural)]
pub struct TrackProbe {
    /// Whether its codec is an audio codec.
    pub is_audio: bool,
    /// Whether the parameters of an audio codec are there.
    pub has_parameters: bool,
    pub sample_rate: Option<u32>,
}

/// Why a file cannot be decoded.
#[derive(Debug, Clone, Copy, PartialEq, Eq, Structural)]
pub enum DecodeFailure {
    Open,
    Probe,
    NoAudioTrack,
    NoParameters,
    UnknownSampleRate,
    DecoderInit,
    Read,
    Decode,
}

impl DecodeFailure {
    /// The message of a failure, with what the system or the decoder says of it.
    pub open spec fn message_of(self, detail: Seq<char>) -> Seq<char> {
        match self {
            DecodeFailure::Open => detail,
            DecodeFailure::Probe => "probe failed: "@ + detail,
            DecodeFailure::NoAudioTrack => "no decodable audio track found"@,
            DecodeFailure::NoParameters => "track has no audio codec parameters"@,
            DecodeFailure::UnknownSampleRate => "unknown sample rate"@,
            DecodeFailure::DecoderInit => "decoder init failed: "@ + detail,
            DecodeFailure::Read => "read failed: "@ + detail,
            DecodeFailure::Decode => "decode failed: "@ + detail,
        }
    }

    /// The message of a failure, with what the system or the decoder says of it.
    pub fn message(self, detail: &str) -> (r: String)
        ensures
            r@ == self.message_of(detail@),
    {
        match self {
            DecodeFailure::Open => String::from_str(detail),
            DecodeFailure::Probe => String::from_str("probe failed: ").concat(detail),
            DecodeFailure::NoAudioTrack => String::from_str("no decodable audio track found"),
            DecodeFailure::NoParameters => String::from_str("track has no audio codec parameters"),
            DecodeFailure::UnknownSampleRate => String::from_str("unknown sample rate"),
            DecodeFailure::DecoderInit => String::from_str("decoder init failed: ").concat(detail),
            DecodeFailure::Read => String::from_str("read failed: ").concat(detail),
            DecodeFailure::Decode => String::from_str("decode failed: ").concat(detail),
        }
    }
}

/// Whether track number `i` is the first audio track.
pub open spec fn is_first_audio(tracks: Seq<TrackProbe>, i: int) -> bool {
    &&& 0 <= i < tracks.len()
    &&& tracks[i].is_audio
    &&& forall|j: int| 0 <= j < i ==> !(#[trigger] tracks[j]).is_audio
}

/// Picks the track to decode, the first audio track, and its sample rate.
pub fn select_audio_track(tracks: &[TrackProbe]) -> (r: Result<(usize, u32), DecodeFailure>)
    ensures
        match r {
            Ok((i, rate)) => is_first_audio(tracks@, i as int) && tracks@[i as int].has_parameters
                && tracks@[i as int].sample_rate == Some(rate),
            Err(DecodeFailure::NoAudioTrack) => forall|j: int|
                0 <= j < tracks@.len() ==> !(#[trigger] tracks@[j]).is_audio,
            Err(DecodeFailure::NoParameters) => exists|i: int|
                #[trigger] is_first_audio(tracks@, i) && !tracks@[i].has_parameters,
            Err(DecodeFailure::UnknownSampleRate) => exists|i: int|
                #[trigger] is_first_audio(tracks@, i) && tracks@[i].has_parameters
                    && tracks@[i].sample_rate is None,
            Err(_) => false,
        },
{
    let mut i: usize = 0;
    while i < tracks.len()
        invariant
            i <= tracks.len(),
            forall|j: int| 0 <= j < i ==> !(#[trigger] tracks@[j]).is_audio,
        decreases tracks.len() - i,
    {
        if tracks[i].is_audio {
            assert(is_first_audio(tracks@, i as int));
            if !tracks[i].has_parameters {
                return Err(DecodeFailure::NoParameters);
            }
            return match tracks[i].sample_rate {
                Some(rate) => Ok((i, rate)),
                None => Err(DecodeFailure::UnknownSampleRate),
            };
        }
        i = i + 1;
    }
    Err(DecodeFailure::NoAudioTrack)
}

/// What the last step of decoding led to.
#[derive(Debug, Clone, Copy, PartialEq, Eq, Structural)]
pub enum DecodeEvent {
    /// The container handed out a packet of the track with the given number.
    Packet(u32),
    /// The stream has ended.
    End,
    /// The file ends in the middle of a packet.
    UnexpectedEof,
    /// Reading a packet failed otherwise.
    ReadFailed,
    /// A packet was decoded.
    Decoded { channels: usize, frames: usize },
    /// A packet could not be decoded.
    DecodeFailed,
}

/// What to do next.
#[derive(Debug, Clone, Copy, PartialEq, Eq, Structural)]
pub enum DecodeStep {
    /// Decode the packet.
    Decode,
    /// Mix the decoded channels down and go on with the next packet.
    Mix,
    /// Go on with the next packet.
    Skip,
    /// Stop: all samples are there.
    Finish,
    /// Give up.
    Fail(DecodeFailure),
}

/// What follows an event: packets of other tracks and packets without samples are skipped, and a
/// file that is cut short counts as ended.
pub open spec fn step_after(event: DecodeEvent, track_id: u32) -> DecodeStep {
    match event {
        DecodeEvent::Packet(id) => if id == track_id {
            DecodeStep::Decode
        } else {
            DecodeStep::Skip
        },
        DecodeEvent::End => DecodeStep::Finish,
        DecodeEvent::UnexpectedEof => DecodeStep::Finish,
        DecodeEvent::ReadFailed => DecodeStep::Fail(DecodeFailure::Read),
        DecodeEvent::Decoded { channels, frames } => if channels == 0 || frames == 0 {
            DecodeStep::Skip
        } else {
            DecodeStep::Mix
        },
        DecodeEvent::DecodeFailed => DecodeStep::Fail(DecodeFailure::Decode),
    }
}

/// Decides what follows an event.
pub fn decode_step(event: DecodeEvent, track_id: u32) -> (r: DecodeStep)
    ensures
        r == step_after(event, track_id),
{
    match event {
        DecodeEvent::Packet(id) => if id == track_id {
            DecodeStep::Decode
        } else {
            DecodeStep::Skip
        },
        DecodeEvent::End => DecodeStep::Finish,
        DecodeEvent::UnexpectedEof => DecodeStep::Finish,
        DecodeEvent::ReadFailed => DecodeStep::Fail(DecodeFailure::Read),
        DecodeEvent::Decoded { channels, frames } => if channels == 0 || frames == 0 {
            DecodeStep::Skip
        } else {
            DecodeStep::Mix
        },
        DecodeEvent::DecodeFailed => DecodeStep::Fail(DecodeFailure::Decode),
    }
}

/// What was measured of a decoded file: the peak heights of each preview column (0-31 and 0-15),
/// the peak height of each detail column (0-31), and the band energies of each detail column.
#[derive(Debug)]
pub struct Measurements {
    pub samples: usize,
    pub sample_rate: u32,
    pub preview_peaks: Vec<(u8, u8)>,
    pub detail_peaks: Vec<u8>,
    pub bands: Vec<(u8, u8, u8)>,
}

impl Measurements {
    /// The number of preview columns.
    pub open spec fn previews(&self) -> int {
        column_count(self.samples as int, preview_step(self.sample_rate))
    }

    /// The number of detail columns.
    pub open spec fn details(&self) -> int {
        column_count(self.samples as int, detail_step(self.sample_rate))
    }

    /// Whether there is one measurement per column, within its range.
    pub open spec fn wf(&self) -> bool {
        &&& self.sample_rate >= 75
        &&& self.preview_peaks@.len() == self.previews()
        &&& self.detail_peaks@.len() == self.details()
        &&& self.bands@.len() == self.details()
        &&& forall|i: int|
            0 <= i < self.preview_peaks@.len() ==> (#[trigger] self.preview_peaks@[i]).0 <= 31
                && self.preview_peaks@[i].1 <= 15
        &&& forall|i: int|
            0 <= i < self.detail_peaks@.len() ==> (#[trigger] self.detail_peaks@[i]) <= 31
    }
}

/// The waveform columns of an audio file. Beats and cues are not part of it.
#[derive(Debug, Clone)]
pub struct ComputedAnlz {
    /// Mono preview (PWAV).
    pub preview_mono: Vec<WaveformPreviewColumn>,
    /// Tiny mono preview (PWV2).
    pub tiny_preview: Vec<TinyWaveformPreviewColumn>,
    /// Mono detail (PWV3).
    pub detail_mono: Vec<WaveformPreviewColumn>,
    /// Color preview (PWV4).
    pub color_preview: Vec<WaveformColorPreviewColumn>,
    /// Color detail (PWV5).
    pub color_detail: Vec<WaveformColorDetailColumn>,
    /// 3-band preview (PWV6).
    pub band3_preview: Vec<Waveform3BandPreviewColumn>,
    /// 3-band detail (PWV7).
    pub band3_detail: Vec<Waveform3BandDetailColumn>,
}

impl ComputedAnlz {
    /// Wraps these columns for the export writer. Beats and cues are left empty; nothing is taken
    /// from the track.
    pub fn into_input(self, _track: &Track) -> (r: AnlzInput)
        ensures
            r.beats@.len() == 0,
            r.cues@.len() == 0,
            r.cues_extended@.len() == 0,
            r.cue_list_type == CueListType::MemoryCues,
            r.preview_mono == self.preview_mono,
            r.tiny_preview == self.tiny_preview,
            r.detail_mono == Some(self.detail_mono),
            r.color_preview == Some(self.color_preview),
            r.color_detail == Some(self.color_detail),
            r.band3_preview == Some(self.band3_preview),
            r.band3_detail == Some(self.band3_detail),
    {
        AnlzInput {
            beats: Vec::new(),
            cues: Vec::new(),
            cues_extended: Vec::new(),
            cue_list_type: CueListType::MemoryCues,
            preview_mono: self.preview_mono,
            tiny_preview: self.tiny_preview,
            detail_mono: Some(self.detail_mono),
            color_preview: Some(self.color_preview),
            color_detail: Some(self.color_detail),
            band3_preview: Some(self.band3_preview),
            band3_detail: Some(self.band3_detail),
        }
    }
}

/// The detail bands that fall into preview column number `k`; none past the end.
pub open spec fn slot_bands(bands: Seq<(u8, u8, u8)>, k: int) -> Seq<(u8, u8, u8)> {
    if k * DETAIL_PER_PREVIEW < bands.len() {
        window(bands, DETAIL_PER_PREVIEW as int, k)
    } else {
        Seq::empty()
    }
}

/// The color preview column of one slot: the mean band energies, the low one for the bottom half
/// as well.
pub open spec fn slot_color(bands: Seq<(u8, u8, u8)>) -> WaveformColorPreviewColumn {
    WaveformColorPreviewColumn {
        energy_bottom_half_freq: mean(lows(bands)) as u8,
        energy_bottom_third_freq: mean(lows(bands)) as u8,
        energy_mid_third_freq: mean(mids(bands)) as u8,
        energy_top_third_freq: mean(highs(bands)) as u8,
    }
}

/// The color preview of measured bands, `slots` columns of it.
pub open spec fn slot_colors(bands: Seq<(u8, u8, u8)>, slots: nat) -> Seq<
    WaveformColorPreviewColumn,
> {
    Seq::new(slots, |k: int| slot_color(slot_bands(bands, k)))
}

/// The columns that belong to the measurements of a file.
pub open spec fn is_analysis(m: Measurements, r: ComputedAnlz) -> bool {
    &&& r.preview_mono@ == Seq::new(
        m.preview_peaks@.len(),
        |k: int| WaveformPreviewColumn { height: m.preview_peaks@[k].0, whiteness: 0 },
    )
    &&& r.tiny_preview@ == Seq::new(
        m.preview_peaks@.len(),
        |k: int| TinyWaveformPreviewColumn { height: m.preview_peaks@[k].1 },
    )
    &&& r.detail_mono@ == Seq::new(
        m.detail_peaks@.len(),
        |k: int| WaveformPreviewColumn { height: m.detail_peaks@[k], whiteness: 0 },
    )
    &&& r.color_preview@ == slot_colors(m.bands@, m.preview_peaks@.len())
    &&& r.color_detail@ == color_details(m.bands@, m.detail_peaks@)
    &&& r.band3_preview@ == band3_previews(r.color_preview@)
    &&& r.band3_detail@ == band3_details(m.bands@)
}

/// Averages the band energies across the detail columns of each preview slot.
fn slot_color_columns(bands: &Vec<(u8, u8, u8)>, slots: usize) -> (r: Vec<
    WaveformColorPreviewColumn,
>)
    ensures
        r@ == slot_colors(bands@, slots as nat),
{
    let mut r: Vec<WaveformColorPreviewColumn> = Vec::new();
    let mut at: usize = 0;
    let mut k: usize = 0;
    while k < slots
        invariant
            k <= slots,
            r@.len() == k,
            at <= bands.len(),
            at == k * DETAIL_PER_PREVIEW || (at == bands.len() && k * DETAIL_PER_PREVIEW
                >= bands.len()),
            forall|j: int| 0 <= j < k ==> #[trigger] r@[j] == slot_color(slot_bands(bands@, j)),
        decreases slots - k,
    {
        let end: usize = if bands.len() - at > DETAIL_PER_PREVIEW {
            at + DETAIL_PER_PREVIEW
        } else {
            bands.len()
        };
        if at < end {
            let (low, mid, high) = mean_bands(bands.as_slice(), at, end);
            assert(window(bands@, 22, k as int) =~= bands@.subrange(at as int, end as int));
            r.push(WaveformColorPreviewColumn::new(low, low, mid, high));
        } else {
            r.push(WaveformColorPreviewColumn::new(0, 0, 0, 0));
        }
        at = end;
        k = k + 1;
    }
    assert(r@ =~= slot_colors(bands@, slots as nat));
    r
}

/// Turns the measurements of a decoded file into all its waveform column vectors.
pub fn analyze(m: &Measurements) -> (r: ComputedAnlz)
    requires
        m.wf(),
    ensures
        is_analysis(*m, r),
        r.band3_detail@.len() == m.bands@.len(),
        forall|i: int|
            0 <= i < m.bands@.len() ==> (#[trigger] r.band3_detail@[i]).energy_bottom_third_freq
                == m.bands@[i].0 && r.band3_detail@[i].energy_mid_third_freq == m.bands@[i].1
                && r.band3_detail@[i].energy_top_third_freq == m.bands@[i].2,
{
    let mut preview_mono: Vec<WaveformPreviewColumn> = Vec::new();
    let mut tiny_preview: Vec<TinyWaveformPreviewColumn> = Vec::new();
    let mut i: usize = 0;
    while i < m.preview_peaks.len()
        invariant
            m.wf(),
            i <= m.preview_peaks.len(),
            preview_mono@.len() == i,
            tiny_preview@.len() == i,
            forall|k: int|
                0 <= k < i ==> #[trigger] preview_mono@[k] == (WaveformPreviewColumn {
                    height: m.preview_peaks@[k].0,
                    whiteness: 0,
                }),
            forall|k: int|
                0 <= k < i ==> #[trigger] tiny_preview@[k] == (TinyWaveformPreviewColumn {
                    height: m.preview_peaks@[k].1,
                }),
        decreases m.preview_peaks.len() - i,
    {
        let (tall, short) = m.preview_peaks[i];
        preview_mono.push(WaveformPreviewColumn::new().with_height(tall).with_whiteness(0));
        tiny_preview.push(TinyWaveformPreviewColumn::new().with_height(short));
        i = i + 1;
    }
    let mut detail_mono: Vec<WaveformPreviewColumn> = Vec::new();
    let mut color_detail: Vec<WaveformColorDetailColumn> = Vec::new();
    let mut j: usize = 0;
    while j < m.detail_peaks.len()
        invariant
            m.wf(),
            j <= m.detail_peaks.len(),
            detail_mono@.len() == j,
            color_detail@.len() == j,
            forall|k: int|
                0 <= k < j ==> #[trigger] detail_mono@[k] == (WaveformPreviewColumn {
                    height: m.detail_peaks@[k],
                    whiteness: 0,
                }),
            forall|k: int|
                0 <= k < j ==> #[trigger] color_detail@[k] == color_details(
                    m.bands@,
                    m.detail_peaks@,
                )[k],
        decreases m.detail_peaks.len() - j,
    {
        let height: u8 = m.detail_peaks[j];
        let (low, mid, high) = m.bands[j];
        detail_mono.push(WaveformPreviewColumn::new().with_height(height).with_whiteness(0));
        color_detail.push(color_detail_column(low, mid, high, Some(height)));
        j = j + 1;
    }
    let color_preview: Vec<WaveformColorPreviewColumn> = slot_color_columns(
        &m.bands,
        m.preview_peaks.len(),
    );
    let band3_preview: Vec<Waveform3BandPreviewColumn> = band3_preview_columns(&color_preview);
    let band3_detail: Vec<Waveform3BandDetailColumn> = band3_detail_columns(m.bands.as_slice());
    let r = ComputedAnlz {
        preview_mono,
        tiny_preview,
        detail_mono,
        color_preview,
        color_detail,
        band3_preview,
        band3_detail,
    };
    assert(is_analysis(*m, r)) by {
        assert(r.preview_mono@ =~= Seq::new(
            m.preview_peaks@.len(),
            |k: int| WaveformPreviewColumn { height: m.preview_peaks@[k].0, whiteness: 0 },
        ));
        assert(r.tiny_preview@ =~= Seq::new(
            m.preview_peaks@.len(),
            |k: int| TinyWaveformPreviewColumn { height: m.preview_peaks@[k].1 },
        ));
        assert(r.detail_mono@ =~= Seq::new(
            m.detail_peaks@.len(),
            |k: int| WaveformPreviewColumn { height: m.detail_peaks@[k], whiteness: 0 },
        ));
        assert(r.color_detail@ =~= color_details(m.bands@, m.detail_peaks@));
    }
    r
}

/// All previews of a file have the same number of columns, and so have all its details; every
/// value fits its bits.
pub proof fn law_analysis_is_consistent(m: Measurements, r: ComputedAnlz, k: int)
    requires
        m.wf(),
        is_analysis(m, r),
    ensures
        r.preview_mono@.len() == m.previews(),
        r.tiny_preview@.len() == m.previews(),
        r.color_preview@.len() == m.previews(),
        r.band3_preview@.len() == m.previews(),
        r.detail_mono@.len() == m.details(),
        r.color_detail@.len() == m.details(),
        r.band3_detail@.len() == m.details(),
        0 <= k < m.previews() ==> r.preview_mono@[k].wf() && r.tiny_preview@[k].wf(),
        0 <= k < m.details() ==> r.detail_mono@[k].wf() && r.color_detail@[k].wf(),
{
    if 0 <= k < m.previews() {
        assert(m.preview_peaks@[k].0 <= 31 && m.preview_peaks@[k].1 <= 15);
    }
    if 0 <= k < m.details() {
        assert(m.detail_peaks@[k] <= 31);
    }
}

/// Each measured height becomes the height of its own column, without whiteness; each slot's three
/// energies become the three thirds of its 3-band detail; and the color detail has the height of the
/// mono detail.
pub proof fn law_columns_hold_what_was_measured(m: Measurements, r: ComputedAnlz, k: int)
    requires
        m.wf(),
        is_analysis(m, r),
        0 <= k,
    ensures
        k < m.preview_peaks@.len() ==> r.preview_mono@[k].height == m.preview_peaks@[k].0
            && r.tiny_preview@[k].height == m.preview_peaks@[k].1 && r.preview_mono@[k].whiteness
            == 0,
        k < m.detail_peaks@.len() ==> r.detail_mono@[k].height == m.detail_peaks@[k]
            && r.color_detail@[k].height == m.detail_peaks@[k] && r.detail_mono@[k].whiteness == 0,
        k < m.bands@.len() ==> r.band3_detail@[k].energy_bottom_third_freq == m.bands@[k].0
            && r.band3_detail@[k].energy_mid_third_freq == m.bands@[k].1
            && r.band3_detail@[k].energy_top_third_freq == m.bands@[k].2,
        k < m.bands@.len() ==> {
            let (low, mid, high) = m.bands@[k];
            let c = r.color_detail@[k];
            &&& c.red + c.green + c.blue == 7
            &&& c.blue == 7 <==> high >= mid && high >= low
            &&& c.red == 7 <==> low > mid && low > high
        },
        k < r.band3_preview@.len() ==> r.band3_preview@[k].energy_bottom_third_freq
            == r.color_preview@[k].energy_bottom_third_freq
            && r.band3_preview@[k].energy_mid_third_freq == r.color_preview@[k].energy_mid_third_freq
            && r.band3_preview@[k].energy_top_third_freq
            == r.color_preview@[k].energy_top_third_freq,
{
    if k < m.bands@.len() {
        law_color_detail_fields(m.bands@, m.detail_peaks@, k);
    }
}

/// A color preview column holds the means of the three energies of its 22 detail slots, the low one
/// twice; where no slots are left it is empty.
pub proof fn law_preview_slots_hold_means(m: Measurements, r: ComputedAnlz, k: int)
    requires
        m.wf(),
        is_analysis(m, r),
        0 <= k < r.color_preview@.len(),
    ensures
        ({
            let column = r.color_preview@[k];
            let slots = window(m.bands@, 22, k);
            let n = slots.len();
            &&& column.energy_bottom_half_freq == column.energy_bottom_third_freq
            &&& 22 * k >= m.bands@.len() ==> column.energy_bottom_third_freq == 0
                && column.energy_mid_third_freq == 0 && column.energy_top_third_freq == 0
            &&& 22 * k < m.bands@.len() ==> {
                &&& n > 0
                &&& n * column.energy_bottom_third_freq <= total(lows(slots)) < n
                    * column.energy_bottom_third_freq + n
                &&& n * column.energy_mid_third_freq <= total(mids(slots)) < n
                    * column.energy_mid_third_freq + n
                &&& n * column.energy_top_third_freq <= total(highs(slots)) < n
                    * column.energy_top_third_freq + n
            }
        }),
{
    let bands = m.bands@;
    if 22 * k < bands.len() {
        let slots = window(bands, 22, k);
        law_windows(bands, k, 0);
        law_mean(lows(slots));
        law_mean(mids(slots));
        law_mean(highs(slots));
        lemma_mean_bound(lows(slots));
        lemma_mean_bound(mids(slots));
        lemma_mean_bound(highs(slots));
    }
}

/// The columns of a file stand side by side: each starts where the one before it ends, all but the
/// last take in the same number of samples, and the last ends with the samples.
pub proof fn law_columns_stand_side_by_side(samples: int, step: int, k: int)
    requires
        step > 0,
        0 <= k < column_count(samples, step),
        0 <= samples,
    ensures
        column_range(samples, step, 0).0 == 0,
        column_range(samples, step, k).1 <= samples,
        column_range(samples, step, k).1 <= column_range(samples, step, k).0 + step,
        k + 1 < column_count(samples, step) ==> column_range(samples, step, k + 1).0
            == column_range(samples, step, k).1 && column_range(samples, step, k).1 == column_range(
            samples,
            step,
            k,
        ).0 + step,
        k + 1 == column_count(samples, step) ==> column_range(samples, step, k).1 == samples,
{
    assert((k + 1) * step == k * step + step) by (nonlinear_arith);
    lemma_window_step(samples, step, k);
    lemma_window_step(samples, step, k + 1);
    assert(0 * step == 0) by (nonlinear_arith);
}

/// Only a packet of the chosen track is decoded, and only samples are mixed; the end of the file
/// finishes the work whether it comes cleanly or not, and a failure ends it with its own kind.
pub proof fn law_decoding_steps(event: DecodeEvent, track_id: u32)
    ensures
        step_after(event, track_id) is Decode <==> event == DecodeEvent::Packet(track_id),
        step_after(event, track_id) is Mix <==> (event matches DecodeEvent::Decoded {
            channels,
            frames,
        } && channels > 0 && frames > 0),
        step_after(event, track_id) is Finish <==> event is End || event is UnexpectedEof,
        step_after(event, track_id) == DecodeStep::Fail(DecodeFailure::Read) <==> event
            is ReadFailed,
        step_after(event, track_id) == DecodeStep::Fail(DecodeFailure::Decode) <==> event
            is DecodeFailed,
        step_after(event, track_id) is Fail ==> event is ReadFailed || event is DecodeFailed,
{
}

/// A message says which step failed, and ends with what the system or the decoder says of it unless
/// the container alone is to blame.
pub proof fn law_messages(failure: DecodeFailure, detail: Seq<char>)
    ensures
        failure is Open ==> failure.message_of(detail) == detail,
        failure is Probe ==> failure.message_of(detail) == "probe failed: "@ + detail,
        failure is DecoderInit ==> failure.message_of(detail) == "decoder init failed: "@ + detail,
        failure is Read ==> failure.message_of(detail) == "read failed: "@ + detail,
        failure is Decode ==> failure.message_of(detail) == "decode failed: "@ + detail,
        failure is NoAudioTrack ==> failure.message_of(detail)
            == "no decodable audio track found"@,
        failure is NoParameters ==> failure.message_of(detail)
            == "track has no audio codec parameters"@,
        failure is UnknownSampleRate ==> failure.message_of(detail) == "unknown sample rate"@,
{
}

/// The first audio track is an audio track, and all tracks before it are not.
pub proof fn law_first_audio_track(tracks: Seq<TrackProbe>, i: int, j: int)
    requires
        is_first_audio(tracks, i),
        0 <= j < tracks.len(),
    ensures
        0 <= i < tracks.len(),
        tracks[i].is_audio,
        j < i ==> !tracks[j].is_audio,
        is_first_audio(tracks, j) ==> i == j,
{
    if is_first_audio(tracks, j) {
        if i < j {
            assert(!tracks[i].is_audio);
        } else if j < i {
            assert(!tracks[j].is_audio);
        }
    }
}

} // verus!
