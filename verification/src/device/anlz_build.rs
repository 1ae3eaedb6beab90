//! Construction of the analysis columns. This module owns the format knowledge: how 150 Hz detail
//! bands expand to the column vectors, how a sparse beatgrid densifies, and how cues map.

use vstd::prelude::*;

use crate::anlz::{
    TinyWaveformPreviewColumn, Waveform3BandDetailColumn, Waveform3BandPreviewColumn,
    WaveformColorDetailColumn, WaveformColorPreviewColumn, WaveformPreviewColumn,
};
use crate::device::beatgrid::{beats_of, expand_beatgrid, BeatGrid};
use crate::device::cues::{build_cues, combine_cues, is_combined, is_cue_lists, CueInput};
use crate::device::AnlzInput;

verus! {

/// Detail columns aggregated into one preview column: 150 columns per second against 6.667.
pub const DETAIL_PER_PREVIEW: usize = 22;

/// The number of windows of `size` items that cover `len` items.
pub open spec fn window_count(len: int, size: int) -> int {
    (len + size - 1) / size
}

/// Window number `k` of `s`: `size` items, or what is left of them at the end.
pub open spec fn window<T>(s: Seq<T>, size: int, k: int) -> Seq<T> {
    s.subrange(
        k * size,
        if (k + 1) * size <= s.len() {
            (k + 1) * size
        } else {
            s.len() as int
        },
    )
}

/// The sum of a sequence of bytes.
pub open spec fn total(s: Seq<u8>) -> nat
    decreases s.len(),
{
    if s.len() == 0 {
        0
    } else {
        total(s.drop_last()) + s.last() as nat
    }
}

/// The integer mean of a sequence of bytes, zero for none.
pub open spec fn mean(s: Seq<u8>) -> nat {
    if s.len() == 0 {
        0
    } else {
        total(s) / s.len()
    }
}

/// The largest of a sequence of bytes, zero for none.
pub open spec fn peak(s: Seq<u8>) -> u8
    decreases s.len(),
{
    if s.len() == 0 {
        0
    } else if peak(s.drop_last()) >= s.last() {
        peak(s.drop_last())
    } else {
        s.last()
    }
}

pub open spec fn lows(bands: Seq<(u8, u8, u8)>) -> Seq<u8> {
    Seq::new(bands.len(), |i: int| bands[i].0)
}

pub open spec fn mids(bands: Seq<(u8, u8, u8)>) -> Seq<u8> {
    Seq::new(bands.len(), |i: int| bands[i].1)
}

pub open spec fn highs(bands: Seq<(u8, u8, u8)>) -> Seq<u8> {
    Seq::new(bands.len(), |i: int| bands[i].2)
}

proof fn lemma_total_bound(s: Seq<u8>)
    ensures
        total(s) <= 255 * s.len(),
    decreases s.len(),
{
    if s.len() > 0 {
        lemma_total_bound(s.drop_last());
    }
}

/// The integer mean never exceeds the largest byte value.
pub(crate) proof fn lemma_mean_bound(s: Seq<u8>)
    ensures
        mean(s) <= 255,
{
    lemma_total_bound(s);
    if s.len() > 0 {
        let n = s.len() as int;
        let t = total(s) as int;
        assert(t / n <= 255) by (nonlinear_arith)
            requires
                n > 0,
                t <= 255 * n,
        ;
    }
}

/// The means of the low, mid and high energies of `bands[lo..hi]`.
pub(crate) fn mean_bands(bands: &[(u8, u8, u8)], lo: usize, hi: usize) -> (r: (u8, u8, u8))
    requires
        lo < hi <= bands.len(),
        hi - lo <= DETAIL_PER_PREVIEW,
    ensures
        r.0 == mean(lows(bands@.subrange(lo as int, hi as int))),
        r.1 == mean(mids(bands@.subrange(lo as int, hi as int))),
        r.2 == mean(highs(bands@.subrange(lo as int, hi as int))),
{
    let mut sums: (u32, u32, u32) = (0, 0, 0);
    let mut i: usize = lo;
    let ghost chunk = bands@.subrange(lo as int, hi as int);
    while i < hi
        invariant
            lo <= i <= hi <= bands.len(),
            hi - lo <= DETAIL_PER_PREVIEW,
            chunk == bands@.subrange(lo as int, hi as int),
            sums.0 == total(lows(chunk.take(i - lo))),
            sums.1 == total(mids(chunk.take(i - lo))),
            sums.2 == total(highs(chunk.take(i - lo))),
        decreases hi - i,
    {
        proof {
            let now = chunk.take(i - lo);
            let next = chunk.take(i - lo + 1);
            assert(lows(next).drop_last() =~= lows(now));
            assert(mids(next).drop_last() =~= mids(now));
            assert(highs(next).drop_last() =~= highs(now));
            lemma_total_bound(lows(now));
            lemma_total_bound(mids(now));
            lemma_total_bound(highs(now));
        }
        let (low, mid, high) = bands[i];
        sums = (sums.0 + low as u32, sums.1 + mid as u32, sums.2 + high as u32);
        i = i + 1;
    }
    let n: u32 = (hi - lo) as u32;
    proof {
        assert(chunk.take(hi - lo) =~= chunk);
        lemma_mean_bound(lows(chunk));
        lemma_mean_bound(mids(chunk));
        lemma_mean_bound(highs(chunk));
    }
    ((sums.0 / n) as u8, (sums.1 / n) as u8, (sums.2 / n) as u8)
}

/// The color of the dominant band: high is blue, mid is green, low is red; ties go to the higher
/// band.
pub open spec fn dominant_color(low: u8, mid: u8, high: u8) -> (u8, u8, u8) {
    if high >= mid && high >= low {
        (0, 0, 7)
    } else if mid >= low {
        (0, 7, 0)
    } else {
        (7, 0, 0)
    }
}

/// The largest of three band energies scaled from 0-255 to 0-31 and rounded to the nearest
/// integer.
pub open spec fn scaled_height(low: u8, mid: u8, high: u8) -> int {
    let top: int = if low >= mid && low >= high {
        low as int
    } else if mid >= high {
        mid as int
    } else {
        high as int
    };
    (62 * top + 255) / 510
}

/// The color detail column of one slot: the given height, or the scaled band maximum where there
/// is none.
pub open spec fn color_detail(
    low: u8,
    mid: u8,
    high: u8,
    height: Option<u8>,
) -> WaveformColorDetailColumn {
    let color = dominant_color(low, mid, high);
    WaveformColorDetailColumn {
        red: color.0,
        green: color.1,
        blue: color.2,
        height: match height {
            Some(h) => h,
            None => scaled_height(low, mid, high) as u8,
        },
    }
}

/// Quantizes one color detail column.
pub fn color_detail_column(low: u8, mid: u8, high: u8, height: Option<u8>) -> (r:
    WaveformColorDetailColumn)
    requires
        height matches Some(h) ==> h <= 31,
    ensures
        r == color_detail(low, mid, high, height),
        r.wf(),
{
    let height: u8 = match height {
        Some(h) => h,
        None => {
            let top: u8 = if low >= mid && low >= high {
                low
            } else if mid >= high {
                mid
            } else {
                high
            };
            ((62 * (top as u32) + 255) / 510) as u8
        },
    };
    let color: (u8, u8, u8) = if high >= mid && high >= low {
        (0, 0, 7)
    } else if mid >= low {
        (0, 7, 0)
    } else {
        (7, 0, 0)
    };
    WaveformColorDetailColumn::of(color, height)
}

/// The color preview column of one window: the mean energy of each band. The energy of the bottom
/// half stays zero.
pub open spec fn color_preview_of(bands: Seq<(u8, u8, u8)>) -> WaveformColorPreviewColumn {
    WaveformColorPreviewColumn {
        energy_bottom_half_freq: 0,
        energy_bottom_third_freq: mean(lows(bands)) as u8,
        energy_mid_third_freq: mean(mids(bands)) as u8,
        energy_top_third_freq: mean(highs(bands)) as u8,
    }
}

/// The color preview of a detail vector: one column per window.
pub open spec fn color_previews(bands: Seq<(u8, u8, u8)>) -> Seq<WaveformColorPreviewColumn> {
    Seq::new(
        window_count(bands.len() as int, DETAIL_PER_PREVIEW as int) as nat,
        |k: int| color_preview_of(window(bands, DETAIL_PER_PREVIEW as int, k)),
    )
}

/// The color detail of a detail vector: one column per slot, with the height of that slot where
/// there is one.
pub open spec fn color_details(bands: Seq<(u8, u8, u8)>, heights: Seq<u8>) -> Seq<
    WaveformColorDetailColumn,
> {
    Seq::new(
        bands.len(),
        |i: int|
            color_detail(
                bands[i].0,
                bands[i].1,
                bands[i].2,
                if i < heights.len() {
                    Some(heights[i])
                } else {
                    None
                },
            ),
    )
}

/// The 3-band preview that goes with a color preview.
pub open spec fn band3_previews(columns: Seq<WaveformColorPreviewColumn>) -> Seq<
    Waveform3BandPreviewColumn,
> {
    Seq::new(
        columns.len(),
        |i: int|
            Waveform3BandPreviewColumn {
                energy_mid_third_freq: columns[i].energy_mid_third_freq,
                energy_top_third_freq: columns[i].energy_top_third_freq,
                energy_bottom_third_freq: columns[i].energy_bottom_third_freq,
            },
    )
}

/// The 3-band detail of a detail vector.
pub open spec fn band3_details(bands: Seq<(u8, u8, u8)>) -> Seq<Waveform3BandDetailColumn> {
    Seq::new(
        bands.len(),
        |i: int|
            Waveform3BandDetailColumn {
                energy_mid_third_freq: bands[i].1,
                energy_top_third_freq: bands[i].2,
                energy_bottom_third_freq: bands[i].0,
            },
    )
}

/// Whether every height that belongs to a detail slot fits five bits.
pub open spec fn heights_fit(bands: Seq<(u8, u8, u8)>, heights: Seq<u8>) -> bool {
    forall|i: int| 0 <= i < bands.len() && i < heights.len() ==> #[trigger] heights[i] <= 31
}

/// Copies the band energies of a color preview into the 3-band preview.
pub(crate) fn band3_preview_columns(columns: &Vec<WaveformColorPreviewColumn>) -> (r: Vec<
    Waveform3BandPreviewColumn,
>)
    ensures
        r@ == band3_previews(columns@),
{
    let mut r: Vec<Waveform3BandPreviewColumn> = Vec::with_capacity(columns.len());
    let mut i: usize = 0;
    while i < columns.len()
        invariant
            i <= columns.len(),
            r@ =~= band3_previews(columns@.take(i as int)),
        decreases columns.len() - i,
    {
        let c = &columns[i];
        r.push(
            Waveform3BandPreviewColumn {
                energy_mid_third_freq: c.energy_mid_third_freq,
                energy_top_third_freq: c.energy_top_third_freq,
                energy_bottom_third_freq: c.energy_bottom_third_freq,
            },
        );
        i = i + 1;
    }
    assert(columns@.take(i as int) =~= columns@);
    r
}

/// Maps the band energies of each detail slot into a 3-band detail column.
pub(crate) fn band3_detail_columns(bands: &[(u8, u8, u8)]) -> (r: Vec<Waveform3BandDetailColumn>)
    ensures
        r@ == band3_details(bands@),
{
    let mut r: Vec<Waveform3BandDetailColumn> = Vec::with_capacity(bands.len());
    let mut i: usize = 0;
    while i < bands.len()
        invariant
            i <= bands.len(),
            r@ =~= band3_details(bands@.take(i as int)),
        decreases bands.len() - i,
    {
        let (low, mid, high) = bands[i];
        r.push(
            Waveform3BandDetailColumn {
                energy_mid_third_freq: mid,
                energy_top_third_freq: high,
                energy_bottom_third_freq: low,
            },
        );
        i = i + 1;
    }
    assert(bands@.take(i as int) =~= bands@);
    r
}

/// The number of windows passed once the items before `at` are done.
pub(crate) proof fn lemma_window_step(len: int, size: int, k: int)
    requires
        size > 0,
        0 <= k,
        0 <= len,
    ensures
        k * size < len ==> k < window_count(len, size),
        k * size >= len ==> k >= window_count(len, size),
{
    let count = window_count(len, size);
    vstd::arithmetic::div_mod::lemma_fundamental_div_mod(len + size - 1, size);
    vstd::arithmetic::div_mod::lemma_mod_bound(len + size - 1, size);
    if k >= count {
        assert(k * size >= count * size) by (nonlinear_arith)
            requires
                k >= count,
                size > 0,
        ;
        assert(count * size == size * count) by (nonlinear_arith);
    } else {
        assert(k * size <= (count - 1) * size) by (nonlinear_arith)
            requires
                k <= count - 1,
                size > 0,
        ;
        assert((count - 1) * size == size * count - size) by (nonlinear_arith);
    }
}

/// The number of preview columns, one per started 22 detail columns.
proof fn lemma_preview_count(len: int)
    requires
        0 <= len,
    ensures
        window_count(len, DETAIL_PER_PREVIEW as int) == (len + 21) / 22,
{
    assert(window_count(len, 22) == (len + 22 - 1) / 22);
}

/// The color preview: the mean band energies of each window.
fn color_preview_columns(bands: &[(u8, u8, u8)]) -> (r: Vec<WaveformColorPreviewColumn>)
    ensures
        r@ == color_previews(bands@),
{
    let mut r: Vec<WaveformColorPreviewColumn> = Vec::new();
    let mut at: usize = 0;
    proof {
        lemma_window_step(bands@.len() as int, 22, 0);
    }
    while at < bands.len()
        invariant
            at == r@.len() * DETAIL_PER_PREVIEW || (at == bands.len() && r@.len()
                * DETAIL_PER_PREVIEW > bands.len()),
            at <= bands.len(),
            r@.len() <= window_count(bands@.len() as int, 22),
            forall|k: int|
                0 <= k < r@.len() ==> #[trigger] r@[k] == color_preview_of(window(bands@, 22, k)),
        decreases bands.len() - at,
    {
        let end: usize = if bands.len() - at > DETAIL_PER_PREVIEW {
            at + DETAIL_PER_PREVIEW
        } else {
            bands.len()
        };
        let (low, mid, high) = mean_bands(bands, at, end);
        proof {
            let k = r@.len() as int;
            lemma_window_step(bands@.len() as int, 22, k);
            assert(window(bands@, 22, k) =~= bands@.subrange(at as int, end as int));
        }
        r.push(WaveformColorPreviewColumn::new(0, low, mid, high));
        at = end;
    }
    proof {
        lemma_window_step(bands@.len() as int, 22, r@.len() as int);
    }
    assert(r@ =~= color_previews(bands@));
    r
}

/// Builds the four band-derived column groups from one 150 Hz 3-band detail vector: color preview
/// (PWV4), color detail (PWV5), 3-band preview (PWV6) and 3-band detail (PWV7).
///
/// `heights` are the peak heights 0-31 of the color detail; where they are fewer than the slots,
/// the missing ones fall back to the scaled band maximum.
pub fn build_band_columns(bands: &[(u8, u8, u8)], heights: &[u8]) -> (r: (
    Vec<WaveformColorPreviewColumn>,
    Vec<WaveformColorDetailColumn>,
    Vec<Waveform3BandPreviewColumn>,
    Vec<Waveform3BandDetailColumn>,
))
    requires
        heights_fit(bands@, heights@),
    ensures
        r.0@ == color_previews(bands@),
        r.1@ == color_details(bands@, heights@),
        r.2@ == band3_previews(color_previews(bands@)),
        r.3@ == band3_details(bands@),
        r.0@.len() == (bands@.len() + 21) / 22,
        r.2@.len() == (bands@.len() + 21) / 22,
        r.1@.len() == bands@.len(),
        r.3@.len() == bands@.len(),
        forall|i: int|
            0 <= i < bands@.len() ==> (#[trigger] r.3@[i]).energy_bottom_third_freq == bands@[i].0
                && r.3@[i].energy_mid_third_freq == bands@[i].1 && r.3@[i].energy_top_third_freq
                == bands@[i].2,
        forall|i: int|
            0 <= i < bands@.len() && i < heights@.len() ==> (#[trigger] r.1@[i]).height
                == heights@[i],
{
    proof {
        lemma_preview_count(bands@.len() as int);
    }
    let color_preview: Vec<WaveformColorPreviewColumn> = color_preview_columns(bands);
    let mut detail: Vec<WaveformColorDetailColumn> = Vec::with_capacity(bands.len());
    let mut i: usize = 0;
    while i < bands.len()
        invariant
            i <= bands.len(),
            heights_fit(bands@, heights@),
            detail@.len() == i,
            forall|k: int|
                0 <= k < i ==> #[trigger] detail@[k] == color_details(bands@, heights@)[k],
        decreases bands.len() - i,
    {
        let (low, mid, high) = bands[i];
        let height: Option<u8> = if i < heights.len() {
            Some(heights[i])
        } else {
            None
        };
        detail.push(color_detail_column(low, mid, high, height));
        i = i + 1;
    }
    assert(detail@ =~= color_details(bands@, heights@));
    let band3_preview: Vec<Waveform3BandPreviewColumn> = band3_preview_columns(&color_preview);
    let band3_detail: Vec<Waveform3BandDetailColumn> = band3_detail_columns(bands);
    (color_preview, detail, band3_preview, band3_detail)
}

/// `n`, but at most `limit`.
pub open spec fn at_most(n: u8, limit: u8) -> u8 {
    if n <= limit {
        n
    } else {
        limit
    }
}

/// The mono preview of a vector of peak heights: the peak of each window.
pub open spec fn mono_previews(heights: Seq<u8>) -> Seq<WaveformPreviewColumn> {
    Seq::new(
        window_count(heights.len() as int, DETAIL_PER_PREVIEW as int) as nat,
        |k: int|
            WaveformPreviewColumn {
                height: at_most(peak(window(heights, DETAIL_PER_PREVIEW as int, k)), 31),
                whiteness: 0,
            },
    )
}

/// The tiny preview of a vector of peak heights: half the height of the mono preview.
pub open spec fn tiny_previews(heights: Seq<u8>) -> Seq<TinyWaveformPreviewColumn> {
    Seq::new(
        mono_previews(heights).len(),
        |k: int| TinyWaveformPreviewColumn { height: mono_previews(heights)[k].height / 2 },
    )
}

/// The largest of `heights[lo..hi]`.
fn peak_of(heights: &[u8], lo: usize, hi: usize) -> (r: u8)
    requires
        lo <= hi <= heights.len(),
    ensures
        r == peak(heights@.subrange(lo as int, hi as int)),
{
    let mut top: u8 = 0;
    let mut i: usize = lo;
    let ghost chunk = heights@.subrange(lo as int, hi as int);
    while i < hi
        invariant
            lo <= i <= hi <= heights.len(),
            chunk == heights@.subrange(lo as int, hi as int),
            top == peak(chunk.take(i - lo)),
        decreases hi - i,
    {
        assert(chunk.take(i - lo + 1).drop_last() =~= chunk.take(i - lo));
        if top < heights[i] {
            top = heights[i];
        }
        i = i + 1;
    }
    assert(chunk.take(hi - lo) =~= chunk);
    top
}

/// Builds the preview and tiny mono columns (PWAV, PWV2) from a vector of peak heights: each
/// column takes the peak of one window.
pub fn build_preview_columns(heights_0_31: &[u8]) -> (r: (
    Vec<WaveformPreviewColumn>,
    Vec<TinyWaveformPreviewColumn>,
))
    ensures
        r.0@ == mono_previews(heights_0_31@),
        r.1@ == tiny_previews(heights_0_31@),
        r.0@.len() == (heights_0_31@.len() + 21) / 22,
        r.1@.len() == (heights_0_31@.len() + 21) / 22,
{
    let mut preview: Vec<WaveformPreviewColumn> = Vec::new();
    let mut tiny: Vec<TinyWaveformPreviewColumn> = Vec::new();
    let mut at: usize = 0;
    let ghost len = heights_0_31@.len() as int;
    proof {
        lemma_window_step(len, 22, 0);
        lemma_preview_count(len);
    }
    while at < heights_0_31.len()
        invariant
            len == heights_0_31.len(),
            at == preview@.len() * DETAIL_PER_PREVIEW || (at == len && preview@.len()
                * DETAIL_PER_PREVIEW > len),
            at <= len,
            preview@.len() <= window_count(len, 22),
            tiny@.len() == preview@.len(),
            forall|k: int|
                0 <= k < preview@.len() ==> #[trigger] preview@[k] == mono_previews(
                    heights_0_31@,
                )[k],
            forall|k: int|
                0 <= k < tiny@.len() ==> #[trigger] tiny@[k] == tiny_previews(heights_0_31@)[k],
        decreases heights_0_31.len() - at,
    {
        let end: usize = if heights_0_31.len() - at > DETAIL_PER_PREVIEW {
            at + DETAIL_PER_PREVIEW
        } else {
            heights_0_31.len()
        };
        let raw: u8 = peak_of(heights_0_31, at, end);
        let height: u8 = if raw <= 31 {
            raw
        } else {
            31
        };
        proof {
            let k = preview@.len() as int;
            lemma_window_step(len, 22, k);
            assert(window(heights_0_31@, 22, k) =~= heights_0_31@.subrange(at as int, end as int));
        }
        preview.push(WaveformPreviewColumn::new().with_height(height).with_whiteness(0));
        tiny.push(TinyWaveformPreviewColumn::new().with_height(height / 2));
        at = end;
    }
    proof {
        lemma_window_step(len, 22, preview@.len() as int);
    }
    assert(preview@ =~= mono_previews(heights_0_31@));
    assert(tiny@ =~= tiny_previews(heights_0_31@));
    (preview, tiny)
}

/// The mono detail of a vector of peak heights: one column per slot.
pub open spec fn mono_details(heights: Seq<u8>) -> Seq<WaveformPreviewColumn> {
    Seq::new(
        heights.len(),
        |i: int| WaveformPreviewColumn { height: at_most(heights[i], 31), whiteness: 0 },
    )
}

/// Builds the mono detail columns (PWV3) from a vector of peak heights.
pub fn build_detail_mono(heights_0_31: &[u8]) -> (r: Vec<WaveformPreviewColumn>)
    ensures
        r@ == mono_details(heights_0_31@),
{
    let mut r: Vec<WaveformPreviewColumn> = Vec::with_capacity(heights_0_31.len());
    let mut i: usize = 0;
    while i < heights_0_31.len()
        invariant
            i <= heights_0_31.len(),
            r@ =~= mono_details(heights_0_31@.take(i as int)),
        decreases heights_0_31.len() - i,
    {
        let height: u8 = if heights_0_31[i] <= 31 {
            heights_0_31[i]
        } else {
            31
        };
        r.push(WaveformPreviewColumn::new().with_height(height).with_whiteness(0));
        i = i + 1;
    }
    assert(heights_0_31@.take(i as int) =~= heights_0_31@);
    r
}

/// The given heights, and for each further slot its scaled band maximum.
pub open spec fn filled_heights(bands: Seq<(u8, u8, u8)>, heights: Seq<u8>) -> Seq<u8> {
    Seq::new(
        if heights.len() < bands.len() {
            bands.len()
        } else {
            heights.len()
        },
        |i: int|
            if i < heights.len() {
                heights[i]
            } else {
                scaled_height(bands[i].0, bands[i].1, bands[i].2) as u8
            },
    )
}

/// The given heights, and for each further slot its scaled band maximum.
fn fill_heights(bands: &[(u8, u8, u8)], heights: &[u8]) -> (r: Vec<u8>)
    ensures
        r@ == filled_heights(bands@, heights@),
{
    let mut r: Vec<u8> = Vec::new();
    let mut i: usize = 0;
    while i < heights.len()
        invariant
            i <= heights.len(),
            r@.len() == i,
            forall|k: int| 0 <= k < i ==> #[trigger] r@[k] == heights@[k],
        decreases heights.len() - i,
    {
        r.push(heights[i]);
        i = i + 1;
    }
    while i < bands.len()
        invariant
            heights.len() <= i,
            i <= bands.len() || i == heights.len(),
            r@.len() == i,
            forall|k: int| 0 <= k < i ==> #[trigger] r@[k] == filled_heights(bands@, heights@)[k],
        decreases bands.len() - i,
    {
        let (low, mid, high) = bands[i];
        r.push(color_detail_column(low, mid, high, None).height);
        i = i + 1;
    }
    assert(r@ =~= filled_heights(bands@, heights@));
    r
}

/// Assembles the complete analysis data of a track from format-agnostic performance data.
///
/// `detail` is the 150 Hz 3-band vector and `detail_height` the peak height (0-31) of each of its
/// slots, which drives the mono columns and the height of the color detail. Where there are fewer
/// heights than slots, the missing ones fall back to the scaled band maximum. A main cue, given in
/// milliseconds, is put before the other cues as a memory cue.
pub fn build_anlz_input(
    detail: &[(u8, u8, u8)],
    detail_height: &[u8],
    grid: &BeatGrid,
    cues: &[CueInput<'_>],
    main_cue: Option<u32>,
) -> (r: AnlzInput)
    requires
        heights_fit(detail@, detail_height@),
        grid.wf(),
    ensures
        r.beats@ == beats_of(*grid),
        exists|all: Seq<CueInput<'_>>| #[trigger]
            is_combined(all, main_cue, cues@) && is_cue_lists(
                all,
                r.cues@,
                r.cues_extended@,
                r.cue_list_type,
            ),
        r.preview_mono@ == mono_previews(filled_heights(detail@, detail_height@)),
        r.tiny_preview@ == tiny_previews(filled_heights(detail@, detail_height@)),
        r.detail_mono matches Some(columns) && columns@ == mono_details(
            filled_heights(detail@, detail_height@),
        ),
        r.color_preview matches Some(columns) && columns@ == color_previews(detail@),
        r.color_detail matches Some(columns) && columns@ == color_details(detail@, detail_height@),
        r.band3_preview matches Some(columns) && columns@ == band3_previews(
            color_previews(detail@),
        ),
        r.band3_detail matches Some(columns) && columns@ == band3_details(detail@),
        r.band3_detail matches Some(columns) && forall|i: int|
            0 <= i < detail@.len() ==> (#[trigger] columns@[i]).energy_bottom_third_freq
                == detail@[i].0 && columns@[i].energy_mid_third_freq == detail@[i].1
                && columns@[i].energy_top_third_freq == detail@[i].2,
{
    let (color_preview, color_detail, band3_preview, band3_detail) = build_band_columns(
        detail,
        detail_height,
    );
    let heights: Vec<u8> = fill_heights(detail, detail_height);
    let (preview_mono, tiny_preview) = build_preview_columns(heights.as_slice());
    let detail_mono: Vec<WaveformPreviewColumn> = build_detail_mono(heights.as_slice());
    let beats = expand_beatgrid(grid);
    let combined = combine_cues(main_cue, cues);
    let (plain, extended, cue_list_type) = build_cues(combined.as_slice());
    AnlzInput {
        beats,
        cues: plain,
        cues_extended: extended,
        cue_list_type,
        preview_mono,
        tiny_preview,
        detail_mono: Some(detail_mono),
        color_preview: Some(color_preview),
        color_detail: Some(color_detail),
        band3_preview: Some(band3_preview),
        band3_detail: Some(band3_detail),
    }
}

/// Every value of every column fits the bits that the format has for it, and no mean is cut off on
/// its way into a byte.
pub proof fn law_columns_fit(bands: Seq<(u8, u8, u8)>, heights: Seq<u8>, k: int)
    requires
        heights_fit(bands, heights),
    ensures
        0 <= k < mono_previews(heights).len() ==> mono_previews(heights)[k].wf(),
        0 <= k < tiny_previews(heights).len() ==> tiny_previews(heights)[k].wf(),
        0 <= k < mono_details(heights).len() ==> mono_details(heights)[k].wf(),
        0 <= k < color_details(bands, heights).len() ==> color_details(bands, heights)[k].wf(),
        mean(lows(window(bands, DETAIL_PER_PREVIEW as int, k))) <= 255,
        mean(mids(window(bands, DETAIL_PER_PREVIEW as int, k))) <= 255,
        mean(highs(window(bands, DETAIL_PER_PREVIEW as int, k))) <= 255,
{
    lemma_mean_bound(lows(window(bands, DETAIL_PER_PREVIEW as int, k)));
    lemma_mean_bound(mids(window(bands, DETAIL_PER_PREVIEW as int, k)));
    lemma_mean_bound(highs(window(bands, DETAIL_PER_PREVIEW as int, k)));
    if 0 <= k < bands.len() && k < heights.len() {
        assert(heights[k] <= 31);
    }
}

/// Detail columns come one per slot, and the previews one per window of detail columns.
pub proof fn law_column_counts(bands: Seq<(u8, u8, u8)>, heights: Seq<u8>)
    ensures
        color_details(bands, heights).len() == bands.len(),
        band3_details(bands).len() == bands.len(),
        mono_details(heights).len() == heights.len(),
        color_previews(bands).len() == window_count(bands.len() as int, DETAIL_PER_PREVIEW as int),
        band3_previews(color_previews(bands)).len() == color_previews(bands).len(),
        mono_previews(heights).len() == window_count(
            heights.len() as int,
            DETAIL_PER_PREVIEW as int,
        ),
        tiny_previews(heights).len() == mono_previews(heights).len(),
        bands.len() == heights.len() ==> color_previews(bands).len() == mono_previews(
            heights,
        ).len(),
{
}

/// With no more heights than slots, the mono detail has one column per slot, each as high as that
/// of the color detail: the given height, or the scaled band maximum where there is none. All
/// previews have the same number of columns.
pub proof fn law_missing_heights_fall_back(bands: Seq<(u8, u8, u8)>, heights: Seq<u8>, i: int)
    requires
        heights_fit(bands, heights),
        heights.len() <= bands.len(),
    ensures
        mono_details(filled_heights(bands, heights)).len() == bands.len(),
        0 <= i < bands.len() ==> mono_details(filled_heights(bands, heights))[i].height
            == color_details(bands, heights)[i].height,
        0 <= i < heights.len() ==> mono_details(filled_heights(bands, heights))[i].height
            == heights[i],
        heights.len() <= i < bands.len() ==> mono_details(
            filled_heights(bands, heights),
        )[i].height == scaled_height(bands[i].0, bands[i].1, bands[i].2),
        mono_previews(filled_heights(bands, heights)).len() == color_previews(bands).len(),
        tiny_previews(filled_heights(bands, heights)).len() == color_previews(bands).len(),
{
    if 0 <= i < heights.len() {
        assert(heights[i] <= 31);
    }
}

/// The fallback height is the integer nearest to the band maximum scaled to 0-31, and there is
/// never a tie.
pub proof fn law_fallback_height_is_nearest(low: u8, mid: u8, high: u8, top: u8)
    requires
        top >= low && top >= mid && top >= high,
        top == low || top == mid || top == high,
    ensures
        0 <= scaled_height(low, mid, high) <= 31,
        -255 < 2 * (255 * scaled_height(low, mid, high) - 31 * top) < 255,
{
    let h = scaled_height(low, mid, high);
    assert(h == (62 * top + 255) / 510);
    assert(62 * top + 255 != 510 * h) by {
        assert((62 * top + 255) % 2 == 1);
    }
}

/// A 3-band detail column holds the low energy of its slot as the bottom third, the mid energy as
/// the middle third and the high energy as the top third.
pub proof fn law_band3_detail_fields(bands: Seq<(u8, u8, u8)>, i: int)
    requires
        0 <= i < bands.len(),
    ensures
        band3_details(bands).len() == bands.len(),
        band3_details(bands)[i].energy_bottom_third_freq == bands[i].0,
        band3_details(bands)[i].energy_mid_third_freq == bands[i].1,
        band3_details(bands)[i].energy_top_third_freq == bands[i].2,
{
}

/// A 3-band preview column takes over the three thirds of its color preview column.
pub proof fn law_band3_preview_fields(columns: Seq<WaveformColorPreviewColumn>, i: int)
    requires
        0 <= i < columns.len(),
    ensures
        band3_previews(columns).len() == columns.len(),
        band3_previews(columns)[i].energy_bottom_third_freq == columns[i].energy_bottom_third_freq,
        band3_previews(columns)[i].energy_mid_third_freq == columns[i].energy_mid_third_freq,
        band3_previews(columns)[i].energy_top_third_freq == columns[i].energy_top_third_freq,
{
}

/// A color detail column has the given height, or the one nearest to the greatest of its energies
/// scaled to 0-31. Just one color is full and the others are off: blue where the high energy is
/// greatest, else green where the mid energy is not below the low one, else red.
pub proof fn law_color_detail_fields(bands: Seq<(u8, u8, u8)>, heights: Seq<u8>, i: int)
    requires
        0 <= i < bands.len(),
    ensures
        color_details(bands, heights).len() == bands.len(),
        ({
            let (low, mid, high) = bands[i];
            let column = color_details(bands, heights)[i];
            let h = column.height;
            &&& i < heights.len() ==> h == heights[i]
            &&& i >= heights.len() ==> {
                &&& 2 * (31 * low - 255 * h) < 255
                &&& 2 * (31 * mid - 255 * h) < 255
                &&& 2 * (31 * high - 255 * h) < 255
                &&& 2 * (255 * h - 31 * low) < 255 || 2 * (255 * h - 31 * mid) < 255 || 2 * (255 * h
                    - 31 * high) < 255
            }
            &&& column.red + column.green + column.blue == 7
            &&& column.blue == 7 <==> high >= mid && high >= low
            &&& column.green == 7 <==> mid > high && mid >= low || mid >= low && low > high
            &&& column.red == 7 <==> low > mid && low > high
        }),
{
    let (low, mid, high) = bands[i];
    let top: u8 = if low >= mid && low >= high {
        low
    } else if mid >= high {
        mid
    } else {
        high
    };
    law_fallback_height_is_nearest(low, mid, high, top);
}

/// A window of 22 starts 22 items behind the one before it, and only the last may be shorter.
pub proof fn law_windows<T>(s: Seq<T>, k: int, j: int)
    requires
        0 <= k,
        22 * k < s.len(),
    ensures
        window(s, DETAIL_PER_PREVIEW as int, k).len() == if s.len() - 22 * k < 22 {
            s.len() - 22 * k
        } else {
            22
        },
        0 <= j < window(s, DETAIL_PER_PREVIEW as int, k).len() ==> window(
            s,
            DETAIL_PER_PREVIEW as int,
            k,
        )[j] == s[22 * k + j],
{
    assert(k * 22 == 22 * k);
    assert((k + 1) * 22 == 22 * k + 22);
}

/// The detail columns that go into a preview column are the ratio of 150 to 6.667 columns per
/// second, rounded.
pub proof fn law_detail_per_preview()
    ensures
        -6667 < 2 * (150000 - 6667 * DETAIL_PER_PREVIEW) < 6667,
{
}

/// The three energies of a slot go into the three lists.
pub proof fn law_energies_apart(bands: Seq<(u8, u8, u8)>, i: int)
    requires
        0 <= i < bands.len(),
    ensures
        lows(bands).len() == bands.len(),
        mids(bands).len() == bands.len(),
        highs(bands).len() == bands.len(),
        (lows(bands)[i], mids(bands)[i], highs(bands)[i]) == bands[i],
{
}

/// One more byte adds its value to the sum, and the sum of none is zero.
pub proof fn law_total(s: Seq<u8>, x: u8)
    ensures
        total(Seq::empty()) == 0,
        total(s.push(x)) == total(s) + x,
{
    assert(s.push(x).drop_last() =~= s);
}

/// The mean times the number of bytes reaches the sum but for a rest that is less than the number.
pub proof fn law_mean(s: Seq<u8>)
    ensures
        s.len() == 0 ==> mean(s) == 0,
        s.len() > 0 ==> s.len() * mean(s) <= total(s) < s.len() * mean(s) + s.len(),
{
    if s.len() > 0 {
        vstd::arithmetic::div_mod::lemma_fundamental_div_mod(total(s) as int, s.len() as int);
        vstd::arithmetic::div_mod::lemma_mod_bound(total(s) as int, s.len() as int);
    }
}

/// The peak is one of the bytes and none is greater; the peak of none is zero.
pub proof fn law_peak(s: Seq<u8>)
    ensures
        s.len() == 0 ==> peak(s) == 0,
        s.len() > 0 ==> s.contains(peak(s)),
        forall|i: int| 0 <= i < s.len() ==> #[trigger] s[i] <= peak(s),
    decreases s.len(),
{
    if s.len() > 0 {
        let short = s.drop_last();
        law_peak(short);
        assert forall|i: int| 0 <= i < s.len() implies #[trigger] s[i] <= peak(s) by {
            if i < short.len() {
                assert(short[i] == s[i]);
            }
        }
        if peak(short) >= s.last() && short.len() > 0 {
            let i = choose|i: int| 0 <= i < short.len() && short[i] == peak(short);
            assert(s[i] == peak(s));
        } else {
            assert(s[s.len() - 1] == peak(s));
        }
    }
}

/// A color preview column holds the means of the three energies of its window, each in its own
/// third, and nothing in the bottom half.
pub proof fn law_color_preview_fields(bands: Seq<(u8, u8, u8)>, k: int)
    requires
        0 <= k,
        22 * k < bands.len(),
    ensures
        k < color_previews(bands).len(),
        ({
            let column = color_previews(bands)[k];
            let slots = window(bands, DETAIL_PER_PREVIEW as int, k);
            let n = slots.len();
            &&& n > 0
            &&& column.energy_bottom_half_freq == 0
            &&& n * column.energy_bottom_third_freq <= total(lows(slots)) < n
                * column.energy_bottom_third_freq + n
            &&& n * column.energy_mid_third_freq <= total(mids(slots)) < n
                * column.energy_mid_third_freq + n
            &&& n * column.energy_top_third_freq <= total(highs(slots)) < n
                * column.energy_top_third_freq + n
        }),
{
    let slots = window(bands, DETAIL_PER_PREVIEW as int, k);
    law_windows(bands, k, 0);
    lemma_window_step(bands.len() as int, 22, k);
    law_mean(lows(slots));
    law_mean(mids(slots));
    law_mean(highs(slots));
    lemma_mean_bound(lows(slots));
    lemma_mean_bound(mids(slots));
    lemma_mean_bound(highs(slots));
}

/// Where there is one slot only, its 3-band preview and its 3-band detail agree, and both hold its
/// three energies.
pub proof fn law_one_slot_agrees(low: u8, mid: u8, high: u8)
    ensures
        ({
            let bands = seq![(low, mid, high)];
            let preview = band3_previews(color_previews(bands));
            let detail = band3_details(bands);
            &&& preview.len() == 1
            &&& detail.len() == 1
            &&& preview[0].energy_bottom_third_freq == low
            &&& preview[0].energy_mid_third_freq == mid
            &&& preview[0].energy_top_third_freq == high
            &&& detail[0].energy_bottom_third_freq == low
            &&& detail[0].energy_mid_third_freq == mid
            &&& detail[0].energy_top_third_freq == high
        }),
{
    let bands = seq![(low, mid, high)];
    let slots = window(bands, DETAIL_PER_PREVIEW as int, 0);
    law_windows(bands, 0, 0);
    lemma_preview_count(1);
    assert(slots =~= bands);
    assert(lows(slots) =~= seq![low]);
    assert(mids(slots) =~= seq![mid]);
    assert(highs(slots) =~= seq![high]);
    lemma_mean_of_one(low);
    lemma_mean_of_one(mid);
    lemma_mean_of_one(high);
}

proof fn lemma_mean_of_one(x: u8)
    ensures
        mean(seq![x]) == x,
{
    assert(seq![x].drop_last() =~= Seq::empty());
    law_mean(seq![x]);
    assert(total(seq![x]) == x) by {
        assert(total(seq![x].drop_last()) == 0);
    }
    let m = mean(seq![x]);
    assert(1 * m == m) by (nonlinear_arith);
}

/// A mono preview column is as high as the greatest height of its window, at most 31; the tiny one
/// is half as high. Nothing is white.
pub proof fn law_mono_preview_fields(heights: Seq<u8>, k: int, j: int)
    requires
        0 <= k,
        22 * k < heights.len(),
        0 <= j < 22,
        22 * k + j < heights.len(),
    ensures
        k < mono_previews(heights).len(),
        k < tiny_previews(heights).len(),
        ({
            let h = mono_previews(heights)[k].height;
            let t = tiny_previews(heights)[k].height;
            &&& h <= 31
            &&& heights[22 * k + j] <= 31 ==> heights[22 * k + j] <= h
            &&& heights[22 * k + j] > 31 ==> h == 31
            &&& h == 31 || exists|i: int|
                22 * k <= i < heights.len() && i < 22 * k + 22 && #[trigger] heights[i] == h
            &&& 2 * t <= h <= 2 * t + 1
            &&& mono_previews(heights)[k].whiteness == 0
        }),
{
    let slots = window(heights, DETAIL_PER_PREVIEW as int, k);
    law_windows(heights, k, j);
    lemma_window_step(heights.len() as int, 22, k);
    law_peak(slots);
    assert(slots[j] <= peak(slots));
    let m = choose|m: int| 0 <= m < slots.len() && slots[m] == peak(slots);
    law_windows(heights, k, m);
    assert(heights[22 * k + m] == peak(slots));
}

/// A mono detail column has the height of its slot, at most 31, and is not white.
pub proof fn law_mono_detail_fields(heights: Seq<u8>, i: int)
    requires
        0 <= i < heights.len(),
    ensures
        mono_details(heights).len() == heights.len(),
        heights[i] <= 31 ==> mono_details(heights)[i].height == heights[i],
        heights[i] > 31 ==> mono_details(heights)[i].height == 31,
        mono_details(heights)[i].whiteness == 0,
{
}

/// Given heights stay as they are, and there is one for every slot.
pub proof fn law_given_heights_stay(bands: Seq<(u8, u8, u8)>, heights: Seq<u8>, i: int)
    ensures
        filled_heights(bands, heights).len() >= heights.len(),
        filled_heights(bands, heights).len() >= bands.len(),
        heights.len() >= bands.len() ==> filled_heights(bands, heights) == heights,
        0 <= i < heights.len() ==> filled_heights(bands, heights)[i] == heights[i],
{
    if heights.len() >= bands.len() {
        assert(filled_heights(bands, heights) =~= heights);
    }
}

} // verus!
