//! Expansion of a sparse beatgrid, a few markers with sample offsets, into one beat per beat.
//!
//! Sample offsets appear as integer keys that rise with them and are zero at the start of the
//! track, and the times of the beats within a segment come measured. The order of the markers, and
//! which beats there are, in which order, at which position in the bar and with which tempo, is
//! decided here.

use vstd::prelude::*;

use crate::anlz::Beat;

verus! {

/// Whether marker `x` comes before marker `y`: by the key of its offset, and among equal keys by
/// its place in the list.
pub open spec fn comes_before(keys: Seq<i64>, x: int, y: int) -> bool {
    keys[x] < keys[y] || (keys[x] == keys[y] && x < y)
}

/// Whether `order` lists the places of all markers from the first to the last.
pub open spec fn is_marker_order(keys: Seq<i64>, order: Seq<usize>) -> bool {
    &&& order.len() == keys.len()
    &&& forall|a: int| 0 <= a < order.len() ==> (#[trigger] order[a]) < keys.len()
    &&& forall|a: int, b: int|
        0 <= a < b < order.len() ==> comes_before(
            keys,
            (#[trigger] order[a]) as int,
            (#[trigger] order[b]) as int,
        )
}

/// Puts markers in the order of their sample offsets, so that callers need not sort them. Markers
/// with the same offset stay in the order of the list.
pub fn marker_order(keys: &[i64]) -> (r: Vec<usize>)
    ensures
        is_marker_order(keys@, r@),
{
    let mut order: Vec<usize> = Vec::with_capacity(keys.len());
    let mut i: usize = 0;
    while i < keys.len()
        invariant
            i <= keys.len(),
            order@.len() == i,
            forall|a: int| 0 <= a < order@.len() ==> (#[trigger] order@[a]) < i,
            forall|a: int, b: int|
                0 <= a < b < order@.len() ==> comes_before(
                    keys@,
                    (#[trigger] order@[a]) as int,
                    (#[trigger] order@[b]) as int,
                ),
        decreases keys.len() - i,
    {
        let mut at: usize = order.len();
        while at > 0 && keys[order[at - 1]] > keys[i]
            invariant
                i < keys.len(),
                order@.len() == i,
                at <= order.len(),
                forall|a: int| 0 <= a < order@.len() ==> (#[trigger] order@[a]) < i,
                forall|b: int| at <= b < order@.len() ==> keys@[(#[trigger] order@[b]) as int]
                    > keys@[i as int],
            decreases at,
        {
            at = at - 1;
        }
        proof {
            if at > 0 {
                let last = order@[at - 1];
                assert forall|a: int| 0 <= a < at implies keys@[(#[trigger] order@[a]) as int]
                    <= keys@[i as int] by {
                    if a < at - 1 {
                        assert(comes_before(keys@, order@[a] as int, order@[at - 1] as int));
                    }
                }
            }
        }
        let ghost before = order@;
        order.insert(at, i);
        proof {
            assert forall|a: int, b: int| 0 <= a < b < order@.len() implies comes_before(
                keys@,
                (#[trigger] order@[a]) as int,
                (#[trigger] order@[b]) as int,
            ) by {
                let a0 = if a < at {
                    a
                } else {
                    a - 1
                };
                let b0 = if b < at {
                    b
                } else {
                    b - 1
                };
                if a != at {
                    assert(order@[a] == before[a0]);
                }
                if b != at {
                    assert(order@[b] == before[b0]);
                }
                if a != at && b != at {
                    assert(comes_before(keys@, before[a0] as int, before[b0] as int));
                }
            }
        }
        i = i + 1;
    }
    order
}

/// A beat as it was measured: the key of its sample offset, and its time in milliseconds.
#[derive(Debug, Clone, Copy, PartialEq, Eq, Structural)]
pub struct BeatTiming {
    pub offset: i64,
    pub time: u32,
}

/// What was measured of the segment between two markers: its own tempo in centi-BPM, and each of
/// its beats.
#[derive(Debug)]
pub struct SegmentTiming {
    pub tempo: u16,
    pub beats: Vec<BeatTiming>,
}

/// A beatgrid: the beat numbers of the markers in the order of their offsets, and for each two
/// neighbours the segment between them, `None` where it has no length.
#[derive(Debug)]
pub struct BeatGrid {
    pub sample_rate: u32,
    /// The tempo of the track in centi-BPM, if it is known.
    pub tempo: Option<u16>,
    /// The key of the number of samples of the track.
    pub track_end: i64,
    pub indices: Vec<i32>,
    pub segments: Vec<Option<SegmentTiming>>,
}

/// The number of beats from the marker at beat `a` up to the marker at beat `b`, at least one.
pub open spec fn beats_between(a: i32, b: i32) -> int {
    if b - a > 1 {
        b - a
    } else {
        1
    }
}

/// The number of beats from the marker at beat `a` up to the marker at beat `b`, at least one.
pub fn beat_span(a: i32, b: i32) -> (r: i64)
    ensures
        r == beats_between(a, b),
{
    let span: i64 = b as i64 - a as i64;
    if span > 1 {
        span
    } else {
        1
    }
}

impl BeatGrid {
    /// Whether there is one segment between each two neighbours, with a measurement for each beat.
    pub open spec fn wf(&self) -> bool {
        &&& self.segments@.len() == if self.indices@.len() == 0 {
            0
        } else {
            self.indices@.len() - 1
        }
        &&& forall|i: int|
            0 <= i < self.segments@.len() ==> match #[trigger] self.segments@[i] {
                Some(timing) => timing.beats@.len() == beats_between(
                    self.indices@[i],
                    self.indices@[i + 1],
                ),
                None => true,
            }
    }
}

/// The position in the bar, 1 to 4, of a beat number, which may be negative. Beats 1, 5, 9 and so
/// on are downbeats.
pub open spec fn position_in_bar(beat: int) -> int {
    (beat - 1) % 4 + 1
}

/// Maps a beat number, which may be negative, to its position in the bar.
pub fn bar_position(global_beat: i64) -> (r: u16)
    requires
        global_beat > i64::MIN,
    ensures
        r == position_in_bar(global_beat as int),
{
    let m: i64 = (global_beat - 1) % 4;
    if m >= 0 {
        (m + 1) as u16
    } else {
        (m + 5) as u16
    }
}

/// The beats of one segment that starts with beat number `first`, each with the key of its offset.
pub open spec fn segment_beats(first: int, tempo: u16, beats: Seq<BeatTiming>) -> Seq<(i64, Beat)> {
    Seq::new(
        beats.len(),
        |k: int|
            (
                beats[k].offset,
                Beat {
                    beat_number: position_in_bar(first + k) as u16,
                    tempo,
                    time: beats[k].time,
                },
            ),
    )
}

/// The beats of the first `n` segments of a grid, each with the key of its offset.
pub open spec fn grid_beats(
    indices: Seq<i32>,
    segments: Seq<Option<SegmentTiming>>,
    tempo: u16,
    n: int,
) -> Seq<(i64, Beat)>
    decreases n,
{
    if n <= 0 {
        Seq::empty()
    } else {
        grid_beats(indices, segments, tempo, n - 1) + match segments[n - 1] {
            Some(timing) => segment_beats(indices[n - 1] as int, tempo, timing.beats@),
            None => Seq::empty(),
        }
    }
}

/// Those of `beats` that lie neither before the start of the track nor past its end.
pub open spec fn inside_track(beats: Seq<(i64, Beat)>, track_end: i64) -> Seq<(i64, Beat)>
    decreases beats.len(),
{
    if beats.len() == 0 {
        Seq::empty()
    } else {
        let earlier = inside_track(beats.drop_last(), track_end);
        if 0 <= beats.last().0 <= track_end {
            earlier.push(beats.last())
        } else {
            earlier
        }
    }
}

/// `beats` without the keys of their offsets.
pub open spec fn without_keys(beats: Seq<(i64, Beat)>) -> Seq<Beat> {
    Seq::new(beats.len(), |j: int| beats[j].1)
}

/// The tempo of the first segment that has a length, zero where there is none.
pub open spec fn first_tempo(segments: Seq<Option<SegmentTiming>>) -> u16
    decreases segments.len(),
{
    if segments.len() == 0 {
        0
    } else {
        match segments[0] {
            Some(timing) => timing.tempo,
            None => first_tempo(segments.drop_first()),
        }
    }
}

/// The tempo of all beats of a grid: the tempo of the track, or else that of the first segment.
pub open spec fn grid_tempo(grid: BeatGrid) -> u16 {
    match grid.tempo {
        Some(tempo) => tempo,
        None => first_tempo(grid.segments@),
    }
}

/// All beats of a grid, also those outside the track, each with the key of its offset.
pub open spec fn all_beats(grid: BeatGrid) -> Seq<(i64, Beat)> {
    grid_beats(grid.indices@, grid.segments@, grid_tempo(grid), grid.segments@.len() as int)
}

/// The beats of a grid that lie inside the track; none where the sample rate is zero.
pub open spec fn beats_of(grid: BeatGrid) -> Seq<Beat> {
    if grid.sample_rate == 0 {
        Seq::empty()
    } else {
        without_keys(inside_track(all_beats(grid), grid.track_end))
    }
}

/// The tempo of the first segment that has a length.
fn leading_tempo(segments: &Vec<Option<SegmentTiming>>) -> (r: u16)
    ensures
        r == first_tempo(segments@),
{
    let mut i: usize = 0;
    assert(segments@.skip(0) =~= segments@);
    while i < segments.len()
        invariant
            i <= segments.len(),
            first_tempo(segments@) == first_tempo(segments@.skip(i as int)),
        decreases segments.len() - i,
    {
        match &segments[i] {
            Some(timing) => {
                assert(segments@.skip(i as int)[0] == segments@[i as int]);
                return timing.tempo;
            },
            None => {
                assert(segments@.skip(i as int).drop_first() =~= segments@.skip(i + 1));
            },
        }
        i = i + 1;
    }
    0
}

proof fn lemma_inside_append(a: Seq<(i64, Beat)>, b: Seq<(i64, Beat)>, track_end: i64)
    ensures
        inside_track(a + b, track_end) == inside_track(a, track_end) + inside_track(b, track_end),
    decreases b.len(),
{
    if b.len() == 0 {
        assert(a + b =~= a);
    } else {
        assert((a + b).drop_last() =~= a + b.drop_last());
        lemma_inside_append(a, b.drop_last(), track_end);
    }
    assert(inside_track(a + b, track_end) =~= inside_track(a, track_end) + inside_track(
        b,
        track_end,
    ));
}

/// Appends the beats of one segment that lie inside the track.
fn push_segment(
    first: i32,
    tempo: u16,
    timings: &Vec<BeatTiming>,
    track_end: i64,
    beats: &mut Vec<Beat>,
)
    requires
        timings@.len() <= 0x1_0000_0000,
    ensures
        final(beats)@ == old(beats)@ + without_keys(
            inside_track(segment_beats(first as int, tempo, timings@), track_end),
        ),
{
    let ghost placed = segment_beats(first as int, tempo, timings@);
    let mut k: usize = 0;
    assert(beats@ =~= old(beats)@ + without_keys(inside_track(placed.take(0), track_end)));
    while k < timings.len()
        invariant
            k <= timings.len(),
            timings@.len() <= 0x1_0000_0000,
            placed == segment_beats(first as int, tempo, timings@),
            beats@ == old(beats)@ + without_keys(inside_track(placed.take(k as int), track_end)),
        decreases timings.len() - k,
    {
        assert(placed.take(k + 1).drop_last() =~= placed.take(k as int));
        let timing: BeatTiming = timings[k];
        if 0 <= timing.offset && timing.offset <= track_end {
            let beat_number: u16 = bar_position(first as i64 + k as i64);
            beats.push(Beat { beat_number, tempo, time: timing.time });
        }
        assert(beats@ =~= old(beats)@ + without_keys(inside_track(placed.take(k + 1), track_end)));
        k = k + 1;
    }
    assert(placed.take(k as int) =~= placed);
}

/// Expands a sparse beatgrid into one beat per beat. Beats outside the track are left out, and so
/// are segments without a length.
pub fn expand_beatgrid(grid: &BeatGrid) -> (r: Vec<Beat>)
    requires
        grid.wf(),
    ensures
        r@ == beats_of(*grid),
{
    let mut beats: Vec<Beat> = Vec::new();
    if grid.sample_rate == 0 {
        return beats;
    }
    let tempo: u16 = match grid.tempo {
        Some(tempo) => tempo,
        None => leading_tempo(&grid.segments),
    };
    let mut i: usize = 0;
    assert(beats@ =~= without_keys(
        inside_track(grid_beats(grid.indices@, grid.segments@, tempo, 0), grid.track_end),
    ));
    while i < grid.segments.len()
        invariant
            i <= grid.segments.len(),
            grid.wf(),
            beats@ == without_keys(
                inside_track(
                    grid_beats(grid.indices@, grid.segments@, tempo, i as int),
                    grid.track_end,
                ),
            ),
        decreases grid.segments.len() - i,
    {
        let ghost earlier = grid_beats(grid.indices@, grid.segments@, tempo, i as int);
        let ghost later = grid_beats(grid.indices@, grid.segments@, tempo, i + 1);
        match &grid.segments[i] {
            Some(timing) => {
                assert(grid.segments@[i as int] == Some(*timing));
                push_segment(grid.indices[i], tempo, &timing.beats, grid.track_end, &mut beats);
                proof {
                    lemma_inside_append(
                        earlier,
                        segment_beats(grid.indices@[i as int] as int, tempo, timing.beats@),
                        grid.track_end,
                    );
                }
            },
            None => {
                assert(later =~= earlier);
            },
        }
        assert(beats@ =~= without_keys(inside_track(later, grid.track_end)));
        i = i + 1;
    }
    beats
}

/// Positions in the bar run from one to four and cycle with the beat number; the downbeats are the
/// beat numbers that leave one when divided by four, negative ones included.
pub proof fn law_bar_positions_cycle(beat: int)
    ensures
        1 <= position_in_bar(beat) <= 4,
        position_in_bar(beat + 1) == position_in_bar(beat) % 4 + 1,
        position_in_bar(beat + 4) == position_in_bar(beat),
        position_in_bar(beat) == 1 <==> beat % 4 == 1,
{
}

/// An order of markers names every marker exactly once.
pub proof fn law_every_marker_once(keys: Seq<i64>, order: Seq<usize>, x: int)
    requires
        is_marker_order(keys, order),
        0 <= x < keys.len(),
    ensures
        exists|k: int| 0 <= k < order.len() && #[trigger] order[k] == x,
        order.no_duplicates(),
{
    assert forall|a: int, b: int| 0 <= a < order.len() && 0 <= b < order.len() && a != b implies
        order[a] != order[b] by {
        if a < b {
            assert(comes_before(keys, order[a] as int, order[b] as int));
        } else {
            assert(comes_before(keys, order[b] as int, order[a] as int));
        }
    }
    let places = order.map(|i: int, v: usize| v as int);
    assert(places.no_duplicates());
    places.unique_seq_to_set();
    let all = vstd::set_lib::set_int_range(0, keys.len() as int);
    vstd::set_lib::lemma_int_range(0, keys.len() as int);
    assert(places.to_set().subset_of(all)) by {
        assert forall|v: int| places.to_set().contains(v) implies all.contains(v) by {
            let a = choose|a: int| 0 <= a < places.len() && places[a] == v;
            assert(order[a] < keys.len());
        }
    }
    vstd::set_lib::lemma_subset_equality(places.to_set(), all);
    assert(places.to_set().contains(x));
    let a = choose|a: int| 0 <= a < places.len() && places[a] == x;
    assert(order[a] == x);
}

/// A marker: its beat number and the key of its sample offset.
pub type Marker = (i32, i64);

/// The keys of a list of markers.
pub open spec fn marker_keys(markers: Seq<Marker>) -> Seq<i64> {
    Seq::new(markers.len(), |i: int| markers[i].1)
}

/// The markers in the given order.
pub open spec fn arranged(markers: Seq<Marker>, order: Seq<usize>) -> Seq<Marker> {
    Seq::new(order.len(), |k: int| markers[order[k] as int])
}

/// Whether no two markers share a sample offset.
pub open spec fn distinct_offsets(markers: Seq<Marker>) -> bool {
    forall|i: int, j: int|
        0 <= i < j < markers.len() ==> (#[trigger] markers[i]).1 != (#[trigger] markers[j]).1
}

/// Whether the markers come in the order of their offsets, no two at the same.
pub open spec fn strictly_rising(markers: Seq<Marker>) -> bool {
    forall|i: int, j: int|
        0 <= i < j < markers.len() ==> (#[trigger] markers[i]).1 < (#[trigger] markers[j]).1
}

/// Two rising lists of the same markers are the same list.
proof fn lemma_rising_is_unique(a: Seq<Marker>, b: Seq<Marker>)
    requires
        strictly_rising(a),
        strictly_rising(b),
        forall|x: Marker| #[trigger] a.contains(x) <==> b.contains(x),
    ensures
        a == b,
    decreases a.len(),
{
    if a.len() == 0 {
        if b.len() > 0 {
            assert(b.contains(b[0]));
            assert(a.contains(b[0]));
        }
        assert(a =~= b);
    } else {
        let top = a.last();
        assert(a.contains(a[a.len() - 1]));
        assert(b.contains(top));
        let i = choose|i: int| 0 <= i < b.len() && b[i] == top;
        assert(a.contains(b[b.len() - 1])) by {
            assert(b.contains(b[b.len() - 1]));
        }
        let j = choose|j: int| 0 <= j < a.len() && a[j] == b[b.len() - 1];
        assert(b.last() == top) by {
            if i < b.len() - 1 {
                assert(b[i].1 < b[b.len() - 1].1);
                if j < a.len() - 1 {
                    assert(a[j].1 < a[a.len() - 1].1);
                }
            }
        }
        let shorter_a = a.drop_last();
        let shorter_b = b.drop_last();
        assert forall|x: Marker| #[trigger] shorter_a.contains(x) <==> shorter_b.contains(x) by {
            if shorter_a.contains(x) {
                let k = choose|k: int| 0 <= k < shorter_a.len() && shorter_a[k] == x;
                assert(a[k] == x && a[k].1 < a[a.len() - 1].1);
                assert(a.contains(x));
                let m = choose|m: int| 0 <= m < b.len() && b[m] == x;
                assert(shorter_b[m] == x);
            }
            if shorter_b.contains(x) {
                let k = choose|k: int| 0 <= k < shorter_b.len() && shorter_b[k] == x;
                assert(b[k] == x && b[k].1 < b[b.len() - 1].1);
                assert(b.contains(x));
                assert(a.contains(x));
                let m = choose|m: int| 0 <= m < a.len() && a[m] == x;
                assert(shorter_a[m] == x);
            }
        }
        lemma_rising_is_unique(shorter_a, shorter_b);
        assert(a =~= shorter_a.push(top));
        assert(b =~= shorter_b.push(top));
    }
}

/// Markers in order rise strictly where no two share an offset, and are the given ones.
proof fn lemma_arranged(markers: Seq<Marker>, order: Seq<usize>)
    requires
        distinct_offsets(markers),
        is_marker_order(marker_keys(markers), order),
    ensures
        strictly_rising(arranged(markers, order)),
        forall|x: Marker| #[trigger]
            arranged(markers, order).contains(x) <==> markers.contains(x),
{
    let keys = marker_keys(markers);
    let sorted = arranged(markers, order);
    assert forall|i: int, j: int| 0 <= i < j < sorted.len() implies (#[trigger] sorted[i]).1 < (
    #[trigger] sorted[j]).1 by {
        let x = order[i] as int;
        let y = order[j] as int;
        assert(comes_before(keys, x, y));
        if keys[x] == keys[y] {
            assert(markers[x].1 == markers[y].1);
        }
    }
    assert forall|x: Marker| #[trigger] sorted.contains(x) <==> markers.contains(x) by {
        if sorted.contains(x) {
            let k = choose|k: int| 0 <= k < sorted.len() && sorted[k] == x;
            assert(order[k] < keys.len());
            assert(markers[order[k] as int] == x);
        }
        if markers.contains(x) {
            let i = choose|i: int| 0 <= i < markers.len() && markers[i] == x;
            law_every_marker_once(keys, order, i);
            let k = choose|k: int| 0 <= k < order.len() && #[trigger] order[k] == i;
            assert(sorted[k] == x);
        }
    }
}

/// The order in which markers are given is immaterial where no two share an offset: the markers
/// come out in the same order, and so the beats are the same however they are measured from it.
pub proof fn law_given_order_is_immaterial(
    a: Seq<Marker>,
    order_a: Seq<usize>,
    b: Seq<Marker>,
    order_b: Seq<usize>,
    measured: spec_fn(Seq<Marker>) -> BeatGrid,
)
    requires
        a.to_multiset() == b.to_multiset(),
        distinct_offsets(a),
        is_marker_order(marker_keys(a), order_a),
        is_marker_order(marker_keys(b), order_b),
    ensures
        arranged(a, order_a) == arranged(b, order_b),
        beats_of(measured(arranged(a, order_a))) == beats_of(measured(arranged(b, order_b))),
{
    broadcast use vstd::seq_lib::group_to_multiset_ensures;

    assert forall|x: Marker| #[trigger] a.contains(x) <==> b.contains(x) by {
        assert(a.contains(x) <==> a.to_multiset().count(x) > 0);
        assert(b.contains(x) <==> b.to_multiset().count(x) > 0);
    }
    assert(a.no_duplicates());
    a.lemma_multiset_has_no_duplicates();
    assert(b.no_duplicates()) by {
        b.lemma_multiset_has_no_duplicates_conv();
    }
    assert(distinct_offsets(b)) by {
        assert forall|i: int, j: int| 0 <= i < j < b.len() implies (#[trigger] b[i]).1 != (
        #[trigger] b[j]).1 by {
            if b[i].1 == b[j].1 {
                assert(b.contains(b[i]) && b.contains(b[j]));
                assert(a.contains(b[i]) && a.contains(b[j]));
                let k = choose|k: int| 0 <= k < a.len() && a[k] == b[i];
                let m = choose|m: int| 0 <= m < a.len() && a[m] == b[j];
                if k < m {
                    assert(a[k].1 != a[m].1);
                } else if m < k {
                    assert(a[m].1 != a[k].1);
                }
                assert(b[i] == b[j]);
            }
        }
    }
    lemma_arranged(a, order_a);
    lemma_arranged(b, order_b);
    assert forall|x: Marker| #[trigger]
        arranged(a, order_a).contains(x) <==> arranged(b, order_b).contains(x) by {
        assert(a.contains(x) <==> b.contains(x));
        assert(arranged(a, order_a).contains(x) <==> a.contains(x));
        assert(arranged(b, order_b).contains(x) <==> b.contains(x));
    }
    lemma_rising_is_unique(arranged(a, order_a), arranged(b, order_b));
}

/// Where every beat lies inside the track, none is left out.
pub proof fn law_nothing_inside_is_left_out(beats: Seq<(i64, Beat)>, track_end: i64)
    requires
        forall|i: int| 0 <= i < beats.len() ==> 0 <= (#[trigger] beats[i]).0 <= track_end,
    ensures
        inside_track(beats, track_end) == beats,
    decreases beats.len(),
{
    if beats.len() > 0 {
        let short = beats.drop_last();
        assert forall|i: int| 0 <= i < short.len() implies 0 <= (#[trigger] short[i]).0
            <= track_end by {
            assert(short[i] == beats[i]);
        }
        law_nothing_inside_is_left_out(short, track_end);
        assert(beats[beats.len() - 1].0 <= track_end);
    }
    assert(inside_track(beats, track_end) =~= beats);
}

proof fn lemma_inside_beats(beats: Seq<(i64, Beat)>, track_end: i64, j: int)
    requires
        0 <= j < inside_track(beats, track_end).len(),
    ensures
        0 <= inside_track(beats, track_end)[j].0 <= track_end,
        beats.contains(inside_track(beats, track_end)[j]),
    decreases beats.len(),
{
    let earlier = inside_track(beats.drop_last(), track_end);
    if j < earlier.len() {
        lemma_inside_beats(beats.drop_last(), track_end, j);
        let i = choose|i: int|
            0 <= i < beats.drop_last().len() && beats.drop_last()[i] == earlier[j];
        assert(beats[i] == earlier[j]);
    } else {
        assert(beats[beats.len() - 1] == inside_track(beats, track_end)[j]);
    }
}

/// Every beat of a grid carries the tempo of the grid, has a position in the bar, and lies inside
/// the track: not before its start and not past its end.
pub proof fn law_beats_of_grid(grid: BeatGrid, j: int)
    requires
        0 <= j < beats_of(grid).len(),
    ensures
        beats_of(grid)[j].tempo == grid_tempo(grid),
        1 <= beats_of(grid)[j].beat_number <= 4,
        exists|i: int|
            0 <= i < all_beats(grid).len() && (#[trigger] all_beats(grid)[i]).1 == beats_of(grid)[j]
                && 0 <= all_beats(grid)[i].0 <= grid.track_end,
{
    let all = all_beats(grid);
    let kept = inside_track(all, grid.track_end);
    lemma_inside_beats(all, grid.track_end, j);
    let i = choose|i: int| 0 <= i < all.len() && all[i] == kept[j];
    assert(all[i].1 == beats_of(grid)[j]);
    lemma_grid_beats(
        grid.indices@,
        grid.segments@,
        grid_tempo(grid),
        grid.segments@.len() as int,
        i,
    );
}

proof fn lemma_grid_beats(
    indices: Seq<i32>,
    segments: Seq<Option<SegmentTiming>>,
    tempo: u16,
    n: int,
    i: int,
)
    requires
        0 <= n <= segments.len(),
        0 <= i < grid_beats(indices, segments, tempo, n).len(),
    ensures
        grid_beats(indices, segments, tempo, n)[i].1.tempo == tempo,
        1 <= grid_beats(indices, segments, tempo, n)[i].1.beat_number <= 4,
    decreases n,
{
    let earlier = grid_beats(indices, segments, tempo, n - 1);
    if i < earlier.len() {
        lemma_grid_beats(indices, segments, tempo, n - 1, i);
    }
}

/// Whether beats come in the order of their offsets, as they do between markers in order.
pub open spec fn rising(beats: Seq<(i64, Beat)>) -> bool {
    forall|i: int, j: int|
        0 <= i < j < beats.len() ==> (#[trigger] beats[i]).0 <= (#[trigger] beats[j]).0
}

proof fn lemma_earlier_end(beats: Seq<(i64, Beat)>, early: i64, late: i64)
    requires
        rising(beats),
        early <= late,
    ensures
        inside_track(beats, early).is_prefix_of(inside_track(beats, late)),
        forall|j: int|
            0 <= j < inside_track(beats, late).len() ==> ((#[trigger] inside_track(
                beats,
                late,
            )[j]).0 <= early <==> j < inside_track(beats, early).len()),
    decreases beats.len(),
{
    let some = inside_track(beats, early);
    let more = inside_track(beats, late);
    if beats.len() > 0 {
        let short = beats.drop_last();
        assert(rising(short)) by {
            assert forall|i: int, j: int| 0 <= i < j < short.len() implies (
            #[trigger] short[i]).0 <= (#[trigger] short[j]).0 by {
                assert(short[i] == beats[i] && short[j] == beats[j]);
            }
        }
        lemma_earlier_end(short, early, late);
        let some_before = inside_track(short, early);
        let more_before = inside_track(short, late);
        let last = beats.last();
        if 0 <= last.0 <= early {
            assert forall|j: int| 0 <= j < more_before.len() implies (
            #[trigger] more_before[j]).0 <= early by {
                lemma_inside_beats(short, late, j);
                let i = choose|i: int| 0 <= i < short.len() && short[i] == more_before[j];
                assert(beats[i].0 <= beats[beats.len() - 1].0);
            }
            if some_before.len() < more_before.len() {
                assert(more_before[some_before.len() as int].0 <= early);
            }
            assert(some_before =~= more_before);
        }
        assert forall|j: int| 0 <= j < more.len() implies ((#[trigger] more[j]).0 <= early <==> j
            < some.len()) by {
            if j < more_before.len() {
                assert(more[j] == more_before[j]);
            }
        }
    }
    assert(some =~= more.subrange(0, some.len() as int));
}

/// An earlier end of the track only clips the tail: it leaves the beats up to there, and takes away
/// exactly those that lie past it.
pub proof fn law_track_end_clips_the_tail(short: BeatGrid, long: BeatGrid)
    requires
        short.sample_rate == long.sample_rate,
        short.tempo == long.tempo,
        short.indices == long.indices,
        short.segments == long.segments,
        short.track_end <= long.track_end,
        rising(all_beats(long)),
    ensures
        beats_of(short).is_prefix_of(beats_of(long)),
        forall|j: int|
            0 <= j < beats_of(long).len() ==> ((#[trigger] inside_track(
                all_beats(long),
                long.track_end,
            )[j]).0 <= short.track_end <==> j < beats_of(short).len()),
{
    lemma_earlier_end(all_beats(long), short.track_end, long.track_end);
    let some = inside_track(all_beats(long), short.track_end);
    let more = inside_track(all_beats(long), long.track_end);
    assert(beats_of(short) =~= beats_of(long).subrange(0, beats_of(short).len() as int)) by {
        assert forall|j: int| 0 <= j < some.len() implies some[j] == more[j] by {
            assert(some[j] == more.subrange(0, some.len() as int)[j]);
        }
    }
}

/// The number of beats of the first `n` segments.
pub open spec fn beats_before(segments: Seq<Option<SegmentTiming>>, n: int) -> nat
    decreases n,
{
    if n <= 0 {
        0
    } else {
        beats_before(segments, n - 1) + match segments[n - 1] {
            Some(timing) => timing.beats@.len(),
            None => 0,
        }
    }
}

proof fn lemma_beats_of_segment(
    indices: Seq<i32>,
    segments: Seq<Option<SegmentTiming>>,
    tempo: u16,
    n: int,
    i: int,
    k: int,
)
    requires
        0 <= i < n <= segments.len(),
        segments[i] is Some,
        0 <= k < segments[i]->0.beats@.len(),
    ensures
        grid_beats(indices, segments, tempo, n).len() == beats_before(segments, n),
        beats_before(segments, i) + k < grid_beats(indices, segments, tempo, n).len(),
        grid_beats(indices, segments, tempo, n)[beats_before(segments, i) + k] == (
            segments[i]->0.beats@[k].offset,
            Beat {
                beat_number: ((indices[i] + k - 1) % 4 + 1) as u16,
                tempo,
                time: segments[i]->0.beats@[k].time,
            },
        ),
    decreases n,
{
    lemma_grid_beats_len(indices, segments, tempo, n - 1);
    if i < n - 1 {
        lemma_beats_of_segment(indices, segments, tempo, n - 1, i, k);
    }
}

proof fn lemma_grid_beats_len(
    indices: Seq<i32>,
    segments: Seq<Option<SegmentTiming>>,
    tempo: u16,
    n: int,
)
    requires
        n <= segments.len(),
    ensures
        grid_beats(indices, segments, tempo, n).len() == beats_before(segments, n),
    decreases n,
{
    if n > 0 {
        lemma_grid_beats_len(indices, segments, tempo, n - 1);
    }
}

/// Beat number `k` of the segment that starts at marker `i` stands behind the beats of the segments
/// before it. It has the position in the bar that its own beat number gives it, the offset and the
/// time that were measured for it, and the tempo of the grid. The beat behind it in the segment has
/// the next position in the cycle.
pub proof fn law_every_beat_of_a_segment(grid: BeatGrid, i: int, k: int)
    requires
        0 <= i < grid.segments@.len(),
        grid.segments@[i] is Some,
        0 <= k < grid.segments@[i]->0.beats@.len(),
    ensures
        ({
            let at = beats_before(grid.segments@, i) + k;
            let measured = grid.segments@[i]->0.beats@;
            let (offset, beat) = all_beats(grid)[at];
            &&& at < all_beats(grid).len()
            &&& all_beats(grid).len() == beats_before(grid.segments@, grid.segments@.len() as int)
            &&& offset == measured[k].offset
            &&& beat.time == measured[k].time
            &&& beat.tempo == grid_tempo(grid)
            &&& beat.beat_number == (grid.indices@[i] + k - 1) % 4 + 1
            &&& beat.beat_number == 1 <==> (grid.indices@[i] + k) % 4 == 1
            &&& k + 1 < measured.len() ==> all_beats(grid)[at + 1].1.beat_number
                == if beat.beat_number == 4 {
                1
            } else {
                beat.beat_number + 1
            }
        }),
{
    let n = grid.segments@.len() as int;
    let tempo = grid_tempo(grid);
    lemma_beats_of_segment(grid.indices@, grid.segments@, tempo, n, i, k);
    if k + 1 < grid.segments@[i]->0.beats@.len() {
        lemma_beats_of_segment(grid.indices@, grid.segments@, tempo, n, i, k + 1);
    }
}

/// Of two lists of beats one behind the other, what lies inside the track stays in that order; and
/// a beat stays just when it lies neither before the start of the track nor past its end.
pub proof fn law_only_what_is_inside_stays(
    a: Seq<(i64, Beat)>,
    b: Seq<(i64, Beat)>,
    beat: (i64, Beat),
    track_end: i64,
)
    ensures
        inside_track(Seq::empty(), track_end) == Seq::<(i64, Beat)>::empty(),
        inside_track(a + b, track_end) == inside_track(a, track_end) + inside_track(b, track_end),
        beat.0 >= 0 && beat.0 <= track_end ==> inside_track(a.push(beat), track_end)
            == inside_track(a, track_end).push(beat),
        beat.0 < 0 || beat.0 > track_end ==> inside_track(a.push(beat), track_end) == inside_track(
            a,
            track_end,
        ),
{
    lemma_inside_append(a, b, track_end);
    assert(a.push(beat).drop_last() =~= a);
}

/// The beats of a grid are those of its segments that lie inside the track, one for one; there are
/// none where the sample rate is zero.
pub proof fn law_beats_are_those_inside(grid: BeatGrid, j: int)
    ensures
        grid.sample_rate == 0 ==> beats_of(grid).len() == 0,
        grid.sample_rate != 0 ==> beats_of(grid).len() == inside_track(
            all_beats(grid),
            grid.track_end,
        ).len(),
        0 <= j < beats_of(grid).len() ==> beats_of(grid)[j] == inside_track(
            all_beats(grid),
            grid.track_end,
        )[j].1,
{
}

/// A tempo that is given is that of the grid; otherwise the grid takes the tempo of the first
/// segment that has a length.
pub proof fn law_tempo_of_a_grid(grid: BeatGrid, i: int)
    requires
        0 <= i < grid.segments@.len(),
        grid.segments@[i] is Some,
        forall|j: int| 0 <= j < i ==> (#[trigger] grid.segments@[j]) is None,
    ensures
        grid.tempo is Some ==> grid_tempo(grid) == grid.tempo->0,
        grid.tempo is None ==> grid_tempo(grid) == grid.segments@[i]->0.tempo,
{
    lemma_first_tempo(grid.segments@, i);
}

proof fn lemma_first_tempo(segments: Seq<Option<SegmentTiming>>, i: int)
    requires
        0 <= i < segments.len(),
        segments[i] is Some,
        forall|j: int| 0 <= j < i ==> (#[trigger] segments[j]) is None,
    ensures
        first_tempo(segments) == segments[i]->0.tempo,
    decreases i,
{
    if i > 0 {
        assert(segments[0] is None);
        let rest = segments.drop_first();
        assert forall|j: int| 0 <= j < i - 1 implies (#[trigger] rest[j]) is None by {
            assert(rest[j] == segments[j + 1]);
        }
        assert(rest[i - 1] == segments[i]);
        lemma_first_tempo(rest, i - 1);
    }
}

/// A segment has as many beats as its markers are apart, and never less than one.
pub proof fn law_beats_between_markers(a: i32, b: i32)
    ensures
        beats_between(a, b) >= 1,
        beats_between(a, b) >= b - a,
        beats_between(a, b) == 1 || beats_between(a, b) == b - a,
{
}

/// Markers in order never go back, and markers with the same offset stay as they were given.
pub proof fn law_markers_in_order(keys: Seq<i64>, order: Seq<usize>, a: int, b: int)
    requires
        is_marker_order(keys, order),
        0 <= a < b < order.len(),
    ensures
        order.len() == keys.len(),
        keys[order[a] as int] <= keys[order[b] as int],
        keys[order[a] as int] == keys[order[b] as int] ==> order[a] < order[b],
{
    assert(comes_before(keys, order[a] as int, order[b] as int));
}

} // verus!
