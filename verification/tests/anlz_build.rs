use rekordcrate::anlz::{Beat, CueListType, CueType, WaveformColorPreviewColumn};
use rekordcrate::device::anlz_build::{
    build_anlz_input, build_band_columns, build_detail_mono, build_preview_columns,
    color_detail_column,
};
use rekordcrate::device::beatgrid::{
    bar_position, beat_span, expand_beatgrid, marker_order, BeatGrid, BeatTiming, SegmentTiming,
};
use rekordcrate::device::cues::{build_cues, combine_cues, CueInput};

#[test]
fn preview_downsample_count() {
    let detail: Vec<(u8, u8, u8)> = (0..150).map(|_| (10, 20, 30)).collect();
    let heights: Vec<u8> = vec![16; 150];
    let (cp, cd, bp, bd) = build_band_columns(&detail, &heights);
    // 150 / 22 = 6.8, so 7 windows.
    assert_eq!(cp.len(), 7, "color preview windows");
    assert_eq!(bp.len(), 7, "band3 preview windows");
    assert_eq!(cd.len(), 150, "color detail is 1:1 with detail");
    assert_eq!(bd.len(), 150, "band3 detail is 1:1 with detail");
    let (preview, tiny) = build_preview_columns(&heights);
    assert_eq!(preview.len(), 7);
    assert_eq!(tiny.len(), 7);
    assert!(preview.iter().all(|c| c.height() <= 31));
    assert!(tiny.iter().all(|c| c.height() <= 15));
}

/// Sample offset in milliseconds.
fn samples_to_ms(samples: f64, sample_rate: u32) -> u32 {
    if sample_rate == 0 {
        return 0;
    }
    (samples / f64::from(sample_rate) * 1000.0).round() as u32
}

/// Tempo in centi-BPM.
fn centi_bpm(bpm: f64) -> u16 {
    if bpm.is_finite() && bpm > 0.0 {
        ((bpm * 100.0).round() as u64).min(u64::from(u16::MAX)) as u16
    } else {
        0
    }
}

/// An integer that rises with the number.
fn order_key(offset: f64) -> i64 {
    let bits = (offset + 0.0).to_bits() as i64;
    bits ^ ((((bits >> 63) as u64) >> 1) as i64)
}

/// Measures the beatgrid of markers with sample offsets.
fn measured(
    markers: &[(i32, f64)],
    sample_rate: u32,
    bpm: Option<f64>,
    sample_count: u64,
) -> BeatGrid {
    let keys: Vec<i64> = markers.iter().map(|m| order_key(m.1)).collect();
    let sorted: Vec<(i32, f64)> = marker_order(&keys).into_iter().map(|i| markers[i]).collect();
    let rate = f64::from(sample_rate);
    let segments = sorted
        .windows(2)
        .map(|pair| {
            let ((a, off_a), (b, off_b)) = (pair[0], pair[1]);
            let span = beat_span(a, b);
            let samples_per_beat = (off_b - off_a) / span as f64;
            if samples_per_beat <= 0.0 {
                return None;
            }
            let start_ms = off_a / rate * 1000.0;
            let ms_per_beat = samples_per_beat / rate * 1000.0;
            let beats = (0..span)
                .map(|k| BeatTiming {
                    offset: order_key(off_a + k as f64 * samples_per_beat),
                    time: (start_ms + k as f64 * ms_per_beat).round() as u32,
                })
                .collect();
            let tempo = centi_bpm(60.0 * rate / samples_per_beat);
            Some(SegmentTiming { tempo, beats })
        })
        .collect();
    BeatGrid {
        sample_rate,
        tempo: bpm.map(centi_bpm),
        track_end: order_key(sample_count as f64),
        indices: sorted.iter().map(|m| m.0).collect(),
        segments,
    }
}

#[test]
fn beatgrid_expansion_is_constant_tempo() {
    let sr = 44_100u32;
    // 120 BPM is 22050 samples per beat. Two beats span 44100 samples (1 s).
    let samples_per_beat = 60.0 / 120.0 * sr as f64;
    let m0 = (1, 0.0);
    let m1 = (3, 2.0 * samples_per_beat);
    let beats = expand_beatgrid(&measured(&[m0, m1], sr, Some(120.0), u64::MAX));
    assert_eq!(beats.len(), 2, "two beats between markers 1 and 3");
    assert_eq!(
        beats.iter().map(|b| b.beat_number).collect::<Vec<_>>(),
        vec![1, 2],
        "bar positions cycle from the marker index"
    );
    assert_eq!(beats[0].tempo, 12_000, "120.00 BPM is 12000 centi-BPM");
    assert_eq!(beats[0].time, 0);
    assert!((beats[1].time as i64 - 500).abs() <= 1, "beat 2 at ~500 ms");

    // Total count from duration: at 120 BPM, 1 s holds 2 beats.
    let from_dur = expand_beatgrid(&measured(&[m0, m1], sr, Some(120.0), sr as u64));
    assert_eq!(from_dur.len(), 2);
}

#[test]
fn beatgrid_negative_index_aligns_bar() {
    let sr = 44_100u32;
    let spb = 60.0 / 120.0 * sr as f64;
    let beats = expand_beatgrid(&measured(
        &[(-4, 0.0), (0, 4.0 * spb)],
        sr,
        Some(120.0),
        u64::MAX,
    ));
    let positions: Vec<u16> = beats.iter().map(|b| b.beat_number).collect::<Vec<_>>();
    assert_eq!(positions, vec![4, 1, 2, 3]);
}

#[test]
fn cue_building_point_and_loop() {
    let sr = 44_100u32;
    let cues = [
        CueInput {
            hot_cue: 1,
            time: samples_to_ms(44_100.0, sr),
            loop_end: None,
            is_loop: false,
            label: "Intro",
            r: 255,
            g: 0,
            b: 0,
        },
        CueInput {
            hot_cue: 2,
            time: samples_to_ms(88_200.0, sr),
            loop_end: Some(samples_to_ms(132_300.0, sr)),
            is_loop: true,
            label: "Loop",
            r: 0,
            g: 255,
            b: 0,
        },
    ];
    let (plain, ext, t) = build_cues(&cues);
    assert_eq!(t, CueListType::HotCues, "a hot cue makes a hot-cue list");
    assert_eq!(plain.len(), 2);
    assert_eq!(plain[0].time, 1000, "44100 samples @ 44100 Hz = 1000 ms");
    assert_eq!(plain[0].cue_type, CueType::Point);
    assert_eq!(plain[1].cue_type, CueType::Loop);
    assert_eq!(plain[1].loop_time, 3000, "loop end at 3 s");
    assert_eq!(ext.len(), 2);
    assert_eq!(ext[0].hot_cue_color_rgb, (255, 0, 0), "RGBA drops alpha");

    assert_eq!(plain[0].loop_time, u32::MAX);
    assert_eq!(plain[1].time, 2000);
    assert_eq!(ext[0].comment, "Intro");
    assert_eq!(ext[1].loop_time, 3000);
}

#[test]
fn build_anlz_input_assembles_consistently() {
    let sr = 44_100u32;
    let detail: Vec<(u8, u8, u8)> = (0..150).map(|_| (50, 100, 150)).collect();
    let heights: Vec<u8> = vec![20; 150];
    let input = build_anlz_input(
        &detail,
        &heights,
        &measured(
            &[(1, 0.0), (5, 60.0 / 120.0 * sr as f64 * 4.0)],
            sr,
            Some(120.0),
            sr as u64,
        ),
        &[CueInput {
            hot_cue: 1,
            time: samples_to_ms(sr as f64, sr),
            loop_end: None,
            is_loop: false,
            label: "x",
            r: 0,
            g: 0,
            b: 0,
        }],
        Some(samples_to_ms(0.0, sr)),
    );
    assert!(!input.beats.is_empty());
    assert!(!input.cues.is_empty());
    assert_eq!(input.cues.len(), 2, "main cue + hot cue");
    assert_eq!(input.cue_list_type, CueListType::HotCues);
    assert_eq!(input.detail_mono.as_ref().unwrap().len(), 150);
    assert_eq!(input.color_detail.as_ref().unwrap().len(), 150);
    assert_eq!(input.band3_detail.as_ref().unwrap().len(), 150);
    assert_eq!(input.preview_mono.len(), 7);

    assert_eq!(input.cues[0].hot_cue, 0, "the main cue comes first");
    assert_eq!(input.cues[1].time, 1000);
    assert_eq!(input.beats.len(), 3, "beats past the end of the track are left out");
}

fn memory_cue(time: u32) -> CueInput<'static> {
    CueInput {
        hot_cue: 0,
        time,
        loop_end: None,
        is_loop: false,
        label: "",
        r: 0,
        g: 0,
        b: 0,
    }
}

#[test]
fn the_main_cue_is_a_memory_cue() {
    let all = combine_cues(Some(250), &[memory_cue(500)]);
    assert_eq!(all.len(), 2);
    assert_eq!((all[0].hot_cue, all[0].time, all[0].is_loop), (0, 250, false));
    assert_eq!(all[1].time, 500);
    assert_eq!(build_cues(&all).2, CueListType::MemoryCues);
    assert_eq!(combine_cues(None, &[memory_cue(500)]).len(), 1);
    assert_eq!(build_cues(&[]).2, CueListType::MemoryCues);
}

#[test]
fn a_point_has_no_loop_end() {
    let mut cue = memory_cue(10);
    cue.loop_end = Some(20);
    assert_eq!(build_cues(&[cue]).0[0].loop_time, u32::MAX);
    cue.is_loop = true;
    assert_eq!(build_cues(&[cue]).0[0].loop_time, 20);
    cue.loop_end = None;
    assert_eq!(build_cues(&[cue]).1[0].loop_time, u32::MAX);
}

#[test]
fn the_bottom_half_of_a_color_preview_stays_zero() {
    let bands = [(1, 10, 100), (2, 20, 101), (2, 21, 102)];
    let (color, _, three, _) = build_band_columns(&bands, &[]);
    assert_eq!(color, vec![WaveformColorPreviewColumn::new(0, 1, 17, 101)]);
    assert_eq!(three[0].energy_bottom_third_freq, 1);
    assert_eq!(three[0].energy_mid_third_freq, 17);
    assert_eq!(three[0].energy_top_third_freq, 101);
}

#[test]
fn a_missing_height_is_the_scaled_band_maximum() {
    for max in 0..=255u8 {
        let want = ((f32::from(max) / 255.0) * 31.0).round() as u8;
        assert_eq!(color_detail_column(0, max, 0, None).height, want);
    }
    let (_, color, _, _) = build_band_columns(&[(255, 0, 0), (255, 0, 0)], &[3]);
    assert_eq!(color[0].height, 3);
    assert_eq!(color[1].height, 31);
}

#[test]
fn the_dominant_band_gives_the_color() {
    let rgb = |low, mid, high| {
        let c = color_detail_column(low, mid, high, Some(0));
        (c.red, c.green, c.blue)
    };
    assert_eq!(rgb(1, 2, 3), (0, 0, 7));
    assert_eq!(rgb(5, 5, 5), (0, 0, 7));
    assert_eq!(rgb(1, 3, 2), (0, 7, 0));
    assert_eq!(rgb(3, 3, 2), (0, 7, 0));
    assert_eq!(rgb(3, 1, 2), (7, 0, 0));
}

#[test]
fn previews_take_the_highest_peak() {
    let mut heights = vec![1u8; 23];
    heights[7] = 19;
    heights[22] = 200;
    let (preview, tiny) = build_preview_columns(&heights);
    assert_eq!(preview.iter().map(|c| c.height()).collect::<Vec<_>>(), vec![19, 31]);
    assert_eq!(tiny.iter().map(|c| c.height()).collect::<Vec<_>>(), vec![9, 15]);
    assert!(preview.iter().all(|c| c.whiteness() == 0));
    assert_eq!(
        build_detail_mono(&[0, 31, 32, 255]).iter().map(|c| c.height()).collect::<Vec<_>>(),
        vec![0, 31, 31, 31]
    );
    assert_eq!(build_preview_columns(&[]), (vec![], vec![]));
}

#[test]
fn bar_positions_repeat_every_four_beats() {
    assert_eq!((1..=9).map(bar_position).collect::<Vec<_>>(), vec![1, 2, 3, 4, 1, 2, 3, 4, 1]);
    assert_eq!((-4..=0).map(bar_position).collect::<Vec<_>>(), vec![4, 1, 2, 3, 4]);
    assert_eq!(bar_position(i64::MAX), 3);
    assert_eq!(bar_position(i64::MIN + 1), 1);
}

#[test]
fn markers_come_in_the_order_of_their_offsets() {
    assert_eq!(marker_order(&[30, -10, 20, -10]), vec![1, 3, 2, 0]);
    assert_eq!(marker_order(&[]), Vec::<usize>::new());
    let keys: Vec<i64> = [-1.5, -0.0, 0.0, 0.25, 1e300].map(order_key).to_vec();
    assert!(keys.windows(2).all(|pair| pair[0] <= pair[1]));
    assert_eq!((keys[1], keys[2]), (0, 0));
    assert!(keys[0] < 0 && keys[3] > 0);
    let unsorted = measured(&[(3, 44_100.0), (1, 0.0)], 44_100, Some(120.0), 44_100);
    assert_eq!(
        expand_beatgrid(&unsorted),
        vec![
            Beat { beat_number: 1, tempo: 12_000, time: 0 },
            Beat { beat_number: 2, tempo: 12_000, time: 500 },
        ]
    );
}

#[test]
fn the_order_of_the_markers_is_immaterial() {
    let markers = [(-3, -50.0), (1, 150.0), (5, 350.0), (7, 650.0)];
    let want = expand_beatgrid(&measured(&markers, 100, None, 500));
    // Beats at 0, 50 and so on up to 350 samples, and one at 500.
    assert_eq!(want.len(), 9);
    for order in [[3, 2, 1, 0], [1, 0, 3, 2], [2, 0, 3, 1]] {
        let given: Vec<(i32, f64)> = order.iter().map(|&i| markers[i]).collect();
        assert_eq!(expand_beatgrid(&measured(&given, 100, None, 500)), want);
    }
}

#[test]
fn an_earlier_track_end_clips_the_tail() {
    // One beat every 50 samples from -100 to 350, half a second each.
    let markers = [(0, -100.0), (4, 100.0), (10, 400.0)];
    let whole = expand_beatgrid(&measured(&markers, 100, None, 1000));
    assert_eq!(
        whole.iter().map(|b| b.time).collect::<Vec<_>>(),
        vec![0, 500, 1000, 1500, 2000, 2500, 3000, 3500]
    );
    for end in 0..400u64 {
        let clipped = expand_beatgrid(&measured(&markers, 100, None, end));
        // A beat on the very end still belongs to the track.
        assert_eq!(clipped.len(), (end / 50 + 1) as usize);
        assert_eq!(clipped[..], whole[..clipped.len()]);
    }
}

#[test]
fn missing_heights_fall_back_in_all_columns() {
    let detail = [(0, 0, 0), (255, 0, 0), (0, 128, 4), (7, 7, 90)];
    let no_grid = measured(&[], 44_100, None, 0);
    let input = build_anlz_input(&detail, &[5], &no_grid, &[], None);
    let mono = input.detail_mono.expect("mono detail");
    let color = input.color_detail.expect("color detail");
    let want: Vec<u8> = vec![5, 31, 16, 11];
    assert_eq!(mono.iter().map(|c| c.height()).collect::<Vec<_>>(), want);
    assert_eq!(color.iter().map(|c| c.height).collect::<Vec<_>>(), want);
    assert_eq!(input.preview_mono.iter().map(|c| c.height()).collect::<Vec<_>>(), vec![31]);
    assert_eq!(input.tiny_preview.iter().map(|c| c.height()).collect::<Vec<_>>(), vec![15]);

    // Without any heights there are as many preview columns as color preview columns.
    let detail = [(31, 0, 0); 45];
    let input = build_anlz_input(&detail, &[], &no_grid, &[], None);
    assert_eq!(input.detail_mono.expect("mono detail").len(), 45);
    assert_eq!(input.preview_mono.iter().map(|c| c.height()).collect::<Vec<_>>(), vec![4; 3]);
    assert_eq!(input.tiny_preview.iter().map(|c| c.height()).collect::<Vec<_>>(), vec![2; 3]);
    assert_eq!(input.color_preview.expect("color preview").len(), 3);

    // More heights than slots keep their own columns.
    let input = build_anlz_input(&detail[..1], &[9, 40], &no_grid, &[], None);
    let mono = input.detail_mono.expect("mono detail");
    assert_eq!(mono.iter().map(|c| c.height()).collect::<Vec<_>>(), vec![9, 31]);
    assert_eq!(input.color_detail.expect("color detail").len(), 1);
}

#[test]
fn without_a_tempo_the_first_segment_gives_it() {
    // One second per beat, and half a second per beat from the second marker on.
    let grid = measured(
        &[(0, 0.0), (1, 100.0), (3, 200.0)],
        100,
        None,
        1000,
    );
    let tempi: Vec<u16> = expand_beatgrid(&grid).iter().map(|b| b.tempo).collect();
    assert_eq!(tempi, vec![6000, 6000, 6000]);
}

#[test]
fn degenerate_grids_have_no_beats() {
    assert!(expand_beatgrid(&measured(&[], 44_100, Some(120.0), 10)).is_empty());
    assert!(expand_beatgrid(&measured(&[(1, 0.0)], 44_100, Some(120.0), 10)).is_empty());
    assert!(expand_beatgrid(&measured(&[(1, 5.0), (2, 5.0)], 44_100, None, 10)).is_empty());
    assert!(expand_beatgrid(&measured(&[(1, 0.0), (2, 5.0)], 0, None, 10)).is_empty());
    assert_eq!(beat_span(5, 5), 1);
    assert_eq!(beat_span(5, 2), 1);
    assert_eq!(beat_span(i32::MIN, i32::MAX), 4_294_967_295);
}
