use std::io::Cursor;

use realfft::RealFftPlanner;

use rekordcrate::anlz::{
    CueListType, TinyWaveformPreviewColumn, WaveformColorPreviewColumn, WaveformPreviewColumn,
};
use rekordcrate::device::analysis::{
    analyze, band_of_bin, column_ranges, decode_step, samples_per_detail_column,
    samples_per_preview_column, select_audio_track, Band, DecodeEvent, DecodeFailure, DecodeStep,
    Measurements, TrackProbe, FFT_SIZE, HIGH_BIN, MID_BIN,
};
use rekordcrate::device::Track;

/// Peak amplitude in `[0, 1]` over `samples`.
fn peak_amplitude(samples: &[f32]) -> f32 {
    samples
        .iter()
        .map(|s| s.abs())
        .fold(0.0f32, |a, b| a.max(b))
        .clamp(0.0, 1.0)
}

fn band_energies(mono: &[f32], ranges: &[(usize, usize)]) -> Vec<(f32, f32, f32)> {
    let mut planner = RealFftPlanner::<f32>::new();
    let r2c = planner.plan_fft_forward(FFT_SIZE);
    let mut spectrum = r2c.make_output_vec();
    let mut out = Vec::new();
    for &(from, to) in ranges {
        let chunk = &mono[from..to];
        let mut frame = vec![0.0f32; FFT_SIZE];
        let copy = chunk.len().min(FFT_SIZE);
        frame[..copy].copy_from_slice(&chunk[..copy]);
        for (j, s) in frame.iter_mut().enumerate() {
            let w = 0.5 * (1.0 - (2.0 * std::f32::consts::PI * j as f32 / FFT_SIZE as f32).cos());
            *s *= w;
        }
        r2c.process(&mut frame, &mut spectrum).expect("fft sizes match");
        let mut sums = (0.0f64, 0.0f64, 0.0f64);
        for (bin, c) in spectrum.iter().enumerate() {
            let mag = f64::from((c.re * c.re + c.im * c.im).sqrt());
            match band_of_bin(bin) {
                Band::Low => sums.0 += mag,
                Band::Mid => sums.1 += mag,
                Band::High => sums.2 += mag,
            }
        }
        out.push((sums.0 as f32, sums.1 as f32, sums.2 as f32));
    }
    out
}

fn measure(mono: &[f32], sample_rate: u32) -> Measurements {
    let previews = column_ranges(mono.len(), samples_per_preview_column(sample_rate));
    let details = column_ranges(mono.len(), samples_per_detail_column(sample_rate));
    let energies = band_energies(mono, &details);
    let max = energies
        .iter()
        .flat_map(|&(l, m, h)| [l, m, h])
        .fold(0.0f32, |a, b| a.max(b))
        .max(1e-9);
    let q = |v: f32| ((v / max) * 255.0).round().clamp(0.0, 255.0) as u8;
    Measurements {
        samples: mono.len(),
        sample_rate,
        preview_peaks: previews
            .iter()
            .map(|&(from, to)| {
                let peak = peak_amplitude(&mono[from..to]);
                ((peak * 31.0).round() as u8, (peak * 15.0).round() as u8)
            })
            .collect(),
        detail_peaks: details
            .iter()
            .map(|&(from, to)| (peak_amplitude(&mono[from..to]) * 31.0).round() as u8)
            .collect(),
        bands: energies
            .iter()
            .map(|&(l, m, h)| (q(l), q(m), q(h)))
            .collect(),
    }
}

/// Decodes an MP3 stream to mono samples.
fn decode_mono(bytes: Vec<u8>) -> Result<(Vec<f32>, u32), String> {
    let mss = symphonia::core::io::MediaSourceStream::new(
        Box::new(Cursor::new(bytes)),
        Default::default(),
    );
    let mut hint = symphonia::core::formats::probe::Hint::new();
    hint.with_extension("mp3");
    let mut format = symphonia::default::get_probe()
        .probe(
            &hint,
            mss,
            symphonia::core::formats::FormatOptions::default(),
            symphonia::core::meta::MetadataOptions::default(),
        )
        .map_err(|e| DecodeFailure::Probe.message(&e.to_string()))?;
    let probes: Vec<TrackProbe> = format
        .tracks()
        .iter()
        .map(|t| {
            let audio = t.codec_params.as_ref().and_then(|c| c.audio());
            TrackProbe {
                is_audio: t.codec_params.as_ref().is_some_and(|c| c.is_audio()),
                has_parameters: audio.is_some(),
                sample_rate: audio.and_then(|a| a.sample_rate),
            }
        })
        .collect();
    let (index, sample_rate) = select_audio_track(&probes).map_err(|e| e.message(""))?;
    let track = format.tracks()[index].clone();
    let params = track.codec_params.as_ref().and_then(|c| c.audio()).expect("audio parameters");
    let mut decoder = symphonia::default::get_codecs()
        .make_audio_decoder(
            params,
            &symphonia::core::codecs::audio::AudioDecoderOptions::default(),
        )
        .map_err(|e| DecodeFailure::DecoderInit.message(&e.to_string()))?;
    let mut mono = Vec::new();
    loop {
        let (event, packet) = match format.next_packet() {
            Ok(Some(p)) => (DecodeEvent::Packet(p.track_id), Some(p)),
            Ok(None) => (DecodeEvent::End, None),
            Err(symphonia::core::errors::Error::IoError(ref e))
                if e.kind() == std::io::ErrorKind::UnexpectedEof =>
            {
                (DecodeEvent::UnexpectedEof, None)
            }
            Err(e) => return Err(DecodeFailure::Read.message(&e.to_string())),
        };
        match decode_step(event, track.id) {
            DecodeStep::Finish => break,
            DecodeStep::Skip => continue,
            DecodeStep::Mix | DecodeStep::Fail(_) => unreachable!(),
            DecodeStep::Decode => {}
        }
        let decoded = decoder
            .decode(&packet.expect("a packet"))
            .map_err(|e| DecodeFailure::Decode.message(&e.to_string()))?;
        let channels = decoded.spec().channels().count();
        let frames = decoded.frames();
        if decode_step(DecodeEvent::Decoded { channels, frames }, track.id) == DecodeStep::Skip {
            continue;
        }
        let mut interleaved = vec![0.0f32; frames * channels];
        decoded.copy_to_slice_interleaved(&mut interleaved);
        for frame in interleaved.chunks(channels) {
            mono.push(frame.iter().sum::<f32>() / channels as f32);
        }
    }
    Ok((mono, sample_rate))
}

/// A 128 kbit/s stereo MP3 stream of silent frames at 44.1 kHz.
fn silent_mp3(frames: usize) -> Vec<u8> {
    let mut bytes = Vec::new();
    for _ in 0..frames {
        bytes.extend_from_slice(&[0xFF, 0xFB, 0x90, 0x00]);
        bytes.extend_from_slice(&[0; 413]);
    }
    bytes
}

#[test]
fn synthesized_signal_produces_valid_columns() {
    // 1 second of 440 Hz sine at 44100 Hz, amplitude 0.5.
    let sample_rate = 44_100u32;
    let n = sample_rate as usize;
    let mono: Vec<f32> = (0..n)
        .map(|i| 0.5 * (2.0 * std::f32::consts::PI * 440.0 * i as f32 / sample_rate as f32).sin())
        .collect();

    let measured = measure(&mono, sample_rate);
    let computed = analyze(&measured);
    let (preview, tiny) = (&computed.preview_mono, &computed.tiny_preview);
    let detail = &computed.detail_mono;

    // 150 Hz over 1 second: about 150 columns.
    assert!(
        (140..=160).contains(&detail.len()),
        "detail column count {} should be ~150",
        detail.len()
    );
    // About 6.67 Hz: about 7 columns.
    assert!(
        (5..=9).contains(&preview.len()),
        "preview column count {} should be ~7",
        preview.len()
    );
    assert_eq!(preview.len(), tiny.len());

    assert!(preview.iter().all(|c| c.height() <= 31));
    assert!(tiny.iter().all(|c| c.height() <= 15));
    assert!(preview.iter().any(|c| c.height() > 0));

    assert_eq!(measured.bands.len(), detail.len());
}

#[test]
fn analyze_real_mp3_fixture() {
    let (mono, sample_rate) =
        decode_mono(silent_mp3(120)).expect("analyze should succeed on the MP3 fixture");
    assert_eq!(sample_rate, 44_100);
    let computed = analyze(&measure(&mono, sample_rate));
    assert!(!computed.preview_mono.is_empty());
    assert!(!computed.tiny_preview.is_empty());
    assert!(!computed.detail_mono.is_empty());
    assert!(!computed.color_preview.is_empty());
    assert!(!computed.color_detail.is_empty());
    assert!(!computed.band3_preview.is_empty());
    assert!(!computed.band3_detail.is_empty());
    // Detail (150 Hz) should vastly outnumber preview (about 6.67 Hz).
    assert!(
        computed.detail_mono.len() > computed.preview_mono.len() * 10,
        "detail {} should be >>10x preview {}",
        computed.detail_mono.len(),
        computed.preview_mono.len()
    );
}

#[test]
fn columns_cover_all_samples() {
    assert_eq!(samples_per_detail_column(44_100), 294);
    assert_eq!(samples_per_preview_column(44_100), 6615);
    assert_eq!(samples_per_detail_column(48_000), 320);
    assert_eq!(samples_per_preview_column(48_000), 7200);
    assert_eq!(samples_per_detail_column(74), 0);
    assert_eq!(samples_per_detail_column(75), 1);
    assert_eq!(column_ranges(7, 3), vec![(0, 3), (3, 6), (6, 7)]);
    assert_eq!(column_ranges(6, 3), vec![(0, 3), (3, 6)]);
    assert_eq!(column_ranges(0, 3), vec![]);
}

#[test]
fn bands_are_thirds_of_the_spectrum() {
    assert_eq!(MID_BIN, (FFT_SIZE as f64 / 6.0).round() as usize);
    assert_eq!(HIGH_BIN, (FFT_SIZE as f64 / 3.0).round() as usize);
    assert_eq!(band_of_bin(0), Band::Low);
    assert_eq!(band_of_bin(170), Band::Low);
    assert_eq!(band_of_bin(171), Band::Mid);
    assert_eq!(band_of_bin(340), Band::Mid);
    assert_eq!(band_of_bin(341), Band::High);
    assert_eq!(band_of_bin(512), Band::High);
}

#[test]
fn the_first_audio_track_is_decoded() {
    let video = TrackProbe { is_audio: false, has_parameters: false, sample_rate: None };
    let audio = TrackProbe { is_audio: true, has_parameters: true, sample_rate: Some(44_100) };
    let other = TrackProbe { is_audio: true, has_parameters: true, sample_rate: Some(48_000) };
    let unknown = TrackProbe { is_audio: true, has_parameters: true, sample_rate: None };
    let bare = TrackProbe { is_audio: true, has_parameters: false, sample_rate: None };
    assert_eq!(select_audio_track(&[video, audio, other]), Ok((1, 44_100)));
    assert_eq!(select_audio_track(&[video]), Err(DecodeFailure::NoAudioTrack));
    assert_eq!(select_audio_track(&[]), Err(DecodeFailure::NoAudioTrack));
    assert_eq!(
        select_audio_track(&[unknown, audio]),
        Err(DecodeFailure::UnknownSampleRate)
    );
    assert_eq!(select_audio_track(&[bare, audio]), Err(DecodeFailure::NoParameters));
}

#[test]
fn packets_of_other_tracks_are_skipped() {
    assert_eq!(decode_step(DecodeEvent::Packet(7), 7), DecodeStep::Decode);
    assert_eq!(decode_step(DecodeEvent::Packet(8), 7), DecodeStep::Skip);
    assert_eq!(decode_step(DecodeEvent::End, 7), DecodeStep::Finish);
    assert_eq!(decode_step(DecodeEvent::UnexpectedEof, 7), DecodeStep::Finish);
    assert_eq!(
        decode_step(DecodeEvent::ReadFailed, 7),
        DecodeStep::Fail(DecodeFailure::Read)
    );
    assert_eq!(
        decode_step(DecodeEvent::DecodeFailed, 7),
        DecodeStep::Fail(DecodeFailure::Decode)
    );
    for (channels, frames, step) in [
        (2, 1152, DecodeStep::Mix),
        (0, 1152, DecodeStep::Skip),
        (2, 0, DecodeStep::Skip),
    ] {
        assert_eq!(decode_step(DecodeEvent::Decoded { channels, frames }, 7), step);
    }
}

#[test]
fn failures_say_what_happened() {
    assert_eq!(DecodeFailure::Open.message("gone"), "gone");
    assert_eq!(DecodeFailure::Probe.message("gone"), "probe failed: gone");
    assert_eq!(
        DecodeFailure::NoAudioTrack.message("gone"),
        "no decodable audio track found"
    );
    assert_eq!(
        DecodeFailure::NoParameters.message("gone"),
        "track has no audio codec parameters"
    );
    assert_eq!(DecodeFailure::UnknownSampleRate.message("gone"), "unknown sample rate");
    assert_eq!(DecodeFailure::DecoderInit.message("gone"), "decoder init failed: gone");
    assert_eq!(DecodeFailure::Read.message("gone"), "read failed: gone");
    assert_eq!(DecodeFailure::Decode.message("gone"), "decode failed: gone");
    assert_eq!(
        decode_mono(vec![0; 4000]).expect_err("no audio here").get(..14),
        Some("probe failed: ")
    );
}

#[test]
fn preview_slots_average_their_detail_columns() {
    // 25 samples at 75 Hz: one sample per detail column, eleven per preview column.
    let measured = Measurements {
        samples: 25,
        sample_rate: 75,
        preview_peaks: vec![(31, 15), (16, 8), (0, 0)],
        detail_peaks: vec![12; 25],
        bands: (0..25).map(|i| (i as u8, 100, 10 * (i % 3) as u8)).collect(),
    };
    assert_eq!(column_ranges(25, samples_per_preview_column(75)).len(), 3);
    let computed = analyze(&measured);
    assert_eq!(
        computed.preview_mono,
        vec![
            WaveformPreviewColumn { height: 31, whiteness: 0 },
            WaveformPreviewColumn { height: 16, whiteness: 0 },
            WaveformPreviewColumn { height: 0, whiteness: 0 },
        ]
    );
    assert_eq!(
        computed.tiny_preview,
        vec![
            TinyWaveformPreviewColumn { height: 15 },
            TinyWaveformPreviewColumn { height: 8 },
            TinyWaveformPreviewColumn { height: 0 },
        ]
    );
    // The mean of 0 to 21 is 10.5, that of 22 to 24 is 23; there is nothing left for the third.
    assert_eq!(
        computed.color_preview,
        vec![
            WaveformColorPreviewColumn::new(10, 10, 100, 9),
            WaveformColorPreviewColumn::new(23, 23, 100, 10),
            WaveformColorPreviewColumn::new(0, 0, 0, 0),
        ]
    );
    assert_eq!(computed.band3_preview[1].energy_bottom_third_freq, 23);
    assert_eq!(computed.band3_preview[1].energy_mid_third_freq, 100);
    assert_eq!(computed.band3_preview[1].energy_top_third_freq, 10);
    assert_eq!(computed.band3_detail[24].energy_bottom_third_freq, 24);
    assert_eq!(computed.color_detail.len(), 25);
    assert!(computed.color_detail.iter().all(|c| c.green == 7 && c.height == 12));
}

#[test]
fn columns_alone_make_an_input_without_beats_and_cues() {
    let measured = measure(&[0.0, 0.5, -1.0], 75);
    assert_eq!(measured.detail_peaks, vec![0, 16, 31]);
    let computed = analyze(&measured);
    assert_eq!(computed.clone().detail_mono, computed.detail_mono);
    let input = computed.into_input(&Track::default());
    assert!(input.beats.is_empty());
    assert!(input.cues.is_empty());
    assert!(input.cues_extended.is_empty());
    assert_eq!(input.cue_list_type, CueListType::MemoryCues);
    assert_eq!(input.preview_mono, vec![WaveformPreviewColumn { height: 31, whiteness: 0 }]);
    assert_eq!(input.detail_mono.expect("detail").len(), 3);
    assert_eq!(input.color_preview.expect("color preview").len(), 1);
    assert_eq!(input.color_detail.expect("color detail").len(), 3);
    assert_eq!(input.band3_preview.expect("band preview").len(), 1);
    assert_eq!(input.band3_detail.expect("band detail").len(), 3);
}
