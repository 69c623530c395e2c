use fm_synth::analyze::{frame_starts, MIN_SAMPLES};
use fm_synth::raster;
use fm_synth::spectrogram::spectrogram_png;
use fm_synth::raster::{fill, hline, put, rect, vline, H, W};
use fm_synth::wav::check_sample_rate;
use fm_synth::{
    category_hints_for_id, check_wav_header, pcm_data_bytes, pick_nfft, stft_layout,
    AnalyzeWriteReport, BatchAnalyzeResult, ChorusInterval, Error, FilterType, FreqMode,
    NoiseColor, PcmEncoding, PcmFormat, SegmentKind, Vowel, WavSettings, Waveform,
};

fn invalid_message(e: Error) -> String {
    match e {
        Error::InvalidParam { message } => message,
        other => panic!("unexpected {}", other.message()),
    }
}

#[test]
fn wav_settings_accept_16_and_24_bit() {
    let s = WavSettings::new(44_100, 16).unwrap();
    assert_eq!(s.sample_rate, 44_100);
    assert_eq!(s.bit_depth, 16);
    assert_eq!(WavSettings::new(8_000, 24).unwrap().bit_depth, 24);
    assert_eq!(WavSettings::new(192_000, 24).unwrap().sample_rate, 192_000);
}

#[test]
fn wav_settings_reject_bad_depth_first() {
    assert_eq!(
        invalid_message(WavSettings::new(1, 8).unwrap_err()),
        "bit_depth must be 16 or 24, got 8"
    );
    assert_eq!(
        invalid_message(WavSettings::new(7_999, 16).unwrap_err()),
        "sample_rate must be 8000-192000, got 7999"
    );
    assert_eq!(
        invalid_message(WavSettings::new(192_001, 24).unwrap_err()),
        "sample_rate must be 8000-192000, got 192001"
    );
    assert!(check_sample_rate(48_000).is_ok());
}

#[test]
fn pcm_bytes() {
    assert_eq!(pcm_data_bytes(1000, 16, 1), 2000);
    assert_eq!(pcm_data_bytes(1000, 24, 2), 6000);
    assert_eq!(pcm_data_bytes(0, 24, 1), 0);
    assert_eq!(pcm_data_bytes(10, 4, 1), 0);
}

#[test]
fn wav_header_checks() {
    assert_eq!(
        check_wav_header(44_100, 1, PcmFormat::Int, 16).unwrap(),
        PcmEncoding::Int16
    );
    assert_eq!(
        check_wav_header(44_100, 2, PcmFormat::Int, 24).unwrap(),
        PcmEncoding::Int24
    );
    assert_eq!(
        check_wav_header(44_100, 2, PcmFormat::Int, 32).unwrap(),
        PcmEncoding::Int32
    );
    assert_eq!(
        check_wav_header(44_100, 2, PcmFormat::Float, 32).unwrap(),
        PcmEncoding::Float32
    );
    assert_eq!(
        invalid_message(check_wav_header(100, 0, PcmFormat::Int, 8).unwrap_err()),
        "sample_rate must be 8000-192000, got 100"
    );
    assert_eq!(
        invalid_message(check_wav_header(44_100, 0, PcmFormat::Int, 8).unwrap_err()),
        "wav has zero channels"
    );
    assert_eq!(
        invalid_message(check_wav_header(44_100, 1, PcmFormat::Int, 8).unwrap_err()),
        "unsupported wav format Int 8-bit"
    );
    assert_eq!(
        invalid_message(check_wav_header(44_100, 1, PcmFormat::Float, 64).unwrap_err()),
        "unsupported wav format Float 64-bit"
    );
}

#[test]
fn too_short_is_error() {
    let err = stft_layout(10, 44_100).unwrap_err();
    match err {
        Error::InvalidParam { message } => assert!(message.contains("256")),
        other => panic!("unexpected {}", other.message()),
    }
}

#[test]
fn stft_layout_sizes() {
    assert_eq!(stft_layout(MIN_SAMPLES, 44_100).unwrap(), (256, 64));
    assert_eq!(stft_layout(11_025, 22_050).unwrap(), (4096, 1024));
    assert_eq!(
        invalid_message(stft_layout(10, 44_100).unwrap_err()),
        "analyze needs at least 256 samples, got 10"
    );
    assert_eq!(
        invalid_message(stft_layout(1000, 4_000).unwrap_err()),
        "sample_rate must be 8000-192000, got 4000"
    );
    assert_eq!(pick_nfft(8192), 4096);
    assert_eq!(pick_nfft(8191), 2048);
    assert_eq!(pick_nfft(4096), 2048);
    assert_eq!(pick_nfft(2048), 1024);
    assert_eq!(pick_nfft(1024), 512);
    assert_eq!(pick_nfft(1023), 256);
    assert_eq!(pick_nfft(0), 256);
}

#[test]
fn category_hints_by_bank() {
    assert_eq!(
        category_hints_for_id("bd-808-boom"),
        vec!["kick one-shot", "often strong 20-80 Hz", "often pitch drop"]
    );
    assert_eq!(
        category_hints_for_id("reese-mid"),
        vec!["bass", "low/mid energy"]
    );
    assert_eq!(
        category_hints_for_id("stab-pluck"),
        vec!["lead / held tone", "energy should remain near t=0.85"]
    );
    assert_eq!(
        category_hints_for_id("zap"),
        vec!["fx / sweep / noise", "pitch or centroid often moves"]
    );
    assert_eq!(
        category_hints_for_id("cp-house"),
        vec!["short percussion", "little sub unless thud/foley"]
    );
    assert_eq!(
        category_hints_for_id("ep-wurli"),
        vec!["electric piano", "integer tines 2x/3x, not a bell"]
    );
    assert_eq!(
        category_hints_for_id("pl-koto")[1],
        "fast decay, not a 16s pad"
    );
    assert_eq!(category_hints_for_id("dr-x")[0], "drone hold ~16s");
    assert_eq!(category_hints_for_id("pf-x")[0], "fresh pad hold");
    assert_eq!(category_hints_for_id("ps-x")[0], "sparkle pad hold");
    assert_eq!(category_hints_for_id("sd-x")[0], "snare one-shot");
    assert!(category_hints_for_id("custom").is_empty());
}

fn report(id: &str) -> AnalyzeWriteReport {
    AnalyzeWriteReport {
        preset_id: id.to_string(),
        png: format!("dist/{id}.png"),
        json: format!("dist/{id}.json"),
        wav: None,
    }
}

#[test]
fn batch_result_fails_when_any_preset_failed() {
    let ok = BatchAnalyzeResult {
        written: vec![report("a"), report("b")],
        failures: vec![],
    };
    let written = ok.into_result().unwrap();
    assert_eq!(written.len(), 2);
    assert_eq!(written[1].preset_id, "b");
    let bad = BatchAnalyzeResult {
        written: vec![report("a")],
        failures: vec![("zap".to_string(), "boom".to_string())],
    };
    match bad.into_result().unwrap_err() {
        Error::BatchFailed { failures } => {
            assert_eq!(failures, vec![("zap".to_string(), "boom".to_string())])
        }
        other => panic!("unexpected {}", other.message()),
    }
}

#[test]
fn patch_enum_defaults() {
    assert_eq!(Waveform::default(), Waveform::Sine);
    assert_eq!(FreqMode::default(), FreqMode::Ratio);
    assert_eq!(FilterType::default(), FilterType::Lowpass);
    assert_eq!(NoiseColor::default(), NoiseColor::White);
    assert_eq!(ChorusInterval::default(), ChorusInterval::Unison);
    assert_eq!(Vowel::default(), Vowel::A);
    assert_eq!(SegmentKind::default(), SegmentKind::Vowel);
}

fn canvas() -> Vec<u8> {
    vec![0u8; (W * H * 3) as usize]
}

fn px(c: &[u8], x: u32, y: u32) -> [u8; 3] {
    let i = ((y * W + x) * 3) as usize;
    [c[i], c[i + 1], c[i + 2]]
}

const RED: [u8; 3] = [255, 0, 0];

fn painted(c: &[u8]) -> Vec<(u32, u32)> {
    let mut out = Vec::new();
    for y in 0..H {
        for x in 0..W {
            if px(c, x, y) == RED {
                out.push((x, y));
            }
        }
    }
    out
}

#[test]
fn fill_sets_every_pixel_and_leaves_the_tail() {
    let mut c = vec![9u8; 8];
    fill(&mut c, [1, 2, 3]);
    assert_eq!(c, vec![1, 2, 3, 1, 2, 3, 9, 9]);
    let mut big = canvas();
    fill(&mut big, [7, 8, 9]);
    assert_eq!(px(&big, W - 1, H - 1), [7, 8, 9]);
}

#[test]
fn put_ignores_pixels_off_the_canvas() {
    let mut c = canvas();
    put(&mut c, W, 0, RED);
    put(&mut c, 0, H, RED);
    assert!(painted(&c).is_empty());
    put(&mut c, 3, 2, RED);
    assert_eq!(painted(&c), vec![(3, 2)]);
}

#[test]
fn rect_paints_the_box_clipped_to_the_canvas() {
    let mut c = canvas();
    rect(&mut c, W - 2, 1, 5, 2, RED);
    assert_eq!(painted(&c), vec![(W - 2, 1), (W - 1, 1), (W - 2, 2), (W - 1, 2)]);
    let mut c = canvas();
    rect(&mut c, 5, 5, 0, 3, RED);
    assert!(painted(&c).is_empty());
}

#[test]
fn axis_lines_include_both_ends() {
    let mut c = canvas();
    hline(&mut c, 7, 4, 3, RED);
    assert_eq!(painted(&c), vec![(4, 3), (5, 3), (6, 3), (7, 3)]);
    let mut c = canvas();
    vline(&mut c, 2, 9, 9, RED);
    assert_eq!(painted(&c), vec![(2, 9)]);
}

#[test]
fn bresenham_line_matches_known_pixels() {
    let mut c = canvas();
    raster::line(&mut c, 0, 0, 4, 2, RED);
    assert_eq!(painted(&c), vec![(0, 0), (1, 1), (2, 1), (3, 2), (4, 2)]);
    let mut c = canvas();
    raster::line(&mut c, 3, 3, 0, 0, RED);
    assert_eq!(painted(&c), vec![(0, 0), (1, 1), (2, 2), (3, 3)]);
}

#[test]
fn line_along_a_row_is_hline() {
    let mut a = canvas();
    raster::line(&mut a, 9, 5, 2, 5, RED);
    let mut b = canvas();
    hline(&mut b, 9, 2, 5, RED);
    assert_eq!(a, b);
    let mut a = canvas();
    raster::line(&mut a, 4, 1, 4, 6, RED);
    let mut b = canvas();
    vline(&mut b, 4, 1, 6, RED);
    assert_eq!(a, b);
}

#[test]
fn line_ends_are_painted_and_stays_in_box() {
    let mut c = canvas();
    raster::line(&mut c, 10, 40, 30, 5, RED);
    let pts = painted(&c);
    assert!(pts.contains(&(10, 40)) && pts.contains(&(30, 5)));
    assert!(pts.iter().all(|&(x, y)| (10..=30).contains(&x) && (5..=40).contains(&y)));
}

#[test]
fn written_settings_are_readable() {
    for sr in [8_000u32, 22_050, 44_100, 192_000] {
        for bd in [16u16, 24] {
            let s = WavSettings::new(sr, bd).unwrap();
            let enc = check_wav_header(s.sample_rate, 1, PcmFormat::Int, s.bit_depth).unwrap();
            assert_eq!(enc, if bd == 16 { PcmEncoding::Int16 } else { PcmEncoding::Int24 });
        }
    }
}

#[test]
fn fft_fits_the_buffer() {
    for n in [256usize, 511, 512, 1000, 1024, 5000, 8192, 100_000] {
        let (nfft, hop) = stft_layout(n, 44_100).unwrap();
        assert!(nfft <= n);
        if n >= 512 {
            assert!(2 * nfft <= n);
        }
        assert_eq!(hop, nfft / 4);
    }
}

#[test]
fn waveform_columns_cover_the_buffer() {
    assert_eq!(raster::column_samples(0, 4, 10), (0, 2));
    assert_eq!(raster::column_samples(3, 4, 10), (7, 10));
    assert_eq!(raster::column_samples(5, 8, 3), (1, 2));
    assert_eq!(raster::column_samples(7, 8, 3), (2, 3));
    for w in [1u32, 3, 1000] {
        for n in [1usize, 2, 999, 5000] {
            for x in 0..w {
                let (lo, hi) = raster::column_samples(x, w, n);
                assert!(lo < hi && hi <= n);
            }
        }
    }
}

#[test]
fn stft_frames_fit_the_buffer() {
    assert_eq!(frame_starts(1000, 256, 64), vec![0, 64, 128, 192, 256, 320, 384, 448, 512, 576, 640, 704]);
    assert_eq!(frame_starts(256, 256, 64), vec![0]);
    assert!(frame_starts(255, 256, 64).is_empty());
    for len in [0usize, 300, 4096, 10_000] {
        for start in frame_starts(len, 512, 128) {
            assert!(start + 512 <= len);
        }
    }
}

#[test]
fn spectrogram_canvas_encodes_as_png() {
    let mut c = vec![0u8; (W * H * 3) as usize];
    fill(&mut c, [12, 14, 20]);
    let bytes = spectrogram_png(&c).unwrap();
    assert_eq!(&bytes[..8], &[137, 80, 78, 71, 13, 10, 26, 10]);
    assert!(bytes.len() < c.len());
    match spectrogram_png(&c[..10]).unwrap_err() {
        Error::InvalidParam { message } => assert!(message.starts_with("png encode: ")),
        other => panic!("unexpected {}", other.message()),
    }
}
