use ostt::spectrum::{prepare_frame, spectrum_bins, SpectrumAnalyzer, FFT_SIZE};
use rustfft::{num_complex::Complex, FftPlanner};

/// Runs the real forward FFT over a prepared frame and clamps the result
/// into the integer range the analyzer expects, as the recording loop does.
fn forward_fft(frame: &[i64]) -> Vec<(i64, i64)> {
    let mut buffer: Vec<Complex<f32>> =
        frame.iter().map(|&x| Complex::new(x as f32, 0.0)).collect();
    let mut planner = FftPlanner::<f32>::new();
    let fft = planner.plan_fft_forward(buffer.len());
    fft.process(&mut buffer);
    buffer
        .iter()
        .map(|c| {
            (
                (c.re as i64).clamp(-0x8000000, 0x8000000),
                (c.im as i64).clamp(-0x8000000, 0x8000000),
            )
        })
        .collect()
}

fn sine_16k_1khz(samples: usize, amplitude: f64) -> Vec<i16> {
    (0..samples)
        .map(|i| {
            let t = i as f64 / 16000.0;
            (amplitude * (2.0 * std::f64::consts::PI * 1000.0 * t).sin()) as i16
        })
        .collect()
}

#[test]
fn prepared_frame_is_padded_to_transform_length() {
    let samples: Vec<i16> = vec![1000; 100];
    let frame = prepare_frame(&samples);
    assert_eq!(frame.len(), FFT_SIZE);
    assert!(frame[150..].iter().all(|&x| x == 0));
}

#[test]
fn silence_produces_all_zero_bins() {
    let silence: Vec<i16> = vec![0; 4000];
    let frame = prepare_frame(&silence);
    assert!(frame.iter().all(|&x| x == 0));

    let fft = forward_fft(&frame);
    assert!(fft.iter().all(|&(re, im)| re == 0 && im == 0));

    let bins = spectrum_bins(&fft, 16000, 60, -20);
    assert_eq!(bins.len(), 60);
    assert!(bins.iter().all(|&b| b == 0));

    let mut analyzer = SpectrumAnalyzer::new(60);
    analyzer.update(&fft, 16000, -20);
    assert!(analyzer.data().iter().all(|&b| b == 0));
}

#[test]
fn tone_shows_up_in_the_band() {
    let tone = sine_16k_1khz(4000, 16000.0);
    let frame = prepare_frame(&tone);
    let fft = forward_fft(&frame);
    let bins = spectrum_bins(&fft, 16000, 40, -20);
    assert_eq!(bins.len(), 40);
    assert!(bins.iter().all(|&b| b <= 100));
    assert!(*bins.iter().max().unwrap() > 0, "a loud in-band tone must register");
}

#[test]
fn bin_count_follows_resize() {
    let tone = sine_16k_1khz(4000, 16000.0);
    let frame = prepare_frame(&tone);
    let fft = forward_fft(&frame);

    let mut analyzer = SpectrumAnalyzer::new(80);
    analyzer.update(&fft, 16000, -20);
    assert_eq!(analyzer.data().len(), 80);

    // terminal shrinks mid-recording: the next frame must be 40 wide
    analyzer.resize(40, Some(&fft), 16000, -20);
    assert_eq!(analyzer.data().len(), 40);

    analyzer.resize(120, None, 16000, -20);
    assert_eq!(analyzer.data().len(), 120);
    assert!(analyzer.data().iter().all(|&b| b == 0));
}

#[test]
fn update_averages_with_previous_frame() {
    let tone = sine_16k_1khz(4000, 16000.0);
    let frame = prepare_frame(&tone);
    let fft = forward_fft(&frame);

    let fresh = spectrum_bins(&fft, 16000, 40, -20);
    let mut analyzer = SpectrumAnalyzer::new(40);
    analyzer.update(&fft, 16000, -20);
    for i in 0..40 {
        assert_eq!(analyzer.data()[i], fresh[i] / 2);
    }
}

#[test]
fn resize_mid_recording_to_forty_columns() {
    // terminal resize 80 -> 40: both displays must follow the new width
    let tone = sine_16k_1khz(32000, 12000.0);
    let frame = prepare_frame(&tone);
    let fft = forward_fft(&frame);

    let mut analyzer = SpectrumAnalyzer::new(80);
    analyzer.update(&fft, 16000, -20);
    analyzer.resize(40, Some(&fft), 16000, -20);
    assert_eq!(analyzer.data().len(), 40);

    let mut history: Vec<u64> = vec![7; 80];
    ostt::waveform::resize_waveform(&mut history, 40);
    assert_eq!(history.len(), 40);
}

#[test]
fn exact_values_for_synthetic_frames() {
    // a uniform magnitude well above the reference saturates every column
    let flat: Vec<(i64, i64)> = vec![(1000000, 0); FFT_SIZE];
    let bins = spectrum_bins(&flat, 16000, 10, -20);
    assert_eq!(bins, vec![100; 10]);

    // a single 1 kHz transform bin of magnitude 50000 (a 3-4-5 triple)
    // lands in display column 25 of 40 and reads 70 percent
    let mut single: Vec<(i64, i64)> = vec![(0, 0); FFT_SIZE];
    single[128] = (30000, 40000);
    let bins = spectrum_bins(&single, 16000, 40, -20);
    for (i, &b) in bins.iter().enumerate() {
        assert_eq!(b, if i == 25 { 70 } else { 0 });
    }
}
