use ostt::capture::{downmix_frames, CaptureSession};
use ostt::meter::{loudness_from_mean_square, VolumeMeter};
use ostt::session::{
    decide_tick, interpret_key, KeyPress, RecordingCommand, SessionClock, TickAction,
};
use ostt::waveform::{resize_waveform, update_waveform};

fn sine_16k_1khz(seconds: f64, amplitude: f64) -> Vec<i16> {
    let n = (16000.0 * seconds) as usize;
    let mut out = Vec::with_capacity(n);
    for i in 0..n {
        let t = i as f64 / 16000.0;
        let v = amplitude * (2.0 * std::f64::consts::PI * 1000.0 * t).sin();
        out.push(v as i16);
    }
    out
}

#[test]
fn downmix_equal_channels_is_identity() {
    // a frame of agreeing channels downmixes to that very value
    for channels in 1..6usize {
        for &v in &[0i16, 1, -1, 12345, -12345, i16::MAX, i16::MIN] {
            let data: Vec<i16> = vec![v; channels];
            let mono = downmix_frames(&data, channels);
            assert_eq!(mono, vec![v]);
        }
    }
}

#[test]
fn downmix_stereo_truncates_toward_zero() {
    let data: Vec<i16> = vec![100, 101, 100, 99, -3, -4, -100, -101, 7, -4];
    let mono = downmix_frames(&data, 2);
    assert_eq!(mono, vec![100, 99, -3, -100, 1]);
}

#[test]
fn downmix_drops_partial_frame() {
    let data: Vec<i16> = vec![10, 20, 30, 40, 50];
    let mono = downmix_frames(&data, 2);
    assert_eq!(mono, vec![15, 35]);
}

#[test]
fn pause_stops_accumulation_and_resume_restarts() {
    let mut session = CaptureSession::new(16000);
    session.negotiate(16000, 1);

    let chunk: Vec<i16> = vec![5; 256];
    session.ingest(&chunk);
    assert_eq!(session.sample_count(), 256);

    session.pause();
    assert!(session.is_paused());
    session.ingest(&chunk);
    session.ingest(&chunk);
    assert_eq!(session.sample_count(), 256);

    session.resume();
    assert!(!session.is_paused());
    session.ingest(&chunk);
    assert_eq!(session.sample_count(), 512);

    session.toggle_pause();
    assert!(session.is_paused());
    session.ingest(&chunk);
    assert_eq!(session.sample_count(), 512);
}

#[test]
fn negotiate_reports_rate_mismatch() {
    let mut session = CaptureSession::new(16000);
    assert!(!session.negotiate(16000, 2));
    assert!(session.negotiate(48000, 2));
    assert_eq!(session.sample_rate(), 48000);
    assert_eq!(session.channel_count(), 2);
}

#[test]
fn stereo_capture_downmixes_per_frame() {
    let mut session = CaptureSession::new(16000);
    session.negotiate(16000, 2);
    session.ingest(&vec![100, 101, 100, 99, -3, -4]);
    assert_eq!(session.snapshot(), vec![100, 99, -3]);
}

#[test]
fn take_samples_drains_the_buffer() {
    let mut session = CaptureSession::new(16000);
    session.negotiate(16000, 1);
    session.ingest(&vec![1, 2, 3]);
    let taken = session.take_samples();
    assert_eq!(taken, vec![1, 2, 3]);
    assert_eq!(session.sample_count(), 0);
}

#[test]
fn fake_device_two_seconds_yields_expected_count() {
    // a synthetic 1 kHz tone captured at 16 kHz mono for 2 seconds
    let tone = sine_16k_1khz(2.0, 12000.0);
    let mut session = CaptureSession::new(16000);
    session.negotiate(16000, 1);
    for chunk in tone.chunks(512) {
        session.ingest(&chunk.to_vec());
    }
    assert_eq!(session.sample_count(), 32000);

    let samples = session.take_samples();
    let mut meter = VolumeMeter::new();
    let v1 = meter.update(&samples, 16000, -20, 0);
    let v2 = meter.update(&samples, 16000, -20, 50);
    assert!(v1 > 4);
    assert_eq!(v1, v2, "the reading over a fixed window is stable");
}

#[test]
fn meter_reads_floor_on_silence() {
    let silence: Vec<i16> = vec![0; 800];
    for &reference in &[-20i8, -6, 0, 40, -100] {
        let mut meter = VolumeMeter::new();
        let v = meter.update(&silence, 16000, reference, 0);
        assert_eq!(v, 4, "silence must read the floor, never 0");
    }
}

#[test]
fn meter_reads_zero_before_any_samples() {
    let mut meter = VolumeMeter::new();
    assert_eq!(meter.update(&Vec::new(), 16000, -20, 0), 0);
}

#[test]
fn meter_exact_value_for_known_window() {
    // mean square 1024^2 is -30.103 dBFS: at the -20 dBFS reference the
    // 40 dB window puts it at 74 percent
    let window: Vec<i16> = vec![1024; 800];
    let mut meter = VolumeMeter::new();
    assert_eq!(meter.update(&window, 16000, -20, 0), 74);

    let full: Vec<i16> = vec![i16::MAX; 800];
    let mut meter2 = VolumeMeter::new();
    assert_eq!(meter2.update(&full, 16000, -20, 0), 100);
}

#[test]
fn meter_is_monotone_in_level() {
    let mut last = 0u8;
    for &amp in &[0i16, 16, 64, 256, 1024, 4096, 16384, 32767] {
        let window: Vec<i16> = vec![amp; 800];
        let mut meter = VolumeMeter::new();
        let v = meter.update(&window, 16000, -20, 0);
        assert!(v >= last, "louder window must not read lower");
        last = v;
    }
}

#[test]
fn meter_loudness_direct_bounds() {
    assert_eq!(loudness_from_mean_square(0, -20), 4);
    assert!(loudness_from_mean_square(u64::MAX, -20) <= 100);
    assert!(loudness_from_mean_square(1, 127) >= 4);
}

#[test]
fn meter_peak_hold_decays_after_three_seconds() {
    let loud: Vec<i16> = vec![8192; 800];
    let quiet: Vec<i16> = vec![64; 800];
    let mut meter = VolumeMeter::new();
    let high = meter.update(&loud, 16000, -20, 0);
    assert_eq!(meter.peak(), high);
    let low = meter.update(&quiet, 16000, -20, 1000);
    assert!(low < high);
    assert_eq!(meter.peak(), high, "the peak holds inside three seconds");
    meter.update(&quiet, 16000, -20, 3001);
    assert_eq!(meter.peak(), low, "the peak resets after three seconds");
}

#[test]
fn waveform_never_exceeds_width() {
    let mut history: Vec<u64> = Vec::new();
    for i in 0..200u32 {
        update_waveform(&mut history, (i % 100) as u8, 80);
        assert!(history.len() <= 80);
    }
    assert_eq!(history.len(), 80);
    assert_eq!(*history.last().unwrap(), 99);
}

#[test]
fn waveform_resize_pads_and_trims_at_front() {
    let mut history: Vec<u64> = vec![1, 2, 3, 4, 5];
    resize_waveform(&mut history, 8);
    assert_eq!(history, vec![0, 0, 0, 1, 2, 3, 4, 5]);
    resize_waveform(&mut history, 3);
    assert_eq!(history, vec![3, 4, 5]);
    resize_waveform(&mut history, 3);
    assert_eq!(history, vec![3, 4, 5]);
}

#[test]
fn keys_map_to_commands() {
    assert_eq!(interpret_key(KeyPress::Enter, false), RecordingCommand::Transcribe);
    assert_eq!(interpret_key(KeyPress::Escape, false), RecordingCommand::Cancel);
    assert_eq!(interpret_key(KeyPress::Char('q'), false), RecordingCommand::Cancel);
    assert_eq!(interpret_key(KeyPress::Char('c'), true), RecordingCommand::Cancel);
    assert_eq!(interpret_key(KeyPress::Char('c'), false), RecordingCommand::Continue);
    assert_eq!(interpret_key(KeyPress::Char(' '), false), RecordingCommand::TogglePause);
    assert_eq!(interpret_key(KeyPress::Char('x'), false), RecordingCommand::Continue);
    assert_eq!(interpret_key(KeyPress::Other, false), RecordingCommand::Continue);
}

#[test]
fn external_trigger_wins_over_input() {
    assert_eq!(decide_tick(true, RecordingCommand::Cancel), TickAction::FinishTranscribe);
    assert_eq!(decide_tick(false, RecordingCommand::Continue), TickAction::Refresh);
    assert_eq!(decide_tick(false, RecordingCommand::Transcribe), TickAction::FinishTranscribe);
    assert_eq!(decide_tick(false, RecordingCommand::Cancel), TickAction::FinishCancel);
    assert_eq!(decide_tick(false, RecordingCommand::TogglePause), TickAction::FlipPause);
}

#[test]
fn session_clock_excludes_paused_time() {
    let mut clock = SessionClock::new(1000);
    assert_eq!(clock.recording_duration_ms(3000), 2000);

    clock.toggle_pause(3000);
    assert!(clock.is_paused());
    assert_eq!(clock.recording_duration_ms(5000), 2000, "paused time does not count");

    clock.toggle_pause(6000);
    assert!(!clock.is_paused());
    assert_eq!(clock.recording_duration_ms(7000), 3000);
}

#[test]
fn session_clock_sampling_cadence() {
    let mut clock = SessionClock::new(0);
    assert!(!clock.sample_due(30, 50));
    assert!(clock.sample_due(50, 50));
    clock.mark_sampled(50);
    assert!(!clock.sample_due(80, 50));
    assert!(clock.sample_due(100, 50));
    clock.toggle_pause(100);
    assert!(!clock.sample_due(500, 50), "no sampling while paused");
}

#[test]
fn fixed_point_log_and_root() {
    // 2^20 has an exact Q16 binary logarithm of 20
    assert_eq!(ostt::dsp::log2_q16_exec(1 << 20), 20 * 65536);
    assert_eq!(ostt::dsp::log2_q16_exec(1), 0);
    // the fractional part of log2(3) in Q16, rounded down, is 38335
    assert_eq!(ostt::dsp::log2_q16_exec(3), 65536 + 38336);

    assert_eq!(ostt::dsp::isqrt_u64(0), 0);
    assert_eq!(ostt::dsp::isqrt_u64(15), 3);
    assert_eq!(ostt::dsp::isqrt_u64(16), 4);
    assert_eq!(ostt::dsp::isqrt_u64(u64::MAX), 0xFFFF_FFFF);
}
