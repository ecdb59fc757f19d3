use ostt::config::{
    default_output_format, default_peak_volume_threshold, default_reference_level_db,
    default_true, AudioConfig, VisualizationType,
};
use ostt::devices::{parse_usize, resolve_device, DeviceError};
use ostt::format::{
    encoder_args, extension_for_codec, extension_for_format, ffmpeg_candidate_paths, first_token,
    tokenize, wrapped_line_count, EncodeError, HostOs,
};
use ostt::history::{eviction_candidate, latest_recording_index, RecordingHistory};
use ostt::model_files::{verify_model_files, ModelFilesError};
use ostt::transcription::{TranscriptionModel, TranscriptionProvider};

fn names(list: &[&str]) -> Vec<String> {
    list.iter().map(|s| s.to_string()).collect()
}

#[test]
fn resolve_device_by_index_and_name() {
    let devs = names(&["Built-in Microphone", "USB Audio", "7"]);
    assert_eq!(resolve_device(&devs, "0"), Ok(0));
    assert_eq!(resolve_device(&devs, "1"), Ok(1));
    assert_eq!(resolve_device(&devs, "3"), Err(DeviceError::IndexOutOfRange));
    assert_eq!(resolve_device(&devs, "USB Audio"), Ok(1));
    assert_eq!(resolve_device(&devs, "FireWire"), Err(DeviceError::NotFound));
    // a numeric spec is an index, even when a device is named like one
    assert_eq!(resolve_device(&devs, "2"), Ok(2));
}

#[test]
fn resolve_device_huge_number_is_a_name() {
    // a number that does not fit usize falls back to name matching
    let devs = names(&["99999999999999999999999999"]);
    assert_eq!(resolve_device(&devs, "99999999999999999999999999"), Ok(0));
}

#[test]
fn parse_usize_cases() {
    assert_eq!(parse_usize("0"), Some(0));
    assert_eq!(parse_usize("42"), Some(42));
    assert_eq!(parse_usize(""), None);
    assert_eq!(parse_usize("4x2"), None);
    assert_eq!(parse_usize("-1"), None);
    assert_eq!(parse_usize("18446744073709551615"), Some(usize::MAX));
    assert_eq!(parse_usize("18446744073709551616"), None);
}

#[test]
fn tokenize_splits_on_whitespace() {
    assert_eq!(
        tokenize("mp3 -ab 16k -ar 12000"),
        vec!["mp3", "-ab", "16k", "-ar", "12000"]
    );
    assert_eq!(tokenize("  one\t two  "), vec!["one", "two"]);
    assert_eq!(tokenize("   "), Vec::<String>::new());
    assert_eq!(first_token("  flac -x "), Some("flac"));
    assert_eq!(first_token(" \t "), None);
}

#[test]
fn extension_mapping() {
    assert_eq!(extension_for_codec("libopus"), "ogg");
    assert_eq!(extension_for_codec("libvorbis"), "ogg");
    assert_eq!(extension_for_codec("flac"), "flac");
    assert_eq!(extension_for_codec("aac"), "m4a");
    assert_eq!(extension_for_codec("pcm_s16le"), "wav");
    assert_eq!(extension_for_codec("mp3"), "mp3");
    assert_eq!(extension_for_format("libopus -b:a 24k"), "ogg");
    assert_eq!(extension_for_format(""), "mp3");
}

#[test]
fn encoder_args_layout() {
    let args = encoder_args("mp3 -ab 16k", "/tmp/in.wav", "/tmp/out.mp3").unwrap();
    assert_eq!(
        args,
        vec![
            "-loglevel", "error", "-i", "/tmp/in.wav", "-acodec", "mp3", "-ac", "1", "-y",
            "-ab", "16k", "/tmp/out.mp3",
        ]
    );
    assert_eq!(
        encoder_args("   ", "a", "b"),
        Err(EncodeError::EmptyFormat)
    );
}

#[test]
fn wrapped_line_count_examples() {
    assert_eq!(wrapped_line_count("hello world", 80), 1);
    assert_eq!(wrapped_line_count("hello world", 5), 2);
    assert_eq!(wrapped_line_count("aa bb cc", 5), 2);
    assert_eq!(wrapped_line_count("", 10), 1);
    assert_eq!(wrapped_line_count("anything", 0), 1);
}

#[test]
fn eviction_keeps_room_for_ten() {
    let few: Vec<i64> = vec![5, 3, 4];
    assert_eq!(eviction_candidate(&few), None);

    let full: Vec<i64> = vec![10, 3, 7, 3, 9, 12, 4, 8, 2, 6];
    assert_eq!(eviction_candidate(&full), Some(8));

    let tie: Vec<i64> = vec![5, 2, 9, 2, 7, 8, 6, 4, 3, 5];
    assert_eq!(eviction_candidate(&tie), Some(1), "earliest of the oldest wins");
}

#[test]
fn recording_history_directory() {
    let h = RecordingHistory::new("/home/someone/.local/share/app");
    assert_eq!(h.history_dir, "/home/someone/.local/share/app/recording_history");
}

#[test]
fn model_files_prefer_quantized() {
    let dir = names(&[
        "encoder.int8.onnx",
        "encoder.onnx",
        "decoder.onnx",
        "joiner-model.int8.onnx",
        "vocab.txt",
        "readme.md",
    ]);
    let m = verify_model_files(&dir).unwrap();
    assert_eq!(m.encoder, "encoder.int8.onnx");
    assert_eq!(m.decoder, "decoder.onnx");
    assert_eq!(m.joiner, "joiner-model.int8.onnx");
    assert_eq!(m.tokens, "vocab.txt");
}

#[test]
fn model_files_report_first_missing_part() {
    let empty = names(&[]);
    assert_eq!(verify_model_files(&empty), Err(ModelFilesError::EncoderNotFound));

    let enc_only = names(&["encoder.onnx"]);
    assert_eq!(verify_model_files(&enc_only), Err(ModelFilesError::DecoderNotFound));

    let no_joiner = names(&["encoder.onnx", "decoder.onnx"]);
    assert_eq!(verify_model_files(&no_joiner), Err(ModelFilesError::JoinerNotFound));

    let no_tokens = names(&["encoder.onnx", "decoder.onnx", "joiner.onnx"]);
    assert_eq!(verify_model_files(&no_tokens), Err(ModelFilesError::TokensNotFound));
}

#[test]
fn provider_and_model_catalogue() {
    assert_eq!(TranscriptionProvider::from_id("openai"), Some(TranscriptionProvider::OpenAI));
    assert_eq!(TranscriptionProvider::from_id("nope"), None);
    assert_eq!(TranscriptionProvider::OpenAI.id(), "openai");
    assert_eq!(TranscriptionProvider::Deepgram.name(), "Deepgram");
    assert_eq!(TranscriptionProvider::all().len(), 5);

    let m = TranscriptionModel::from_id("nova-3").unwrap();
    assert_eq!(m, TranscriptionModel::DeepgramNova3);
    assert_eq!(m.provider(), TranscriptionProvider::Deepgram);
    assert_eq!(m.endpoint(), "https://api.deepgram.com/v1/listen");
    assert_eq!(m.api_model_name(), "nova-3");
    assert_eq!(TranscriptionModel::from_id("whisper").unwrap().api_model_name(), "whisper-1");
    assert_eq!(TranscriptionModel::from_id("unknown"), None);

    assert_eq!(TranscriptionModel::all().len(), 7);
    assert_eq!(TranscriptionModel::available_ids().len(), 7);
    assert_eq!(
        TranscriptionModel::models_for_provider(&TranscriptionProvider::OpenAI).len(),
        3
    );
    assert_eq!(
        TranscriptionModel::models_for_provider(&TranscriptionProvider::Groq).len(),
        0
    );
    assert!(TranscriptionModel::Whisper.description().contains("legacy"));
}

#[test]
fn config_defaults() {
    assert_eq!(default_output_format(), "mp3 -ab 16k -ar 12000");
    assert_eq!(default_peak_volume_threshold(), 90);
    assert_eq!(default_reference_level_db(), -20);
    assert!(default_true());

    let audio = AudioConfig::default();
    assert_eq!(audio.device, "default");
    assert_eq!(audio.sample_rate, 16000);
    assert_eq!(audio.visualization, VisualizationType::Spectrum);
    assert_eq!(audio.visualization.as_str(), "spectrum");
    assert_eq!(VisualizationType::default(), VisualizationType::Spectrum);
    assert_eq!(VisualizationType::Waveform.as_str(), "waveform");
}

#[test]
fn latest_recording_selection() {
    assert_eq!(latest_recording_index(&Vec::new()), None);
    assert_eq!(latest_recording_index(&vec![5, 9, 3]), Some(1));
    // a tie goes to the later entry, as a stable descending sort would
    assert_eq!(latest_recording_index(&vec![5, 9, 9, 3]), Some(2));
}

#[test]
fn ffmpeg_candidates_per_platform() {
    assert_eq!(
        ffmpeg_candidate_paths(HostOs::Linux),
        vec!["/usr/bin/ffmpeg", "/usr/local/bin/ffmpeg", "/snap/bin/ffmpeg"]
    );
    assert_eq!(ffmpeg_candidate_paths(HostOs::MacOs)[0], "/opt/homebrew/bin/ffmpeg");
    assert_eq!(ffmpeg_candidate_paths(HostOs::Windows).len(), 3);
    assert!(ffmpeg_candidate_paths(HostOs::Other).is_empty());
}
