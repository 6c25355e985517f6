use pheme_va::audio::{check_shape, AudioShapeError, SpeechGateDecision, TARGET_SAMPLE_RATE};
use pheme_va::dictionary::DictionaryHints;
use pheme_va::engine::{
    conclude, examine, gate_status, recover, should_clean, should_retry, skipped_cleanup_status,
    CleanupStatus, LlmTextCleaner, RuleBasedFormatter, TranscriptionStatus,
};
use pheme_va::metrics::{
    category_for, resource_metrics, stage_source, unit_text, Measurement, MetricScope, MetricUnit,
    MetricsConfig, ResourceCapabilities, SeriesKey, Stage,
};
use pheme_va::server::{
    analysis_transcript, header_bool, header_string, map_engine_error, new_run_id, readiness,
    request_metrics_config, transcribe_rejection,
};
use pheme_va::transcript::TranscriptGuardDecision;
use pheme_va::whisper::{decode_threads, gpu_fallback_message, WhisperConfig};
use pheme_va::zipformer::{
    classify_input, feature_frame_count, mask_flags, output_frames, output_shape_ok, valid_frames,
    InputKind, TokenVocabulary, ZipformerConfig, ZipformerError,
};

#[test]
fn runs_audio_through_gate_stt_and_cleanup() {
    assert_eq!(gate_status(SpeechGateDecision::SpeechDetected), None);
    let guarded = examine("  collision   at west gate  ", None);
    assert_eq!(guarded.text, "collision at west gate");
    assert!(!should_retry(&guarded, true));
    assert!(should_clean(guarded.decision, true, true));
    let cleaned = RuleBasedFormatter.clean(&guarded.text);
    let (status, text, cleanup) = conclude(&guarded, true, Some(Ok(cleaned)));
    assert_eq!(status, TranscriptionStatus::Speech);
    assert_eq!(text, "Collision at west gate");
    assert_eq!(cleanup, CleanupStatus::Applied);
}

#[test]
fn retries_a_dictionary_echo_without_the_prompt() {
    let hints = DictionaryHints::with_terms(vec![
        "Electron".to_owned(),
        "renderer".to_owned(),
        "west entrance".to_owned(),
    ]);
    let prompt = hints.prompt().unwrap();
    let first = examine("Electron, renderer, west entrance", Some(&prompt));
    assert_eq!(first.decision, TranscriptGuardDecision::DictionaryPromptEcho);
    assert!(should_retry(&first, true));
    assert!(!should_retry(&first, false));
    let (kept, retried) = recover(first, Some("Electron renderer"));
    assert!(retried);
    let (status, text, _) = conclude(&kept, true, None);
    assert_eq!(status, TranscriptionStatus::Speech);
    assert_eq!(text, "Electron renderer");
}

#[test]
fn failed_or_echoing_retries_keep_the_first_transcript() {
    let prompt = DictionaryHints::with_terms(vec!["alpha".to_owned(), "beta".to_owned(), "gamma".to_owned()])
        .prompt()
        .unwrap();
    let first = examine("alpha, beta, gamma", Some(&prompt));
    let (kept, retried) = recover(first, None);
    assert!(!retried);
    assert_eq!(kept.decision, TranscriptGuardDecision::DictionaryPromptEcho);
    let (status, text, cleanup) = conclude(&kept, true, None);
    assert_eq!(status, TranscriptionStatus::DictionaryPromptEcho);
    assert!(text.is_empty());
    assert_eq!(cleanup, CleanupStatus::NotConfigured);
}

#[test]
fn routes_cleanup_through_the_swappable_language_model() {
    let cleaner = LlmTextCleaner::new("fake-llm");
    let prompt = cleaner.prompt("messy transcript");
    assert!(prompt.contains("<transcript>"));
    assert!(prompt.ends_with("\n\n<transcript>\nmessy transcript\n</transcript>"));
    let custom = cleaner.with_instruction("Summarize.".to_owned());
    assert_eq!(custom.prompt("x"), "Summarize.\n\n<transcript>\nx\n</transcript>");
    assert_eq!(custom.model, "fake-llm");
    let guarded = examine("messy transcript", None);
    let (_, text, cleanup) = conclude(&guarded, true, Some(Ok("A cleaned transcript.".to_owned())));
    assert_eq!(text, "A cleaned transcript.");
    assert_eq!(cleanup, CleanupStatus::Applied);
    let (_, text, cleanup) = conclude(&guarded, true, Some(Ok("   ".to_owned())));
    assert_eq!(text, "messy transcript");
    assert_eq!(cleanup, CleanupStatus::FallbackToRaw);
    let (_, text, cleanup) = conclude(&guarded, false, None);
    assert_eq!(text, "messy transcript");
    assert_eq!(cleanup, CleanupStatus::Disabled);
}

#[test]
fn never_calls_stt_for_silence() {
    assert_eq!(gate_status(SpeechGateDecision::Silence), Some(TranscriptionStatus::NoSpeech));
    assert_eq!(gate_status(SpeechGateDecision::Unavailable), Some(TranscriptionStatus::NoSpeech));
    assert_eq!(
        gate_status(SpeechGateDecision::InsufficientSpeech),
        Some(TranscriptionStatus::InsufficientSpeech)
    );
    assert!(SpeechGateDecision::Silence.should_skip_transcription());
    assert!(!SpeechGateDecision::SpeechDetected.should_skip_transcription());
    assert_eq!(skipped_cleanup_status(true), CleanupStatus::NotConfigured);
    assert_eq!(skipped_cleanup_status(false), CleanupStatus::Disabled);
}

#[test]
fn audio_shapes_are_checked_in_order() {
    assert_eq!(TARGET_SAMPLE_RATE, 16_000);
    assert_eq!(check_shape(0, 0, 0), Some(AudioShapeError::InvalidSampleRate));
    assert_eq!(check_shape(8_000, 0, 3), Some(AudioShapeError::InvalidChannelCount));
    assert_eq!(check_shape(8_000, 2, 0), Some(AudioShapeError::Empty));
    assert_eq!(check_shape(8_000, 2, 3), Some(AudioShapeError::IncompleteFrame { channels: 2 }));
    assert_eq!(check_shape(8_000, 2, 4), None);
    assert_eq!(AudioShapeError::Empty.message(), "audio has no samples");
}

#[test]
fn stages_and_units_name_their_metrics() {
    let (name, scope, incident_only) = Stage::IncidentAnalysis.sample_details();
    assert_eq!(name, "incident_analysis_duration_ms");
    assert_eq!(scope, MetricScope::Run);
    assert!(incident_only);
    assert!(!Stage::SpeechGate.sample_details().2);
    assert_eq!(stage_source(Stage::SpeechGate), "core.audio");
    assert_eq!(stage_source(Stage::EndToEndRequest), "core.workflow");
    assert_eq!(unit_text(MetricUnit::Celsius), "°C");
    assert_eq!(category_for(MetricUnit::WattHours), "Power / Energy");
    assert_eq!(category_for(MetricUnit::Boolean), "Status");
    let key = SeriesKey::of(&"ram".to_owned(), MetricUnit::Bytes, MetricScope::Process, &"host".to_owned());
    assert_eq!(key.category, "Resources");
    let table = resource_metrics();
    assert_eq!(table.len(), 10);
    assert_eq!(table[3].name, "ram_usage_bytes");
    assert_eq!(table[3].scope, MetricScope::System);
    assert_eq!(table[9].unit, MetricUnit::WattHours);
}

#[test]
fn filters_incident_events_centrally() {
    let config = MetricsConfig::enabled();
    assert!(config.admits(false));
    assert!(!config.admits(true));
    let incident = MetricsConfig { incident_active: true, ..config };
    assert!(incident.admits(true));
    assert!(!MetricsConfig::default().admits(false));
    assert!(!config.resource_sampling_enabled());
}

#[test]
fn measurements_keep_their_reason() {
    let measured: Measurement<u32> = Measurement::available(7);
    assert!(measured.is_available());
    let missing: Measurement<u32> = Measurement::unavailable("sensor unavailable".to_owned());
    assert!(!missing.is_available());
    match missing.as_ref() {
        Measurement::Unavailable { reason } => assert_eq!(reason, "sensor unavailable"),
        Measurement::Available(_) => panic!("unexpected value"),
    }
    match measured.as_ref() {
        Measurement::Available(value) => assert_eq!(*value, 7),
        Measurement::Unavailable { .. } => panic!("unexpected reason"),
    }
    assert!(!ResourceCapabilities::default().energy_joules);
}

#[test]
fn service_requests_are_checked_before_the_engine() {
    assert_eq!(transcribe_rejection(Some("Audio/WAV; charset=x"), 10), None);
    assert_eq!(transcribe_rejection(Some(" audio/x-wav "), 1), None);
    assert_eq!(transcribe_rejection(None, 10).unwrap().status, 415);
    assert_eq!(transcribe_rejection(Some("text/plain"), 10).unwrap().code, "unsupported_media_type");
    assert_eq!(transcribe_rejection(Some("audio/wav"), 0).unwrap().status, 400);
    assert_eq!(analysis_transcript("  smoke  ").unwrap(), "smoke");
    assert_eq!(analysis_transcript(" ").unwrap_err().code, "invalid_request");
    assert!(analysis_transcript(&"x".repeat(16_000)).is_ok());
    assert!(analysis_transcript(&"x".repeat(16_001)).is_err());
    assert_eq!(header_string(Some("  run-1 ")), Some("run-1".to_owned()));
    assert_eq!(header_string(Some("   ")), None);
    assert_eq!(header_bool(Some(" YES ")), Some(true));
    assert_eq!(header_bool(Some("0")), Some(false));
    assert_eq!(header_bool(Some("maybe")), None);
    let base = MetricsConfig { enabled: true, incident_active: false, resource_sampling: true };
    assert!(request_metrics_config(base, None, true).incident_active);
    assert!(!request_metrics_config(base, Some("false"), true).incident_active);
    assert!(!request_metrics_config(base, None, false).incident_active);
    assert!(request_metrics_config(base, Some("1"), false).incident_active);
    assert_eq!(new_run_id(1_700_000_000_123, 42), "run_1700000000123_42");
    assert_eq!(new_run_id(0, 0), "run_0_0");
}

#[test]
fn engine_failures_map_to_service_errors() {
    assert_eq!(map_engine_error("audio duration exceeds the 120 second limit").code, "audio_too_long");
    assert_eq!(map_engine_error("speech recognizer `x` is not ready").status, 503);
    assert_eq!(map_engine_error("could not load Whisper model").status, 503);
    let other = map_engine_error("decoder crashed");
    assert_eq!(other.status, 500);
    assert_eq!(other.message, "Transcription failed.");
    assert_eq!(readiness(true).unwrap(), "ready");
    assert_eq!(readiness(false).unwrap_err().status, 503);
}

#[test]
fn collapses_ctc_repeats_and_blanks() {
    let mut tokens = vec!["<unused>".to_owned(); 500];
    tokens[0] = "<blk>".to_owned();
    tokens[1] = "A".to_owned();
    tokens[2] = "▁B".to_owned();
    let vocabulary = TokenVocabulary::from_tokens(tokens);
    assert_eq!(vocabulary.len(), 500);
    assert!(!vocabulary.is_empty());
    assert_eq!(vocabulary.decode_ids(&[1, 1, 0, 2]).unwrap(), "A B");
    assert_eq!(vocabulary.decode_ids(&[1, 0, 1]).unwrap(), "AA");
    let small = TokenVocabulary::from_tokens(vec!["x".to_owned()]);
    assert_eq!(
        small.decode_ids(&[0]).unwrap_err(),
        ZipformerError::Contract("expected 500 tokens, found 1".to_owned())
    );
}

#[test]
fn mask_lengths_match_model_contract() {
    let masks = mask_flags(20);
    assert_eq!(masks.iter().map(Vec::len).collect::<Vec<_>>(), [796, 398, 199, 100]);
    assert!(masks[0][19] && !masks[0][20]);
    assert!(masks[1][9] && !masks[1][10]);
    assert!(masks[3][2] && !masks[3][3]);
}

#[test]
fn frame_counts_follow_the_model_contract() {
    assert_eq!(feature_frame_count(16_000), 100);
    assert_eq!(feature_frame_count(79), 0);
    assert_eq!(feature_frame_count(80), 1);
    assert_eq!(feature_frame_count(10_000_000), 1_600);
    assert_eq!(valid_frames(100), 46);
    assert_eq!(valid_frames(3), 0);
    assert_eq!(valid_frames(1_600), 796);
    assert_eq!(output_frames(46), 23);
    assert_eq!(output_frames(47), 24);
    assert_eq!(output_frames(796), 398);
    assert_eq!(classify_input(&[1, 1_600, 80]), Some(InputKind::Fbank));
    assert_eq!(classify_input(&[1, 199]), Some(InputKind::Mask(2)));
    assert_eq!(classify_input(&[1, 200]), None);
    assert!(output_shape_ok(&[1, 398, 500]));
    assert!(!output_shape_ok(&[398, 500]));
    assert_eq!(ZipformerConfig::default().model_id, "zipformer");
    assert_eq!(
        ZipformerError::MissingModel("m.tflite".to_owned()).message(),
        "Zipformer model file does not exist: m.tflite"
    );
}

#[test]
fn whisper_settings_bound_the_thread_count() {
    assert_eq!(decode_threads(0, 8), 1);
    assert_eq!(decode_threads(16, 8), 8);
    assert_eq!(decode_threads(3, 0), 1);
    assert_eq!(decode_threads(3, 8), 3);
    let config = WhisperConfig::default_for(true);
    assert_eq!(config.threads, 4);
    assert!(config.use_gpu && !config.flash_attention);
    assert_eq!(
        gpu_fallback_message("no metal", "bad file"),
        "GPU load failed (no metal); CPU fallback failed (bad file)"
    );
}
