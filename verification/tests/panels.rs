use pheme_va::audio::SpeechGateDecision;
use pheme_va::engine::{after_gate, CleanupStatus, GateStep, TranscriptionStatus};
use pheme_va::panels::{
    bench_idle_details, bench_source_lines, bench_transcript_text, overview_lines, run_report_lines,
};
use pheme_va::reports::ReportStore;
use pheme_va::run_record::{
    begin_run, events_for, failed_report, record_failure, EventBuffer, RunContext, RunEvent, RunRecord,
};
use pheme_va::tui::ActiveModel;

fn context() -> RunContext {
    RunContext {
        model: Some(ActiveModel {
            id: "tiny".to_owned(),
            family: "whisper".to_owned(),
            backend: "whisper.cpp".to_owned(),
            runtime: None,
        }),
        selected_model: "tiny".to_owned(),
        now_ms: 3_723_004,
        buffered: vec![
            RunEvent { run_id: "run-1".to_owned(), name: "gate".to_owned(), sequence: 1, timestamp_ms: 10 },
            RunEvent { run_id: "run-2".to_owned(), name: "other".to_owned(), sequence: 1, timestamp_ms: 11 },
            RunEvent { run_id: "run-1".to_owned(), name: "total".to_owned(), sequence: 2, timestamp_ms: 12 },
        ],
    }
}

#[test]
fn a_run_report_lists_its_fields_in_order() {
    let ctx = context();
    let report = failed_report(None, "run-1", "clip.wav", "decoder crashed", &ctx);
    let lines = run_report_lines(Some(&report), "1.50");
    assert_eq!(lines.len(), 19);
    assert_eq!(lines[0], "Run: run-1 / ERROR");
    assert_eq!(lines[1], "Model: tiny");
    assert_eq!(lines[2], "Family: whisper");
    assert_eq!(lines[3], "Backend: whisper.cpp");
    assert_eq!(lines[4], "Runtime: unknown");
    assert_eq!(lines[5], "Revision: unknown");
    assert_eq!(lines[6], "Started: 01:02:03.004 UTC (epoch 3723004 ms)");
    assert_eq!(lines[7], "Finished: 01:02:03.004 UTC (epoch 3723004 ms)");
    assert_eq!(lines[8], "Source: clip.wav");
    assert_eq!(lines[9], "Language: unknown");
    assert_eq!(lines[10], "Audio: 1.50 s");
    assert_eq!(lines[11], "Segments: 0");
    assert_eq!(lines[12], "Samples: 2");
    assert_eq!(lines[13], "Gate: unknown");
    assert_eq!(lines[14], "Error: decoder crashed");
    assert_eq!(lines[15], "TRANSCRIPT");
    assert_eq!(lines[16], "No final transcript.");
    assert_eq!(lines[17], "RAW TRANSCRIPT");
    assert_eq!(lines[18], "No raw transcript.");
    assert_eq!(run_report_lines(None, "0.00"), vec!["No run selected.".to_owned()]);
}

#[test]
fn a_failed_report_keeps_the_run_events_in_order() {
    let ctx = context();
    let events = events_for(&ctx.buffered, "run-1");
    let names: Vec<&str> = events.iter().map(|e| e.name.as_str()).collect();
    assert_eq!(names, vec!["gate", "total"]);
    let mut earlier = failed_report(None, "run-1", "clip.wav", "first", &ctx);
    earlier.transcript = "kept".to_owned();
    earlier.started_at_ms = 7;
    let again = failed_report(Some(&earlier), "run-1", "other.wav", "second", &ctx);
    assert_eq!(again.transcript, "kept");
    assert_eq!(again.source, "clip.wav");
    assert_eq!(again.started_at_ms, 7);
    assert_eq!(again.error.as_deref(), Some("second"));
    assert_eq!(again.events.len(), 2);
}

#[test]
fn the_bench_transcript_explains_a_missing_transcript() {
    assert_eq!(
        bench_transcript_text(Some((TranscriptionStatus::Speech, "East gate is closed.", SpeechGateDecision::SpeechDetected))),
        "East gate is closed."
    );
    assert_eq!(
        bench_transcript_text(Some((TranscriptionStatus::NoSpeech, "", SpeechGateDecision::Silence))),
        "Status: no_speech\n\nNo final speech transcript was produced.\n\nGate: Silence"
    );
    assert_eq!(
        bench_transcript_text(Some((TranscriptionStatus::Speech, "", SpeechGateDecision::SpeechDetected))),
        "Status: speech\n\nNo final speech transcript was produced.\n\nGate: SpeechDetected"
    );
    assert_eq!(bench_transcript_text(None), "No result yet.\n\nChoose a source to test the selected model.");
}

#[test]
fn the_bench_lists_its_sources_and_the_folder() {
    let lines = bench_source_lines("/audio", 3);
    assert_eq!(
        lines,
        vec![
            "INPUT SOURCE",
            "",
            "[l] Live microphone",
            "[f] Select WAV file",
            "",
            "Folder:",
            "/audio",
            "3 WAV file(s)",
        ]
    );
}

#[test]
fn the_overview_shows_model_state_and_the_current_transcript() {
    let mut reports: ReportStore<RunRecord> = ReportStore::new();
    let ctx = context();
    let mut report = failed_report(None, "run-1", "clip.wav", "x", &ctx);
    report.transcript = "East gate is closed.".to_owned();
    reports.upsert("run-1".to_owned(), report);
    let lines = overview_lines(&ctx.model, "idle", &Some("run-1".to_owned()), &reports, 12, 3);
    assert_eq!(lines[0], "MODEL / CURRENT STATE / 12 events / 3 logs");
    assert_eq!(lines[1], "tiny / whisper.cpp / runtime unknown");
    assert_eq!(lines[2], "State: idle | Run: run-1");
    assert_eq!(lines[3], "East gate is closed.");
    let none = overview_lines(&None, "loading", &None, &reports, 0, 0);
    assert_eq!(none[1], "No active model");
    assert_eq!(none[2], "State: loading | Run: none");
    assert_eq!(none[3], "No final transcript yet.");
}

#[test]
fn the_gate_decides_before_the_recognizer_is_asked() {
    match after_gate(SpeechGateDecision::Silence, false, "whisper", &Some("en".to_owned()), true) {
        GateStep::Skipped(r) => {
            assert_eq!(r.status, TranscriptionStatus::NoSpeech);
            assert!(r.text.is_empty() && r.raw_text.is_empty());
            assert_eq!(r.language.as_deref(), Some("en"));
            assert_eq!(r.segment_count, 0);
            assert_eq!(r.cleanup_status, CleanupStatus::NotConfigured);
            assert!(!r.recovery_attempted);
        },
        other => panic!("unexpected step {other:?}"),
    }
    match after_gate(SpeechGateDecision::InsufficientSpeech, true, "whisper", &None, false) {
        GateStep::Skipped(r) => {
            assert_eq!(r.status, TranscriptionStatus::InsufficientSpeech);
            assert_eq!(r.cleanup_status, CleanupStatus::Disabled);
        },
        other => panic!("unexpected step {other:?}"),
    }
    match after_gate(SpeechGateDecision::SpeechDetected, false, "whisper", &None, false) {
        GateStep::NotReady { backend } => assert_eq!(backend, "whisper"),
        other => panic!("unexpected step {other:?}"),
    }
    assert!(matches!(after_gate(SpeechGateDecision::SpeechDetected, true, "whisper", &None, false), GateStep::Recognize));
}

#[test]
fn the_bench_details_before_a_result() {
    assert_eq!(bench_idle_details(false, &None, &None), "Status: idle    Source: none    Run: \u{2014}");
    assert_eq!(
        bench_idle_details(true, &Some("mic".to_owned()), &Some("run-3".to_owned())),
        "Status: busy    Source: mic    Run: run-3"
    );
}

fn sample(run: &str, name: &str, sequence: u64) -> RunEvent {
    RunEvent { run_id: run.to_owned(), name: name.to_owned(), sequence, timestamp_ms: 100 + sequence }
}

#[test]
fn a_run_under_way_collects_its_events_until_it_ends() {
    let mut reports: ReportStore<RunRecord> = ReportStore::new();
    let mut buffer = EventBuffer::new(2);
    let mut ctx = context();
    begin_run(&mut reports, "run-7", "mic", &Some("v2".to_owned()), &ctx);
    assert_eq!(reports.active_run().as_deref(), Some("run-7"));
    let busy = reports.report("run-7").unwrap();
    assert_eq!(busy.status, "BUSY");
    assert_eq!(busy.gate_decision, "pending");
    assert_eq!(busy.revision.as_deref(), Some("v2"));
    buffer.push(sample("run-7", "gate", 0), &mut reports);
    buffer.push(sample("run-8", "elsewhere", 0), &mut reports);
    buffer.push(sample("run-7", "total", 1), &mut reports);
    assert_eq!(buffer.len(), 2);
    let names: Vec<String> = reports.report("run-7").unwrap().events.iter().map(|e| e.name.clone()).collect();
    assert_eq!(names, vec!["gate", "total"]);
    ctx.buffered = buffer.snapshot();
    record_failure(&mut reports, "run-7", "mic", "device lost", &ctx);
    let ended = reports.report("run-7").unwrap();
    assert_eq!(ended.status, "ERROR");
    assert_eq!(ended.revision.as_deref(), Some("v2"));
    assert_eq!(ended.events.len(), 1);
    assert_eq!(ended.events[0].name, "total");
    assert_eq!(reports.active_run(), None);
    buffer.push(sample("run-7", "late", 2), &mut reports);
    assert_eq!(reports.report("run-7").unwrap().events.len(), 1);
}
