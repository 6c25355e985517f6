use pheme_va::metrics::{metric_rows, moved_selection, MetricRow, MetricScope, MetricUnit, SeriesKey};
use pheme_va::navigation::{startup_screen, Command, Key, Navigation, Surroundings};
use pheme_va::audio::SpeechGateDecision;
use pheme_va::engine::TranscriptionStatus;
use pheme_va::reports::ReportStore;
use pheme_va::run_record::{RunContext, RunEvent, RunOutcome, RunRecord};
use pheme_va::session::{apply_signal, Reaction, Session, WorkerSignal};
use pheme_va::tui::ActiveModel;
use pheme_va::tui::{Screen, TelemetryTab};

fn quiet_context() -> RunContext {
    RunContext { model: None, selected_model: "tiny".to_owned(), now_ms: 5000, buffered: Vec::new() }
}

fn key(name: &str) -> SeriesKey {
    SeriesKey::of(&name.to_owned(), MetricUnit::Percent, MetricScope::Process, &"test-sensor".to_owned())
}

fn quiet() -> Surroundings {
    Surroundings {
        build_running: false,
        download_running: false,
        request_pending: false,
        recording: false,
        run_in_progress: false,
        history_available: false,
        model_active: false,
        metric_selected: false,
        report_selected: false,
        selected_run: None,
        run_series: Vec::new(),
        run_ids: Vec::new(),
        folder_directory: "/audio".to_owned(),
    }
}

fn telemetry() -> Navigation {
    Navigation::new(Screen::Telemetry, "/audio".to_owned())
}

fn series_name(key: &Option<SeriesKey>) -> Option<String> {
    key.as_ref().map(|k| k.name.clone())
}

#[test]
fn filter_is_shared_live_and_quit_keys_are_text_while_editing() {
    let mut nav = telemetry();
    let c = quiet();
    for tab in ['1', '2', '3', '4'] {
        nav.handle_key(&c, Key::Char(tab));
        nav.scroll = 20;
        nav.handle_key(&c, Key::Char('/'));
        assert_eq!(nav.handle_key(&c, Key::Char('q')), Command::Nothing);
        assert!(!nav.should_quit);
        assert_eq!(nav.scroll, 0);
        assert_eq!(nav.filter_query, "q");
        nav.handle_key(&c, Key::Esc);
        assert!(!nav.filter_editing);
        assert_eq!(nav.screen, Screen::Telemetry);
        nav.handle_key(&c, Key::Char('x'));
        assert!(nav.filter_query.is_empty());
    }
    nav.handle_key(&c, Key::Char('f'));
    nav.handle_key(&c, Key::Char('a'));
    nav.handle_key(&c, Key::Char('b'));
    nav.handle_key(&c, Key::Backspace);
    nav.handle_key(&c, Key::Enter);
    nav.handle_key(&c, Key::Char('2'));
    assert_eq!(nav.filter_query, "a");
}

#[test]
fn metric_selection_is_independent_from_historical_run_selection() {
    let mut nav = telemetry();
    let c = Surroundings { metric_selected: true, ..quiet() };
    let series = vec![key("alpha"), key("beta"), key("gamma")];
    let rows = metric_rows(&series);
    let mut selected: Option<SeriesKey> = None;
    let series_index = |selected: &Option<SeriesKey>| {
        selected
            .as_ref()
            .and_then(|k| series.iter().position(|s| s.name == k.name))
            .unwrap_or(0)
    };
    let apply = |command: Command, selected: &mut Option<SeriesKey>| {
        if let Command::MoveMetric(delta) = command {
            if let Some(row) = moved_selection(&rows, selected, delta) {
                if let MetricRow::Metric(k) = &rows[row] {
                    *selected = Some(key(&k.name));
                }
            }
        }
    };
    let command = nav.handle_key(&c, Key::Char('2'));
    apply(command, &mut selected);
    let command = nav.handle_key(&c, Key::Down);
    assert_eq!(command, Command::MoveMetric(1));
    apply(command, &mut selected);
    assert_eq!(series_index(&selected), 1);
    let command = nav.handle_key(&c, Key::Char('3'));
    apply(command, &mut selected);
    assert_eq!(series_index(&selected), 1);
    let command = nav.handle_key(&c, Key::Char('k'));
    assert_eq!(command, Command::Nothing);
    apply(command, &mut selected);
    assert_eq!(series_index(&selected), 1);
    assert_eq!(c.selected_run, None);
    nav.scroll = 50;
    nav.handle_key(&c, Key::Char('4'));
    assert_eq!(nav.scroll, 0);
}

#[test]
fn report_navigation_preserves_selection_and_resets_on_run_change() {
    let mut nav = telemetry();
    let old = Surroundings {
        report_selected: true,
        selected_run: Some("old".to_owned()),
        run_series: vec![key("alpha"), key("beta")],
        run_ids: vec!["other".to_owned(), "old".to_owned()],
        ..quiet()
    };
    assert_eq!(nav.handle_key(&old, Key::Char('3')), Command::Nothing);
    nav.handle_key(&old, Key::Enter);
    assert!(nav.run_detail);
    assert!(!nav.historical_detail);
    assert_eq!(series_name(&nav.historical_metric).as_deref(), Some("alpha"));
    nav.handle_key(&old, Key::Char('j'));
    assert_eq!(series_name(&nav.historical_metric).as_deref(), Some("beta"));
    nav.handle_key(&old, Key::PageDown);
    assert_eq!(nav.scroll, 5);
    nav.handle_key(&old, Key::Enter);
    assert!(nav.historical_detail);
    nav.handle_key(&old, Key::PageDown);
    assert_eq!(nav.historical_scroll, 5);
    nav.handle_key(&old, Key::Esc);
    assert!(nav.run_detail);
    assert!(!nav.historical_detail);
    assert_eq!(nav.scroll, 5);
    assert_eq!(series_name(&nav.historical_metric).as_deref(), Some("beta"));
    nav.handle_key(&old, Key::Esc);
    nav.handle_key(&old, Key::Enter);
    assert_eq!(series_name(&nav.historical_metric).as_deref(), Some("beta"));
    nav.handle_key(&old, Key::Enter);
    let command = nav.handle_key(&old, Key::Char(']'));
    assert_eq!(command, Command::SelectRun(0));
    let other_series = vec![key("gamma")];
    nav.sync_history(&Some(old.run_ids[0].clone()), &other_series);
    assert!(!nav.historical_detail);
    assert_eq!(nav.scroll, 0);
    assert_eq!(series_name(&nav.historical_metric).as_deref(), Some("gamma"));
    assert!(nav.run_table_reset);
    nav.sync_history(&Some("evicted".to_owned()), &Vec::new());
    assert!(nav.historical_metric.is_none());
    assert!(!nav.historical_detail);
}

#[test]
fn clearing_runs_needs_confirmation_and_an_idle_interface() {
    let mut nav = telemetry();
    let stored = Surroundings { history_available: true, ..quiet() };
    nav.handle_key(&stored, Key::Char('3'));
    let busy = Surroundings { request_pending: true, ..Surroundings { history_available: true, ..quiet() } };
    nav.handle_key(&busy, Key::Char('c'));
    assert!(!nav.clear_runs_pending);
    assert_eq!(nav.status_message, "cannot clear runs during an active request or recording");
    nav.handle_key(&stored, Key::Char('c'));
    assert!(nav.clear_runs_pending);
    assert_eq!(nav.handle_key(&stored, Key::Char('q')), Command::Nothing);
    assert!(!nav.should_quit);
    assert!(nav.clear_runs_pending);
    nav.handle_key(&stored, Key::Esc);
    assert!(!nav.clear_runs_pending);
    assert_eq!(nav.status_message, "clear runs cancelled");
    nav.handle_key(&stored, Key::Char('c'));
    assert_eq!(nav.handle_key(&stored, Key::Char('y')), Command::ClearHistory);
    assert!(nav.clear_runs_inflight);
    assert_eq!(nav.status_message, "clearing saved runs…");
    assert_eq!(nav.handle_key(&stored, Key::Char('t')), Command::Nothing);
    assert_eq!(nav.screen, Screen::Telemetry);
    let mut without_history = telemetry();
    without_history.handle_key(&quiet(), Key::Char('3'));
    without_history.handle_key(&quiet(), Key::Char('c'));
    assert!(!without_history.clear_runs_pending);
    assert_eq!(without_history.status_message, "run history storage is unavailable");
}

#[test]
fn global_keys_open_help_telemetry_and_quit() {
    let c = quiet();
    let mut nav = Navigation::new(Screen::Bench, "/audio".to_owned());
    nav.handle_key(&c, Key::Char('?'));
    assert_eq!(nav.screen, Screen::Help);
    assert_eq!(nav.previous_screen, Screen::Bench);
    nav.handle_key(&c, Key::Esc);
    assert_eq!(nav.screen, Screen::Bench);
    nav.handle_key(&c, Key::Char('t'));
    assert_eq!(nav.screen, Screen::Telemetry);
    assert_eq!(nav.telemetry_tab, TelemetryTab::Overview);
    nav.handle_key(&c, Key::Esc);
    assert_eq!(nav.screen, Screen::Bench);
    let building = Surroundings { build_running: true, ..quiet() };
    nav.handle_key(&building, Key::Char('t'));
    assert_eq!(nav.telemetry_tab, TelemetryTab::Logs);
    nav.handle_key(&building, Key::Esc);
    assert_eq!(nav.screen, Screen::Loading);
    assert_eq!(nav.handle_key(&building, Key::Esc), Command::CancelBuild);
    assert_eq!(nav.screen, Screen::Picker);
    assert_eq!(nav.handle_key(&c, Key::Char('q')), Command::Quit);
    assert!(nav.should_quit);
}

#[test]
fn control_f_edits_the_telemetry_filter() {
    let c = quiet();
    let mut nav = telemetry();
    nav.scroll = 3;
    assert_eq!(nav.press(&c, Key::Char('f'), true), Command::Nothing);
    assert!(nav.filter_editing);
    assert_eq!(nav.scroll, 0);
    let mut bench = Navigation::new(Screen::Bench, "/audio".to_owned());
    assert_eq!(bench.press(&c, Key::Char('f'), true), Command::OpenFolder);
    assert_eq!(bench.screen, Screen::Folder);
}

#[test]
fn folder_and_directory_keys() {
    let c = quiet();
    let mut nav = Navigation::new(Screen::Folder, String::new());
    assert_eq!(nav.handle_key(&c, Key::Down), Command::MoveFolder(1));
    assert_eq!(nav.handle_key(&c, Key::Char('k')), Command::MoveFolder(-1));
    nav.handle_key(&c, Key::Char('d'));
    assert_eq!(nav.screen, Screen::DirectoryInput);
    assert_eq!(nav.directory_input, "/audio");
    nav.handle_key(&c, Key::Char('/'));
    nav.handle_key(&c, Key::Char('x'));
    nav.handle_key(&c, Key::Backspace);
    nav.handle_key(&c, Key::Char(' '));
    assert_eq!(nav.handle_key(&c, Key::Enter), Command::SubmitDirectory);
    assert_eq!(nav.directory_request(), "/audio/");
    nav.directory_outcome(Err("not a directory".to_owned()));
    assert_eq!(nav.directory_input_error.as_deref(), Some("not a directory"));
    assert_eq!(nav.screen, Screen::DirectoryInput);
    nav.directory_outcome(Ok(()));
    assert_eq!(nav.directory_input_error, None);
    assert_eq!(nav.screen, Screen::Bench);
}

#[test]
fn startup_screen_follows_onboarding_and_saved_model() {
    assert_eq!(startup_screen(false, true, false, true, true), (Screen::Error, false));
    assert_eq!(startup_screen(true, true, true, false, true), (Screen::Welcome, false));
    assert_eq!(startup_screen(false, false, false, false, true), (Screen::Welcome, false));
    assert_eq!(startup_screen(false, false, true, false, false), (Screen::Loading, true));
    assert_eq!(startup_screen(false, true, false, false, true), (Screen::Loading, true));
    assert_eq!(startup_screen(false, true, false, false, false), (Screen::Picker, false));
}

#[test]
fn worker_reports_follow_only_the_awaited_request() {
    let mut nav = Navigation::new(Screen::Picker, String::new());
    let mut session = Session::new();
    let mut reports: ReportStore<RunRecord> = ReportStore::new();
    let ctx = quiet_context();
    let id = session.take_request_id();
    assert_eq!(id, 1);
    assert_eq!(session.next_request_id, 2);
    session.current_request = Some(id);
    let stale = apply_signal(
        &mut nav,
        &mut session,
        &mut reports,
        &ctx,
        WorkerSignal::ModelLoadStarted { request_id: 9, model_id: "m".to_owned(), switch_from: None },
    );
    assert!(matches!(stale, Reaction::Ignored));
    assert_eq!(nav.screen, Screen::Picker);
    apply_signal(
        &mut nav,
        &mut session,
        &mut reports,
        &ctx,
        WorkerSignal::ModelLoadStarted {
            request_id: 1,
            model_id: "large".to_owned(),
            switch_from: Some("tiny".to_owned()),
        },
    );
    assert_eq!(nav.status_message, "switching from tiny to large");
    assert_eq!(nav.screen, Screen::Loading);
    assert_eq!(session.pending_model_id.as_deref(), Some("large"));
    let ready = apply_signal(
        &mut nav,
        &mut session,
        &mut reports,
        &ctx,
        WorkerSignal::ModelReady {
            request_id: 1,
            model_id: "large".to_owned(),
            load_duration_ms: 1250,
            switch_from: Some("tiny".to_owned()),
        },
    );
    match ready {
        Reaction::AdoptModel(log) => assert_eq!(log, "switched from tiny to large in 1250 ms"),
        other => panic!("unexpected reaction {other:?}"),
    }
    assert_eq!(nav.status_message, "model large ready");
    assert_eq!(nav.screen, Screen::Bench);
    assert_eq!(session.current_request, None);
    assert_eq!(session.pending_model_id, None);
    let late = apply_signal(
        &mut nav,
        &mut session,
        &mut reports,
        &ctx,
        WorkerSignal::ModelLoadFailed {
            request_id: 1,
            model_id: "large".to_owned(),
            error: "late".to_owned(),
            switch_from: None,
        },
    );
    assert!(matches!(late, Reaction::Ignored));
    assert_eq!(nav.error_message, None);
}

#[test]
fn worker_reports_of_a_run_and_failures() {
    let mut nav = Navigation::new(Screen::Bench, String::new());
    let mut session = Session::new();
    let mut reports: ReportStore<RunRecord> = ReportStore::new();
    let ctx = quiet_context();
    session.current_request = Some(4);
    apply_signal(
        &mut nav,
        &mut session,
        &mut reports,
        &ctx,
        WorkerSignal::ProcessingStarted {
            request_id: 4,
            run_id: "run-1".to_owned(),
            source: "fixture.wav".to_owned(),
        },
    );
    assert_eq!(nav.status_message, "processing fixture.wav");
    assert_eq!(nav.screen, Screen::Processing);
    assert_eq!(session.current_run.as_deref(), Some("run-1"));
    nav.scroll = 7;
    let done = apply_signal(
        &mut nav,
        &mut session,
        &mut reports,
        &ctx,
        WorkerSignal::Finished {
            request_id: 4,
            run_id: "run-1".to_owned(),
            source: "fixture.wav".to_owned(),
            outcome: RunOutcome {
                status: TranscriptionStatus::Speech,
                transcript: "East gate is closed.".to_owned(),
                raw_transcript: "east gate is closed".to_owned(),
                language: Some("en".to_owned()),
                gate: SpeechGateDecision::SpeechDetected,
                segment_count: 2,
            },
        },
    );
    match done {
        Reaction::RecordResult { run_id, source } => {
            assert_eq!(run_id, "run-1");
            assert_eq!(source, "fixture.wav");
        },
        other => panic!("unexpected reaction {other:?}"),
    }
    let report = reports.report("run-1").unwrap();
    assert_eq!(report.status, "speech");
    assert_eq!(report.transcript, "East gate is closed.");
    assert_eq!(report.raw_transcript, "east gate is closed");
    assert_eq!(report.gate_decision, "SpeechDetected");
    assert_eq!(report.segment_count, 2);
    assert_eq!(report.error, None);
    assert_eq!(report.finished_at_ms, Some(5000));
    assert_eq!(reports.active_run(), None);
    assert_eq!(nav.status_message, "transcription complete");
    assert_eq!(nav.scroll, 0);
    assert_eq!(nav.screen, Screen::Bench);
    session.current_request = Some(5);
    let failed = apply_signal(
        &mut nav,
        &mut session,
        &mut reports,
        &ctx,
        WorkerSignal::ProcessingFailed {
            request_id: 5,
            run_id: "run-2".to_owned(),
            source: "mic".to_owned(),
            error: "test failure".to_owned(),
        },
    );
    assert!(matches!(failed, Reaction::RecordFailure { ref error, .. } if error == "test failure"));
    assert_eq!(nav.error_message.as_deref(), Some("test failure"));
    assert_eq!(session.current_source.as_deref(), Some("mic"));
    session.current_request = Some(6);
    apply_signal(
        &mut nav,
        &mut session,
        &mut reports,
        &ctx,
        WorkerSignal::ModelLoadFailed {
            request_id: 6,
            model_id: "large".to_owned(),
            error: "missing file".to_owned(),
            switch_from: Some("tiny".to_owned()),
        },
    );
    assert_eq!(nav.error_message.as_deref(), Some("model switch failed; tiny remains active: missing file"));
    assert_eq!(nav.screen, Screen::Error);
    assert!(matches!(apply_signal(&mut nav, &mut session, &mut reports, &ctx, WorkerSignal::Log), Reaction::PushLog));
}

#[test]
fn run_names_skip_saved_runs_and_pad_to_four_digits() {
    let mut session = Session::new();
    assert_eq!(session.take_run_id("42-7", &Vec::new()), "run-42-7-0001");
    assert_eq!(session.next_run_id, 2);
    let saved = vec!["run-42-7-0002".to_owned(), "run-42-7-0003".to_owned()];
    assert_eq!(session.take_run_id("42-7", &saved), "run-42-7-0004");
    assert_eq!(session.next_run_id, 5);
    session.next_run_id = 12345;
    assert_eq!(session.take_run_id("ns", &saved), "run-ns-12345");
    session.next_run_id = u64::MAX;
    assert_eq!(session.take_run_id("ns", &saved), format!("run-ns-{}", u64::MAX));
    assert_eq!(session.next_run_id, 0);
    assert_eq!(session.take_run_id("ns", &saved), "run-ns-0000");
}

#[test]
fn failed_worker_report_drains_queued_metrics_and_is_saved_on_tick() {
    let mut nav = Navigation::new(Screen::Bench, String::new());
    let mut session = Session::new();
    let mut reports: ReportStore<RunRecord> = ReportStore::new();
    reports.set_active_run(Some("failed-run".to_owned()));
    session.current_request = Some(7);
    let ctx = RunContext {
        model: None,
        selected_model: "tiny".to_owned(),
        now_ms: 1500,
        buffered: vec![
            RunEvent { run_id: "other-run".to_owned(), name: "elsewhere".to_owned(), sequence: 0, timestamp_ms: 900 },
            RunEvent {
                run_id: "failed-run".to_owned(),
                name: "queued sample".to_owned(),
                sequence: 0,
                timestamp_ms: 1000,
            },
        ],
    };
    let reaction = apply_signal(
        &mut nav,
        &mut session,
        &mut reports,
        &ctx,
        WorkerSignal::ProcessingFailed {
            request_id: 7,
            run_id: "failed-run".into(),
            source: "fixture.wav".into(),
            error: "test failure".into(),
        },
    );
    match reaction {
        Reaction::RecordFailure { run_id, error } => {
            assert_eq!(run_id, "failed-run");
            assert_eq!(error, "test failure");
        },
        other => panic!("unexpected reaction {other:?}"),
    }
    assert_eq!(session.current_request, None);
    assert_eq!(nav.screen, Screen::Bench);
    assert_eq!(nav.error_message.as_deref(), Some("test failure"));
    assert_eq!(session.current_run.as_deref(), Some("failed-run"));
    assert_eq!(reports.active_run(), None);
    let report = reports.report("failed-run").unwrap();
    assert_eq!(report.status, "ERROR");
    assert_eq!(report.error.as_deref(), Some("test failure"));
    assert_eq!(report.events.len(), 1);
    assert_eq!(report.events[0].name, "queued sample");
    assert_eq!(report.model_id, "tiny");
    assert_eq!(report.model_family, "unknown");
    assert_eq!(report.source, "fixture.wav");
    assert_eq!(report.started_at_ms, 1500);
    assert_eq!(report.finished_at_ms, Some(1500));
}

#[test]
fn a_finished_run_keeps_its_report_and_takes_the_active_model() {
    let mut reports: ReportStore<RunRecord> = ReportStore::new();
    let ctx = RunContext {
        model: Some(ActiveModel {
            id: "large".to_owned(),
            family: "whisper".to_owned(),
            backend: "whisper.cpp".to_owned(),
            runtime: Some("cpu".to_owned()),
        }),
        selected_model: "tiny".to_owned(),
        now_ms: 42,
        buffered: Vec::new(),
    };
    let mut nav = Navigation::new(Screen::Bench, String::new());
    let mut session = Session::new();
    session.current_request = Some(1);
    apply_signal(
        &mut nav,
        &mut session,
        &mut reports,
        &ctx,
        WorkerSignal::Finished {
            request_id: 1,
            run_id: "run-9".to_owned(),
            source: "mic".to_owned(),
            outcome: RunOutcome {
                status: TranscriptionStatus::NoSpeech,
                transcript: String::new(),
                raw_transcript: String::new(),
                language: None,
                gate: SpeechGateDecision::Silence,
                segment_count: 0,
            },
        },
    );
    let report = reports.report("run-9").unwrap();
    assert_eq!(report.model_id, "large");
    assert_eq!(report.model_family, "whisper");
    assert_eq!(report.runtime.as_deref(), Some("cpu"));
    assert_eq!(report.status, "no_speech");
    assert_eq!(report.gate_decision, "Silence");
    assert_eq!(report.error, None);
    assert_eq!(reports.selected_run().as_deref(), Some("run-9"));
    let stale = apply_signal(
        &mut nav,
        &mut session,
        &mut reports,
        &ctx,
        WorkerSignal::ProcessingFailed {
            request_id: 1,
            run_id: "run-9".into(),
            source: "mic".into(),
            error: "late".into(),
        },
    );
    assert!(matches!(stale, Reaction::Ignored));
    assert_eq!(reports.report("run-9").unwrap().status, "no_speech");
}
