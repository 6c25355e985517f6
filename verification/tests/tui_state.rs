use pheme_va::config::{apply_options, default_audio_directory, default_manifest_path, TuiConfig, TuiOptions};
use pheme_va::download::{finish_download, script_argument, DownloadOutcome, DownloadProgress};
use pheme_va::folder::{DirectoryItem, DirectoryListing, FolderEntryKind, FolderState, FolderStep};
use pheme_va::layout::{centered, progress_bar, report_time, side_panel, yes_no, Rect};
use pheme_va::logs::{format_timestamp, millis_of_reading, LogEntry, LogLevel, LogStore};
use pheme_va::tui::TelemetryTab;

fn item(name: &str, is_dir: bool) -> DirectoryItem {
    DirectoryItem {
        name: name.to_owned(),
        path: format!("/audio/{name}"),
        is_dir,
        is_file: !is_dir,
    }
}

fn listing(items: Vec<DirectoryItem>) -> DirectoryListing {
    DirectoryListing::Listed { parent: Some("/".to_owned()), items }
}

#[test]
fn evicts_old_entries_and_filters_text() {
    let mut store = LogStore::new(2);
    store.push(LogEntry::info("worker".to_owned(), "first".to_owned()));
    store.push(LogEntry::warn("metrics".to_owned(), "second".to_owned()));
    store.push(LogEntry::error("worker".to_owned(), "third".to_owned()));

    assert_eq!(store.len(), 2);
    assert_eq!(store.filtered("metrics").len(), 1);
    assert_eq!(store.filtered("first").len(), 0);
    assert_eq!(store.filtered("third").len(), 1);
}

#[test]
fn log_filter_matches_levels_ids_and_ignores_case() {
    let mut store = LogStore::new(0);
    store.push(LogEntry::new(
        LogLevel::Warn,
        "Worker".to_owned(),
        "slow".to_owned(),
        Some("RUN-7".to_owned()),
        None,
    ));
    assert_eq!(store.len(), 1);
    store.info("ui".to_owned(), "ready".to_owned());
    assert_eq!(store.len(), 1, "a capacity of 0 keeps one entry");
    assert_eq!(store.filtered("  ").len(), 1);
    assert_eq!(store.filtered("INFO").len(), 1);
    assert_eq!(store.filtered("run-7").len(), 0);
    store.clear();
    assert_eq!(store.len(), 0);
    let mut store = LogStore::default();
    store.push(LogEntry::new(
        LogLevel::Error,
        "Worker".to_owned(),
        "slow".to_owned(),
        Some("RUN-7".to_owned()),
        Some("Whisper".to_owned()),
    ));
    assert_eq!(store.filtered(" run-7 ").len(), 1);
    assert_eq!(store.filtered("whisper").len(), 1);
    assert_eq!(store.filtered("error").len(), 1);
    assert_eq!(LogLevel::Error.as_str(), "ERROR");
}

#[test]
fn formats_the_time_of_day_of_a_timestamp() {
    assert_eq!(format_timestamp(0), "00:00:00.000");
    assert_eq!(format_timestamp(86_399_999), "23:59:59.999");
    assert_eq!(format_timestamp(86_400_000 + 3_723_004), "01:02:03.004");
    assert_eq!(report_time(1_005), "00:00:01.005 UTC (epoch 1005 ms)");
}

#[test]
fn sorts_directories_and_wav_files_and_ignores_other_files() {
    let state = FolderState::new(
        "/audio".to_owned(),
        listing(vec![
            item("Bravo.WAV", false),
            item("notes.txt", false),
            item("alpha.wav", false),
            item("nested", true),
        ]),
    );
    let names = state.entries.iter().map(|entry| entry.name.as_str()).collect::<Vec<_>>();
    assert_eq!(names, vec!["..", "nested", "alpha.wav", "Bravo.WAV"]);
    assert_eq!(state.wav_count(), 2);
}

#[test]
fn next_wav_wraps_to_the_first_file() {
    let mut state = FolderState::new(
        "/audio".to_owned(),
        listing(vec![item("two.wav", false), item("one.wav", false)]),
    );
    state.selected = 2;
    assert_eq!(state.next_wav().unwrap(), "/audio/one.wav");
    assert_eq!(state.selected, 1);
}

#[test]
fn folder_selection_stays_on_entries_and_enters_directories() {
    let mut state = FolderState::new(
        "/audio".to_owned(),
        listing(vec![item("clip.wav", false), item("sub", true), item(".wav", false)]),
    );
    assert_eq!(state.entries.len(), 3);
    state.move_selection(-5);
    assert_eq!(state.selected, 0);
    assert_eq!(state.enter_selected(), FolderStep::Navigate("/".to_owned()));
    assert_eq!(state.directory, "/");
    state.move_selection(10);
    assert_eq!(state.selected, 2);
    assert_eq!(state.enter_selected(), FolderStep::Chosen("/audio/clip.wav".to_owned()));
    state.set_directory(
        "/empty".to_owned(),
        DirectoryListing::Listed { parent: None, items: Vec::new() },
    );
    assert!(state.entries.is_empty());
    assert_eq!(state.enter_selected(), FolderStep::Nothing);
    assert!(state.next_wav().is_none());
    state.refresh(DirectoryListing::Unreadable("permission denied".to_owned()));
    assert_eq!(state.error.as_deref(), Some("could not read /empty: permission denied"));
    assert!(matches!(
        FolderState::new("/x".to_owned(), listing(vec![item("a.Wav", false)])).entries[1].kind,
        FolderEntryKind::Wav
    ));
}

#[test]
fn only_known_model_ids_are_downloadable() {
    assert_eq!(script_argument("whisper-large-v3-turbo").unwrap(), "whisper");
    assert!(script_argument("custom-model").is_err());
    assert!(script_argument("whisper;rm -rf /").is_err());
}

#[test]
fn download_errors_name_the_model_and_the_status() {
    assert_eq!(script_argument("zipformer-medium").unwrap(), "zipformer-medium");
    assert_eq!(
        script_argument("x").unwrap_err(),
        "automatic download is not allowlisted for model `x`"
    );
    let mut progress = DownloadProgress { percent: Some(40), message: "fetching".to_owned() };
    assert_eq!(
        finish_download(&mut progress, false, "exit status: 2", "  curl: (22) 404 \n").unwrap_err(),
        "model download failed (exit status: 2): curl: (22) 404"
    );
    assert_eq!(
        finish_download(&mut progress, false, "exit status: 1", " \n").unwrap_err(),
        "model download failed (exit status: 1)"
    );
    assert_eq!(progress.percent, Some(40));
    assert_eq!(
        finish_download(&mut progress, true, "exit status: 0", "").unwrap(),
        DownloadOutcome::Completed
    );
    assert_eq!(progress.percent, Some(100));
    assert_eq!(progress.message, "download verified");
}

#[test]
fn options_override_the_stored_settings() {
    let mut config = TuiConfig::default_for(false);
    assert_eq!(config.selected_stt_model, "whisper-large-v3-turbo");
    assert_eq!(config.model_manifest, default_manifest_path());
    assert_eq!(config.audio_directory, "local/audio");
    assert_eq!(default_audio_directory(true), "pheme-va/local/audio");
    assert_eq!(config.max_seconds, 120);
    let options = TuiOptions {
        model_id: Some("zipformer-small".to_owned()),
        model_manifest: None,
        audio_directory: Some("clips".to_owned()),
        max_seconds: Some(0),
        language: Some("de".to_owned()),
        dictionary: Some(vec!["KLASS".to_owned()]),
        reconfigure: false,
    };
    apply_options(&mut config, &options);
    assert_eq!(config.selected_stt_model, "zipformer-small");
    assert_eq!(config.model_manifest, "models/manifest.toml");
    assert_eq!(config.audio_directory, "clips");
    assert_eq!(config.max_seconds, 1);
    assert_eq!(config.language.as_deref(), Some("de"));
    assert_eq!(config.dictionary, vec!["KLASS".to_owned()]);
    assert!(config.metrics_enabled && config.resource_sampling_enabled);
}

#[test]
fn centers_welcome_panel_at_requested_percentages() {
    assert_eq!(
        centered(Rect { x: 0, y: 0, width: 120, height: 40 }, 82, 72),
        Rect { x: 11, y: 6, width: 98, height: 28 }
    );
    assert_eq!(
        centered(Rect { x: 0, y: 0, width: 80, height: 24 }, 82, 72),
        Rect { x: 7, y: 3, width: 65, height: 17 }
    );
}

#[test]
fn centered_panel_respects_offset_and_bounds() {
    let area = Rect { x: 10, y: 20, width: 120, height: 40 };
    assert_eq!(centered(area, 50, 50), Rect { x: 40, y: 30, width: 60, height: 20 });
    assert_eq!(centered(area, 200, 200), area);
    assert_eq!(
        centered(Rect { x: 10, y: 20, width: 0, height: 0 }, 82, 72),
        Rect { x: 10, y: 20, width: 0, height: 0 }
    );
    assert_eq!(
        centered(Rect { x: 0, y: 0, width: 1000, height: 1000 }, 82, 72),
        Rect { x: 90, y: 140, width: 820, height: 720 }
    );
}

#[test]
fn progress_bars_and_small_labels() {
    assert_eq!(progress_bar(50, 10), "|||||.....");
    assert_eq!(progress_bar(0, 3), "...");
    assert_eq!(progress_bar(250, 2), "|||||");
    assert_eq!(yes_no(true), "yes");
    assert_eq!(yes_no(false), "no");
    assert_eq!(
        side_panel(Rect { x: 0, y: 1, width: 100, height: 30 }),
        Rect { x: 56, y: 1, width: 44, height: 30 }
    );
    assert_eq!(TelemetryTab::Logs.index(), 3);
    assert_eq!(TelemetryTab::Overview.index(), 0);
}

#[test]
fn clock_readings_saturate_and_default_to_zero() {
    assert_eq!(millis_of_reading(None), 0);
    assert_eq!(millis_of_reading(Some(1_700_000_000_123)), 1_700_000_000_123);
    assert_eq!(millis_of_reading(Some(u128::from(u64::MAX) + 5)), u64::MAX);
}

#[test]
fn entries_are_stamped_with_the_clock_reading() {
    let e = LogEntry::new_at(LogLevel::Warn, "worker".to_owned(), "late".to_owned(), None, None, Some(1_234));
    assert_eq!(e.timestamp_ms, 1_234);
    assert_eq!(e.level, LogLevel::Warn);
    let before_epoch = LogEntry::new_at(LogLevel::Info, "clock".to_owned(), "skew".to_owned(), None, None, None);
    assert_eq!(before_epoch.timestamp_ms, 0);
}

#[test]
fn a_store_keeps_the_newest_entries_in_push_order() {
    for capacity in [0usize, 1, 3, 5] {
        let mut store = LogStore::new(capacity);
        let kept = capacity.max(1);
        for n in 0..7usize {
            store.push(LogEntry::info("worker".to_owned(), format!("entry {n}")));
            assert_eq!(store.len(), (n + 1).min(kept));
        }
        let shown: Vec<String> = store.filtered("").iter().map(|e| e.message.clone()).collect();
        let expected: Vec<String> = (7 - 7usize.min(kept)..7).map(|n| format!("entry {n}")).collect();
        assert_eq!(shown, expected);
    }
}

#[test]
fn moving_in_an_empty_folder_selects_nothing_for_any_selection() {
    let mut state = FolderState::new("/empty".to_owned(), DirectoryListing::Listed { parent: None, items: Vec::new() });
    state.selected = usize::MAX;
    state.move_selection(isize::MAX);
    assert_eq!(state.selected, 0);
}
