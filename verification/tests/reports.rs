use pheme_va::history::{bound_events, bound_reports, size_check, snapshot_check, MAX_BYTES, MAX_EVENTS};
use pheme_va::reports::{ReportStore, MAX_REPORTS};

#[test]
fn first_report_is_selected_and_a_known_run_keeps_its_place() {
    let mut store: ReportStore<u32> = ReportStore::new();
    assert_eq!(store.selected_run(), None);
    store.upsert("old".to_owned(), 1);
    store.upsert("other".to_owned(), 2);
    assert_eq!(store.run_ids(), vec!["other".to_owned(), "old".to_owned()]);
    assert_eq!(store.selected_run().as_deref(), Some("old"));
    store.upsert("old".to_owned(), 3);
    assert_eq!(store.run_ids(), vec!["other".to_owned(), "old".to_owned()]);
    assert_eq!(store.report("old"), Some(&3));
    assert_eq!(store.report("other"), Some(&2));
    assert_eq!(store.report("missing"), None);
    assert_eq!(store.selected_report(), Some(&3));
    store.select_run(Some("evicted".to_owned()));
    assert_eq!(store.selected_report(), None);
}

#[test]
fn keeps_at_most_the_limit_newest_first() {
    let mut store: ReportStore<usize> = ReportStore::new();
    for n in 0..=MAX_REPORTS {
        store.upsert(format!("run-{n:04}"), n);
    }
    assert_eq!(store.len(), MAX_REPORTS);
    let ids = store.run_ids();
    assert_eq!(ids[0], format!("run-{:04}", MAX_REPORTS));
    assert_eq!(ids[MAX_REPORTS - 1], "run-0001");
    assert_eq!(store.report("run-0000"), None);
    assert_eq!(store.report("run-0001"), Some(&1));
    assert_eq!(store.selected_run().as_deref(), Some("run-0000"));
}

#[test]
fn active_run_and_clearing() {
    let mut store: ReportStore<&str> = ReportStore::new();
    store.upsert("run-1".to_owned(), "speech");
    store.set_active_run(Some("run-2".to_owned()));
    assert_eq!(store.active_run().as_deref(), Some("run-2"));
    store.clear_runs();
    assert_eq!(store.len(), 0);
    assert_eq!(store.selected_run(), None);
    assert_eq!(store.report("run-1"), None);
    assert_eq!(store.active_run().as_deref(), Some("run-2"));
    store.set_active_run(None);
    assert_eq!(store.active_run(), None);
}

#[test]
fn history_checks_size_version_and_duplicate_runs() {
    assert_eq!(size_check(MAX_BYTES, false), Ok(()));
    assert_eq!(size_check(MAX_BYTES + 1, false), Err("history exceeds the 64 MiB limit".to_owned()));
    assert_eq!(
        size_check(MAX_BYTES + 1, true),
        Err("history exceeds the 64 MiB limit; previous snapshot retained".to_owned())
    );
    let ids = vec!["run-1".to_owned(), "run-2".to_owned()];
    assert_eq!(snapshot_check(1, &ids), Ok(()));
    assert_eq!(snapshot_check(2, &ids), Err("unsupported history version 2".to_owned()));
    let repeated = vec!["run-1".to_owned(), "run-2".to_owned(), "run-1".to_owned()];
    assert_eq!(snapshot_check(1, &repeated), Err("duplicate run IDs in history".to_owned()));
    assert_eq!(snapshot_check(1, &Vec::new()), Ok(()));
}

#[test]
fn history_keeps_the_newest_reports_and_events() {
    let mut reports: Vec<usize> = (0..MAX_REPORTS + 5).collect();
    bound_reports(&mut reports);
    assert_eq!(reports.len(), MAX_REPORTS);
    assert_eq!(reports[0], 0);
    let mut events: Vec<usize> = (0..MAX_EVENTS + 3).collect();
    bound_events(&mut events);
    assert_eq!(events.len(), MAX_EVENTS);
    assert_eq!(events[0], 3);
    assert_eq!(*events.last().unwrap(), MAX_EVENTS + 2);
    let mut few = vec![1, 2, 3];
    bound_events(&mut few);
    assert_eq!(few, vec![1, 2, 3]);
}
