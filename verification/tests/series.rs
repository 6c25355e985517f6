use pheme_va::metrics::{
    drm_card, metric_rows, only_system_battery, MetricRow, MetricScope, MetricUnit, PowerSupply, SeriesKey,
};
use pheme_va::reports::ReportStore;
use pheme_va::series::{group_series, EventStamp};

fn stamp(name: &str, unit: MetricUnit, scope: MetricScope, timestamp_ms: u64, sequence: u64) -> EventStamp {
    EventStamp {
        key: SeriesKey::of(&name.to_owned(), unit, scope, &"test".to_owned()),
        timestamp_ms,
        sequence,
    }
}

#[test]
fn grouped_events_give_category_and_metric_rows() {
    let events = vec![stamp("duration", MetricUnit::Milliseconds, MetricScope::Run, 1, 0)];
    let keys: Vec<SeriesKey> = group_series(&events).into_iter().map(|g| g.key).collect();
    let rows = metric_rows(&keys);
    assert!(matches!(rows[0], MetricRow::Category(_)));
    assert!(matches!(rows[1], MetricRow::Metric(_)));
}

#[test]
fn live_series_is_not_coupled_to_selected_run() {
    let events = vec![
        stamp("duration", MetricUnit::Milliseconds, MetricScope::Run, 1, 0),
        stamp("duration", MetricUnit::Milliseconds, MetricScope::Run, 1, 0),
    ];
    let mut reports: ReportStore<()> = ReportStore::new();
    reports.select_run(Some("run-1".to_owned()));
    assert_eq!(group_series(&events)[0].members.len(), 2);
}

#[test]
fn series_follow_category_name_scope_and_source_and_events_follow_time() {
    let events = vec![
        stamp("cpu", MetricUnit::Percent, MetricScope::System, 30, 0),
        stamp("transcription", MetricUnit::Milliseconds, MetricScope::Run, 10, 0),
        stamp("cpu", MetricUnit::Percent, MetricScope::Process, 20, 0),
        stamp("cpu", MetricUnit::Percent, MetricScope::System, 10, 5),
        stamp("audio", MetricUnit::Milliseconds, MetricScope::Run, 5, 0),
        stamp("cpu", MetricUnit::Percent, MetricScope::System, 10, 2),
        stamp("cpu", MetricUnit::Percent, MetricScope::System, 10, 2),
    ];
    let groups = group_series(&events);
    let names: Vec<(String, MetricScope)> = groups.iter().map(|g| (g.key.name.clone(), g.key.scope)).collect();
    assert_eq!(
        names,
        vec![
            ("cpu".to_owned(), MetricScope::Process),
            ("cpu".to_owned(), MetricScope::System),
            ("audio".to_owned(), MetricScope::Run),
            ("transcription".to_owned(), MetricScope::Run),
        ]
    );
    assert_eq!(groups[0].key.category, "Resources");
    assert_eq!(groups[2].key.category, "Timing");
    assert_eq!(groups[1].members, vec![5, 6, 3, 0]);
    assert_eq!(groups[2].members, vec![4]);
    assert!(group_series(&Vec::new()).is_empty());
}

#[test]
fn only_numbered_drm_cards_and_a_single_system_battery_count() {
    assert!(drm_card("card0"));
    assert!(drm_card("card12"));
    assert!(!drm_card("card1-DP-1"));
    assert!(!drm_card("renderD128"));
    assert!(!drm_card("card"));
    let supply = |path: &str, kind: Option<&str>, scope: Option<&str>, present: Option<&str>| PowerSupply {
        path: path.to_owned(),
        kind: kind.map(str::to_owned),
        scope: scope.map(str::to_owned),
        present: present.map(str::to_owned),
    };
    let message = "battery drain requires exactly one present system battery; absent or multiple batteries are not aggregated";
    assert_eq!(only_system_battery(&Vec::new()), Err(message.to_owned()));
    let mut supplies = vec![supply("AC", Some("Mains"), None, None), supply("BAT0", Some("Battery"), None, None)];
    assert_eq!(only_system_battery(&supplies), Ok(1));
    supplies.push(supply("BAT1", Some("Battery"), None, None));
    assert_eq!(only_system_battery(&supplies), Err(message.to_owned()));
    supplies[2].scope = Some("Device".to_owned());
    assert_eq!(only_system_battery(&supplies), Ok(1));
    supplies[1].present = Some("0".to_owned());
    assert_eq!(only_system_battery(&supplies), Err(message.to_owned()));
}
