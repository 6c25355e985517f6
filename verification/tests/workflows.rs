use pheme_va::batch::{plan_batches, BatchQueue, EventKey};
use pheme_va::build_task::{
    cancel, on_build_exit, on_build_spawn_failed, on_cache_reply, on_poll_failed, on_probe_exit,
    on_probe_output, outcome, BuildAction, BuildState, CacheReply,
};
use pheme_va::metrics::{
    metric_rows, moved_selection, selected_metric_index, MetricRow, MetricScope, MetricUnit,
    SeriesKey,
};
use pheme_va::zipformer::{TokenVocabulary, ZipformerError};

fn event(experiment: Option<&str>, run: &str, sequence: u64) -> EventKey {
    EventKey {
        experiment_id: experiment.map(str::to_owned),
        run_id: run.to_owned(),
        sequence,
    }
}

#[test]
fn groups_events_by_run_and_sorts_sequences() {
    let keys = vec![
        event(Some("exp-1"), "run-1", 2),
        event(Some("exp-1"), "run-2", 1),
        event(Some("exp-1"), "run-1", 0),
    ];
    let batches = plan_batches(&keys);
    assert_eq!(batches.len(), 2);
    let first = batches.iter().find(|batch| batch.run_id == "run-1").unwrap();
    assert_eq!(
        first.members.iter().map(|index| keys[*index].sequence).collect::<Vec<_>>(),
        vec![0, 2]
    );
    assert!(plan_batches(&Vec::new()).is_empty());
}

#[test]
fn batches_follow_experiment_then_run_order() {
    let keys = vec![
        event(Some("b"), "r", 5),
        event(None, "z", 1),
        event(Some("a"), "r", 3),
        event(None, "z", 1),
        event(Some("a"), "q", 9),
    ];
    let batches = plan_batches(&keys);
    let order: Vec<(Option<&str>, &str)> = batches
        .iter()
        .map(|batch| (batch.experiment_id.as_deref(), batch.run_id.as_str()))
        .collect();
    assert_eq!(order, vec![(None, "z"), (Some("a"), "q"), (Some("a"), "r"), (Some("b"), "r")]);
    assert_eq!(batches[0].members, vec![1, 3]);
}

#[test]
fn cache_hit_finishes_the_build_without_cargo() {
    let state = BuildState::Probing { output: None };
    let state = on_probe_output(state, Ok("rustc 1.80\nhost: x86_64-unknown-linux-gnu\n".to_owned()));
    let (state, action) = on_probe_exit(state, true, "exit status: 0");
    assert_eq!(action, BuildAction::PrepareCache { host: "x86_64-unknown-linux-gnu".to_owned() });
    let (state, action) = on_cache_reply(state, CacheReply::Ready("/cache/cli".to_owned()));
    assert_eq!(action, BuildAction::Wait);
    assert_eq!(outcome(&state), Some(Ok("/cache/cli".to_owned())));
    let (state, action) = cancel(state);
    assert_eq!(action, BuildAction::Wait);
    assert_eq!(outcome(&state), Some(Ok("/cache/cli".to_owned())));
}

#[test]
fn poll_reports_success_failure_and_missing_binary() {
    let building = || BuildState::Building { binary: "/t/cli".to_owned(), cache_held: false };
    let (state, _) = on_build_exit(building(), true, "exit status: 0", true);
    assert_eq!(outcome(&state), Some(Ok("/t/cli".to_owned())));
    let (state, _) = on_build_exit(building(), false, "exit status: 101", true);
    assert_eq!(
        outcome(&state),
        Some(Err("Cargo adapter build failed (exit status: 101); see native logs".to_owned()))
    );
    let (state, _) = on_build_exit(building(), true, "exit status: 0", false);
    assert_eq!(
        outcome(&state),
        Some(Err("Cargo succeeded but executable is missing: /t/cli".to_owned()))
    );
    let held = BuildState::Building { binary: "/t/cli".to_owned(), cache_held: true };
    let (state, action) = on_build_exit(held, true, "exit status: 0", true);
    assert_eq!(action, BuildAction::PublishCache);
    assert!(outcome(&state).is_none());
}

#[test]
fn failed_or_invalid_host_probe_never_starts_cargo() {
    let (state, action) = on_probe_exit(BuildState::Probing { output: None }, false, "exit status: 1");
    assert_eq!(action, BuildAction::Wait);
    assert_eq!(
        outcome(&state),
        Some(Err("native Rust target query failed (exit status: 1)".to_owned()))
    );
    let state = on_probe_output(BuildState::Probing { output: None }, Ok("host: ../x".to_owned()));
    let (state, action) = on_probe_exit(state, true, "exit status: 0");
    assert_eq!(action, BuildAction::Wait);
    assert_eq!(
        outcome(&state),
        Some(Err("Rust compiler reported an invalid host target".to_owned()))
    );
    let (state, _) = on_probe_exit(BuildState::Probing { output: None }, true, "exit status: 0");
    assert_eq!(outcome(&state), Some(Err("missing Rust target query output".to_owned())));
}

#[test]
fn cache_miss_starts_cargo_and_failures_finish_the_build() {
    let (state, action) = on_cache_reply(BuildState::Caching, CacheReply::Miss { binary: "/t/h/release/cli".to_owned() });
    assert_eq!(action, BuildAction::StartBuild { host_binary: "/t/h/release/cli".to_owned() });
    assert!(outcome(&state).is_none());
    let failed = on_build_spawn_failed(state, "no cargo");
    assert_eq!(
        outcome(&failed),
        Some(Err("could not start Cargo adapter build: no cargo".to_owned()))
    );
    let (state, action) = on_cache_reply(BuildState::Caching, CacheReply::Disconnected);
    assert_eq!(action, BuildAction::Wait);
    assert_eq!(
        outcome(&state),
        Some(Err("adapter cache worker stopped unexpectedly".to_owned()))
    );
    let (state, action) = on_poll_failed(BuildState::Probing { output: None }, "gone");
    assert_eq!(action, BuildAction::Kill);
    assert_eq!(
        outcome(&state),
        Some(Err("could not poll Cargo adapter build: gone".to_owned()))
    );
}

#[test]
fn cancelling_cache_work_cannot_start_a_build_or_restart() {
    let (state, action) = cancel(BuildState::Caching);
    assert_eq!(action, BuildAction::Wait);
    assert!(matches!(outcome(&state), Some(Err(message)) if message.contains("cancelled")));
    let (state, action) = on_cache_reply(state, CacheReply::Ready("/unused".to_owned()));
    assert_eq!(action, BuildAction::Wait);
    assert!(matches!(outcome(&state), Some(Err(message)) if message.contains("cancelled")));
    let (state, action) = cancel(BuildState::Building { binary: "/b".to_owned(), cache_held: true });
    assert_eq!(action, BuildAction::Kill);
    assert_eq!(outcome(&state), Some(Err("adapter build cancelled".to_owned())));
}

fn key(name: &str, unit: MetricUnit) -> SeriesKey {
    SeriesKey::of(&name.to_owned(), unit, MetricScope::Run, &"core".to_owned())
}

#[test]
fn metric_rows_include_categories() {
    let keys = vec![
        key("a_count", MetricUnit::Count),
        key("b_count", MetricUnit::Count),
        key("latency", MetricUnit::Milliseconds),
    ];
    let rows = metric_rows(&keys);
    let shape: Vec<String> = rows
        .iter()
        .map(|row| match row {
            MetricRow::Category(category) => format!("# {category}"),
            MetricRow::Metric(key) => key.name.clone(),
        })
        .collect();
    assert_eq!(shape, vec!["# Counts", "a_count", "b_count", "# Timing", "latency"]);
    assert_eq!(selected_metric_index(&rows, &None), 1);
    assert_eq!(selected_metric_index(&rows, &Some(key("latency", MetricUnit::Milliseconds))), 4);
    assert_eq!(selected_metric_index(&rows, &Some(key("gone", MetricUnit::Count))), 1);
    assert_eq!(moved_selection(&rows, &None, 1), Some(2));
    assert_eq!(moved_selection(&rows, &None, 5), Some(4));
    assert_eq!(moved_selection(&rows, &Some(key("latency", MetricUnit::Milliseconds)), -1), Some(2));
    assert_eq!(moved_selection(&rows, &None, -3), Some(1));
    assert_eq!(moved_selection(&Vec::new(), &None, 1), None);
}

fn token_list(skip: Option<usize>, extra: &str) -> String {
    let mut lines = Vec::new();
    for id in 0..500 {
        if Some(id) != skip {
            lines.push(format!("tok{id} {id}"));
        }
    }
    format!("{}\n{extra}", lines.join("\n"))
}

#[test]
fn reads_token_lists_and_reports_their_first_problem() {
    let vocabulary = TokenVocabulary::from_contents("tokens.txt", &token_list(None, "<aux> 500\n\n")).unwrap();
    assert_eq!(vocabulary.len(), 500);
    assert_eq!(vocabulary.decode_ids(&[7, 7, 0, 12]).unwrap(), "tok7tok12");
    let invalid = |contents: &str| match TokenVocabulary::from_contents("t.txt", contents) {
        Err(ZipformerError::InvalidTokens { path, message }) => {
            assert_eq!(path, "t.txt");
            message
        }
        other => panic!("unexpected {other:?}"),
    };
    assert_eq!(invalid(&token_list(Some(3), "")), "missing token IDs: [3]");
    assert_eq!(invalid("a 0\nlonely\n"), "line 2 is missing a token ID");
    assert_eq!(invalid("\n\na x\n"), "line 3 has an invalid token ID: invalid digit found in string");
    assert_eq!(
        invalid("a 99999999999999999999999\n"),
        "line 1 has an invalid token ID: number too large to fit in target type"
    );
    assert_eq!(invalid("a 4\nb +4\n"), "token ID 4 occurs more than once");
    assert!(invalid("").starts_with("missing token IDs: [0, 1, 2,"));
}

#[test]
fn a_finished_build_answers_every_later_poll_the_same() {
    let mut state = BuildState::Finished(Err("Cargo adapter build failed (exit status: 1); see native logs".to_owned()));
    let first = outcome(&state);
    for round in 0..3 {
        let (next, action) = on_cache_reply(state, CacheReply::Ready("/bin/other".to_owned()));
        assert_eq!(action, BuildAction::Wait);
        let (next, action) = on_probe_exit(next, true, "exit status: 0");
        assert_eq!(action, BuildAction::Wait);
        let (next, action) = on_build_exit(next, true, "exit status: 0", true);
        assert_eq!(action, BuildAction::Wait);
        let (next, action) = on_poll_failed(next, "gone");
        assert_eq!(action, BuildAction::Wait);
        let next = on_build_spawn_failed(next, "no cargo");
        let next = on_probe_output(next, Ok("host: x86_64-unknown-linux-gnu".to_owned()));
        let (next, action) = cancel(next);
        assert_eq!(action, BuildAction::Wait);
        assert_eq!(outcome(&next), first, "round {round}");
        state = next;
    }
}

#[test]
fn drains_empty_the_queue_and_number_batches_upward() {
    let mut queue: BatchQueue<EventKey> = BatchQueue::new();
    queue.on_event(event(Some("exp-1"), "run-1", 2));
    queue.on_event(event(Some("exp-1"), "run-2", 1));
    queue.on_event(event(Some("exp-1"), "run-1", 0));
    assert_eq!(queue.pending_events(), 3);
    let first_events = queue.take_pending();
    assert_eq!(queue.pending_events(), 0);
    let first_plan = plan_batches(&first_events);
    assert_eq!(first_plan.len(), 2);
    let first = queue.reserve_numbers(first_plan.len() as u64);
    assert_eq!(first, 0);
    assert!(queue.take_pending().is_empty());
    assert_eq!(queue.reserve_numbers(0), 2);
    queue.on_event(event(None, "run-3", 5));
    let second_events = queue.take_pending();
    let second = queue.reserve_numbers(plan_batches(&second_events).len() as u64);
    assert_eq!(second, 2);
    assert_eq!(queue.reserve_numbers(0), 3);
}
