//! Key handling of the terminal interface: which screen, tab, detail view,
//! filter and message a key press leads to, and which outside work (loading
//! a model, recording, reading a folder, clearing the run history) it asks
//! the interface to do.
use vstd::prelude::*;
use crate::metrics::{copy_key, series_equal, MetricScope, MetricUnit, SeriesKey};
use crate::text::{chars_of, copy_string, push_char, str_eq, string_of, trim, trim_chars, without_last};
use crate::tui::{Screen, TelemetryTab};

verus! {

/// A key press, as the interface tells keys apart.
#[derive(Clone, Copy, Debug, PartialEq, Eq, Structural)]
pub enum Key {
    Char(char),
    Enter,
    Esc,
    Up,
    Down,
    PageUp,
    PageDown,
    Backspace,
    Other,
}

/// A series key as plain values.
pub open spec fn key_view(k: SeriesKey) -> (Seq<char>, Seq<char>, MetricScope, Seq<char>, MetricUnit) {
    (k.name@, k.category@, k.scope, k.source@, k.unit)
}

/// Series keys as plain values.
pub open spec fn keys_view(v: Seq<SeriesKey>) -> Seq<(Seq<char>, Seq<char>, MetricScope, Seq<char>, MetricUnit)> {
    v.map_values(|k: SeriesKey| key_view(k))
}

/// An optional string as an optional character sequence.
pub open spec fn opt_text(o: Option<String>) -> Option<Seq<char>> {
    match o {
        Some(s) => Some(s@),
        None => None,
    }
}

/// An optional series key as plain values.
pub open spec fn opt_key(o: Option<SeriesKey>) -> Option<(Seq<char>, Seq<char>, MetricScope, Seq<char>, MetricUnit)> {
    match o {
        Some(k) => Some(key_view(k)),
        None => None,
    }
}

/// `s` without its last character; the empty sequence stays empty.
pub open spec fn backspaced(s: Seq<char>) -> Seq<char> {
    if s.len() == 0 {
        s
    } else {
        s.drop_last()
    }
}

/// The state of the interface that keys change.
pub struct Navigation {
    pub screen: Screen,
    /// The screen that help and telemetry return to.
    pub previous_screen: Screen,
    pub telemetry_tab: TelemetryTab,
    pub scroll: u16,
    /// Whether the selected live metric is shown in detail.
    pub metric_detail: bool,
    /// Whether the selected saved run is shown in detail.
    pub run_detail: bool,
    /// The run whose saved metrics the run detail shows.
    pub historical_run: Option<String>,
    /// The series of that run that is selected.
    pub historical_metric: Option<SeriesKey>,
    /// Whether the selected series of the run is shown in detail.
    pub historical_detail: bool,
    pub historical_scroll: u16,
    /// Set when the run shown in detail changed: the interface resets its
    /// table of the run's metrics and clears the flag.
    pub run_table_reset: bool,
    pub filter_query: String,
    pub filter_editing: bool,
    /// Whether clearing the saved runs waits for confirmation.
    pub clear_runs_pending: bool,
    /// Whether the saved runs are being cleared.
    pub clear_runs_inflight: bool,
    pub should_quit: bool,
    pub status_message: String,
    pub error_message: Option<String>,
    pub directory_input: String,
    pub directory_input_error: Option<String>,
}

/// The state of the interface that keys change, as plain values.
#[verifier::ext_equal]
pub struct NavView {
    pub screen: Screen,
    pub previous_screen: Screen,
    pub telemetry_tab: TelemetryTab,
    pub scroll: u16,
    pub metric_detail: bool,
    pub run_detail: bool,
    pub historical_run: Option<Seq<char>>,
    pub historical_metric: Option<(Seq<char>, Seq<char>, MetricScope, Seq<char>, MetricUnit)>,
    pub historical_detail: bool,
    pub historical_scroll: u16,
    pub run_table_reset: bool,
    pub filter_query: Seq<char>,
    pub filter_editing: bool,
    pub clear_runs_pending: bool,
    pub clear_runs_inflight: bool,
    pub should_quit: bool,
    pub status_message: Seq<char>,
    pub error_message: Option<Seq<char>>,
    pub directory_input: Seq<char>,
    pub directory_input_error: Option<Seq<char>>,
}

impl View for Navigation {
    type V = NavView;

    open spec fn view(&self) -> NavView {
        NavView {
            screen: self.screen,
            previous_screen: self.previous_screen,
            telemetry_tab: self.telemetry_tab,
            scroll: self.scroll,
            metric_detail: self.metric_detail,
            run_detail: self.run_detail,
            historical_run: opt_text(self.historical_run),
            historical_metric: opt_key(self.historical_metric),
            historical_detail: self.historical_detail,
            historical_scroll: self.historical_scroll,
            run_table_reset: self.run_table_reset,
            filter_query: self.filter_query@,
            filter_editing: self.filter_editing,
            clear_runs_pending: self.clear_runs_pending,
            clear_runs_inflight: self.clear_runs_inflight,
            should_quit: self.should_quit,
            status_message: self.status_message@,
            error_message: opt_text(self.error_message),
            directory_input: self.directory_input@,
            directory_input_error: opt_text(self.directory_input_error),
        }
    }
}

/// A filter key: typing edits the query, Enter or Esc ends editing; the
/// view scrolls back to the top.
pub open spec fn filter_step(v: NavView, k: Key) -> NavView {
    let v = NavView { scroll: 0, ..v };
    match k {
        Key::Char(c) => NavView { filter_query: v.filter_query.push(c), ..v },
        Key::Backspace => NavView { filter_query: backspaced(v.filter_query), ..v },
        Key::Enter | Key::Esc => NavView { filter_editing: false, ..v },
        _ => v,
    }
}

/// Facts about the rest of the interface when a key arrives.
pub struct Surroundings {
    /// Whether an adapter build runs.
    pub build_running: bool,
    /// Whether a model download runs.
    pub download_running: bool,
    /// Whether a request to the worker awaits its answer.
    pub request_pending: bool,
    /// Whether the microphone records.
    pub recording: bool,
    /// Whether the telemetry store has a run in progress.
    pub run_in_progress: bool,
    /// Whether saved runs are stored anywhere.
    pub history_available: bool,
    /// Whether a model is loaded.
    pub model_active: bool,
    /// Whether the metric list has a selected metric.
    pub metric_selected: bool,
    /// Whether the selected run has a saved report.
    pub report_selected: bool,
    /// The selected saved run.
    pub selected_run: Option<String>,
    /// The metric series of the selected run, in display order.
    pub run_series: Vec<SeriesKey>,
    /// The saved runs, newest first.
    pub run_ids: Vec<String>,
    /// The directory the folder browser shows.
    pub folder_directory: String,
}

/// Facts about the rest of the interface, as plain values.
pub struct SurroundView {
    pub build_running: bool,
    pub download_running: bool,
    pub request_pending: bool,
    pub recording: bool,
    pub run_in_progress: bool,
    pub history_available: bool,
    pub model_active: bool,
    pub metric_selected: bool,
    pub report_selected: bool,
    pub selected_run: Option<Seq<char>>,
    pub run_series: Seq<(Seq<char>, Seq<char>, MetricScope, Seq<char>, MetricUnit)>,
    pub run_ids: Seq<Seq<char>>,
    pub folder_directory: Seq<char>,
}

impl View for Surroundings {
    type V = SurroundView;

    open spec fn view(&self) -> SurroundView {
        SurroundView {
            build_running: self.build_running,
            download_running: self.download_running,
            request_pending: self.request_pending,
            recording: self.recording,
            run_in_progress: self.run_in_progress,
            history_available: self.history_available,
            model_active: self.model_active,
            metric_selected: self.metric_selected,
            report_selected: self.report_selected,
            selected_run: opt_text(self.selected_run),
            run_series: keys_view(self.run_series@),
            run_ids: self.run_ids@.map_values(|r: String| r@),
            folder_directory: self.folder_directory@,
        }
    }
}

/// Outside work that a key asks of the interface.
#[derive(Clone, Copy, Debug, PartialEq, Eq, Structural)]
pub enum Command {
    Nothing,
    /// Discard any recording and leave.
    Quit,
    /// Clear the stored run history.
    ClearHistory,
    /// Move the model picker's selection.
    MoveCatalog(isize),
    /// Act on the model selected in the picker.
    ChooseCatalogModel,
    /// Read the model manifest again and probe the adapter cache.
    RescanCatalog,
    /// Stop the model download.
    CancelDownload,
    /// Stop the adapter build.
    CancelBuild,
    /// Load the model whose load is pending, if any.
    ReloadModel,
    StartRecording,
    /// Read the folder again before it is shown.
    OpenFolder,
    /// Transcribe the folder's next WAV file.
    PlayNextWav,
    /// Transcribe the last audio again.
    RetryLast,
    /// Select the model in use in the picker.
    ShowCatalog,
    MoveFolder(isize),
    /// Open the selected folder entry.
    EnterFolderEntry,
    RefreshFolder,
    StopRecording,
    /// Discard the recording and record the run as failed.
    DiscardRecording,
    /// Move the live metric selection.
    MoveMetric(isize),
    /// Select the saved run at this position, then show its metrics.
    SelectRun(usize),
    ClearLogs,
    /// Switch the folder browser to the typed directory.
    SubmitDirectory,
}

/// Whether a run is under way: a request, a recording or a run in the
/// telemetry store.
pub open spec fn run_active(c: SurroundView) -> bool {
    c.request_pending || c.recording || c.run_in_progress
}

/// Whether a build or a download runs.
pub open spec fn busy(c: SurroundView) -> bool {
    c.build_running || c.download_running
}

/// The series of the selected run; none where no run is selected.
pub open spec fn shown_series(c: SurroundView) -> Seq<(Seq<char>, Seq<char>, MetricScope, Seq<char>, MetricUnit)> {
    if c.selected_run is None {
        seq![]
    } else {
        c.run_series
    }
}

/// The first position at or after `i` where `s` holds `x`.
pub open spec fn first_from<T>(s: Seq<T>, x: T, i: int) -> Option<int>
    decreases s.len() - i,
{
    if i < 0 || i >= s.len() {
        None
    } else if s[i] == x {
        Some(i)
    } else {
        first_from(s, x, i + 1)
    }
}

/// The first position where `s` holds `x`, or 0.
pub open spec fn position_or_start<T>(s: Seq<T>, x: Option<T>) -> int {
    match x {
        Some(y) => match first_from(s, y, 0) {
            Some(i) => i,
            None => 0,
        },
        None => 0,
    }
}

/// A new selected run resets the run detail view.
pub open spec fn run_synced(v: NavView, run: Option<Seq<char>>) -> NavView {
    if v.historical_run != run {
        NavView {
            historical_run: run,
            historical_metric: None,
            historical_detail: false,
            historical_scroll: 0,
            scroll: 0,
            run_table_reset: true,
            ..v
        }
    } else {
        v
    }
}

/// A selected series that the run lacks gives way to the run's first series.
pub open spec fn metric_synced(
    v: NavView,
    series: Seq<(Seq<char>, Seq<char>, MetricScope, Seq<char>, MetricUnit)>,
) -> NavView {
    let kept = match v.historical_metric {
        Some(k) => series.contains(k),
        None => false,
    };
    if kept {
        v
    } else {
        NavView {
            historical_metric: if series.len() > 0 {
                Some(series[0])
            } else {
                None
            },
            historical_detail: false,
            historical_scroll: 0,
            ..v
        }
    }
}

/// The run detail follows the selected run: a new run resets the detail
/// view, and a series that the run lacks gives way to its first series.
#[verifier::opaque]
pub open spec fn synced(
    v: NavView,
    run: Option<Seq<char>>,
    series: Seq<(Seq<char>, Seq<char>, MetricScope, Seq<char>, MetricUnit)>,
) -> NavView {
    metric_synced(run_synced(v, run), series)
}

/// The screen that help, errors and telemetry return to.
pub open spec fn back_screen(v: NavView, c: SurroundView) -> NavView {
    NavView {
        screen: if busy(c) {
            Screen::Loading
        } else if v.previous_screen == Screen::Telemetry {
            Screen::Bench
        } else {
            v.previous_screen
        },
        scroll: 0,
        ..v
    }
}

/// The telemetry screen, on its log tab while a build or download runs.
pub open spec fn opened_telemetry(v: NavView, c: SurroundView) -> NavView {
    NavView {
        previous_screen: v.screen,
        telemetry_tab: if busy(c) {
            TelemetryTab::Logs
        } else {
            TelemetryTab::Overview
        },
        scroll: 0,
        screen: Screen::Telemetry,
        ..v
    }
}

/// The view scrolled one line down or up.
pub open spec fn scrolled(v: NavView, down: bool) -> NavView {
    NavView {
        scroll: if down {
            v.scroll.saturating_add(1)
        } else {
            v.scroll.saturating_sub(1)
        },
        ..v
    }
}

/// The next saved run, cyclically, from the selected one (or the first).
pub open spec fn cycled(v: NavView, c: SurroundView, forward: bool) -> (NavView, Command) {
    let n = c.run_ids.len();
    if n == 0 {
        (v, Command::Nothing)
    } else {
        let cur = match c.selected_run {
            Some(r) => match first_from(c.run_ids, r, 0) {
                Some(i) => i,
                None => 0,
            },
            None => 0,
        };
        let next = if forward {
            if cur + 1 == n {
                0
            } else {
                cur + 1
            }
        } else {
            if cur == 0 {
                n - 1
            } else {
                cur - 1
            }
        };
        (NavView { scroll: 0, ..v }, Command::SelectRun(next as usize))
    }
}

/// The next or previous series of the selected run, staying on its series.
pub open spec fn moved_historical(v: NavView, c: SurroundView, forward: bool) -> NavView {
    let series = shown_series(c);
    let s = synced(v, c.selected_run, series);
    if c.selected_run is None || series.len() == 0 {
        s
    } else {
        let cur = position_or_start(series, s.historical_metric);
        let next = crate::folder::clamp(
            if forward {
                cur + 1
            } else {
                cur - 1
            },
            0,
            series.len() - 1,
        );
        NavView { historical_metric: Some(series[next]), historical_scroll: 0, ..s }
    }
}

/// The first position of `r` among the runs.
fn find_run(runs: &Vec<String>, r: &String) -> (i: Option<usize>)
    ensures
        match i {
            Some(j) => first_from(runs@.map_values(|s: String| s@), r@, 0) == Some(j as int),
            None => first_from(runs@.map_values(|s: String| s@), r@, 0) is None,
        },
{
    let ghost rv = runs@.map_values(|s: String| s@);
    let mut i: usize = 0;
    while i < runs.len()
        invariant
            i <= runs.len(),
            rv == runs@.map_values(|s: String| s@),
            first_from(rv, r@, 0) == first_from(rv, r@, i as int),
        decreases runs.len() - i,
    {
        if str_eq(runs[i].as_str(), r.as_str()) {
            return Some(i);
        }
        i += 1;
    }
    None
}

/// The first position of `k` among the series.
fn find_key(series: &Vec<SeriesKey>, k: &SeriesKey) -> (i: Option<usize>)
    ensures
        match i {
            Some(j) => first_from(keys_view(series@), key_view(*k), 0) == Some(j as int),
            None => first_from(keys_view(series@), key_view(*k), 0) is None,
        },
{
    let ghost sv = keys_view(series@);
    let mut i: usize = 0;
    while i < series.len()
        invariant
            i <= series.len(),
            sv == keys_view(series@),
            first_from(sv, key_view(*k), 0) == first_from(sv, key_view(*k), i as int),
        decreases series.len() - i,
    {
        if series_equal(&series[i], k) {
            return Some(i);
        }
        i += 1;
    }
    None
}

proof fn lemma_first_from_contains<T>(s: Seq<T>, x: T, i: int)
    requires
        0 <= i <= s.len(),
    ensures
        (first_from(s, x, i) is Some) == (exists|j: int| i <= j < s.len() && s[j] == x),
        first_from(s, x, i) matches Some(j) ==> i <= j < s.len() && s[j] == x,
    decreases s.len() - i,
{
    if i < s.len() {
        lemma_first_from_contains(s, x, i + 1);
    }
}

/// The position of the next or previous series after `current`, staying
/// on the series.
fn historical_target(series: &Vec<SeriesKey>, current: &Option<SeriesKey>, forward: bool) -> (r: usize)
    requires
        series.len() > 0,
    ensures
        r == crate::folder::clamp(
            if forward {
                position_or_start(keys_view(series@), opt_key(*current)) + 1
            } else {
                position_or_start(keys_view(series@), opt_key(*current)) - 1
            },
            0,
            series.len() - 1,
        ),
        r < series.len(),
{
    let len = series.len();
    let cur: usize = match current {
        Some(k) => match find_key(series, k) {
            Some(i) => {
                proof {
                    lemma_first_from_contains(keys_view(series@), key_view(*k), 0);
                }
                i
            },
            None => 0,
        },
        None => 0,
    };
    if forward {
        if cur + 1 >= len {
            len - 1
        } else {
            cur + 1
        }
    } else {
        if cur == 0 {
            0
        } else {
            cur - 1
        }
    }
}

/// Whether both optional strings are absent, or present with equal text.
fn same_opt_text(a: &Option<String>, b: &Option<String>) -> (r: bool)
    ensures
        r == (opt_text(*a) == opt_text(*b)),
{
    match (a, b) {
        (Some(x), Some(y)) => str_eq(x.as_str(), y.as_str()),
        (None, None) => true,
        _ => false,
    }
}


/// A key on the welcome screen.
pub open spec fn welcome_step(v: NavView, k: Key) -> (NavView, Command) {
    match k {
        Key::Enter | Key::Char('r') => (
            NavView { screen: Screen::Picker, error_message: None, ..v },
            Command::Nothing,
        ),
        Key::Esc => (NavView { should_quit: true, ..v }, Command::Nothing),
        _ => (v, Command::Nothing),
    }
}

/// A key in the model picker.
pub open spec fn picker_step(v: NavView, c: SurroundView, k: Key) -> (NavView, Command) {
    match k {
        Key::Up | Key::Char('k') => (v, Command::MoveCatalog(-1isize)),
        Key::Down | Key::Char('j') => (v, Command::MoveCatalog(1isize)),
        Key::Enter => (v, Command::ChooseCatalogModel),
        Key::Char('r') => (v, Command::RescanCatalog),
        Key::Esc => (
            NavView {
                screen: if c.model_active {
                    Screen::Bench
                } else {
                    Screen::Welcome
                },
                ..v
            },
            Command::Nothing,
        ),
        _ => (v, Command::Nothing),
    }
}

/// A key while a model loads, downloads or builds: Esc stops a download
/// or build; otherwise, once no request is pending, `r` loads again, `m`
/// opens the picker and Esc goes back.
pub open spec fn loading_step(v: NavView, c: SurroundView, k: Key) -> (NavView, Command) {
    if c.download_running {
        if k == Key::Esc {
            (NavView { screen: Screen::Picker, ..v }, Command::CancelDownload)
        } else {
            (v, Command::Nothing)
        }
    } else if c.build_running {
        if k == Key::Esc {
            (NavView { screen: Screen::Picker, ..v }, Command::CancelBuild)
        } else {
            (v, Command::Nothing)
        }
    } else if c.request_pending {
        (v, Command::Nothing)
    } else {
        match k {
            Key::Char('r') => (v, Command::ReloadModel),
            Key::Char('m') => (NavView { screen: Screen::Picker, ..v }, Command::Nothing),
            Key::Esc => (back_screen(v, c), Command::Nothing),
            _ => (v, Command::Nothing),
        }
    }
}

/// Scrolling keys: `j` or Down scrolls down, `k` or Up scrolls up.
pub open spec fn scroll_step(v: NavView, k: Key) -> NavView {
    match k {
        Key::Char('j') | Key::Down => scrolled(v, true),
        Key::Char('k') | Key::Up => scrolled(v, false),
        _ => v,
    }
}

/// A key on the bench, the main screen; while a request is pending only
/// scrolling works.
pub open spec fn bench_step(v: NavView, c: SurroundView, k: Key) -> (NavView, Command) {
    if c.request_pending {
        (scroll_step(v, k), Command::Nothing)
    } else {
        match k {
            Key::Char('l') => (v, Command::StartRecording),
            Key::Char('f') => (NavView { screen: Screen::Folder, scroll: 0, ..v }, Command::OpenFolder),
            Key::Char('n') => (v, Command::PlayNextWav),
            Key::Char('r') => (v, Command::RetryLast),
            Key::Char('m') => (NavView { screen: Screen::Picker, ..v }, Command::ShowCatalog),
            Key::Esc => (NavView { error_message: None, ..v }, Command::Nothing),
            _ => (scroll_step(v, k), Command::Nothing),
        }
    }
}

/// A key in the folder browser.
pub open spec fn folder_step(v: NavView, c: SurroundView, k: Key) -> (NavView, Command) {
    match k {
        Key::Up | Key::Char('k') => (v, Command::MoveFolder(-1isize)),
        Key::Down | Key::Char('j') => (v, Command::MoveFolder(1isize)),
        Key::Enter => (v, Command::EnterFolderEntry),
        Key::Char('d') => (
            NavView {
                directory_input: c.folder_directory,
                directory_input_error: None,
                screen: Screen::DirectoryInput,
                ..v
            },
            Command::Nothing,
        ),
        Key::Char('r') => (v, Command::RefreshFolder),
        Key::Esc => (NavView { screen: Screen::Bench, ..v }, Command::Nothing),
        _ => (v, Command::Nothing),
    }
}

/// A key while recording: Enter or space stops, Esc discards.
pub open spec fn recording_step(v: NavView, k: Key) -> (NavView, Command) {
    match k {
        Key::Enter | Key::Char(' ') => (v, Command::StopRecording),
        Key::Esc => (
            NavView { status_message: "recording discarded"@, screen: Screen::Bench, ..v },
            Command::DiscardRecording,
        ),
        _ => (v, Command::Nothing),
    }
}

/// A key while the directory is typed.
pub open spec fn directory_step(v: NavView, k: Key) -> (NavView, Command) {
    match k {
        Key::Char(ch) => (NavView { directory_input: v.directory_input.push(ch), ..v }, Command::Nothing),
        Key::Backspace => (
            NavView { directory_input: backspaced(v.directory_input), ..v },
            Command::Nothing,
        ),
        Key::Enter => (v, Command::SubmitDirectory),
        Key::Esc => (
            NavView { directory_input_error: None, screen: Screen::Folder, ..v },
            Command::Nothing,
        ),
        _ => (v, Command::Nothing),
    }
}

/// A key on the help screen.
pub open spec fn help_step(v: NavView, c: SurroundView, k: Key) -> NavView {
    match k {
        Key::Esc | Key::Char('?') => back_screen(v, c),
        _ => scroll_step(v, k),
    }
}

/// A key on the error screen.
pub open spec fn error_step(v: NavView, c: SurroundView, k: Key) -> (NavView, Command) {
    match k {
        Key::Char('r') => (v, Command::ReloadModel),
        Key::Char('m') => (NavView { screen: Screen::Picker, ..v }, Command::Nothing),
        Key::Esc => (back_screen(v, c), Command::Nothing),
        _ => (v, Command::Nothing),
    }
}


/// A key while a live metric is shown in detail.
pub open spec fn metric_detail_step(v: NavView, k: Key) -> (NavView, Command) {
    match k {
        Key::Esc => (NavView { metric_detail: false, ..v }, Command::Nothing),
        Key::Char('j') | Key::Down | Key::Char('n') => (v, Command::MoveMetric(1isize)),
        Key::Char('k') | Key::Up | Key::Char('N') => (v, Command::MoveMetric(-1isize)),
        Key::Char('f') | Key::Char('/') => (NavView { filter_editing: true, ..v }, Command::Nothing),
        Key::Char('x') => (NavView { filter_query: seq![], ..v }, Command::Nothing),
        _ => (v, Command::Nothing),
    }
}

/// A key while a saved run is shown in detail; `s` has followed the
/// selected run already.
pub open spec fn run_detail_step(s: NavView, c: SurroundView, k: Key) -> (NavView, Command) {
    match k {
        Key::Esc => if s.historical_detail {
            (NavView { historical_detail: false, ..s }, Command::Nothing)
        } else {
            (NavView { run_detail: false, ..s }, Command::Nothing)
        },
        Key::Enter => (
            NavView {
                historical_detail: s.historical_metric is Some,
                historical_scroll: 0,
                ..s
            },
            Command::Nothing,
        ),
        Key::Char('j') | Key::Down => (moved_historical(s, c, true), Command::Nothing),
        Key::Char('k') | Key::Up => (moved_historical(s, c, false), Command::Nothing),
        Key::PageDown => if s.historical_detail {
            (
                NavView { historical_scroll: s.historical_scroll.saturating_add(5), ..s },
                Command::Nothing,
            )
        } else {
            (NavView { scroll: s.scroll.saturating_add(5), ..s }, Command::Nothing)
        },
        Key::PageUp => if s.historical_detail {
            (
                NavView { historical_scroll: s.historical_scroll.saturating_sub(5), ..s },
                Command::Nothing,
            )
        } else {
            (NavView { scroll: s.scroll.saturating_sub(5), ..s }, Command::Nothing)
        },
        Key::Char('[') | Key::Char('N') => cycled(s, c, false),
        Key::Char(']') | Key::Char('n') => cycled(s, c, true),
        Key::Char('f') | Key::Char('/') => (NavView { filter_editing: true, ..s }, Command::Nothing),
        Key::Char('x') => (NavView { filter_query: seq![], ..s }, Command::Nothing),
        _ => (s, Command::Nothing),
    }
}

/// Moving in a telemetry tab: the metric list and the run list move their
/// selection, the other tabs scroll.
pub open spec fn moved_in_tab(v: NavView, c: SurroundView, forward: bool) -> (NavView, Command) {
    match v.telemetry_tab {
        TelemetryTab::Metrics => (
            v,
            if forward {
                Command::MoveMetric(1isize)
            } else {
                Command::MoveMetric(-1isize)
            },
        ),
        TelemetryTab::Runs => cycled(v, c, forward),
        _ => (scrolled(v, forward), Command::Nothing),
    }
}

/// Enter on a telemetry tab: the metric list opens the selected metric and
/// the run list the selected run, where there is one.
pub open spec fn tab_enter_step(v: NavView, c: SurroundView) -> NavView {
    if v.telemetry_tab == TelemetryTab::Metrics {
        NavView { metric_detail: c.metric_selected, scroll: 0, ..v }
    } else if v.telemetry_tab == TelemetryTab::Runs {
        let s = synced(NavView { run_detail: c.report_selected, ..v }, c.selected_run, shown_series(c));
        NavView { historical_detail: false, scroll: 0, ..s }
    } else {
        v
    }
}

/// A key on a telemetry tab with no detail open, before a change of tab
/// scrolls back to the top.
pub open spec fn tab_key_step(v: NavView, c: SurroundView, k: Key) -> (NavView, Command) {
    match k {
        Key::Char('1') => (NavView { telemetry_tab: TelemetryTab::Overview, ..v }, Command::Nothing),
        Key::Char('2') => (NavView { telemetry_tab: TelemetryTab::Metrics, ..v }, Command::Nothing),
        Key::Char('3') => (NavView { telemetry_tab: TelemetryTab::Runs, ..v }, Command::Nothing),
        Key::Char('4') => (NavView { telemetry_tab: TelemetryTab::Logs, ..v }, Command::Nothing),
        Key::Char('j') | Key::Down | Key::Char('n') => moved_in_tab(v, c, true),
        Key::Char('k') | Key::Up | Key::Char('N') => moved_in_tab(v, c, false),
        Key::Enter => (tab_enter_step(v, c), Command::Nothing),
        Key::Char('[') => cycled(v, c, false),
        Key::Char(']') => cycled(v, c, true),
        Key::Char('f') | Key::Char('/') => (NavView { filter_editing: true, scroll: 0, ..v }, Command::Nothing),
        Key::Char('x') => (NavView { filter_query: seq![], scroll: 0, ..v }, Command::Nothing),
        Key::Char('c') => if v.telemetry_tab == TelemetryTab::Logs {
            (v, Command::ClearLogs)
        } else {
            (v, Command::Nothing)
        },
        Key::Esc => (back_screen(NavView { filter_editing: false, ..v }, c), Command::Nothing),
        _ => (v, Command::Nothing),
    }
}

/// A key on a telemetry tab with no detail open: a change of tab scrolls
/// back to the top.
pub open spec fn tab_step(v: NavView, c: SurroundView, k: Key) -> (NavView, Command) {
    let (w, cmd) = tab_key_step(v, c, k);
    if w.telemetry_tab != v.telemetry_tab {
        (NavView { scroll: 0, ..w }, cmd)
    } else {
        (w, cmd)
    }
}

/// The message that a request to clear the saved runs gets.
pub open spec fn clear_request_step(v: NavView, c: SurroundView) -> NavView {
    if run_active(c) {
        NavView { status_message: "cannot clear runs during an active request or recording"@, ..v }
    } else if c.history_available {
        NavView {
            clear_runs_pending: true,
            status_message: "Clear ALL saved runs and transcripts? [y] confirm · [Esc] cancel"@,
            ..v
        }
    } else {
        NavView { status_message: "run history storage is unavailable"@, ..v }
    }
}

/// A key on the telemetry screen.
pub open spec fn telemetry_step(v: NavView, c: SurroundView, k: Key) -> (NavView, Command) {
    if v.filter_editing {
        (filter_step(v, k), Command::Nothing)
    } else if k == Key::Char('c') && v.telemetry_tab == TelemetryTab::Runs {
        (clear_request_step(v, c), Command::Nothing)
    } else if v.metric_detail {
        metric_detail_step(v, k)
    } else if v.run_detail {
        run_detail_step(synced(v, c.selected_run, shown_series(c)), c, k)
    } else {
        tab_step(v, c, k)
    }
}

/// A key, handed to the screen shown.
pub open spec fn screen_step(v: NavView, c: SurroundView, k: Key) -> (NavView, Command) {
    match v.screen {
        Screen::Welcome => welcome_step(v, k),
        Screen::Picker => picker_step(v, c, k),
        Screen::Loading => loading_step(v, c, k),
        Screen::Bench => bench_step(v, c, k),
        Screen::Folder => folder_step(v, c, k),
        Screen::Recording => recording_step(v, k),
        Screen::Processing => (scroll_step(v, k), Command::Nothing),
        Screen::Telemetry => telemetry_step(v, c, k),
        Screen::DirectoryInput => directory_step(v, k),
        Screen::Help => (help_step(v, c, k), Command::Nothing),
        Screen::Error => error_step(v, c, k),
    }
}

/// The answer to the confirmation of clearing the saved runs: `y` clears
/// them unless a run is under way or no history is stored, Esc cancels.
pub open spec fn confirm_step(v: NavView, c: SurroundView, k: Key) -> (NavView, Command) {
    match k {
        Key::Char('y') => if !run_active(c) && c.history_available {
            (
                NavView {
                    clear_runs_pending: false,
                    clear_runs_inflight: true,
                    status_message: "clearing saved runs…"@,
                    ..v
                },
                Command::ClearHistory,
            )
        } else {
            (NavView { clear_runs_pending: false, ..v }, Command::Nothing)
        },
        Key::Esc => (
            NavView { clear_runs_pending: false, status_message: "clear runs cancelled"@, ..v },
            Command::Nothing,
        ),
        _ => (v, Command::Nothing),
    }
}

/// Whether a build or download keeps this screen: the loading screen,
/// telemetry and help stay, others give way to the loading screen.
pub open spec fn keeps_screen(s: Screen) -> bool {
    s == Screen::Loading || s == Screen::Telemetry || s == Screen::Help
}

/// A key: nothing happens while the saved runs are cleared; a pending
/// confirmation takes the key; a build or download brings the loading
/// screen forward; an edited filter takes the key as text; `q` quits, `?`
/// opens help and `t` telemetry on every screen; other keys go to the screen.
pub open spec fn key_step(v: NavView, c: SurroundView, k: Key) -> (NavView, Command) {
    if v.clear_runs_inflight {
        (v, Command::Nothing)
    } else if v.clear_runs_pending {
        confirm_step(v, c, k)
    } else {
        let v1 = if busy(c) && !keeps_screen(v.screen) {
            NavView { screen: Screen::Loading, ..v }
        } else {
            v
        };
        if v1.filter_editing {
            (filter_step(v1, k), Command::Nothing)
        } else if k == Key::Char('q') {
            (NavView { should_quit: true, ..v1 }, Command::Quit)
        } else if k == Key::Char('?') {
            (
                NavView { previous_screen: v1.screen, screen: Screen::Help, scroll: 0, ..v1 },
                Command::Nothing,
            )
        } else if k == Key::Char('t') && v1.screen != Screen::Telemetry {
            (opened_telemetry(v1, c), Command::Nothing)
        } else {
            screen_step(v1, c, k)
        }
    }
}

/// A key press with the state of the Control modifier: Control-F on the
/// telemetry screen starts editing the filter, unless the saved runs are
/// being cleared or a clear awaits confirmation.
pub open spec fn press_step(v: NavView, c: SurroundView, k: Key, control: bool) -> (NavView, Command) {
    if control && k == Key::Char('f') && v.screen == Screen::Telemetry && !v.clear_runs_pending
        && !v.clear_runs_inflight {
        (NavView { filter_editing: true, scroll: 0, ..v }, Command::Nothing)
    } else {
        key_step(v, c, k)
    }
}

impl Navigation {
    /// The state at start-up: the given screen, the bench to return to,
    /// the overview tab, and the directory the folder browser starts in as
    /// the typed directory.
    pub fn new(screen: Screen, directory_input: String) -> (n: Self)
        ensures
            n@ == (NavView {
                screen,
                previous_screen: Screen::Bench,
                telemetry_tab: TelemetryTab::Overview,
                scroll: 0,
                metric_detail: false,
                run_detail: false,
                historical_run: None,
                historical_metric: None,
                historical_detail: false,
                historical_scroll: 0,
                run_table_reset: false,
                filter_query: seq![],
                filter_editing: false,
                clear_runs_pending: false,
                clear_runs_inflight: false,
                should_quit: false,
                status_message: "ready"@,
                error_message: None,
                directory_input: directory_input@,
                directory_input_error: None,
            }),
    {
        Navigation {
            screen,
            previous_screen: Screen::Bench,
            telemetry_tab: TelemetryTab::Overview,
            scroll: 0,
            metric_detail: false,
            run_detail: false,
            historical_run: None,
            historical_metric: None,
            historical_detail: false,
            historical_scroll: 0,
            run_table_reset: false,
            filter_query: String::new(),
            filter_editing: false,
            clear_runs_pending: false,
            clear_runs_inflight: false,
            should_quit: false,
            status_message: "ready".to_owned(),
            error_message: None,
            directory_input,
            directory_input_error: None,
        }
    }

    /// The directory that was typed, without surrounding whitespace.
    pub fn directory_request(&self) -> (r: String)
        ensures
            r@ == trim(self.directory_input@),
    {
        let v = chars_of(self.directory_input.as_str());
        let t = trim_chars(&v);
        string_of(&t)
    }

    /// What the folder browser answered to the typed directory: on success
    /// the bench shows again, otherwise the error stays under the input.
    pub fn directory_outcome(&mut self, outcome: Result<(), String>)
        ensures
            outcome is Ok ==> final(self)@ == (NavView {
                directory_input_error: None,
                screen: Screen::Bench,
                ..old(self)@
            }),
            outcome matches Err(e) ==> final(self)@ == (NavView {
                directory_input_error: Some(e@),
                ..old(self)@
            }),
    {
        match outcome {
            Ok(()) => {
                self.directory_input_error = None;
                self.screen = Screen::Bench;
            },
            Err(e) => self.directory_input_error = Some(e),
        }
    }

    /// Lets the run detail follow the selected run and its series.
    pub fn sync_history(&mut self, run: &Option<String>, series: &Vec<SeriesKey>)
        ensures
            final(self)@ == synced(
                old(self)@,
                opt_text(*run),
                if run is None {
                    seq![]
                } else {
                    keys_view(series@)
                },
            ),
    {
        proof {
            reveal(synced);
        }
        self.sync_run(run);
        self.sync_metric(run.is_some(), series);
    }

    fn sync_run(&mut self, run: &Option<String>)
        ensures
            final(self)@ == run_synced(old(self)@, opt_text(*run)),
    {
        if !same_opt_text(&self.historical_run, run) {
            self.historical_run = match run {
                Some(r) => Some(copy_string(r)),
                None => None,
            };
            self.historical_metric = None;
            self.historical_detail = false;
            self.historical_scroll = 0;
            self.scroll = 0;
            self.run_table_reset = true;
        }
    }

    fn sync_metric(&mut self, has_run: bool, series: &Vec<SeriesKey>)
        ensures
            final(self)@ == metric_synced(
                old(self)@,
                if has_run {
                    keys_view(series@)
                } else {
                    seq![]
                },
            ),
    {
        let ghost shown = if has_run {
            keys_view(series@)
        } else {
            seq![]
        };
        let kept = match &self.historical_metric {
            Some(k) => has_run && find_key(series, k).is_some(),
            None => false,
        };
        proof {
            if self.historical_metric is Some && has_run {
                let k = self.historical_metric->0;
                lemma_first_from_contains(shown, key_view(k), 0);
                assert(shown.contains(key_view(k)) == (exists|j: int|
                    0 <= j < shown.len() && shown[j] == key_view(k)));
            }
        }
        if !kept {
            self.historical_metric = if has_run && series.len() > 0 {
                Some(copy_key(&series[0]))
            } else {
                None
            };
            self.historical_detail = false;
            self.historical_scroll = 0;
        }
    }


    /// Returns to the screen before help, an error or telemetry.
    fn back(&mut self, c: &Surroundings)
        ensures
            final(self)@ == back_screen(old(self)@, c@),
    {
        self.screen = if c.build_running || c.download_running {
            Screen::Loading
        } else if self.previous_screen == Screen::Telemetry {
            Screen::Bench
        } else {
            self.previous_screen
        };
        self.scroll = 0;
    }

    fn open_telemetry(&mut self, c: &Surroundings)
        ensures
            final(self)@ == opened_telemetry(old(self)@, c@),
    {
        self.previous_screen = self.screen;
        self.telemetry_tab = if c.build_running || c.download_running {
            TelemetryTab::Logs
        } else {
            TelemetryTab::Overview
        };
        self.scroll = 0;
        self.screen = Screen::Telemetry;
    }

    fn scroll_one(&mut self, down: bool)
        ensures
            final(self)@ == scrolled(old(self)@, down),
    {
        self.scroll = if down {
            self.scroll.saturating_add(1)
        } else {
            self.scroll.saturating_sub(1)
        };
    }

    fn scroll_key(&mut self, k: Key)
        ensures
            final(self)@ == scroll_step(old(self)@, k),
    {
        match k {
            Key::Char('j') | Key::Down => self.scroll_one(true),
            Key::Char('k') | Key::Up => self.scroll_one(false),
            _ => {},
        }
    }

    fn cycle(&mut self, c: &Surroundings, forward: bool) -> (r: Command)
        ensures
            final(self)@ == cycled(old(self)@, c@, forward).0,
            r == cycled(old(self)@, c@, forward).1,
    {
        let n = c.run_ids.len();
        if n == 0 {
            return Command::Nothing;
        }
        let cur: usize = match &c.selected_run {
            Some(r) => match find_run(&c.run_ids, r) {
                Some(i) => {
                    proof {
                        lemma_first_from_contains(c@.run_ids, r@, 0);
                    }
                    i
                },
                None => 0,
            },
            None => 0,
        };
        let next: usize = if forward {
            if cur + 1 == n {
                0
            } else {
                cur + 1
            }
        } else {
            if cur == 0 {
                n - 1
            } else {
                cur - 1
            }
        };
        self.scroll = 0;
        Command::SelectRun(next)
    }

    fn move_historical(&mut self, c: &Surroundings, forward: bool)
        ensures
            final(self)@ == moved_historical(old(self)@, c@, forward),
    {
        self.sync_history(&c.selected_run, &c.run_series);
        if c.selected_run.is_none() || c.run_series.len() == 0 {
            return;
        }
        let next = historical_target(&c.run_series, &self.historical_metric, forward);
        let key = copy_key(&c.run_series[next]);
        self.select_historical(key);
    }

    fn select_historical(&mut self, key: SeriesKey)
        ensures
            final(self)@ == (NavView {
                historical_metric: Some(key_view(key)),
                historical_scroll: 0,
                ..old(self)@
            }),
    {
        self.historical_metric = Some(key);
        self.historical_scroll = 0;
    }

    fn welcome_key(&mut self, k: Key) -> (r: Command)
        ensures
            final(self)@ == welcome_step(old(self)@, k).0,
            r == welcome_step(old(self)@, k).1,
    {
        match k {
            Key::Enter | Key::Char('r') => {
                self.screen = Screen::Picker;
                self.error_message = None;
            },
            Key::Esc => self.should_quit = true,
            _ => {},
        }
        Command::Nothing
    }

    fn picker_key(&mut self, c: &Surroundings, k: Key) -> (r: Command)
        ensures
            final(self)@ == picker_step(old(self)@, c@, k).0,
            r == picker_step(old(self)@, c@, k).1,
    {
        match k {
            Key::Up | Key::Char('k') => Command::MoveCatalog(-1),
            Key::Down | Key::Char('j') => Command::MoveCatalog(1),
            Key::Enter => Command::ChooseCatalogModel,
            Key::Char('r') => Command::RescanCatalog,
            Key::Esc => {
                self.screen = if c.model_active {
                    Screen::Bench
                } else {
                    Screen::Welcome
                };
                Command::Nothing
            },
            _ => Command::Nothing,
        }
    }

    fn loading_key(&mut self, c: &Surroundings, k: Key) -> (r: Command)
        ensures
            final(self)@ == loading_step(old(self)@, c@, k).0,
            r == loading_step(old(self)@, c@, k).1,
    {
        if c.download_running {
            if k == Key::Esc {
                self.screen = Screen::Picker;
                return Command::CancelDownload;
            }
            return Command::Nothing;
        }
        if c.build_running {
            if k == Key::Esc {
                self.screen = Screen::Picker;
                return Command::CancelBuild;
            }
            return Command::Nothing;
        }
        if c.request_pending {
            return Command::Nothing;
        }
        match k {
            Key::Char('r') => Command::ReloadModel,
            Key::Char('m') => {
                self.screen = Screen::Picker;
                Command::Nothing
            },
            Key::Esc => {
                self.back(c);
                Command::Nothing
            },
            _ => Command::Nothing,
        }
    }

    fn bench_key(&mut self, c: &Surroundings, k: Key) -> (r: Command)
        ensures
            final(self)@ == bench_step(old(self)@, c@, k).0,
            r == bench_step(old(self)@, c@, k).1,
    {
        if c.request_pending {
            self.scroll_key(k);
            return Command::Nothing;
        }
        match k {
            Key::Char('l') => Command::StartRecording,
            Key::Char('f') => {
                self.screen = Screen::Folder;
                self.scroll = 0;
                Command::OpenFolder
            },
            Key::Char('n') => Command::PlayNextWav,
            Key::Char('r') => Command::RetryLast,
            Key::Char('m') => {
                self.screen = Screen::Picker;
                Command::ShowCatalog
            },
            Key::Esc => {
                self.error_message = None;
                Command::Nothing
            },
            _ => {
                self.scroll_key(k);
                Command::Nothing
            },
        }
    }

    fn folder_key(&mut self, c: &Surroundings, k: Key) -> (r: Command)
        ensures
            final(self)@ == folder_step(old(self)@, c@, k).0,
            r == folder_step(old(self)@, c@, k).1,
    {
        match k {
            Key::Up | Key::Char('k') => Command::MoveFolder(-1),
            Key::Down | Key::Char('j') => Command::MoveFolder(1),
            Key::Enter => Command::EnterFolderEntry,
            Key::Char('d') => {
                self.directory_input = copy_string(&c.folder_directory);
                self.directory_input_error = None;
                self.screen = Screen::DirectoryInput;
                Command::Nothing
            },
            Key::Char('r') => Command::RefreshFolder,
            Key::Esc => {
                self.screen = Screen::Bench;
                Command::Nothing
            },
            _ => Command::Nothing,
        }
    }

    fn recording_key(&mut self, k: Key) -> (r: Command)
        ensures
            final(self)@ == recording_step(old(self)@, k).0,
            r == recording_step(old(self)@, k).1,
    {
        match k {
            Key::Enter | Key::Char(' ') => Command::StopRecording,
            Key::Esc => {
                self.status_message = "recording discarded".to_owned();
                self.screen = Screen::Bench;
                Command::DiscardRecording
            },
            _ => Command::Nothing,
        }
    }

    fn directory_key(&mut self, k: Key) -> (r: Command)
        ensures
            final(self)@ == directory_step(old(self)@, k).0,
            r == directory_step(old(self)@, k).1,
    {
        match k {
            Key::Char(ch) => {
                push_char(&mut self.directory_input, ch);
                Command::Nothing
            },
            Key::Backspace => {
                self.directory_input = without_last(&self.directory_input);
                Command::Nothing
            },
            Key::Enter => Command::SubmitDirectory,
            Key::Esc => {
                self.directory_input_error = None;
                self.screen = Screen::Folder;
                Command::Nothing
            },
            _ => Command::Nothing,
        }
    }

    fn help_key(&mut self, c: &Surroundings, k: Key)
        ensures
            final(self)@ == help_step(old(self)@, c@, k),
    {
        match k {
            Key::Esc | Key::Char('?') => self.back(c),
            _ => self.scroll_key(k),
        }
    }

    fn error_key(&mut self, c: &Surroundings, k: Key) -> (r: Command)
        ensures
            final(self)@ == error_step(old(self)@, c@, k).0,
            r == error_step(old(self)@, c@, k).1,
    {
        match k {
            Key::Char('r') => Command::ReloadModel,
            Key::Char('m') => {
                self.screen = Screen::Picker;
                Command::Nothing
            },
            Key::Esc => {
                self.back(c);
                Command::Nothing
            },
            _ => Command::Nothing,
        }
    }

    fn metric_detail_key(&mut self, k: Key) -> (r: Command)
        ensures
            final(self)@ == metric_detail_step(old(self)@, k).0,
            r == metric_detail_step(old(self)@, k).1,
    {
        match k {
            Key::Esc => {
                self.metric_detail = false;
                Command::Nothing
            },
            Key::Char('j') | Key::Down | Key::Char('n') => Command::MoveMetric(1),
            Key::Char('k') | Key::Up | Key::Char('N') => Command::MoveMetric(-1),
            Key::Char('f') | Key::Char('/') => {
                self.filter_editing = true;
                Command::Nothing
            },
            Key::Char('x') => {
                self.filter_query = String::new();
                Command::Nothing
            },
            _ => Command::Nothing,
        }
    }

    fn run_detail_key(&mut self, c: &Surroundings, k: Key) -> (r: Command)
        ensures
            final(self)@ == run_detail_step(old(self)@, c@, k).0,
            r == run_detail_step(old(self)@, c@, k).1,
    {
        match k {
            Key::Esc => {
                if self.historical_detail {
                    self.historical_detail = false;
                } else {
                    self.run_detail = false;
                }
                Command::Nothing
            },
            Key::Enter => {
                self.historical_detail = self.historical_metric.is_some();
                self.historical_scroll = 0;
                Command::Nothing
            },
            Key::Char('j') | Key::Down => {
                self.move_historical(c, true);
                Command::Nothing
            },
            Key::Char('k') | Key::Up => {
                self.move_historical(c, false);
                Command::Nothing
            },
            Key::PageDown => {
                if self.historical_detail {
                    self.historical_scroll = self.historical_scroll.saturating_add(5);
                } else {
                    self.scroll = self.scroll.saturating_add(5);
                }
                Command::Nothing
            },
            Key::PageUp => {
                if self.historical_detail {
                    self.historical_scroll = self.historical_scroll.saturating_sub(5);
                } else {
                    self.scroll = self.scroll.saturating_sub(5);
                }
                Command::Nothing
            },
            Key::Char('[') | Key::Char('N') => self.cycle(c, false),
            Key::Char(']') | Key::Char('n') => self.cycle(c, true),
            Key::Char('f') | Key::Char('/') => {
                self.filter_editing = true;
                Command::Nothing
            },
            Key::Char('x') => {
                self.filter_query = String::new();
                Command::Nothing
            },
            _ => Command::Nothing,
        }
    }

    fn move_in_tab(&mut self, c: &Surroundings, forward: bool) -> (r: Command)
        ensures
            final(self)@ == moved_in_tab(old(self)@, c@, forward).0,
            r == moved_in_tab(old(self)@, c@, forward).1,
    {
        match self.telemetry_tab {
            TelemetryTab::Metrics => if forward {
                Command::MoveMetric(1)
            } else {
                Command::MoveMetric(-1)
            },
            TelemetryTab::Runs => self.cycle(c, forward),
            _ => {
                self.scroll_one(forward);
                Command::Nothing
            },
        }
    }

    #[verifier::rlimit(40)]
    fn open_tab_detail(&mut self, c: &Surroundings)
        ensures
            final(self)@ == tab_enter_step(old(self)@, c@),
    {
        if self.telemetry_tab == TelemetryTab::Metrics {
            self.metric_detail = c.metric_selected;
            self.scroll = 0;
        } else if self.telemetry_tab == TelemetryTab::Runs {
            let ghost v0 = self@;
            self.run_detail = c.report_selected;
            assert(self@ == NavView { run_detail: c.report_selected, ..v0 });
            self.sync_history(&c.selected_run, &c.run_series);
            assert(self@ == synced(
                NavView { run_detail: c.report_selected, ..v0 },
                c@.selected_run,
                shown_series(c@),
            ));
            self.historical_detail = false;
            self.scroll = 0;
        }
    }

    fn tab_key(&mut self, c: &Surroundings, k: Key) -> (r: Command)
        ensures
            final(self)@ == tab_key_step(old(self)@, c@, k).0,
            r == tab_key_step(old(self)@, c@, k).1,
    {
        match k {
            Key::Char('1') => {
                self.telemetry_tab = TelemetryTab::Overview;
                Command::Nothing
            },
            Key::Char('2') => {
                self.telemetry_tab = TelemetryTab::Metrics;
                Command::Nothing
            },
            Key::Char('3') => {
                self.telemetry_tab = TelemetryTab::Runs;
                Command::Nothing
            },
            Key::Char('4') => {
                self.telemetry_tab = TelemetryTab::Logs;
                Command::Nothing
            },
            Key::Char('j') | Key::Down | Key::Char('n') => self.move_in_tab(c, true),
            Key::Char('k') | Key::Up | Key::Char('N') => self.move_in_tab(c, false),
            Key::Enter => {
                self.open_tab_detail(c);
                Command::Nothing
            },
            Key::Char('[') => self.cycle(c, false),
            Key::Char(']') => self.cycle(c, true),
            Key::Char('f') | Key::Char('/') => {
                self.filter_editing = true;
                self.scroll = 0;
                Command::Nothing
            },
            Key::Char('x') => {
                self.filter_query = String::new();
                self.scroll = 0;
                Command::Nothing
            },
            Key::Char('c') => if self.telemetry_tab == TelemetryTab::Logs {
                Command::ClearLogs
            } else {
                Command::Nothing
            },
            Key::Esc => {
                self.filter_editing = false;
                self.back(c);
                Command::Nothing
            },
            _ => Command::Nothing,
        }
    }

    fn tab_key_and_scroll(&mut self, c: &Surroundings, k: Key) -> (r: Command)
        ensures
            final(self)@ == tab_step(old(self)@, c@, k).0,
            r == tab_step(old(self)@, c@, k).1,
    {
        let previous = self.telemetry_tab;
        let r = self.tab_key(c, k);
        if previous != self.telemetry_tab {
            self.scroll = 0;
        }
        r
    }

    fn request_clear(&mut self, c: &Surroundings)
        ensures
            final(self)@ == clear_request_step(old(self)@, c@),
    {
        if c.request_pending || c.recording || c.run_in_progress {
            self.status_message = "cannot clear runs during an active request or recording".to_owned();
        } else if c.history_available {
            self.clear_runs_pending = true;
            self.status_message =
                "Clear ALL saved runs and transcripts? [y] confirm · [Esc] cancel".to_owned();
        } else {
            self.status_message = "run history storage is unavailable".to_owned();
        }
    }

    fn telemetry_key(&mut self, c: &Surroundings, k: Key) -> (r: Command)
        ensures
            final(self)@ == telemetry_step(old(self)@, c@, k).0,
            r == telemetry_step(old(self)@, c@, k).1,
    {
        if self.filter_editing {
            self.filter_key(k);
            return Command::Nothing;
        }
        if k == Key::Char('c') && self.telemetry_tab == TelemetryTab::Runs {
            self.request_clear(c);
            return Command::Nothing;
        }
        if self.metric_detail {
            return self.metric_detail_key(k);
        }
        if self.run_detail {
            self.sync_history(&c.selected_run, &c.run_series);
            return self.run_detail_key(c, k);
        }
        self.tab_key_and_scroll(c, k)
    }

    fn screen_key(&mut self, c: &Surroundings, k: Key) -> (r: Command)
        ensures
            final(self)@ == screen_step(old(self)@, c@, k).0,
            r == screen_step(old(self)@, c@, k).1,
    {
        match self.screen {
            Screen::Welcome => self.welcome_key(k),
            Screen::Picker => self.picker_key(c, k),
            Screen::Loading => self.loading_key(c, k),
            Screen::Bench => self.bench_key(c, k),
            Screen::Folder => self.folder_key(c, k),
            Screen::Recording => self.recording_key(k),
            Screen::Processing => {
                self.scroll_key(k);
                Command::Nothing
            },
            Screen::Telemetry => self.telemetry_key(c, k),
            Screen::DirectoryInput => self.directory_key(k),
            Screen::Help => {
                self.help_key(c, k);
                Command::Nothing
            },
            Screen::Error => self.error_key(c, k),
        }
    }

    fn confirm_key(&mut self, c: &Surroundings, k: Key) -> (r: Command)
        ensures
            final(self)@ == confirm_step(old(self)@, c@, k).0,
            r == confirm_step(old(self)@, c@, k).1,
    {
        match k {
            Key::Char('y') => {
                self.clear_runs_pending = false;
                if !(c.request_pending || c.recording || c.run_in_progress) && c.history_available {
                    self.clear_runs_inflight = true;
                    self.status_message = "clearing saved runs…".to_owned();
                    Command::ClearHistory
                } else {
                    Command::Nothing
                }
            },
            Key::Esc => {
                self.clear_runs_pending = false;
                self.status_message = "clear runs cancelled".to_owned();
                Command::Nothing
            },
            _ => Command::Nothing,
        }
    }

    /// Handles a key and says which outside work it asks for.
    pub fn handle_key(&mut self, c: &Surroundings, k: Key) -> (r: Command)
        ensures
            final(self)@ == key_step(old(self)@, c@, k).0,
            r == key_step(old(self)@, c@, k).1,
    {
        if self.clear_runs_inflight {
            return Command::Nothing;
        }
        if self.clear_runs_pending {
            return self.confirm_key(c, k);
        }
        if (c.build_running || c.download_running) && !(self.screen == Screen::Loading
            || self.screen == Screen::Telemetry || self.screen == Screen::Help) {
            self.screen = Screen::Loading;
        }
        if self.filter_editing {
            self.filter_key(k);
            return Command::Nothing;
        }
        if k == Key::Char('q') {
            self.should_quit = true;
            return Command::Quit;
        }
        if k == Key::Char('?') {
            self.previous_screen = self.screen;
            self.screen = Screen::Help;
            self.scroll = 0;
            return Command::Nothing;
        }
        if k == Key::Char('t') && self.screen != Screen::Telemetry {
            self.open_telemetry(c);
            return Command::Nothing;
        }
        self.screen_key(c, k)
    }

    /// Handles a key press with the state of the Control modifier.
    pub fn press(&mut self, c: &Surroundings, k: Key, control: bool) -> (r: Command)
        ensures
            final(self)@ == press_step(old(self)@, c@, k, control).0,
            r == press_step(old(self)@, c@, k, control).1,
    {
        if control && k == Key::Char('f') && self.screen == Screen::Telemetry
            && !self.clear_runs_pending && !self.clear_runs_inflight {
            self.filter_editing = true;
            self.scroll = 0;
            return Command::Nothing;
        }
        self.handle_key(c, k)
    }

    fn filter_key(&mut self, k: Key)
        ensures
            final(self)@ == filter_step(old(self)@, k),
    {
        self.scroll = 0;
        match k {
            Key::Char(c) => push_char(&mut self.filter_query, c),
            Key::Backspace => {
                self.filter_query = without_last(&self.filter_query);
            },
            Key::Enter | Key::Esc => self.filter_editing = false,
            _ => {},
        }
    }
}

/// While the filter is edited, a typed character is text: it joins the
/// query, nothing quits, editing goes on and no outside work is asked for.
pub proof fn law_filter_takes_typed_text(v: NavView, c: SurroundView, ch: char)
    requires
        v.filter_editing,
        !v.clear_runs_pending,
        !v.clear_runs_inflight,
    ensures
        key_step(v, c, Key::Char(ch)).0.filter_query == v.filter_query.push(ch),
        key_step(v, c, Key::Char(ch)).0.filter_editing,
        key_step(v, c, Key::Char(ch)).0.should_quit == v.should_quit,
        key_step(v, c, Key::Char(ch)).0.scroll == 0,
        key_step(v, c, Key::Char(ch)).1 == Command::Nothing,
{
}

/// While the saved runs are being cleared, keys change nothing and ask for
/// nothing.
pub proof fn law_clearing_ignores_keys(v: NavView, c: SurroundView, k: Key, control: bool)
    requires
        v.clear_runs_inflight,
    ensures
        press_step(v, c, k, control).0 == v,
        press_step(v, c, k, control).1 == Command::Nothing,
{
}

proof fn lemma_cycled_in_range(v: NavView, c: SurroundView, forward: bool)
    requires
        c.run_ids.len() <= usize::MAX,
    ensures
        cycled(v, c, forward).1 matches Command::SelectRun(i) ==> i < c.run_ids.len(),
        cycled(v, c, forward).1 != Command::ClearHistory,
{
    if c.selected_run is Some {
        lemma_first_from_contains(c.run_ids, c.selected_run->0, 0);
    }
}

proof fn lemma_telemetry_commands(v: NavView, c: SurroundView, k: Key)
    requires
        c.run_ids.len() <= usize::MAX,
    ensures
        telemetry_step(v, c, k).1 != Command::ClearHistory,
        telemetry_step(v, c, k).1 matches Command::SelectRun(i) ==> i < c.run_ids.len(),
{
    if !v.filter_editing && !(k == Key::Char('c') && v.telemetry_tab == TelemetryTab::Runs)
        && !v.metric_detail {
        if v.run_detail {
            lemma_cycled_in_range(synced(v, c.selected_run, shown_series(c)), c, true);
            lemma_cycled_in_range(synced(v, c.selected_run, shown_series(c)), c, false);
        } else {
            lemma_cycled_in_range(v, c, true);
            lemma_cycled_in_range(v, c, false);
        }
    }
}

proof fn lemma_screen_commands(v: NavView, c: SurroundView, k: Key)
    requires
        c.run_ids.len() <= usize::MAX,
    ensures
        screen_step(v, c, k).1 != Command::ClearHistory,
        screen_step(v, c, k).1 matches Command::SelectRun(i) ==> i < c.run_ids.len(),
{
    match v.screen {
        Screen::Telemetry => lemma_telemetry_commands(v, c, k),
        Screen::Welcome => assert(welcome_step(v, k).1 == Command::Nothing),
        Screen::Picker => assert(picker_step(v, c, k).1 != Command::ClearHistory && !(picker_step(
            v,
            c,
            k,
        ).1 is SelectRun)),
        Screen::Loading => assert(loading_step(v, c, k).1 != Command::ClearHistory && !(
        loading_step(v, c, k).1 is SelectRun)),
        Screen::Bench => assert(bench_step(v, c, k).1 != Command::ClearHistory && !(bench_step(
            v,
            c,
            k,
        ).1 is SelectRun)),
        Screen::Folder => assert(folder_step(v, c, k).1 != Command::ClearHistory && !(folder_step(
            v,
            c,
            k,
        ).1 is SelectRun)),
        Screen::Recording => assert(recording_step(v, k).1 != Command::ClearHistory && !(
        recording_step(v, k).1 is SelectRun)),
        Screen::Processing => {},
        Screen::DirectoryInput => assert(directory_step(v, k).1 != Command::ClearHistory && !(
        directory_step(v, k).1 is SelectRun)),
        Screen::Help => {},
        Screen::Error => assert(error_step(v, c, k).1 != Command::ClearHistory && !(error_step(
            v,
            c,
            k,
        ).1 is SelectRun)),
    }
}

/// The saved runs are cleared only when a pending request to clear them is
/// confirmed with `y`, no run is under way and a history is stored; the
/// clear is then marked as under way.
pub proof fn law_clear_needs_confirmation(v: NavView, c: SurroundView, k: Key, control: bool)
    requires
        c.run_ids.len() <= usize::MAX,
    ensures
        press_step(v, c, k, control).1 == Command::ClearHistory ==> {
            &&& v.clear_runs_pending
            &&& k == Key::Char('y')
            &&& !run_active(c)
            &&& c.history_available
            &&& press_step(v, c, k, control).0.clear_runs_inflight
        },
{
    let v1 = if busy(c) && !keeps_screen(v.screen) {
        NavView { screen: Screen::Loading, ..v }
    } else {
        v
    };
    lemma_screen_commands(v1, c, k);
}

/// A key selects a saved run only by its position among the saved runs.
pub proof fn law_selected_run_exists(v: NavView, c: SurroundView, k: Key, control: bool)
    requires
        c.run_ids.len() <= usize::MAX,
    ensures
        press_step(v, c, k, control).1 matches Command::SelectRun(i) ==> i < c.run_ids.len(),
{
    let v1 = if busy(c) && !keeps_screen(v.screen) {
        NavView { screen: Screen::Loading, ..v }
    } else {
        v
    };
    lemma_screen_commands(v1, c, k);
}

proof fn lemma_synced_keeps_tab(
    v: NavView,
    run: Option<Seq<char>>,
    series: Seq<(Seq<char>, Seq<char>, MetricScope, Seq<char>, MetricUnit)>,
)
    ensures
        synced(v, run, series).telemetry_tab == v.telemetry_tab,
{
    reveal(synced);
}

proof fn lemma_telemetry_tab_change(v: NavView, c: SurroundView, k: Key)
    ensures
        telemetry_step(v, c, k).0.telemetry_tab != v.telemetry_tab ==> telemetry_step(v, c, k).0.scroll
            == 0,
{
    if !v.filter_editing && !(k == Key::Char('c') && v.telemetry_tab == TelemetryTab::Runs)
        && !v.metric_detail && v.run_detail {
        let s = synced(v, c.selected_run, shown_series(c));
        lemma_synced_keeps_tab(v, c.selected_run, shown_series(c));
        lemma_synced_keeps_tab(s, c.selected_run, shown_series(c));
    }
}

proof fn lemma_screen_tab_change(v: NavView, c: SurroundView, k: Key)
    ensures
        screen_step(v, c, k).0.telemetry_tab != v.telemetry_tab ==> screen_step(v, c, k).0.scroll == 0,
{
    match v.screen {
        Screen::Telemetry => lemma_telemetry_tab_change(v, c, k),
        Screen::Welcome => assert(welcome_step(v, k).0.telemetry_tab == v.telemetry_tab),
        Screen::Picker => assert(picker_step(v, c, k).0.telemetry_tab == v.telemetry_tab),
        Screen::Loading => assert(loading_step(v, c, k).0.telemetry_tab == v.telemetry_tab),
        Screen::Bench => assert(bench_step(v, c, k).0.telemetry_tab == v.telemetry_tab),
        Screen::Folder => assert(folder_step(v, c, k).0.telemetry_tab == v.telemetry_tab),
        Screen::Recording => assert(recording_step(v, k).0.telemetry_tab == v.telemetry_tab),
        Screen::Processing => assert(scroll_step(v, k).telemetry_tab == v.telemetry_tab),
        Screen::DirectoryInput => assert(directory_step(v, k).0.telemetry_tab == v.telemetry_tab),
        Screen::Help => assert(help_step(v, c, k).telemetry_tab == v.telemetry_tab),
        Screen::Error => assert(error_step(v, c, k).0.telemetry_tab == v.telemetry_tab),
    }
}

/// Whenever a key changes the telemetry tab, the view scrolls back to the
/// top.
#[verifier::rlimit(60)]
pub proof fn law_tab_change_scrolls_to_top(v: NavView, c: SurroundView, k: Key, control: bool)
    ensures
        press_step(v, c, k, control).0.telemetry_tab != v.telemetry_tab ==> press_step(
            v,
            c,
            k,
            control,
        ).0.scroll == 0,
{
    let v1 = if busy(c) && !keeps_screen(v.screen) {
        NavView { screen: Screen::Loading, ..v }
    } else {
        v
    };
    lemma_screen_tab_change(v1, c, k);
}

/// The run detail follows the selected run: afterwards it names that run,
/// its selected series is one of the run's series, none is selected only
/// where the run has none, and following again changes nothing.
pub proof fn law_history_follows_run(
    v: NavView,
    run: Option<Seq<char>>,
    series: Seq<(Seq<char>, Seq<char>, MetricScope, Seq<char>, MetricUnit)>,
)
    ensures
        synced(v, run, series).historical_run == run,
        synced(v, run, series).historical_metric matches Some(k) ==> series.contains(k),
        (synced(v, run, series).historical_metric is None) == (series.len() == 0),
        synced(synced(v, run, series), run, series) == synced(v, run, series),
{
    reveal(synced);
    if series.len() > 0 {
        assert(series.contains(series[0]));
    }
}

/// The first screen: errors in the manifest show first; onboarding
/// (asked for, or with no saved configuration and no model named) shows the
/// welcome screen; a named model or a selectable saved model loads at once;
/// otherwise the picker shows. The second value says whether a model loads
/// at start-up.
pub fn startup_screen(
    reconfigure: bool,
    config_loaded: bool,
    model_named: bool,
    catalog_failed: bool,
    saved_model_selectable: bool,
) -> (r: (Screen, bool))
    ensures
        r.1 == (!(reconfigure || (!config_loaded && !model_named) || catalog_failed) && (model_named
            || saved_model_selectable)),
        r.0 == if catalog_failed {
            Screen::Error
        } else if reconfigure || (!config_loaded && !model_named) {
            Screen::Welcome
        } else if r.1 {
            Screen::Loading
        } else {
            Screen::Picker
        },
{
    let onboarding = reconfigure || (!config_loaded && !model_named) || catalog_failed;
    let startup_load = !onboarding && (model_named || saved_model_selectable);
    let screen = if catalog_failed {
        Screen::Error
    } else if onboarding {
        Screen::Welcome
    } else if startup_load {
        Screen::Loading
    } else {
        Screen::Picker
    };
    (screen, startup_load)
}

} // verus!
