//! The interface's answer to what the inference worker reports: which
//! request it still awaits, which model and run it follows, what it shows,
//! and what it has to record or log in turn.
use vstd::prelude::*;
use vstd::string::StringExecFns;
use crate::navigation::{opt_text, NavView, Navigation};
use crate::reports::ReportStore;
use crate::run_names::{counter_after, fresh_run_name, run_name};
use crate::run_record::{
    closes_run, existing, failed_record, finished_record, record_failure, record_result, RunContext,
    RunOutcome, RunRecord,
};
use crate::server::{decimal, decimal_chars};
use crate::text::{copy_string, string_of};
use crate::tui::Screen;

verus! {

/// What the worker reports, as far as the interface's decisions read it;
/// the measured audio length, the full transcription result and log
/// entries stay with the interface.
pub enum WorkerSignal {
    ModelLoadStarted { request_id: u64, model_id: String, switch_from: Option<String> },
    ModelReady {
        request_id: u64,
        model_id: String,
        load_duration_ms: u128,
        switch_from: Option<String>,
    },
    ModelLoadFailed { request_id: u64, model_id: String, error: String, switch_from: Option<String> },
    ProcessingStarted { request_id: u64, run_id: String, source: String },
    Finished { request_id: u64, run_id: String, source: String, outcome: RunOutcome },
    ProcessingFailed { request_id: u64, run_id: String, source: String, error: String },
    Log,
    WorkerStopped,
}

/// The request the interface awaits and what it follows.
pub struct Session {
    /// The request whose answers are accepted.
    pub current_request: Option<u64>,
    /// The number the next request gets.
    pub next_request_id: u64,
    /// The number the next run's name tries first.
    pub next_run_id: u64,
    /// The model whose load is pending or failed.
    pub pending_model_id: Option<String>,
    pub current_run: Option<String>,
    pub current_source: Option<String>,
}

/// The session as plain values.
#[verifier::ext_equal]
pub struct SessionView {
    pub current_request: Option<u64>,
    pub next_request_id: u64,
    pub next_run_id: u64,
    pub pending_model_id: Option<Seq<char>>,
    pub current_run: Option<Seq<char>>,
    pub current_source: Option<Seq<char>>,
}

impl View for Session {
    type V = SessionView;

    open spec fn view(&self) -> SessionView {
        SessionView {
            current_request: self.current_request,
            next_request_id: self.next_request_id,
            next_run_id: self.next_run_id,
            pending_model_id: opt_text(self.pending_model_id),
            current_run: opt_text(self.current_run),
            current_source: opt_text(self.current_source),
        }
    }
}

/// What the interface does in turn.
#[derive(Debug)]
pub enum Reaction {
    /// The report answers a request that is no longer awaited.
    Ignored,
    /// Only what is shown changed.
    Shown,
    /// Keep the model in use, save it as the selected model and log this.
    AdoptModel(String),
    /// Log the error of the failed load.
    LogLoadError(String),
    /// The run's report was stored: keep the transcription result of the
    /// run and its source, and save the history.
    RecordResult { run_id: String, source: String },
    /// The failed run's report was stored: log the error and save the
    /// history.
    RecordFailure { run_id: String, error: String },
    /// Keep the worker's log entry.
    PushLog,
    /// Warn that the worker stopped.
    WarnStopped,
}

/// The status while a model loads.
pub open spec fn loading_message(model: Seq<char>, previous: Option<Seq<char>>) -> Seq<char> {
    match previous {
        Some(p) => "switching from "@ + p + " to "@ + model,
        None => "loading "@ + model,
    }
}

/// The log line of a loaded model.
pub open spec fn loaded_message(model: Seq<char>, ms: nat, previous: Option<Seq<char>>) -> Seq<char> {
    match previous {
        Some(p) => "switched from "@ + p + " to "@ + model + " in "@ + decimal(ms) + " ms"@,
        None => "loaded "@ + model + " in "@ + decimal(ms) + " ms"@,
    }
}

/// The error shown for a failed load.
pub open spec fn load_failure_message(error: Seq<char>, previous: Option<Seq<char>>) -> Seq<char> {
    match previous {
        Some(p) => "model switch failed; "@ + p + " remains active: "@ + error,
        None => error,
    }
}

/// Whether the session awaits answers to this request.
pub open spec fn awaits(s: SessionView, request_id: u64) -> bool {
    s.current_request == Some(request_id)
}

fn text_of(s: &str) -> (r: String)
    ensures
        r@ == s@,
{
    s.to_owned()
}

fn loading_text(model: &String, previous: &Option<String>) -> (r: String)
    ensures
        r@ == loading_message(model@, opt_text(*previous)),
{
    match previous {
        Some(p) => {
            let mut r = text_of("switching from ");
            r.append(p.as_str());
            r.append(" to ");
            r.append(model.as_str());
            r
        },
        None => {
            let mut r = text_of("loading ");
            r.append(model.as_str());
            r
        },
    }
}

fn loaded_text(model: &String, ms: u128, previous: &Option<String>) -> (r: String)
    ensures
        r@ == loaded_message(model@, ms as nat, opt_text(*previous)),
{
    let digits = string_of(&decimal_chars(ms));
    match previous {
        Some(p) => {
            let mut r = text_of("switched from ");
            r.append(p.as_str());
            r.append(" to ");
            r.append(model.as_str());
            r.append(" in ");
            r.append(digits.as_str());
            r.append(" ms");
            r
        },
        None => {
            let mut r = text_of("loaded ");
            r.append(model.as_str());
            r.append(" in ");
            r.append(digits.as_str());
            r.append(" ms");
            r
        },
    }
}

fn load_failure_text(error: &String, previous: &Option<String>) -> (r: String)
    ensures
        r@ == load_failure_message(error@, opt_text(*previous)),
{
    match previous {
        Some(p) => {
            let mut r = text_of("model switch failed; ");
            r.append(p.as_str());
            r.append(" remains active: ");
            r.append(error.as_str());
            r
        },
        None => copy_string(error),
    }
}

/// Whether neither the session nor the navigation changed.
pub open spec fn unchanged(n0: NavView, s0: SessionView, n1: NavView, s1: SessionView) -> bool {
    n1 == n0 && s1 == s0
}

impl Session {
    /// The session at start-up: no request is awaited and requests are
    /// numbered from 1.
    pub fn new() -> (s: Self)
        ensures
            s@ == (SessionView {
                current_request: None,
                next_request_id: 1,
                next_run_id: 1,
                pending_model_id: None,
                current_run: None,
                current_source: None,
            }),
    {
        Session {
            current_request: None,
            next_request_id: 1,
            next_run_id: 1,
            pending_model_id: None,
            current_run: None,
            current_source: None,
        }
    }

    /// Takes the number of a new request; the numbers stop growing at the
    /// largest one.
    pub fn take_request_id(&mut self) -> (id: u64)
        ensures
            id == old(self).next_request_id,
            final(self)@ == (SessionView {
                next_request_id: old(self).next_request_id.saturating_add(1),
                ..old(self)@
            }),
    {
        let id = self.next_request_id;
        self.next_request_id = self.next_request_id.saturating_add(1);
        id
    }

    /// Names a new run in the namespace: the first name, counting from the
    /// next run number on, that no saved run has; `taken` are the names of
    /// the saved runs. The counter moves past the number used.
    pub fn take_run_id(&mut self, namespace: &str, taken: &Vec<String>) -> (id: String)
        requires
            taken@.len() < u64::MAX,
        ensures
            !crate::text::string_views(taken@).contains(id@),
            exists|k: nat|
                #![trigger counter_after(old(self).next_run_id, k)]
                {
                    &&& k <= taken@.len()
                    &&& id@ == run_name(namespace@, counter_after(old(self).next_run_id, k) as nat)
                    &&& final(self)@ == (SessionView {
                        next_run_id: counter_after(old(self).next_run_id, k + 1),
                        ..old(self)@
                    })
                    &&& forall|j: nat| j < k ==> crate::text::string_views(taken@).contains(
                        run_name(namespace@, #[trigger] counter_after(old(self).next_run_id, j) as nat),
                    )
                },
    {
        let (id, next) = fresh_run_name(namespace, self.next_run_id, taken);
        self.next_run_id = next;
        id
    }

    /// Whether a report answers the awaited request.
    pub fn accepts(&self, request_id: u64) -> (r: bool)
        ensures
            r == awaits(self@, request_id),
    {
        match self.current_request {
            Some(id) => id == request_id,
            None => false,
        }
    }
}

/// Whether the report ends the awaited run: its result or its failure.
pub open spec fn ends_run(signal: WorkerSignal, s: SessionView) -> bool {
    ||| signal matches WorkerSignal::Finished { request_id, .. } && awaits(s, request_id)
    ||| signal matches WorkerSignal::ProcessingFailed { request_id, .. } && awaits(s, request_id)
}

/// Applies a report of the worker: a report on a request that is no longer
/// awaited changes nothing; otherwise the interface follows the model load
/// or the run, stores the report of a run that ended, and says what it has
/// to log or keep in turn.
pub fn apply_signal(
    nav: &mut Navigation,
    session: &mut Session,
    reports: &mut ReportStore<RunRecord>,
    ctx: &RunContext,
    signal: WorkerSignal,
) -> (r: Reaction)
    requires
        old(reports).wf(),
    ensures
        final(reports).wf(),
        !ends_run(signal, old(session)@) ==> *final(reports) == *old(reports),
        signal matches WorkerSignal::ModelLoadStarted { request_id, model_id, switch_from } ==> if awaits(old(session)@, request_id) {
            &&& final(session)@ == (SessionView { pending_model_id: Some(model_id@), ..old(session)@ })
            &&& final(nav)@ == (NavView {
                status_message: loading_message(model_id@, opt_text(switch_from)),
                screen: Screen::Loading,
                ..old(nav)@
            })
            &&& r is Shown
        } else {
            unchanged(old(nav)@, old(session)@, final(nav)@, final(session)@) && r is Ignored
        },
        signal matches WorkerSignal::ModelReady { request_id, model_id, load_duration_ms, switch_from } ==> if awaits(old(session)@, request_id) {
            &&& final(session)@ == (SessionView {
                pending_model_id: None,
                current_request: None,
                ..old(session)@
            })
            &&& final(nav)@ == (NavView {
                error_message: None,
                status_message: "model "@ + model_id@ + " ready"@,
                screen: Screen::Bench,
                ..old(nav)@
            })
            &&& r matches Reaction::AdoptModel(log)
            &&& log@ == loaded_message(model_id@, load_duration_ms as nat, opt_text(switch_from))
        } else {
            unchanged(old(nav)@, old(session)@, final(nav)@, final(session)@) && r is Ignored
        },
        signal matches WorkerSignal::ModelLoadFailed { request_id, model_id, error, switch_from } ==> if awaits(old(session)@, request_id) {
            &&& final(session)@ == (SessionView {
                pending_model_id: Some(model_id@),
                current_request: None,
                ..old(session)@
            })
            &&& final(nav)@ == (NavView {
                error_message: Some(load_failure_message(error@, opt_text(switch_from))),
                screen: Screen::Error,
                ..old(nav)@
            })
            &&& r matches Reaction::LogLoadError(log) && log@ == error@
        } else {
            unchanged(old(nav)@, old(session)@, final(nav)@, final(session)@) && r is Ignored
        },
        signal matches WorkerSignal::ProcessingStarted { request_id, run_id, source } ==> if awaits(old(session)@, request_id) {
            &&& final(session)@ == (SessionView {
                current_run: Some(run_id@),
                current_source: Some(source@),
                ..old(session)@
            })
            &&& final(nav)@ == (NavView {
                status_message: "processing "@ + source@,
                screen: Screen::Processing,
                ..old(nav)@
            })
            &&& r is Shown
        } else {
            unchanged(old(nav)@, old(session)@, final(nav)@, final(session)@) && r is Ignored
        },
        signal matches WorkerSignal::Finished { request_id, run_id, source, outcome } ==> if awaits(old(session)@, request_id) {
            &&& final(session)@ == (SessionView {
                current_run: Some(run_id@),
                current_request: None,
                ..old(session)@
            })
            &&& final(nav)@ == (NavView {
                error_message: None,
                status_message: "transcription complete"@,
                scroll: 0,
                screen: Screen::Bench,
                ..old(nav)@
            })
            &&& closes_run(
                *old(reports),
                *final(reports),
                run_id@,
                finished_record(existing(*old(reports), run_id@), run_id@, source@, outcome, *ctx),
            )
            &&& r matches Reaction::RecordResult { run_id: id, source: src } && id@ == run_id@ && src@ == source@
        } else {
            unchanged(old(nav)@, old(session)@, final(nav)@, final(session)@) && r is Ignored
        },
        signal matches WorkerSignal::ProcessingFailed { request_id, run_id, source, error } ==> if awaits(old(session)@, request_id) {
            &&& final(session)@ == (SessionView {
                current_run: Some(run_id@),
                current_source: Some(source@),
                current_request: None,
                ..old(session)@
            })
            &&& final(nav)@ == (NavView {
                error_message: Some(error@),
                screen: Screen::Bench,
                ..old(nav)@
            })
            &&& closes_run(
                *old(reports),
                *final(reports),
                run_id@,
                failed_record(existing(*old(reports), run_id@), run_id@, source@, error@, *ctx),
            )
            &&& r matches Reaction::RecordFailure { run_id: id, error: log } && id@ == run_id@ && log@ == error@
        } else {
            unchanged(old(nav)@, old(session)@, final(nav)@, final(session)@) && r is Ignored
        },
        signal is Log ==> unchanged(old(nav)@, old(session)@, final(nav)@, final(session)@)
            && r is PushLog,
        signal is WorkerStopped ==> unchanged(old(nav)@, old(session)@, final(nav)@, final(session)@)
            && r is WarnStopped,
{
    match signal {
        WorkerSignal::ModelLoadStarted { request_id, model_id, switch_from } => {
            if !session.accepts(request_id) {
                return Reaction::Ignored;
            }
            load_started(nav, session, model_id, switch_from)
        },
        WorkerSignal::ModelReady { request_id, model_id, load_duration_ms, switch_from } => {
            if !session.accepts(request_id) {
                return Reaction::Ignored;
            }
            model_ready(nav, session, model_id, load_duration_ms, switch_from)
        },
        WorkerSignal::ModelLoadFailed { request_id, model_id, error, switch_from } => {
            if !session.accepts(request_id) {
                return Reaction::Ignored;
            }
            load_failed(nav, session, model_id, error, switch_from)
        },
        WorkerSignal::ProcessingStarted { request_id, run_id, source } => {
            if !session.accepts(request_id) {
                return Reaction::Ignored;
            }
            processing_started(nav, session, run_id, source)
        },
        WorkerSignal::Finished { request_id, run_id, source, outcome } => {
            if !session.accepts(request_id) {
                return Reaction::Ignored;
            }
            finished(nav, session, reports, ctx, run_id, source, outcome)
        },
        WorkerSignal::ProcessingFailed { request_id, run_id, source, error } => {
            if !session.accepts(request_id) {
                return Reaction::Ignored;
            }
            processing_failed(nav, session, reports, ctx, run_id, source, error)
        },
        WorkerSignal::Log => Reaction::PushLog,
        WorkerSignal::WorkerStopped => Reaction::WarnStopped,
    }
}

fn load_started(nav: &mut Navigation, session: &mut Session, model_id: String, switch_from: Option<String>) -> (r: Reaction)
    ensures
        final(session)@ == (SessionView { pending_model_id: Some(model_id@), ..old(session)@ }),
        final(nav)@ == (NavView {
            status_message: loading_message(model_id@, opt_text(switch_from)),
            screen: Screen::Loading,
            ..old(nav)@
        }),
        r is Shown,
{
    nav.status_message = loading_text(&model_id, &switch_from);
    nav.screen = Screen::Loading;
    session.pending_model_id = Some(model_id);
    Reaction::Shown
}

fn model_ready(
    nav: &mut Navigation,
    session: &mut Session,
    model_id: String,
    load_duration_ms: u128,
    switch_from: Option<String>,
) -> (r: Reaction)
    ensures
        final(session)@ == (SessionView {
            pending_model_id: None,
            current_request: None,
            ..old(session)@
        }),
        final(nav)@ == (NavView {
            error_message: None,
            status_message: "model "@ + model_id@ + " ready"@,
            screen: Screen::Bench,
            ..old(nav)@
        }),
        r matches Reaction::AdoptModel(log) && log@ == loaded_message(
            model_id@,
            load_duration_ms as nat,
            opt_text(switch_from),
        ),
{
    let log = loaded_text(&model_id, load_duration_ms, &switch_from);
    let mut status = text_of("model ");
    status.append(model_id.as_str());
    status.append(" ready");
    session.pending_model_id = None;
    session.current_request = None;
    nav.error_message = None;
    nav.status_message = status;
    nav.screen = Screen::Bench;
    Reaction::AdoptModel(log)
}

fn load_failed(
    nav: &mut Navigation,
    session: &mut Session,
    model_id: String,
    error: String,
    switch_from: Option<String>,
) -> (r: Reaction)
    ensures
        final(session)@ == (SessionView {
            pending_model_id: Some(model_id@),
            current_request: None,
            ..old(session)@
        }),
        final(nav)@ == (NavView {
            error_message: Some(load_failure_message(error@, opt_text(switch_from))),
            screen: Screen::Error,
            ..old(nav)@
        }),
        r matches Reaction::LogLoadError(log) && log@ == error@,
{
    session.pending_model_id = Some(model_id);
    session.current_request = None;
    nav.error_message = Some(load_failure_text(&error, &switch_from));
    nav.screen = Screen::Error;
    Reaction::LogLoadError(error)
}

fn processing_started(nav: &mut Navigation, session: &mut Session, run_id: String, source: String) -> (r: Reaction)
    ensures
        final(session)@ == (SessionView {
            current_run: Some(run_id@),
            current_source: Some(source@),
            ..old(session)@
        }),
        final(nav)@ == (NavView {
            status_message: "processing "@ + source@,
            screen: Screen::Processing,
            ..old(nav)@
        }),
        r is Shown,
{
    let mut status = text_of("processing ");
    status.append(source.as_str());
    session.current_run = Some(run_id);
    session.current_source = Some(source);
    nav.status_message = status;
    nav.screen = Screen::Processing;
    Reaction::Shown
}

fn finished(
    nav: &mut Navigation,
    session: &mut Session,
    reports: &mut ReportStore<RunRecord>,
    ctx: &RunContext,
    run_id: String,
    source: String,
    outcome: RunOutcome,
) -> (r: Reaction)
    requires
        old(reports).wf(),
    ensures
        final(session)@ == (SessionView {
            current_run: Some(run_id@),
            current_request: None,
            ..old(session)@
        }),
        final(nav)@ == (NavView {
            error_message: None,
            status_message: "transcription complete"@,
            scroll: 0,
            screen: Screen::Bench,
            ..old(nav)@
        }),
        closes_run(
            *old(reports),
            *final(reports),
            run_id@,
            finished_record(existing(*old(reports), run_id@), run_id@, source@, outcome, *ctx),
        ),
        r matches Reaction::RecordResult { run_id: id, source: src } && id@ == run_id@ && src@ == source@,
{
    record_result(reports, run_id.as_str(), source.as_str(), &outcome, ctx);
    session.current_run = Some(copy_string(&run_id));
    session.current_request = None;
    nav.error_message = None;
    nav.status_message = text_of("transcription complete");
    nav.scroll = 0;
    nav.screen = Screen::Bench;
    Reaction::RecordResult { run_id, source }
}

fn processing_failed(
    nav: &mut Navigation,
    session: &mut Session,
    reports: &mut ReportStore<RunRecord>,
    ctx: &RunContext,
    run_id: String,
    source: String,
    error: String,
) -> (r: Reaction)
    requires
        old(reports).wf(),
    ensures
        final(session)@ == (SessionView {
            current_run: Some(run_id@),
            current_source: Some(source@),
            current_request: None,
            ..old(session)@
        }),
        final(nav)@ == (NavView { error_message: Some(error@), screen: Screen::Bench, ..old(nav)@ }),
        closes_run(
            *old(reports),
            *final(reports),
            run_id@,
            failed_record(existing(*old(reports), run_id@), run_id@, source@, error@, *ctx),
        ),
        r matches Reaction::RecordFailure { run_id: id, error: log } && id@ == run_id@ && log@ == error@,
{
    record_failure(reports, run_id.as_str(), source.as_str(), error.as_str(), ctx);
    session.current_run = Some(copy_string(&run_id));
    session.current_source = Some(source);
    session.current_request = None;
    nav.error_message = Some(copy_string(&error));
    nav.screen = Screen::Bench;
    Reaction::RecordFailure { run_id, error }
}
} // verus!
