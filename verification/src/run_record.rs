//! The report of one run as the telemetry views keep it, and how a run's
//! end is recorded: a failed run and a finished one both take the metric
//! events buffered for the run, in the order they came, and close the run.
//! The measured audio length and the full transcription result carry
//! floats; they travel beside the record, keyed by its run id.
use vstd::prelude::*;
use crate::audio::SpeechGateDecision;
use crate::engine::TranscriptionStatus;
use crate::navigation::{first_from, opt_text};
use crate::reports::{
    bodies_after_upsert, ids_after_upsert, law_stored_report_is_read_back, report_of, ReportStore,
};
use crate::text::{copy_opt_string, copy_string, str_eq};
use crate::tui::ActiveModel;

verus! {

/// A metric event as a run's report keeps it: the run it belongs to, its
/// name, its sequence number and when it was taken.
pub struct RunEvent {
    pub run_id: String,
    pub name: String,
    pub sequence: u64,
    pub timestamp_ms: u64,
}

/// A metric event as plain values.
#[verifier::ext_equal]
pub struct RunEventView {
    pub run_id: Seq<char>,
    pub name: Seq<char>,
    pub sequence: u64,
    pub timestamp_ms: u64,
}

impl View for RunEvent {
    type V = RunEventView;

    open spec fn view(&self) -> RunEventView {
        RunEventView {
            run_id: self.run_id@,
            name: self.name@,
            sequence: self.sequence,
            timestamp_ms: self.timestamp_ms,
        }
    }
}

/// The events of a list as plain values.
pub open spec fn events_view(events: Seq<RunEvent>) -> Seq<RunEventView> {
    events.map_values(|e: RunEvent| e@)
}

/// The report of a run.
pub struct RunRecord {
    pub run_id: String,
    pub model_id: String,
    pub model_family: String,
    pub backend: String,
    pub runtime: Option<String>,
    pub revision: Option<String>,
    pub source: String,
    pub status: String,
    pub transcript: String,
    pub raw_transcript: String,
    pub language: Option<String>,
    pub gate_decision: String,
    pub segment_count: usize,
    pub started_at_ms: u64,
    pub finished_at_ms: Option<u64>,
    pub error: Option<String>,
    pub events: Vec<RunEvent>,
}

/// A run's report as plain values.
#[verifier::ext_equal]
pub struct RecordView {
    pub run_id: Seq<char>,
    pub model_id: Seq<char>,
    pub model_family: Seq<char>,
    pub backend: Seq<char>,
    pub runtime: Option<Seq<char>>,
    pub revision: Option<Seq<char>>,
    pub source: Seq<char>,
    pub status: Seq<char>,
    pub transcript: Seq<char>,
    pub raw_transcript: Seq<char>,
    pub language: Option<Seq<char>>,
    pub gate_decision: Seq<char>,
    pub segment_count: usize,
    pub started_at_ms: u64,
    pub finished_at_ms: Option<u64>,
    pub error: Option<Seq<char>>,
    pub events: Seq<RunEventView>,
}

impl View for RunRecord {
    type V = RecordView;

    open spec fn view(&self) -> RecordView {
        RecordView {
            run_id: self.run_id@,
            model_id: self.model_id@,
            model_family: self.model_family@,
            backend: self.backend@,
            runtime: opt_text(self.runtime),
            revision: opt_text(self.revision),
            source: self.source@,
            status: self.status@,
            transcript: self.transcript@,
            raw_transcript: self.raw_transcript@,
            language: opt_text(self.language),
            gate_decision: self.gate_decision@,
            segment_count: self.segment_count,
            started_at_ms: self.started_at_ms,
            finished_at_ms: self.finished_at_ms,
            error: opt_text(self.error),
            events: events_view(self.events@),
        }
    }
}

/// The reports of a list as plain values.
pub open spec fn record_views(records: Seq<RunRecord>) -> Seq<RecordView> {
    records.map_values(|r: RunRecord| r@)
}

/// What the end of a run reads besides the worker's report: the model in
/// use, the model the settings select, the time, and the metric events
/// buffered so far, oldest first.
pub struct RunContext {
    pub model: Option<ActiveModel>,
    pub selected_model: String,
    pub now_ms: u64,
    pub buffered: Vec<RunEvent>,
}

/// How a finished transcription ended, as a run's report keeps it.
pub struct RunOutcome {
    pub status: TranscriptionStatus,
    pub transcript: String,
    pub raw_transcript: String,
    pub language: Option<String>,
    pub gate: SpeechGateDecision,
    pub segment_count: usize,
}

/// The name a report gives a transcription status.
pub open spec fn status_label(s: TranscriptionStatus) -> Seq<char> {
    match s {
        TranscriptionStatus::Speech => "speech"@,
        TranscriptionStatus::NoSpeech => "no_speech"@,
        TranscriptionStatus::InsufficientSpeech => "insufficient_speech"@,
        TranscriptionStatus::DictionaryPromptEcho => "dictionary_prompt_echo"@,
        TranscriptionStatus::KnownSilenceMarker => "known_silence_marker"@,
        TranscriptionStatus::EmptyTranscript => "empty_transcript"@,
    }
}

/// The name a report gives the verdict of the speech gate, as the enum spells it.
pub open spec fn decision_label(d: SpeechGateDecision) -> Seq<char> {
    match d {
        SpeechGateDecision::SpeechDetected => "SpeechDetected"@,
        SpeechGateDecision::Silence => "Silence"@,
        SpeechGateDecision::InsufficientSpeech => "InsufficientSpeech"@,
        SpeechGateDecision::Unavailable => "Unavailable"@,
    }
}

/// The buffered events of a run, in the order they came.
pub open spec fn run_events(buffered: Seq<RunEventView>, run: Seq<char>) -> Seq<RunEventView>
    decreases buffered.len(),
{
    if buffered.len() == 0 {
        seq![]
    } else {
        let rest = run_events(buffered.drop_last(), run);
        if buffered.last().run_id == run {
            rest.push(buffered.last())
        } else {
            rest
        }
    }
}

/// The report a run gets when it has none: the model in use, or the
/// selected model of unknown family and backend; nothing transcribed yet,
/// started now.
pub open spec fn fresh_record(run_id: Seq<char>, source: Seq<char>, ctx: RunContext) -> RecordView {
    RecordView {
        run_id,
        model_id: match ctx.model {
            Some(m) => m.id@,
            None => ctx.selected_model@,
        },
        model_family: match ctx.model {
            Some(m) => m.family@,
            None => "unknown"@,
        },
        backend: match ctx.model {
            Some(m) => m.backend@,
            None => "unknown"@,
        },
        runtime: match ctx.model {
            Some(m) => opt_text(m.runtime),
            None => None,
        },
        revision: None,
        source,
        status: "ERROR"@,
        transcript: seq![],
        raw_transcript: seq![],
        language: None,
        gate_decision: "unknown"@,
        segment_count: 0,
        started_at_ms: ctx.now_ms,
        finished_at_ms: None,
        error: None,
        events: seq![],
    }
}

/// The report of a run that begins: the model in use, or the selected
/// model of unknown family and backend, with the selected model's revision;
/// `BUSY`, its speech gate verdict pending, started now.
pub open spec fn busy_record(
    run_id: Seq<char>,
    source: Seq<char>,
    revision: Option<Seq<char>>,
    ctx: RunContext,
) -> RecordView {
    RecordView {
        revision,
        status: "BUSY"@,
        gate_decision: "pending"@,
        ..fresh_record(run_id, source, ctx)
    }
}

/// Where the first report of a run under way (`BUSY`) is, from `i` on.
pub open spec fn busy_position(views: Seq<RecordView>, run: Seq<char>, i: int) -> Option<int>
    decreases views.len() - i,
{
    if i < 0 || i >= views.len() {
        None
    } else if views[i].status == "BUSY"@ && views[i].run_id == run {
        Some(i)
    } else {
        busy_position(views, run, i + 1)
    }
}

/// The reports after an event arrives: the first report of the event's run
/// that is under way takes it, last; the others stay as they were.
pub open spec fn with_event(views: Seq<RecordView>, e: RunEventView) -> Seq<RecordView> {
    match busy_position(views, e.run_id, 0) {
        Some(i) => views.update(i, RecordView { events: views[i].events.push(e), ..views[i] }),
        None => views,
    }
}

/// The events a buffer of the given limit keeps after one more arrives: the
/// oldest goes when the buffer is full.
pub open spec fn buffered_after(events: Seq<RunEventView>, limit: nat, e: RunEventView) -> Seq<RunEventView> {
    if events.len() >= limit {
        events.drop_first().push(e)
    } else {
        events.push(e)
    }
}

/// The report of a failed run: the run's report, or a fresh one, marked
/// `ERROR` with the error, finished now, holding the run's buffered events.
pub open spec fn failed_record(
    existing: Option<RecordView>,
    run_id: Seq<char>,
    source: Seq<char>,
    error: Seq<char>,
    ctx: RunContext,
) -> RecordView {
    let base = match existing {
        Some(r) => r,
        None => fresh_record(run_id, source, ctx),
    };
    RecordView {
        status: "ERROR"@,
        error: Some(error),
        finished_at_ms: Some(ctx.now_ms),
        events: run_events(events_view(ctx.buffered@), run_id),
        ..base
    }
}

/// The error a finished run is recorded with when it has no report.
pub open spec fn missing_context() -> Seq<char> {
    "missing run context"@
}

/// The report of a finished run: the run's report, or the failed report
/// of a run without one, with the outcome, finished now, without error,
/// holding the run's buffered events.
pub open spec fn finished_record(
    existing: Option<RecordView>,
    run_id: Seq<char>,
    source: Seq<char>,
    outcome: RunOutcome,
    ctx: RunContext,
) -> RecordView {
    let base = match existing {
        Some(r) => r,
        None => failed_record(None, run_id, source, missing_context(), ctx),
    };
    RecordView {
        status: status_label(outcome.status),
        transcript: outcome.transcript@,
        raw_transcript: outcome.raw_transcript@,
        language: opt_text(outcome.language),
        gate_decision: decision_label(outcome.gate),
        segment_count: outcome.segment_count,
        finished_at_ms: Some(ctx.now_ms),
        error: None,
        events: run_events(events_view(ctx.buffered@), run_id),
        ..base
    }
}

/// The report a store keeps for a run, as plain values.
pub open spec fn existing(store: ReportStore<RunRecord>, run_id: Seq<char>) -> Option<RecordView> {
    report_of(store.ids(), record_views(store.bodies()), run_id)
}

/// The store after a run's report is stored and the run is no longer under
/// way: the report replaces the run's report, or comes first and selected
/// where none was, and the oldest beyond the limit go.
pub open spec fn closes_run(
    before: ReportStore<RunRecord>,
    after: ReportStore<RunRecord>,
    run_id: Seq<char>,
    record: RecordView,
) -> bool {
    &&& after.wf()
    &&& after.ids() == ids_after_upsert(before.ids(), run_id)
    &&& record_views(after.bodies()) == bodies_after_upsert(
        before.ids(),
        record_views(before.bodies()),
        run_id,
        record,
    )
    &&& after.selection() == if before.ids().contains(run_id) || before.selection() is Some {
        before.selection()
    } else {
        Some(run_id)
    }
    &&& after.running() is None
}

/// The store after a run begins: its report is stored like any other, and
/// the run is the one under way.
pub open spec fn opens_run(
    before: ReportStore<RunRecord>,
    after: ReportStore<RunRecord>,
    run_id: Seq<char>,
    record: RecordView,
) -> bool {
    &&& after.wf()
    &&& after.ids() == ids_after_upsert(before.ids(), run_id)
    &&& record_views(after.bodies()) == bodies_after_upsert(
        before.ids(),
        record_views(before.bodies()),
        run_id,
        record,
    )
    &&& after.selection() == if before.ids().contains(run_id) || before.selection() is Some {
        before.selection()
    } else {
        Some(run_id)
    }
    &&& after.running() == Some(run_id)
}

/// The name of a transcription status.
pub fn status_text(s: TranscriptionStatus) -> (r: &'static str)
    ensures
        r@ == status_label(s),
{
    match s {
        TranscriptionStatus::Speech => {
            proof {
                reveal_strlit("speech");
            }
            "speech"
        },
        TranscriptionStatus::NoSpeech => {
            proof {
                reveal_strlit("no_speech");
            }
            "no_speech"
        },
        TranscriptionStatus::InsufficientSpeech => {
            proof {
                reveal_strlit("insufficient_speech");
            }
            "insufficient_speech"
        },
        TranscriptionStatus::DictionaryPromptEcho => {
            proof {
                reveal_strlit("dictionary_prompt_echo");
            }
            "dictionary_prompt_echo"
        },
        TranscriptionStatus::KnownSilenceMarker => {
            proof {
                reveal_strlit("known_silence_marker");
            }
            "known_silence_marker"
        },
        TranscriptionStatus::EmptyTranscript => {
            proof {
                reveal_strlit("empty_transcript");
            }
            "empty_transcript"
        },
    }
}

/// The name of the speech gate's verdict.
pub fn decision_text(d: SpeechGateDecision) -> (r: &'static str)
    ensures
        r@ == decision_label(d),
{
    match d {
        SpeechGateDecision::SpeechDetected => {
            proof {
                reveal_strlit("SpeechDetected");
            }
            "SpeechDetected"
        },
        SpeechGateDecision::Silence => {
            proof {
                reveal_strlit("Silence");
            }
            "Silence"
        },
        SpeechGateDecision::InsufficientSpeech => {
            proof {
                reveal_strlit("InsufficientSpeech");
            }
            "InsufficientSpeech"
        },
        SpeechGateDecision::Unavailable => {
            proof {
                reveal_strlit("Unavailable");
            }
            "Unavailable"
        },
    }
}

fn owned(s: &str) -> (r: String)
    ensures
        r@ == s@,
{
    s.to_owned()
}

/// A copy of an event.
pub fn copy_event(e: &RunEvent) -> (r: RunEvent)
    ensures
        r@ == e@,
{
    RunEvent {
        run_id: copy_string(&e.run_id),
        name: copy_string(&e.name),
        sequence: e.sequence,
        timestamp_ms: e.timestamp_ms,
    }
}

/// The buffered events of a run, in the order they came.
pub fn events_for(buffered: &Vec<RunEvent>, run_id: &str) -> (r: Vec<RunEvent>)
    ensures
        events_view(r@) == run_events(events_view(buffered@), run_id@),
{
    let ghost all = events_view(buffered@);
    let mut r: Vec<RunEvent> = Vec::new();
    let mut i: usize = 0;
    while i < buffered.len()
        invariant
            i <= buffered@.len(),
            all == events_view(buffered@),
            events_view(r@) == run_events(all.take(i as int), run_id@),
        decreases buffered.len() - i,
    {
        proof {
            assert(all.take(i as int + 1).drop_last() =~= all.take(i as int));
            assert(all.take(i as int + 1).last() == buffered@[i as int]@);
        }
        if str_eq(buffered[i].run_id.as_str(), run_id) {
            let e = copy_event(&buffered[i]);
            let ghost before = r@;
            r.push(e);
            proof {
                assert(events_view(r@) =~= events_view(before).push(e@));
            }
        }
        i += 1;
    }
    proof {
        assert(all.take(buffered@.len() as int) =~= all);
    }
    r
}

fn copy_events(events: &Vec<RunEvent>) -> (r: Vec<RunEvent>)
    ensures
        events_view(r@) == events_view(events@),
{
    let mut r: Vec<RunEvent> = Vec::new();
    let mut i: usize = 0;
    while i < events.len()
        invariant
            i <= events@.len(),
            events_view(r@) == events_view(events@).take(i as int),
        decreases events.len() - i,
    {
        let e = copy_event(&events[i]);
        let ghost before = r@;
        r.push(e);
        proof {
            assert(events_view(r@) =~= events_view(before).push(e@));
            assert(events_view(r@) =~= events_view(events@).take(i as int + 1));
        }
        i += 1;
    }
    proof {
        assert(events_view(events@).take(events@.len() as int) =~= events_view(events@));
    }
    r
}

/// A copy of a report.
pub fn copy_record(r: &RunRecord) -> (c: RunRecord)
    ensures
        c@ == r@,
{
    RunRecord {
        run_id: copy_string(&r.run_id),
        model_id: copy_string(&r.model_id),
        model_family: copy_string(&r.model_family),
        backend: copy_string(&r.backend),
        runtime: copy_opt_string(&r.runtime),
        revision: copy_opt_string(&r.revision),
        source: copy_string(&r.source),
        status: copy_string(&r.status),
        transcript: copy_string(&r.transcript),
        raw_transcript: copy_string(&r.raw_transcript),
        language: copy_opt_string(&r.language),
        gate_decision: copy_string(&r.gate_decision),
        segment_count: r.segment_count,
        started_at_ms: r.started_at_ms,
        finished_at_ms: r.finished_at_ms,
        error: copy_opt_string(&r.error),
        events: copy_events(&r.events),
    }
}

fn fresh_report(run_id: &str, source: &str, ctx: &RunContext) -> (r: RunRecord)
    ensures
        r@ == fresh_record(run_id@, source@, *ctx),
{
    let (model_id, model_family, backend, runtime) = match &ctx.model {
        Some(m) => (copy_string(&m.id), copy_string(&m.family), copy_string(&m.backend), copy_opt_string(&m.runtime)),
        None => {
            proof {
                reveal_strlit("unknown");
            }
            (copy_string(&ctx.selected_model), owned("unknown"), owned("unknown"), None)
        },
    };
    proof {
        reveal_strlit("ERROR");
        reveal_strlit("unknown");
    }
    let r = RunRecord {
        run_id: owned(run_id),
        model_id,
        model_family,
        backend,
        runtime,
        revision: None,
        source: owned(source),
        status: owned("ERROR"),
        transcript: String::new(),
        raw_transcript: String::new(),
        language: None,
        gate_decision: owned("unknown"),
        segment_count: 0,
        started_at_ms: ctx.now_ms,
        finished_at_ms: None,
        error: None,
        events: Vec::new(),
    };
    proof {
        assert(events_view(r.events@) =~= seq![]);
    }
    r
}

/// The report of a failed run: the run's report, or a fresh one, marked
/// `ERROR` with the error, finished now, holding the run's buffered events.
pub fn failed_report(existing: Option<&RunRecord>, run_id: &str, source: &str, error: &str, ctx: &RunContext) -> (r:
    RunRecord)
    ensures
        r@ == failed_record(
            match existing {
                Some(e) => Some(e@),
                None => None,
            },
            run_id@,
            source@,
            error@,
            *ctx,
        ),
{
    let mut r = match existing {
        Some(e) => copy_record(e),
        None => fresh_report(run_id, source, ctx),
    };
    proof {
        reveal_strlit("ERROR");
    }
    r.status = owned("ERROR");
    r.error = Some(owned(error));
    r.finished_at_ms = Some(ctx.now_ms);
    r.events = events_for(&ctx.buffered, run_id);
    r
}

/// The report of a finished run: the run's report, or the failed report of
/// a run without one, with the outcome, finished now, without error,
/// holding the run's buffered events.
pub fn finished_report(
    existing: Option<&RunRecord>,
    run_id: &str,
    source: &str,
    outcome: &RunOutcome,
    ctx: &RunContext,
) -> (r: RunRecord)
    ensures
        r@ == finished_record(
            match existing {
                Some(e) => Some(e@),
                None => None,
            },
            run_id@,
            source@,
            *outcome,
            *ctx,
        ),
{
    let mut r = match existing {
        Some(e) => copy_record(e),
        None => {
            proof {
                reveal_strlit("missing run context");
            }
            failed_report(None, run_id, source, "missing run context", ctx)
        },
    };
    r.status = owned(status_text(outcome.status));
    r.transcript = copy_string(&outcome.transcript);
    r.raw_transcript = copy_string(&outcome.raw_transcript);
    r.language = copy_opt_string(&outcome.language);
    r.gate_decision = owned(decision_text(outcome.gate));
    r.segment_count = outcome.segment_count;
    r.finished_at_ms = Some(ctx.now_ms);
    r.error = None;
    r.events = events_for(&ctx.buffered, run_id);
    r
}

proof fn lemma_first_in_range<T>(s: Seq<T>, x: T, i: int)
    ensures
        first_from(s, x, i) matches Some(j) ==> 0 <= j < s.len() && s[j] == x,
    decreases s.len() - i,
{
    if 0 <= i < s.len() {
        lemma_first_in_range(s, x, i + 1);
    }
}

pub(crate) proof fn lemma_report_views(ids: Seq<Seq<char>>, bodies: Seq<RunRecord>, id: Seq<char>)
    requires
        ids.len() == bodies.len(),
    ensures
        report_of(ids, record_views(bodies), id) == match report_of(ids, bodies, id) {
            Some(b) => Some(b@),
            None => None,
        },
{
    lemma_first_in_range(ids, id, 0);
}

pub(crate) proof fn lemma_upsert_views(ids: Seq<Seq<char>>, bodies: Seq<RunRecord>, id: Seq<char>, r: RunRecord)
    requires
        ids.len() == bodies.len(),
    ensures
        record_views(bodies_after_upsert(ids, bodies, id, r)) == bodies_after_upsert(
            ids,
            record_views(bodies),
            id,
            r@,
        ),
{
    lemma_first_in_range(ids, id, 0);
    match first_from(ids, id, 0) {
        Some(i) => {
            assert(record_views(bodies.update(i, r)) =~= record_views(bodies).update(i, r@));
        },
        None => {
            let added = seq![r] + bodies;
            assert(record_views(added) =~= seq![r@] + record_views(bodies));
            if added.len() > crate::reports::MAX_REPORTS {
                assert(record_views(added.take(crate::reports::MAX_REPORTS as int)) =~= record_views(
                    added,
                ).take(crate::reports::MAX_REPORTS as int));
            }
        },
    }
}

/// Stores a run's report and marks no run under way.
fn close_run(reports: &mut ReportStore<RunRecord>, run_id: &str, record: RunRecord)
    requires
        old(reports).wf(),
    ensures
        closes_run(*old(reports), *final(reports), run_id@, record@),
{
    proof {
        old(reports).lemma_lengths();
        lemma_upsert_views(old(reports).ids(), old(reports).bodies(), run_id@, record);
    }
    reports.upsert(owned(run_id), record);
    reports.set_active_run(None);
}

fn busy_report(run_id: &str, source: &str, revision: &Option<String>, ctx: &RunContext) -> (r: RunRecord)
    ensures
        r@ == busy_record(run_id@, source@, opt_text(*revision), *ctx),
{
    let mut r = fresh_report(run_id, source, ctx);
    r.revision = copy_opt_string(revision);
    r.status = owned("BUSY");
    r.gate_decision = owned("pending");
    r
}

/// Begins a run: it is the run under way, and its report, `BUSY`, is
/// stored.
pub fn begin_run(
    reports: &mut ReportStore<RunRecord>,
    run_id: &str,
    source: &str,
    revision: &Option<String>,
    ctx: &RunContext,
)
    requires
        old(reports).wf(),
    ensures
        opens_run(*old(reports), *final(reports), run_id@, busy_record(run_id@, source@, opt_text(*revision), *ctx)),
{
    let record = busy_report(run_id, source, revision, ctx);
    proof {
        old(reports).lemma_lengths();
        lemma_upsert_views(old(reports).ids(), old(reports).bodies(), run_id@, record);
    }
    reports.set_active_run(Some(owned(run_id)));
    reports.upsert(owned(run_id), record);
}

/// The metric events the telemetry views keep, oldest first, at most the
/// limit it was made with.
pub struct EventBuffer {
    events: Vec<RunEvent>,
    max_events: usize,
}

impl EventBuffer {
    /// The kept events, oldest first.
    pub closed spec fn view(&self) -> Seq<RunEventView> {
        events_view(self.events@)
    }

    /// How many events are kept at most.
    pub closed spec fn limit(&self) -> nat {
        self.max_events as nat
    }

    /// At least one event fits, and no more are kept than fit.
    pub closed spec fn wf(&self) -> bool {
        &&& self.max_events >= 1
        &&& self.events@.len() <= self.max_events
    }

    /// An empty buffer keeping at most `max_events` events, and at least one.
    pub fn new(max_events: usize) -> (b: Self)
        ensures
            b.wf(),
            b@ == Seq::<RunEventView>::empty(),
            b.limit() == if max_events == 0 {
                1
            } else {
                max_events as nat
            },
    {
        let b = EventBuffer { events: Vec::new(), max_events: if max_events == 0 { 1 } else { max_events } };
        assert(b@ =~= Seq::<RunEventView>::empty());
        b
    }

    /// Keeps an event, letting the oldest go when the buffer is full, and
    /// hands it to the report of its run while that run is under way.
    pub fn push(&mut self, event: RunEvent, reports: &mut ReportStore<RunRecord>)
        requires
            old(self).wf(),
            old(reports).wf(),
        ensures
            final(self).wf(),
            final(self).limit() == old(self).limit(),
            final(self)@ == buffered_after(old(self)@, old(self).limit(), event@),
            final(reports).wf(),
            final(reports).ids() == old(reports).ids(),
            record_views(final(reports).bodies()) == with_event(record_views(old(reports).bodies()), event@),
            final(reports).selection() == old(reports).selection(),
            final(reports).running() == old(reports).running(),
    {
        reports.append_to_busy(&event);
        let ghost before = self.events@;
        if self.events.len() == self.max_events {
            self.events.remove(0);
            proof {
                assert(events_view(self.events@) =~= events_view(before).drop_first());
            }
        }
        let ghost kept = self.events@;
        self.events.push(event);
        proof {
            assert(events_view(self.events@) =~= events_view(kept).push(event@));
        }
    }

    /// How many events are kept.
    pub fn len(&self) -> (n: usize)
        ensures
            n == self@.len(),
    {
        self.events.len()
    }

    /// A copy of the kept events, oldest first.
    pub fn snapshot(&self) -> (r: Vec<RunEvent>)
        ensures
            events_view(r@) == self@,
    {
        copy_events(&self.events)
    }
}

/// Records a failed run: its report, marked `ERROR` with the error and
/// holding the run's buffered events, is stored, and no run is under way.
pub fn record_failure(reports: &mut ReportStore<RunRecord>, run_id: &str, source: &str, error: &str, ctx: &RunContext)
    requires
        old(reports).wf(),
    ensures
        closes_run(
            *old(reports),
            *final(reports),
            run_id@,
            failed_record(existing(*old(reports), run_id@), run_id@, source@, error@, *ctx),
        ),
{
    proof {
        reports.lemma_lengths();
        lemma_report_views(reports.ids(), reports.bodies(), run_id@);
    }
    let record = failed_report(reports.report(run_id), run_id, source, error, ctx);
    close_run(reports, run_id, record);
}

/// Records a finished run: its report, with the outcome and the run's
/// buffered events, is stored, and no run is under way.
pub fn record_result(
    reports: &mut ReportStore<RunRecord>,
    run_id: &str,
    source: &str,
    outcome: &RunOutcome,
    ctx: &RunContext,
)
    requires
        old(reports).wf(),
    ensures
        closes_run(
            *old(reports),
            *final(reports),
            run_id@,
            finished_record(existing(*old(reports), run_id@), run_id@, source@, *outcome, *ctx),
        ),
{
    proof {
        reports.lemma_lengths();
        lemma_report_views(reports.ids(), reports.bodies(), run_id@);
    }
    let record = finished_report(reports.report(run_id), run_id, source, outcome, ctx);
    close_run(reports, run_id, record);
}

/// Once a run has ended, its report is the one recorded at its end: asking
/// the store for the run's report gives that record back, and no run is
/// under way.
pub proof fn law_ended_run_reads_back(
    before: ReportStore<RunRecord>,
    after: ReportStore<RunRecord>,
    run_id: Seq<char>,
    record: RecordView,
)
    requires
        before.wf(),
        closes_run(before, after, run_id, record),
    ensures
        existing(after, run_id) == Some(record),
        after.running() is None,
{
    before.lemma_wf();
    before.lemma_lengths();
    law_stored_report_is_read_back(before.ids(), record_views(before.bodies()), run_id, record);
}

} // verus!
