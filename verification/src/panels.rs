//! The text of the test bench, the telemetry overview and a run's report.
//! Values that carry floats (the audio length) come formatted; everything
//! else is composed here.
use vstd::prelude::*;
use vstd::string::StringExecFns;
use crate::audio::SpeechGateDecision;
use crate::engine::TranscriptionStatus;
use crate::layout::{report_time, report_time_text};
use crate::reports::ReportStore;
use crate::run_record::{
    decision_label, decision_text, events_view, existing, status_label, status_text, RecordView, RunRecord,
};
use crate::server::{decimal, decimal_chars};
use crate::text::{copy_string, string_of, string_views};
use crate::tui::ActiveModel;

verus! {

/// The text of an optional value, or `absent` without one.
pub open spec fn or_text(o: Option<Seq<char>>, absent: Seq<char>) -> Seq<char> {
    match o {
        Some(s) => s,
        None => absent,
    }
}

/// The lines of a run's report, with the audio length as shown.
pub open spec fn report_lines(r: RecordView, audio_seconds: Seq<char>) -> Seq<Seq<char>> {
    seq![
        "Run: "@ + r.run_id + " / "@ + r.status,
        "Model: "@ + r.model_id,
        "Family: "@ + r.model_family,
        "Backend: "@ + r.backend,
        "Runtime: "@ + or_text(r.runtime, "unknown"@),
        "Revision: "@ + or_text(r.revision, "unknown"@),
        "Started: "@ + report_time_text(r.started_at_ms),
        "Finished: "@ + match r.finished_at_ms {
            Some(t) => report_time_text(t),
            None => "pending"@,
        },
        "Source: "@ + r.source,
        "Language: "@ + or_text(r.language, "unknown"@),
        "Audio: "@ + audio_seconds + " s"@,
        "Segments: "@ + decimal(r.segment_count as nat),
        "Samples: "@ + decimal(r.events.len()),
        "Gate: "@ + r.gate_decision,
        "Error: "@ + or_text(r.error, "none"@),
        "TRANSCRIPT"@,
        if r.transcript.len() == 0 {
            "No final transcript."@
        } else {
            r.transcript
        },
        "RAW TRANSCRIPT"@,
        if r.raw_transcript.len() == 0 {
            "No raw transcript."@
        } else {
            r.raw_transcript
        },
    ]
}

/// The bench's transcript panel: the transcript of a run that heard speech,
/// else why there is none, else how to start.
pub open spec fn bench_transcript(result: Option<(TranscriptionStatus, Seq<char>, SpeechGateDecision)>) -> Seq<char> {
    match result {
        Some((status, text, gate)) => if status == TranscriptionStatus::Speech && text.len() > 0 {
            text
        } else {
            "Status: "@ + status_label(status) + "\n\nNo final speech transcript was produced.\n\nGate: "@
                + decision_label(gate)
        },
        None => "No result yet.\n\nChoose a source to test the selected model."@,
    }
}

/// The bench's run details before a result: whether a request is under
/// way, the source and the run.
pub open spec fn bench_idle(busy: bool, source: Option<Seq<char>>, run: Option<Seq<char>>) -> Seq<char> {
    "Status: "@ + (if busy {
        "busy"@
    } else {
        "idle"@
    }) + "    Source: "@ + or_text(source, "none"@) + "    Run: "@ + or_text(run, "\u{2014}"@)
}

/// The bench's source panel: the sources to choose from and the folder
/// with its WAV file count.
pub open spec fn bench_sources(directory: Seq<char>, wav_count: nat) -> Seq<Seq<char>> {
    seq![
        "INPUT SOURCE"@,
        Seq::<char>::empty(),
        "[l] Live microphone"@,
        "[f] Select WAV file"@,
        Seq::<char>::empty(),
        "Folder:"@,
        directory,
        decimal(wav_count) + " WAV file(s)"@,
    ]
}

/// The overview's lines: its heading with the event and log counts, the
/// model in use, the state and run, and the current run's transcript.
pub open spec fn overview(
    model: Option<ActiveModel>,
    status: Seq<char>,
    run: Option<Seq<char>>,
    reports: ReportStore<RunRecord>,
    events: nat,
    logs: nat,
) -> Seq<Seq<char>> {
    let transcript = match run {
        Some(id) => match existing(reports, id) {
            Some(r) => r.transcript,
            None => seq![],
        },
        None => seq![],
    };
    seq![
        "MODEL / CURRENT STATE / "@ + decimal(events) + " events / "@ + decimal(logs) + " logs"@,
        match model {
            Some(m) => m.id@ + " / "@ + m.backend@ + " / "@ + match m.runtime {
                Some(rt) => rt@,
                None => "runtime unknown"@,
            },
            None => "No active model"@,
        },
        "State: "@ + status + " | Run: "@ + or_text(run, "none"@),
        if transcript.len() == 0 {
            "No final transcript yet."@
        } else {
            transcript
        },
    ]
}

fn joined(parts: &[&str]) -> (r: String)
    ensures
        r@ == parts@.fold_left(Seq::<char>::empty(), |acc: Seq<char>, p: &str| acc + p@),
{
    let mut r = String::new();
    let mut i: usize = 0;
    while i < parts.len()
        invariant
            i <= parts@.len(),
            r@ == parts@.take(i as int).fold_left(Seq::<char>::empty(), |acc: Seq<char>, p: &str| acc + p@),
        decreases parts.len() - i,
    {
        proof {
            assert(parts@.take(i as int + 1).drop_last() =~= parts@.take(i as int));
        }
        r.append(parts[i]);
        i += 1;
    }
    proof {
        assert(parts@.take(parts@.len() as int) =~= parts@);
    }
    r
}

fn number_text(n: u64) -> (r: String)
    ensures
        r@ == decimal(n as nat),
{
    let digits = decimal_chars(n as u128);
    string_of(&digits)
}

fn text_or<'a>(o: &'a Option<String>, absent: &'a str) -> (r: &'a str)
    ensures
        r@ == or_text(crate::navigation::opt_text(*o), absent@),
{
    match o {
        Some(s) => s.as_str(),
        None => absent,
    }
}

fn two(a: &str, b: &str) -> (r: String)
    ensures
        r@ == a@ + b@,
{
    let mut r = a.to_owned();
    r.append(b);
    r
}

/// The lines of a run's report, with the audio length as shown; without a
/// selected run, a note saying so.
pub fn run_report_lines(report: Option<&RunRecord>, audio_seconds: &str) -> (lines: Vec<String>)
    ensures
        string_views(lines@) == match report {
            Some(r) => report_lines(r@, audio_seconds@),
            None => seq!["No run selected."@],
        },
{
    let r = match report {
        Some(r) => r,
        None => {
            let mut lines: Vec<String> = Vec::new();
            lines.push("No run selected.".to_owned());
            assert(string_views(lines@) =~= seq!["No run selected."@]);
            return lines;
        },
    };
    let mut lines: Vec<String> = Vec::new();
    lines.push(joined(&["Run: ", r.run_id.as_str(), " / ", r.status.as_str()]));
    lines.push(two("Model: ", r.model_id.as_str()));
    lines.push(two("Family: ", r.model_family.as_str()));
    lines.push(two("Backend: ", r.backend.as_str()));
    lines.push(two("Runtime: ", text_or(&r.runtime, "unknown")));
    lines.push(two("Revision: ", text_or(&r.revision, "unknown")));
    let started = report_time(r.started_at_ms);
    lines.push(two("Started: ", started.as_str()));
    let finished = match r.finished_at_ms {
        Some(t) => report_time(t),
        None => "pending".to_owned(),
    };
    lines.push(two("Finished: ", finished.as_str()));
    lines.push(two("Source: ", r.source.as_str()));
    lines.push(two("Language: ", text_or(&r.language, "unknown")));
    lines.push(joined(&["Audio: ", audio_seconds, " s"]));
    let segments = number_text(r.segment_count as u64);
    lines.push(two("Segments: ", segments.as_str()));
    let samples = number_text(r.events.len() as u64);
    lines.push(two("Samples: ", samples.as_str()));
    lines.push(two("Gate: ", r.gate_decision.as_str()));
    lines.push(two("Error: ", text_or(&r.error, "none")));
    lines.push("TRANSCRIPT".to_owned());
    lines.push(
        if r.transcript.as_str().is_empty() {
            "No final transcript.".to_owned()
        } else {
            copy_string(&r.transcript)
        },
    );
    lines.push("RAW TRANSCRIPT".to_owned());
    lines.push(
        if r.raw_transcript.as_str().is_empty() {
            "No raw transcript.".to_owned()
        } else {
            copy_string(&r.raw_transcript)
        },
    );
    proof {
        reveal_with_fuel(Seq::fold_left, 5);
        assert(events_view(r.events@).len() == r.events@.len());
        assert(string_views(lines@) =~= report_lines(r@, audio_seconds@));
    }
    lines
}

/// The bench's transcript panel.
pub fn bench_transcript_text(result: Option<(TranscriptionStatus, &str, SpeechGateDecision)>) -> (t: String)
    ensures
        t@ == bench_transcript(
            match result {
                Some((s, text, g)) => Some((s, text@, g)),
                None => None,
            },
        ),
{
    match result {
        Some((status, text, gate)) => {
            if status == TranscriptionStatus::Speech && !text.is_empty() {
                text.to_owned()
            } else {
                let r = joined(
                    &[
                        "Status: ",
                        status_text(status),
                        "\n\nNo final speech transcript was produced.\n\nGate: ",
                        decision_text(gate),
                    ],
                );
                proof {
                    reveal_with_fuel(Seq::fold_left, 5);
                }
                r
            }
        },
        None => "No result yet.\n\nChoose a source to test the selected model.".to_owned(),
    }
}

/// The bench's run details before a result.
pub fn bench_idle_details(busy: bool, source: &Option<String>, run: &Option<String>) -> (r: String)
    ensures
        r@ == bench_idle(busy, crate::navigation::opt_text(*source), crate::navigation::opt_text(*run)),
{
    let r = joined(
        &[
            "Status: ",
            if busy {
                "busy"
            } else {
                "idle"
            },
            "    Source: ",
            text_or(source, "none"),
            "    Run: ",
            text_or(run, "\u{2014}"),
        ],
    );
    proof {
        reveal_with_fuel(Seq::fold_left, 7);
    }
    r
}

/// The bench's source panel.
pub fn bench_source_lines(directory: &str, wav_count: usize) -> (l: Vec<String>)
    ensures
        string_views(l@) == bench_sources(directory@, wav_count as nat),
{
    let mut l: Vec<String> = Vec::new();
    l.push("INPUT SOURCE".to_owned());
    l.push(String::new());
    l.push("[l] Live microphone".to_owned());
    l.push("[f] Select WAV file".to_owned());
    l.push(String::new());
    l.push("Folder:".to_owned());
    l.push(directory.to_owned());
    let count = number_text(wav_count as u64);
    l.push(two(count.as_str(), " WAV file(s)"));
    assert(string_views(l@) =~= bench_sources(directory@, wav_count as nat));
    l
}

/// The overview's lines.
pub fn overview_lines(
    model: &Option<ActiveModel>,
    status: &str,
    run: &Option<String>,
    reports: &ReportStore<RunRecord>,
    events: usize,
    logs: usize,
) -> (l: Vec<String>)
    ensures
        string_views(l@) == overview(
            *model,
            status@,
            crate::navigation::opt_text(*run),
            *reports,
            events as nat,
            logs as nat,
        ),
{
    let event_count = number_text(events as u64);
    let log_count = number_text(logs as u64);
    let heading = joined(
        &["MODEL / CURRENT STATE / ", event_count.as_str(), " events / ", log_count.as_str(), " logs"],
    );
    let model_line = match model {
        Some(m) => joined(&[m.id.as_str(), " / ", m.backend.as_str(), " / ", text_or(&m.runtime, "runtime unknown")]),
        None => "No active model".to_owned(),
    };
    let state = joined(&["State: ", status, " | Run: ", text_or(run, "none")]);
    proof {
        reports.lemma_lengths();
    }
    let transcript = match run {
        Some(id) => match reports.report(id.as_str()) {
            Some(r) => {
                proof {
                    crate::run_record::lemma_report_views(reports.ids(), reports.bodies(), id@);
                }
                if r.transcript.as_str().is_empty() {
                    "No final transcript yet.".to_owned()
                } else {
                    copy_string(&r.transcript)
                }
            },
            None => {
                proof {
                    crate::run_record::lemma_report_views(reports.ids(), reports.bodies(), id@);
                }
                "No final transcript yet.".to_owned()
            },
        },
        None => "No final transcript yet.".to_owned(),
    };
    let mut l: Vec<String> = Vec::new();
    l.push(heading);
    l.push(model_line);
    l.push(state);
    l.push(transcript);
    proof {
        reveal_with_fuel(Seq::fold_left, 6);
        assert(string_views(l@) =~= overview(
            *model,
            status@,
            crate::navigation::opt_text(*run),
            *reports,
            events as nat,
            logs as nat,
        ));
    }
    l
}

} // verus!
