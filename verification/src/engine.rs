//! The decisions of the transcription pipeline. The caller runs the speech
//! gate and the speech model and passes their outcomes on: audio without
//! detected speech is never transcribed, a transcript that only repeats the
//! dictionary prompt is tried once more without the prompt, a discarded
//! transcript yields no text, and cleanup only ever replaces an accepted
//! transcript by a non-empty cleaned one.
use vstd::prelude::*;
use crate::audio::SpeechGateDecision;
use crate::dictionary::DictionaryPrompt;
use crate::text::{
    capitalize, capitalize_chars, chars_of, collapse_ws, concat_chars, copy_string, string_of,
};
use crate::transcript::{guard, guard_transcript, normalize_transcript, TranscriptGuardDecision};

verus! {

/// How a transcription ended.
#[derive(Clone, Copy, Debug, PartialEq, Eq, Structural)]
pub enum TranscriptionStatus {
    Speech,
    NoSpeech,
    InsufficientSpeech,
    DictionaryPromptEcho,
    KnownSilenceMarker,
    EmptyTranscript,
}

/// What became of the cleanup pass.
#[derive(Clone, Copy, Debug, PartialEq, Eq, Structural)]
pub enum CleanupStatus {
    Disabled,
    NotConfigured,
    Applied,
    FallbackToRaw,
}

// ---------------------------------------------------------------------------
// The speech gate
// ---------------------------------------------------------------------------

/// The status of audio without detected speech: `None` for audio with
/// speech, which goes on to transcription.
pub open spec fn spec_gate_status(decision: SpeechGateDecision) -> Option<TranscriptionStatus> {
    match decision {
        SpeechGateDecision::SpeechDetected => None,
        SpeechGateDecision::InsufficientSpeech => Some(TranscriptionStatus::InsufficientSpeech),
        SpeechGateDecision::Silence | SpeechGateDecision::Unavailable => Some(
            TranscriptionStatus::NoSpeech,
        ),
    }
}

/// The status of audio without detected speech, and `None` when the speech
/// model has to run.
pub fn gate_status(decision: SpeechGateDecision) -> (r: Option<TranscriptionStatus>)
    ensures
        r == spec_gate_status(decision),
        r is None <==> !decision.spec_should_skip(),
{
    match decision {
        SpeechGateDecision::SpeechDetected => None,
        SpeechGateDecision::InsufficientSpeech => Some(TranscriptionStatus::InsufficientSpeech),
        SpeechGateDecision::Silence | SpeechGateDecision::Unavailable => Some(
            TranscriptionStatus::NoSpeech,
        ),
    }
}

/// The cleanup status reported when no transcript reached cleanup.
pub fn skipped_cleanup_status(cleanup_enabled: bool) -> (r: CleanupStatus)
    ensures
        r == if cleanup_enabled {
            CleanupStatus::NotConfigured
        } else {
            CleanupStatus::Disabled
        },
{
    if cleanup_enabled {
        CleanupStatus::NotConfigured
    } else {
        CleanupStatus::Disabled
    }
}

/// The result of audio that the speech gate kept from the recognizer: no text and
/// no segments, in the configured language, with cleanup skipped.
#[derive(Debug)]
pub struct SkippedResult {
    pub status: TranscriptionStatus,
    pub raw_text: String,
    pub text: String,
    pub language: Option<String>,
    pub segment_count: usize,
    pub cleanup_status: CleanupStatus,
    pub recovery_attempted: bool,
}

/// How a transcription goes on once the speech gate has judged the audio.
#[derive(Debug)]
pub enum GateStep {
    /// The speech gate kept the audio from the recognizer: this is the result.
    Skipped(SkippedResult),
    /// The recognizer is not ready: the transcription fails, naming it.
    NotReady { backend: String },
    /// The recognizer runs, with the dictionary prompt.
    Recognize,
}

/// After the speech gate: audio without detected speech ends with an empty result
/// whatever the recognizer's state; otherwise a recognizer that is not
/// ready fails the transcription, and a ready one runs.
pub fn after_gate(
    decision: SpeechGateDecision,
    recognizer_ready: bool,
    backend: &str,
    language: &Option<String>,
    cleanup_enabled: bool,
) -> (r: GateStep)
    ensures
        match spec_gate_status(decision) {
            Some(status) => r matches GateStep::Skipped(x) && x.status == status && x.raw_text@.len()
                == 0 && x.text@.len() == 0 && x.language == *language && x.segment_count == 0
                && x.cleanup_status == (if cleanup_enabled {
                CleanupStatus::NotConfigured
            } else {
                CleanupStatus::Disabled
            }) && !x.recovery_attempted,
            None => if recognizer_ready {
                r is Recognize
            } else {
                r matches GateStep::NotReady { backend: b } && b@ == backend@
            },
        },
{
    match gate_status(decision) {
        Some(status) => GateStep::Skipped(
            SkippedResult {
                status,
                raw_text: String::new(),
                text: String::new(),
                language: crate::text::copy_opt_string(language),
                segment_count: 0,
                cleanup_status: skipped_cleanup_status(cleanup_enabled),
                recovery_attempted: false,
            },
        ),
        None => {
            if recognizer_ready {
                GateStep::Recognize
            } else {
                GateStep::NotReady { backend: backend.to_owned() }
            }
        },
    }
}

// ---------------------------------------------------------------------------
// Recognition and its one retry
// ---------------------------------------------------------------------------

/// A normalized transcript and the guard's decision on it.
#[derive(Debug)]
pub struct Guarded {
    pub text: String,
    pub decision: TranscriptGuardDecision,
}

/// The recognizer's text, normalized, with the guard's decision given the
/// prompt it was recognized with.
pub fn examine(raw: &str, prompt: Option<&DictionaryPrompt>) -> (g: Guarded)
    ensures
        g.text@ == collapse_ws(raw@),
        g.decision == guard(raw@, crate::transcript::prompt_view(prompt)),
{
    let text = normalize_transcript(raw);
    let decision = guard_transcript(raw, prompt);
    Guarded { text, decision }
}

/// Whether the recognizer runs once more, without the prompt: only for a
/// prompt echo, and only when retries are on.
pub fn should_retry(first: &Guarded, retry_enabled: bool) -> (r: bool)
    ensures
        r == (first.decision == TranscriptGuardDecision::DictionaryPromptEcho && retry_enabled),
{
    retry_enabled && match first.decision {
        TranscriptGuardDecision::DictionaryPromptEcho => true,
        _ => false,
    }
}

/// The transcript kept after a retry: the retry's, guarded without a
/// prompt, unless it failed (`None`) or is still a prompt echo, in which
/// case the first one stands. The flag says whether the retry was taken.
pub fn recover(first: Guarded, retry_raw: Option<&str>) -> (r: (Guarded, bool))
    ensures
        match retry_raw {
            Some(t) => if guard(t@, None) != TranscriptGuardDecision::DictionaryPromptEcho {
                r.1 && r.0.text@ == collapse_ws(t@) && r.0.decision == guard(t@, None)
            } else {
                !r.1 && r.0 == first
            },
            None => !r.1 && r.0 == first,
        },
{
    match retry_raw {
        Some(t) => {
            let retry = examine(t, None);
            match retry.decision {
                TranscriptGuardDecision::DictionaryPromptEcho => (first, false),
                _ => (retry, true),
            }
        },
        None => (first, false),
    }
}

/// The status of a guarded transcript.
pub open spec fn spec_status_for(decision: TranscriptGuardDecision) -> TranscriptionStatus {
    match decision {
        TranscriptGuardDecision::Accept => TranscriptionStatus::Speech,
        TranscriptGuardDecision::Empty => TranscriptionStatus::EmptyTranscript,
        TranscriptGuardDecision::KnownSilenceMarker => TranscriptionStatus::KnownSilenceMarker,
        TranscriptGuardDecision::DictionaryPromptEcho => TranscriptionStatus::DictionaryPromptEcho,
    }
}

/// The status of a guarded transcript.
pub fn status_for(decision: TranscriptGuardDecision) -> (r: TranscriptionStatus)
    ensures
        r == spec_status_for(decision),
{
    match decision {
        TranscriptGuardDecision::Accept => TranscriptionStatus::Speech,
        TranscriptGuardDecision::Empty => TranscriptionStatus::EmptyTranscript,
        TranscriptGuardDecision::KnownSilenceMarker => TranscriptionStatus::KnownSilenceMarker,
        TranscriptGuardDecision::DictionaryPromptEcho => TranscriptionStatus::DictionaryPromptEcho,
    }
}

// ---------------------------------------------------------------------------
// Cleanup
// ---------------------------------------------------------------------------

/// Whether the cleaner runs: the transcript was accepted, cleanup is on and
/// a cleaner is configured.
pub fn should_clean(decision: TranscriptGuardDecision, cleanup_enabled: bool, has_cleaner: bool) -> (r:
    bool)
    ensures
        r == (decision == TranscriptGuardDecision::Accept && cleanup_enabled && has_cleaner),
{
    cleanup_enabled && has_cleaner && match decision {
        TranscriptGuardDecision::Accept => true,
        _ => false,
    }
}

/// The final text and cleanup status of a guarded transcript. `cleaned` is
/// what the cleaner returned when it ran (`Err` for its failure).
pub open spec fn spec_conclusion(
    decision: TranscriptGuardDecision,
    raw_text: Seq<char>,
    cleanup_enabled: bool,
    cleaned: Option<Result<Seq<char>, Seq<char>>>,
) -> (Seq<char>, CleanupStatus) {
    if decision != TranscriptGuardDecision::Accept {
        (Seq::<char>::empty(), CleanupStatus::NotConfigured)
    } else if !cleanup_enabled {
        (raw_text, CleanupStatus::Disabled)
    } else {
        match cleaned {
            None => (raw_text, CleanupStatus::NotConfigured),
            Some(Ok(c)) => if collapse_ws(c).len() > 0 {
                (collapse_ws(c), CleanupStatus::Applied)
            } else {
                (raw_text, CleanupStatus::FallbackToRaw)
            },
            Some(Err(_)) => (raw_text, CleanupStatus::FallbackToRaw),
        }
    }
}

/// The view of a cleaner's outcome.
pub open spec fn cleaned_view(cleaned: Option<Result<String, String>>) -> Option<
    Result<Seq<char>, Seq<char>>,
> {
    match cleaned {
        None => None,
        Some(Ok(c)) => Some(Ok(c@)),
        Some(Err(e)) => Some(Err(e@)),
    }
}

/// The final status, text and cleanup status of a guarded transcript:
/// discarded transcripts have no text, and an accepted one keeps its text
/// unless the cleaner ran and returned non-blank text, which is normalized.
pub fn conclude(
    guarded: &Guarded,
    cleanup_enabled: bool,
    cleaned: Option<Result<String, String>>,
) -> (r: (TranscriptionStatus, String, CleanupStatus))
    ensures
        r.0 == spec_status_for(guarded.decision),
        (r.1@, r.2) == spec_conclusion(
            guarded.decision,
            guarded.text@,
            cleanup_enabled,
            cleaned_view(cleaned),
        ),
{
    let status = status_for(guarded.decision);
    match guarded.decision {
        TranscriptGuardDecision::Accept => {},
        _ => {
            return (status, String::new(), CleanupStatus::NotConfigured);
        },
    }
    if !cleanup_enabled {
        return (status, copy_string(&guarded.text), CleanupStatus::Disabled);
    }
    match cleaned {
        None => (status, copy_string(&guarded.text), CleanupStatus::NotConfigured),
        Some(Ok(c)) => {
            let normalized = normalize_transcript(c.as_str());
            if chars_of(normalized.as_str()).len() > 0 {
                (status, normalized, CleanupStatus::Applied)
            } else {
                (status, copy_string(&guarded.text), CleanupStatus::FallbackToRaw)
            }
        },
        Some(Err(_)) => (status, copy_string(&guarded.text), CleanupStatus::FallbackToRaw),
    }
}

/// Audio without detected speech is never transcribed; a discarded
/// transcript never carries text; and an accepted transcript keeps its text
/// unless cleanup produced non-blank text.
pub proof fn law_pipeline_outcomes(
    gate: SpeechGateDecision,
    decision: TranscriptGuardDecision,
    raw_text: Seq<char>,
    cleanup_enabled: bool,
    cleaned: Option<Result<Seq<char>, Seq<char>>>,
)
    ensures
        gate.spec_should_skip() <==> spec_gate_status(gate) is Some,
        decision != TranscriptGuardDecision::Accept ==> spec_conclusion(
            decision,
            raw_text,
            cleanup_enabled,
            cleaned,
        ).0.len() == 0,
        decision == TranscriptGuardDecision::Accept ==> {
            let (t, s) = spec_conclusion(decision, raw_text, cleanup_enabled, cleaned);
            (s == CleanupStatus::Applied && t.len() > 0) || t == raw_text
        },
{
}

// ---------------------------------------------------------------------------
// Cleaners
// ---------------------------------------------------------------------------

/// The deterministic cleanup pass: whitespace normalized and the first
/// character uppercased; nothing is inferred or removed.
#[derive(Clone, Copy, Debug, PartialEq, Eq, Structural)]
pub struct RuleBasedFormatter;

impl RuleBasedFormatter {
    /// The cleaner's name.
    pub fn name(&self) -> (r: &'static str)
        ensures
            r@ == "rule-based-formatter"@,
    {
        "rule-based-formatter"
    }

    /// `text` with whitespace collapsed and its first character mapped to
    /// uppercase.
    pub fn clean(&self, text: &str) -> (r: String)
        ensures
            r@ == capitalize(collapse_ws(text@)),
    {
        let normalized = normalize_transcript(text);
        let chars = chars_of(normalized.as_str());
        let capitalized = capitalize_chars(&chars);
        string_of(&capitalized)
    }
}

/// A cleaner that hands the transcript to a language model with an
/// instruction; the model itself is called by the program around it.
#[derive(Debug)]
pub struct LlmTextCleaner<M> {
    pub model: M,
    pub instruction: String,
}

/// The instruction a language-model cleaner starts with.
pub open spec fn default_instruction() -> Seq<char> {
    "Rewrite the transcript as clear written text. Preserve every fact, name, number, negation, uncertainty, and requested action. Do not add information. Return only the rewritten text."@
}

/// The prompt for cleaning `text`: the instruction, a blank line, and the
/// text inside `<transcript>` tags on lines of their own.
pub open spec fn cleanup_prompt_text(instruction: Seq<char>, text: Seq<char>) -> Seq<char> {
    instruction + "\n\n<transcript>\n"@ + text + "\n</transcript>"@
}

impl<M> LlmTextCleaner<M> {
    /// A cleaner for `model` with the default instruction.
    pub fn new(model: M) -> (c: Self)
        ensures
            c.model == model,
            c.instruction@ == default_instruction(),
    {
        LlmTextCleaner {
            model,
            instruction: "Rewrite the transcript as clear written text. Preserve every fact, name, number, negation, uncertainty, and requested action. Do not add information. Return only the rewritten text.".to_owned(),
        }
    }

    /// The cleaner with another instruction.
    pub fn with_instruction(self, instruction: String) -> (c: Self)
        ensures
            c.model == self.model,
            c.instruction == instruction,
    {
        LlmTextCleaner { model: self.model, instruction }
    }

    /// The prompt the model is given for `text`.
    pub fn prompt(&self, text: &str) -> (r: String)
        ensures
            r@ == cleanup_prompt_text(self.instruction@, text@),
    {
        let v = concat_chars(chars_of(self.instruction.as_str()), &chars_of("\n\n<transcript>\n"));
        let v = concat_chars(v, &chars_of(text));
        let v = concat_chars(v, &chars_of("\n</transcript>"));
        string_of(&v)
    }
}

} // verus!
