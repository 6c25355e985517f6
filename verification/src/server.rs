//! The rules of the HTTP service: which requests reach the recognizer or
//! the incident analyzer, how request headers set the metrics of a run,
//! how run ids are formed, and which error each failure is answered with.
//! Serving HTTP is left to the caller.
use vstd::prelude::*;
use crate::incident::{take_until, take_until_chars};
use crate::logs::digit_char;
use crate::metrics::MetricsConfig;
use crate::text::{
    ascii_lower_seq, chars_eq, chars_of, concat_chars, contains, find_chars, str_eq, string_of,
    to_ascii_lower_chars, trim, trim_chars,
};

verus! {

/// An error answer: HTTP status, machine-readable code and message.
#[derive(Clone, Copy, Debug, PartialEq, Eq)]
pub struct ApiError {
    pub status: u16,
    pub code: &'static str,
    pub message: &'static str,
}

/// Whether `e` is the answer with the given status, code and message.
pub open spec fn is_api_error(e: ApiError, status: u16, code: Seq<char>, message: Seq<char>) -> bool {
    e.status == status && e.code@ == code && e.message@ == message
}

// ---------------------------------------------------------------------------
// Requests
// ---------------------------------------------------------------------------

/// The media type of a `Content-Type` value: the part before any `;`,
/// trimmed and ASCII-lowercased; empty when there is no usable header.
pub open spec fn media_type_of(header: Option<Seq<char>>) -> Seq<char> {
    match header {
        Some(h) => ascii_lower_seq(trim(take_until(h, seq![';']))),
        None => Seq::<char>::empty(),
    }
}

/// The view of an optional text.
pub open spec fn opt_str(o: Option<&str>) -> Option<Seq<char>> {
    match o {
        Some(s) => Some(s@),
        None => None,
    }
}

/// What a transcription request is refused with: a media type other than
/// `audio/wav` or `audio/x-wav` first, then an empty body.
pub open spec fn spec_transcribe_rejection(content_type: Option<Seq<char>>, body_len: nat) -> Option<
    (u16, Seq<char>, Seq<char>),
> {
    let m = media_type_of(content_type);
    if m != "audio/wav"@ && m != "audio/x-wav"@ {
        Some((415u16, "unsupported_media_type"@, "Content-Type must be audio/wav."@))
    } else if body_len == 0 {
        Some((400u16, "invalid_request"@, "A non-empty WAV body is required."@))
    } else {
        None
    }
}

/// The error a transcription request is refused with, or `None` when it
/// goes on to the recognizer. `content_type` is the header's text, `None`
/// when it is missing or not visible ASCII.
pub fn transcribe_rejection(content_type: Option<&str>, body_len: usize) -> (r: Option<ApiError>)
    ensures
        match spec_transcribe_rejection(opt_str(content_type), body_len as nat) {
            Some((status, code, message)) => r matches Some(e) && is_api_error(
                e,
                status,
                code,
                message,
            ),
            None => r is None,
        },
{
    let media = match content_type {
        Some(h) => {
            let chars = chars_of(h);
            let semicolon = [';'];
            assert(semicolon@ == seq![';']);
            let first = take_until_chars(&chars, 0, &semicolon);
            assert(chars@.skip(0) == chars@);
            let trimmed = trim_chars(&first);
            to_ascii_lower_chars(&trimmed)
        },
        None => Vec::new(),
    };
    let wav = chars_of("audio/wav");
    let xwav = chars_of("audio/x-wav");
    if !chars_eq(&media, &wav) && !chars_eq(&media, &xwav) {
        return Some(
            ApiError {
                status: 415,
                code: "unsupported_media_type",
                message: "Content-Type must be audio/wav.",
            },
        );
    }
    if body_len == 0 {
        return Some(
            ApiError {
                status: 400,
                code: "invalid_request",
                message: "A non-empty WAV body is required.",
            },
        );
    }
    None
}

/// The most characters a transcript sent for analysis may have.
pub const MAX_TRANSCRIPT_CHARS: usize = 16000;

/// The transcript of an analysis request, trimmed, or the error for one
/// that is blank or longer than `MAX_TRANSCRIPT_CHARS` characters.
pub fn analysis_transcript(transcript: &str) -> (r: Result<String, ApiError>)
    ensures
        trim(transcript@).len() == 0 || trim(transcript@).len() > 16000 ==> (r matches Err(e)
            && is_api_error(
            e,
            400,
            "invalid_request"@,
            "A non-empty transcript of at most 16000 characters is required."@,
        )),
        0 < trim(transcript@).len() <= 16000 ==> (r matches Ok(t) && t@ == trim(transcript@)),
{
    let trimmed = trim_chars(&chars_of(transcript));
    if trimmed.len() == 0 || trimmed.len() > MAX_TRANSCRIPT_CHARS {
        return Err(
            ApiError {
                status: 400,
                code: "invalid_request",
                message: "A non-empty transcript of at most 16000 characters is required.",
            },
        );
    }
    Ok(string_of(&trimmed))
}

// ---------------------------------------------------------------------------
// Headers and run metrics
// ---------------------------------------------------------------------------

/// A header's trimmed text, `None` when it is missing or blank.
pub open spec fn spec_header_string(value: Option<Seq<char>>) -> Option<Seq<char>> {
    match value {
        Some(v) => if trim(v).len() > 0 {
            Some(trim(v))
        } else {
            None
        },
        None => None,
    }
}

/// A header's trimmed text, `None` when it is missing or blank.
pub fn header_string(value: Option<&str>) -> (r: Option<String>)
    ensures
        match spec_header_string(opt_str(value)) {
            Some(t) => r matches Some(s) && s@ == t,
            None => r is None,
        },
{
    match value {
        Some(v) => {
            let t = trim_chars(&chars_of(v));
            if t.len() > 0 {
                Some(string_of(&t))
            } else {
                None
            }
        },
        None => None,
    }
}

/// A header read as a switch: `true`, `1` or `yes` turn it on and `false`,
/// `0` or `no` off, in any ASCII case and surrounded by any whitespace;
/// anything else leaves it unset.
pub open spec fn spec_header_bool(value: Option<Seq<char>>) -> Option<bool> {
    match spec_header_string(value) {
        Some(t) => {
            let l = ascii_lower_seq(t);
            if l == "true"@ || l == "1"@ || l == "yes"@ {
                Some(true)
            } else if l == "false"@ || l == "0"@ || l == "no"@ {
                Some(false)
            } else {
                None
            }
        },
        None => None,
    }
}

fn chars_are(v: &Vec<char>, s: &str) -> (r: bool)
    ensures
        r == (v@ == s@),
{
    let w = chars_of(s);
    chars_eq(v, &w)
}

/// A header read as a switch.
pub fn header_bool(value: Option<&str>) -> (r: Option<bool>)
    ensures
        r == spec_header_bool(opt_str(value)),
{
    let t = match value {
        Some(v) => trim_chars(&chars_of(v)),
        None => {
            return None;
        },
    };
    if t.len() == 0 {
        return None;
    }
    let l = to_ascii_lower_chars(&t);
    if chars_are(&l, "true") || chars_are(&l, "1") || chars_are(&l, "yes") {
        Some(true)
    } else if chars_are(&l, "false") || chars_are(&l, "0") || chars_are(&l, "no") {
        Some(false)
    } else {
        None
    }
}

/// The metrics flags of one request: the service's flags, with the
/// incident flag set by an `x-incident-active` switch when there is one,
/// else on for the analysis route.
pub fn request_metrics_config(
    base: MetricsConfig,
    incident_header: Option<&str>,
    incident_route: bool,
) -> (c: MetricsConfig)
    ensures
        c.enabled == base.enabled,
        c.resource_sampling == base.resource_sampling,
        c.incident_active == match spec_header_bool(opt_str(incident_header)) {
            Some(b) => b,
            None => if incident_route {
                true
            } else {
                base.incident_active
            },
        },
{
    let mut config = base;
    match header_bool(incident_header) {
        Some(active) => {
            config.incident_active = active;
        },
        None => {
            if incident_route {
                config.incident_active = true;
            }
        },
    }
    config
}

// ---------------------------------------------------------------------------
// Run ids
// ---------------------------------------------------------------------------

/// The decimal digits of `n`, without leading zeros.
pub open spec fn decimal(n: nat) -> Seq<char>
    decreases n,
{
    if n < 10 {
        seq![digit_char(n as int)]
    } else {
        decimal(n / 10).push(digit_char((n % 10) as int))
    }
}

fn digit_of(d: u128) -> (c: char)
    requires
        d < 10,
    ensures
        c == digit_char(d as int),
{
    if d == 0 {
        '0'
    } else if d == 1 {
        '1'
    } else if d == 2 {
        '2'
    } else if d == 3 {
        '3'
    } else if d == 4 {
        '4'
    } else if d == 5 {
        '5'
    } else if d == 6 {
        '6'
    } else if d == 7 {
        '7'
    } else if d == 8 {
        '8'
    } else {
        '9'
    }
}

/// The decimal digits of `n`.
pub fn decimal_chars(n: u128) -> (r: Vec<char>)
    ensures
        r@ == decimal(n as nat),
    decreases n,
{
    if n < 10 {
        let mut v: Vec<char> = Vec::new();
        v.push(digit_of(n));
        assert(v@ =~= decimal(n as nat));
        v
    } else {
        let mut v = decimal_chars(n / 10);
        v.push(digit_of(n % 10));
        v
    }
}

/// The id of a run that came without one: `run_`, the time in milliseconds
/// since the Unix epoch, `_`, and the number of runs numbered before.
pub open spec fn run_id_text(timestamp_ms: u128, serial: u64) -> Seq<char> {
    "run_"@ + decimal(timestamp_ms as nat) + "_"@ + decimal(serial as nat)
}

/// The id of a run numbered `serial` and started at `timestamp_ms`.
pub fn new_run_id(timestamp_ms: u128, serial: u64) -> (r: String)
    ensures
        r@ == run_id_text(timestamp_ms, serial),
{
    let v = concat_chars(chars_of("run_"), &decimal_chars(timestamp_ms));
    let v = concat_chars(v, &chars_of("_"));
    let v = concat_chars(v, &decimal_chars(serial as u128));
    string_of(&v)
}

// ---------------------------------------------------------------------------
// Failures
// ---------------------------------------------------------------------------

/// The answer to a failed transcription, by the error's message: a clip
/// over the duration limit is the client's error, an unavailable recognizer
/// is reported as such, and anything else is an internal failure.
pub open spec fn spec_engine_error(message: Seq<char>) -> (u16, Seq<char>, Seq<char>) {
    if contains(message, "duration exceeds"@) {
        (400u16, "audio_too_long"@, "Audio exceeds the configured duration limit."@)
    } else if contains(message, "not ready"@) || contains(message, "could not load"@) {
        (503u16, "runtime_unavailable"@, "Analysis runtime is unavailable."@)
    } else {
        (500u16, "transcription_failed"@, "Transcription failed."@)
    }
}

fn str_contains(s: &str, p: &str) -> (r: bool)
    ensures
        r == contains(s@, p@),
{
    let sv = chars_of(s);
    let pv = chars_of(p);
    find_chars(&sv, &pv).is_some()
}

/// The answer to a failed transcription.
pub fn map_engine_error(message: &str) -> (e: ApiError)
    ensures
        is_api_error(
            e,
            spec_engine_error(message@).0,
            spec_engine_error(message@).1,
            spec_engine_error(message@).2,
        ),
{
    if str_contains(message, "duration exceeds") {
        ApiError {
            status: 400,
            code: "audio_too_long",
            message: "Audio exceeds the configured duration limit.",
        }
    } else if str_contains(message, "not ready") || str_contains(message, "could not load") {
        ApiError { status: 503, code: "runtime_unavailable", message: "Analysis runtime is unavailable." }
    } else {
        ApiError { status: 500, code: "transcription_failed", message: "Transcription failed." }
    }
}

/// The answer of the readiness probe: `ready`, or the unavailable runtime.
pub fn readiness(ready: bool) -> (r: Result<&'static str, ApiError>)
    ensures
        ready ==> (r matches Ok(s) && s@ == "ready"@),
        !ready ==> (r matches Err(e) && is_api_error(
            e,
            503,
            "runtime_unavailable"@,
            "Analysis runtime is unavailable."@,
        )),
{
    if ready {
        Ok("ready")
    } else {
        Err(
            ApiError {
                status: 503,
                code: "runtime_unavailable",
                message: "Analysis runtime is unavailable.",
            },
        )
    }
}

/// The answer when the incident analyzer's response is invalid.
pub fn analysis_failed() -> (e: ApiError)
    ensures
        is_api_error(e, 502, "invalid_model_response"@, "Analysis runtime returned an invalid response."@),
{
    ApiError {
        status: 502,
        code: "invalid_model_response",
        message: "Analysis runtime returned an invalid response.",
    }
}

/// The answer when the transcription task itself failed.
pub fn transcription_task_failed() -> (e: ApiError)
    ensures
        is_api_error(e, 500, "transcription_failed"@, "Transcription failed."@),
{
    ApiError { status: 500, code: "transcription_failed", message: "Transcription failed." }
}

/// Only WAV bodies reach the recognizer, and never an empty one.
pub proof fn law_only_wav_reaches_recognizer(content_type: Option<Seq<char>>, body_len: nat)
    ensures
        spec_transcribe_rejection(content_type, body_len) is None ==> (media_type_of(content_type)
            == "audio/wav"@ || media_type_of(content_type) == "audio/x-wav"@) && body_len > 0,
{
}

} // verus!
