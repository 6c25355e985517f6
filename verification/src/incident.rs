//! Conservative incident extraction: a deterministic baseline that copies
//! only facts stated explicitly in the transcript and reports "unknown"
//! otherwise.
use vstd::prelude::*;

use crate::text::{
    ascii_lower_seq, capitalize, capitalize_chars, chars_of, find, find_chars, is_ascii_alpha,
    lemma_find_from, occurs_at, runs, split_runs, string_of, to_ascii_lower_chars, tokens_contain,
    trim, trim_chars, trim_end, trim_start, views, is_ws,
};

verus! {

/// A structured incident report.
#[derive(Clone, Debug, PartialEq, Eq)]
pub struct IncidentReport {
    pub incident_type: String,
    pub location: String,
    pub severity: String,
    pub summary: String,
    pub recommended_action: String,
}

/// Why an analysis produced no report.
#[derive(Clone, Copy, Debug, PartialEq, Eq)]
pub enum IncidentError {
    InvalidReport,
}

impl IncidentError {
    /// The error's message.
    pub fn message(&self) -> (r: &'static str)
        ensures
            r@ == "incident analysis returned an invalid report"@,
    {
        "incident analysis returned an invalid report"
    }
}

/// Turns a transcript into an incident report. Model-backed analyzers
/// implement this next to the rule-based baseline.
pub trait IncidentAnalyzer {
    fn analyze(&mut self, transcript: &str) -> Result<IncidentReport, IncidentError>;
}

/// The deterministic, rule-based analyzer.
#[derive(Clone, Copy, Debug, Default)]
pub struct RuleBasedIncidentAnalyzer;

/// The prefix of `s` before the first character listed in `stops`.
pub open spec fn take_until(s: Seq<char>, stops: Seq<char>) -> Seq<char>
    decreases s.len(),
{
    if s.len() == 0 || stops.contains(s[0]) {
        seq![]
    } else {
        seq![s[0]] + take_until(s.drop_first(), stops)
    }
}

/// The characters that end a location phrase.
pub open spec fn clause_ends() -> Seq<char> {
    seq!['.', '!', '?', ',', ';']
}

/// The characters that end an action sentence.
pub open spec fn sentence_ends() -> Seq<char> {
    seq!['.', '!', '?']
}

/// The first occurrence in `lower` of any of `markers`, as (index, marker
/// length); on equal indices the earlier-listed marker wins.
pub open spec fn earliest_marker(lower: Seq<char>, markers: Seq<Seq<char>>) -> Option<(int, int)>
    decreases markers.len(),
{
    if markers.len() == 0 {
        None
    } else {
        let rest = earliest_marker(lower, markers.drop_first());
        match find(lower, markers[0]) {
            None => rest,
            Some(i) => match rest {
                Some((j, l)) => if j < i {
                    Some((j, l))
                } else {
                    Some((i, markers[0].len() as int))
                },
                None => Some((i, markers[0].len() as int)),
            },
        }
    }
}

/// The markers that introduce a location.
pub open spec fn location_markers() -> Seq<Seq<char>> {
    seq!["near "@, "at "@, "by "@, "in "@]
}

/// The markers that introduce a requested action.
pub open spec fn action_markers() -> Seq<Seq<char>> {
    seq!["please "@, "notify "@, "call "@, "contact "@]
}

/// The phrase after the earliest location marker, up to the end of its
/// clause, trimmed; `None` when there is no marker or the phrase is empty.
pub open spec fn location_of(t: Seq<char>) -> Option<Seq<char>> {
    match earliest_marker(ascii_lower_seq(t), location_markers()) {
        None => None,
        Some((i, l)) => {
            let v = trim(take_until(t.skip(i + l), clause_ends()));
            if v.len() == 0 {
                None
            } else {
                Some(v)
            }
        },
    }
}

/// The sentence starting at the earliest action marker, trimmed and with its
/// first character uppercased; `None` when there is no marker.
pub open spec fn action_of(t: Seq<char>) -> Option<Seq<char>> {
    match earliest_marker(ascii_lower_seq(t), action_markers()) {
        None => None,
        Some((i, l)) => {
            let v = trim(take_until(t.skip(i), sentence_ends()));
            if v.len() == 0 {
                None
            } else {
                Some(capitalize(v))
            }
        },
    }
}

/// The incident type named by keywords in the lowercased transcript.
pub open spec fn incident_type_of(lower: Seq<char>) -> Seq<char> {
    if crate::text::contains(lower, "collision"@) || crate::text::contains(lower, "collid"@)
        || crate::text::contains(lower, "crash"@) {
        "collision"@
    } else if crate::text::contains(lower, "smoke"@) {
        "smoke report"@
    } else if crate::text::contains(lower, "fire"@) {
        "fire report"@
    } else if crate::text::contains(lower, "injur"@) {
        "injury report"@
    } else {
        "unknown"@
    }
}

/// One flag per character: set where it is an ASCII letter.
pub open spec fn ascii_alpha_mask(s: Seq<char>) -> Seq<bool> {
    Seq::new(s.len(), |i: int| is_ascii_alpha(s[i]))
}

/// The first of "low", "medium", "high" that is a whole word of the
/// lowercased transcript, else "unknown".
pub open spec fn severity_of(lower: Seq<char>) -> Seq<char> {
    let w = runs(lower, ascii_alpha_mask(lower));
    if w.contains("low"@) {
        "low"@
    } else if w.contains("medium"@) {
        "medium"@
    } else if w.contains("high"@) {
        "high"@
    } else {
        "unknown"@
    }
}

/// A value, or "unknown" when absent.
pub open spec fn or_unknown(v: Option<Seq<char>>) -> Seq<char> {
    match v {
        Some(x) => x,
        None => "unknown"@,
    }
}

/// What the rule-based analyzer returns for `transcript`, as the report's
/// five fields (type, location, severity, summary, action).
pub open spec fn rule_based_report(transcript: Seq<char>) -> Option<
    (Seq<char>, Seq<char>, Seq<char>, Seq<char>, Seq<char>),
> {
    let t = trim(transcript);
    if t.len() == 0 {
        None
    } else {
        let lower = ascii_lower_seq(t);
        Some(
            (
                incident_type_of(lower),
                or_unknown(location_of(t)),
                severity_of(lower),
                t,
                or_unknown(action_of(t)),
            ),
        )
    }
}

/// The fields of a report.
pub open spec fn report_fields(r: IncidentReport) -> (
    Seq<char>,
    Seq<char>,
    Seq<char>,
    Seq<char>,
    Seq<char>,
) {
    (r.incident_type@, r.location@, r.severity@, r.summary@, r.recommended_action@)
}

/// The prefix of `s` before the first character listed in `stops`.
pub(crate) fn take_until_chars(s: &[char], start: usize, stops: &[char]) -> (r: Vec<char>)
    requires
        start <= s.len(),
    ensures
        r@ == take_until(s@.skip(start as int), stops@),
{
    let mut r: Vec<char> = Vec::new();
    let mut i: usize = start;
    while i < s.len() && !contains_char(stops, s[i])
        invariant
            start <= i <= s.len(),
            take_until(s@.skip(start as int), stops@) == r@ + take_until(
                s@.skip(i as int),
                stops@,
            ),
        decreases s.len() - i,
    {
        assert(s@.skip(i as int)[0] == s@[i as int]);
        assert(s@.skip(i as int).drop_first() == s@.skip(i as int + 1));
        r.push(s[i]);
        i += 1;
    }
    if i < s.len() {
        assert(s@.skip(i as int)[0] == s@[i as int]);
    }
    r
}

/// Whether `c` is listed in `set`.
fn contains_char(set: &[char], c: char) -> (r: bool)
    ensures
        r == set@.contains(c),
{
    let mut i: usize = 0;
    while i < set.len()
        invariant
            i <= set.len(),
            forall|k: int| 0 <= k < i ==> set@[k] != c,
        decreases set.len() - i,
    {
        if set[i] == c {
            return true;
        }
        i += 1;
    }
    false
}

/// The earliest occurrence of any marker in `lower`.
fn earliest(lower: &[char], markers: &Vec<Vec<char>>) -> (r: Option<(usize, usize)>)
    ensures
        r matches Some((i, l)) ==> earliest_marker(lower@, views(markers@)) == Some(
            (i as int, l as int),
        ),
        r is None ==> earliest_marker(lower@, views(markers@)) is None,
{
    let mut best: Option<(usize, usize)> = None;
    let mut k: usize = markers.len();
    while k > 0
        invariant
            k <= markers.len(),
            best matches Some((i, l)) ==> earliest_marker(lower@, views(markers@).skip(k as int))
                == Some((i as int, l as int)),
            best is None ==> earliest_marker(lower@, views(markers@).skip(k as int)) is None,
        decreases k,
    {
        k -= 1;
        let ghost ms = views(markers@).skip(k as int);
        assert(ms.drop_first() == views(markers@).skip(k as int + 1));
        assert(ms[0] == markers@[k as int]@);
        match find_chars(lower, &markers[k]) {
            None => {},
            Some(i) => {
                best = match best {
                    Some((j, l)) => if j < i {
                        Some((j, l))
                    } else {
                        Some((i, markers[k].len()))
                    },
                    None => Some((i, markers[k].len())),
                };
            },
        }
    }
    assert(views(markers@).skip(0) == views(markers@));
    best
}

/// The markers as character vectors.
fn marker_list(a: &str, b: &str, c: &str, d: &str) -> (r: Vec<Vec<char>>)
    ensures
        views(r@) == seq![a@, b@, c@, d@],
{
    let mut r: Vec<Vec<char>> = Vec::new();
    r.push(chars_of(a));
    r.push(chars_of(b));
    r.push(chars_of(c));
    r.push(chars_of(d));
    assert(views(r@) =~= seq![a@, b@, c@, d@]);
    r
}

/// The location phrase of the trimmed transcript `t`.
fn extract_location(t: &[char]) -> (r: Option<Vec<char>>)
    ensures
        r matches Some(v) ==> location_of(t@) == Some(v@),
        r is None ==> location_of(t@) is None,
{
    let lower = to_ascii_lower_chars(t);
    let markers = marker_list("near ", "at ", "by ", "in ");
    let found = earliest(&lower, &markers);
    match found {
        None => None,
        Some((i, l)) => {
            proof {
                lemma_find_bound(lower@, views(markers@), i as int, l as int);
            }
            assert(lower@.len() == t@.len());
            assert(i + l <= t.len());
            let stops = ['.', '!', '?', ',', ';'];
            assert(stops@ == clause_ends());
            let piece = take_until_chars(t, i + l, &stops);
            let v = trim_chars(&piece);
            if v.len() == 0 {
                None
            } else {
                Some(v)
            }
        },
    }
}

/// The requested action of the trimmed transcript `t`.
fn extract_action(t: &[char]) -> (r: Option<Vec<char>>)
    ensures
        r matches Some(v) ==> action_of(t@) == Some(v@),
        r is None ==> action_of(t@) is None,
{
    let lower = to_ascii_lower_chars(t);
    let markers = marker_list("please ", "notify ", "call ", "contact ");
    let found = earliest(&lower, &markers);
    match found {
        None => None,
        Some((i, l)) => {
            proof {
                lemma_find_bound(lower@, views(markers@), i as int, l as int);
            }
            let stops = ['.', '!', '?'];
            assert(stops@ == sentence_ends());
            let piece = take_until_chars(t, i, &stops);
            let v = trim_chars(&piece);
            if v.len() == 0 {
                None
            } else {
                Some(capitalize_chars(&v))
            }
        },
    }
}

/// The earliest marker lies within the text.
proof fn lemma_find_bound(lower: Seq<char>, markers: Seq<Seq<char>>, i: int, l: int)
    requires
        earliest_marker(lower, markers) == Some((i, l)),
    ensures
        0 <= i,
        0 <= l,
        i + l <= lower.len(),
    decreases markers.len(),
{
    if markers.len() > 0 {
        let rest = earliest_marker(lower, markers.drop_first());
        lemma_find_from(lower, markers[0], 0);
        match find(lower, markers[0]) {
            None => lemma_find_bound(lower, markers.drop_first(), i, l),
            Some(k) => match rest {
                Some((j, m)) => {
                    lemma_find_bound(lower, markers.drop_first(), j, m);
                },
                None => {},
            },
        }
    }
}

/// Whether `w` is one of the maximal ASCII-letter runs of `lower`.
fn has_word(words: &Vec<Vec<char>>, w: &str) -> (r: bool)
    ensures
        r == views(words@).contains(w@),
{
    let wc = chars_of(w);
    tokens_contain(words, &wc)
}

impl IncidentAnalyzer for RuleBasedIncidentAnalyzer {
    /// Extracts only what the transcript states: keyword-based type, the
    /// phrase after "near/at/by/in", an explicit low/medium/high severity,
    /// the trimmed transcript as summary, and a "please/notify/call/contact"
    /// sentence as action. Missing facts are "unknown"; a blank transcript is
    /// an error.
    fn analyze(&mut self, transcript: &str) -> (r: Result<IncidentReport, IncidentError>)
        ensures
            r matches Ok(report) ==> rule_based_report(transcript@) == Some(
                report_fields(report),
            ),
            r is Err ==> rule_based_report(transcript@) is None && r == Err::<
                IncidentReport,
                IncidentError,
            >(IncidentError::InvalidReport),
    {
        let chars = chars_of(transcript);
        let t = trim_chars(&chars);
        if t.len() == 0 {
            return Err(IncidentError::InvalidReport);
        }
        let lower = to_ascii_lower_chars(&t);
        let incident_type = if contains_str(&lower, "collision") || contains_str(&lower, "collid")
            || contains_str(&lower, "crash") {
            "collision"
        } else if contains_str(&lower, "smoke") {
            "smoke report"
        } else if contains_str(&lower, "fire") {
            "fire report"
        } else if contains_str(&lower, "injur") {
            "injury report"
        } else {
            "unknown"
        };
        let location = match extract_location(&t) {
            Some(v) => string_of(&v),
            None => String::from_str("unknown"),
        };
        let mut keep: Vec<bool> = Vec::new();
        let mut k: usize = 0;
        while k < lower.len()
            invariant
                k <= lower.len(),
                keep.len() == k,
                forall|j: int| 0 <= j < k ==> keep@[j] == is_ascii_alpha(lower@[j]),
            decreases lower.len() - k,
        {
            let c = lower[k];
            keep.push(('a' <= c && c <= 'z') || ('A' <= c && c <= 'Z'));
            k += 1;
        }
        assert(keep@ =~= ascii_alpha_mask(lower@));
        let words = split_runs(&lower, &keep);
        let severity = if has_word(&words, "low") {
            "low"
        } else if has_word(&words, "medium") {
            "medium"
        } else if has_word(&words, "high") {
            "high"
        } else {
            "unknown"
        };
        let recommended_action = match extract_action(&t) {
            Some(v) => string_of(&v),
            None => String::from_str("unknown"),
        };
        Ok(
            IncidentReport {
                incident_type: String::from_str(incident_type),
                location,
                severity: String::from_str(severity),
                summary: string_of(&t),
                recommended_action,
            },
        )
    }
}

/// Whether `p` occurs in `s`.
fn contains_str(s: &[char], p: &str) -> (r: bool)
    ensures
        r == crate::text::contains(s@, p@),
{
    let pc = chars_of(p);
    find_chars(s, &pc).is_some()
}

/// `trim(s)` is a contiguous part of `s`.
pub proof fn lemma_trim_is_slice(s: Seq<char>)
    ensures
        exists|a: int, b: int| 0 <= a <= b <= s.len() && trim(s) == s.subrange(a, b),
{
    lemma_trim_start_slice(s);
    let a = choose|a: int| 0 <= a <= s.len() && trim_start(s) == s.subrange(a, s.len() as int);
    lemma_trim_end_slice(trim_start(s));
    let b = choose|b: int|
        0 <= b <= trim_start(s).len() && trim_end(trim_start(s)) == trim_start(s).subrange(0, b);
    assert(trim(s) == s.subrange(a, a + b));
}

proof fn lemma_trim_start_slice(s: Seq<char>)
    ensures
        exists|a: int| 0 <= a <= s.len() && trim_start(s) == s.subrange(a, s.len() as int),
    decreases s.len(),
{
    if s.len() > 0 && is_ws(s[0]) {
        lemma_trim_start_slice(s.drop_first());
        let a = choose|a: int|
            0 <= a <= s.drop_first().len() && trim_start(s.drop_first()) == s.drop_first().subrange(
                a,
                s.drop_first().len() as int,
            );
        assert(s.drop_first().subrange(a, s.drop_first().len() as int) == s.subrange(
            a + 1,
            s.len() as int,
        ));
    } else {
        assert(s.subrange(0, s.len() as int) == s);
    }
}

proof fn lemma_trim_end_slice(s: Seq<char>)
    ensures
        exists|b: int| 0 <= b <= s.len() && trim_end(s) == s.subrange(0, b),
    decreases s.len(),
{
    if s.len() > 0 && is_ws(s.last()) {
        lemma_trim_end_slice(s.drop_last());
        let b = choose|b: int|
            0 <= b <= s.drop_last().len() && trim_end(s.drop_last()) == s.drop_last().subrange(
                0,
                b,
            );
        assert(s.drop_last().subrange(0, b) == s.subrange(0, b));
    } else {
        assert(s.subrange(0, s.len() as int) == s);
    }
}

/// `take_until(s, stops)` is a prefix of `s`.
proof fn lemma_take_until_prefix(s: Seq<char>, stops: Seq<char>)
    ensures
        take_until(s, stops).len() <= s.len(),
        take_until(s, stops) == s.subrange(0, take_until(s, stops).len() as int),
    decreases s.len(),
{
    if s.len() > 0 && !stops.contains(s[0]) {
        lemma_take_until_prefix(s.drop_first(), stops);
        let r = take_until(s.drop_first(), stops);
        assert(seq![s[0]] + r =~= s.subrange(0, r.len() as int + 1));
    }
}

/// The analyzer never invents facts: a blank transcript is refused; the
/// summary is the trimmed transcript; the severity is one of four fixed
/// words; a location other than "unknown" is a phrase of the transcript.
pub proof fn law_report_facts_are_explicit(transcript: Seq<char>)
    ensures
        rule_based_report(transcript) is None <==> trim(transcript).len() == 0,
        rule_based_report(transcript) matches Some((ty, loc, sev, summary, action)) ==> {
            &&& summary == trim(transcript)
            &&& (sev == "low"@ || sev == "medium"@ || sev == "high"@ || sev == "unknown"@)
            &&& (loc == "unknown"@ || exists|a: int, b: int|
                0 <= a <= b <= summary.len() && loc == #[trigger] summary.subrange(a, b))
        },
{
    let t = trim(transcript);
    if t.len() > 0 {
        let lower = ascii_lower_seq(t);
        let sev = severity_of(lower);
        assert(sev == "low"@ || sev == "medium"@ || sev == "high"@ || sev == "unknown"@);
        assert(rule_based_report(transcript) == Some((incident_type_of(lower), or_unknown(location_of(t)), sev, t, or_unknown(action_of(t)))));
        match earliest_marker(ascii_lower_seq(t), location_markers()) {
            None => {},
            Some((i, l)) => {
                lemma_find_bound(ascii_lower_seq(t), location_markers(), i, l);
                let rest = t.skip(i + l);
                let piece = take_until(rest, clause_ends());
                lemma_take_until_prefix(rest, clause_ends());
                lemma_trim_is_slice(piece);
                let v = trim(piece);
                assert(ascii_lower_seq(t).len() == t.len());
                assert(i + l <= t.len());
                if v.len() > 0 {
                    let (a, b) = choose|a: int, b: int|
                        0 <= a <= b <= piece.len() && v == piece.subrange(a, b);
                    assert(piece == rest.subrange(0, piece.len() as int));
                    assert(rest.len() == t.len() - (i + l));
                    assert(piece.len() <= rest.len());
                    assert forall|k: int| 0 <= k < v.len() implies v[k] == t[i + l + a + k] by {
                        assert(v[k] == piece[a + k]);
                        assert(piece[a + k] == rest[a + k]);
                    }
                    assert(v =~= t.subrange(i + l + a, i + l + b));
                    assert(location_of(t) == Some(v));
                    assert(0 <= i + l + a <= i + l + b <= t.len());
                    assert(exists|a2: int, b2: int|
                        0 <= a2 <= b2 <= t.len() && v == #[trigger] t.subrange(a2, b2));
                }
            },
        }
    }
}

/// Whether any of the keywords occurs in the text.
pub open spec fn mentions_any(text: Seq<char>, keywords: Seq<Seq<char>>) -> bool {
    exists|i: int| 0 <= i < keywords.len() && crate::text::contains(text, #[trigger] keywords[i])
}

/// The incident type follows keywords of the trimmed, ASCII-lowercased
/// transcript, the first kind that is mentioned winning: a crash or a
/// collision ("crash", "collision", "collid") is a collision; then smoke;
/// then fire; then an injury ("injur"); a transcript mentioning none of
/// them is of unknown type.
pub proof fn law_incident_type_by_keywords(transcript: Seq<char>)
    requires
        trim(transcript).len() > 0,
    ensures
        ({
            let lower = ascii_lower_seq(trim(transcript));
            let collision = mentions_any(lower, seq!["crash"@, "collision"@, "collid"@]);
            let smoke = crate::text::contains(lower, "smoke"@);
            let fire = crate::text::contains(lower, "fire"@);
            let injury = crate::text::contains(lower, "injur"@);
            rule_based_report(transcript) matches Some(f) && {
                &&& collision ==> f.0 == "collision"@
                &&& !collision && smoke ==> f.0 == "smoke report"@
                &&& !collision && !smoke && fire ==> f.0 == "fire report"@
                &&& !collision && !smoke && !fire && injury ==> f.0 == "injury report"@
                &&& !collision && !smoke && !fire && !injury ==> f.0 == "unknown"@
            }
        }),
{
    let lower = ascii_lower_seq(trim(transcript));
    let kw = seq!["crash"@, "collision"@, "collid"@];
    if mentions_any(lower, kw) {
        let i = choose|i: int| 0 <= i < kw.len() && crate::text::contains(lower, #[trigger] kw[i]);
        assert(i == 0 || i == 1 || i == 2);
    } else {
        assert(!crate::text::contains(lower, kw[0]));
        assert(!crate::text::contains(lower, kw[1]));
        assert(!crate::text::contains(lower, kw[2]));
    }
}

/// The severity is the first of "low", "medium" and "high" that the
/// transcript says as a whole word (a maximal run of ASCII letters, any
/// case), and "unknown" when it says none of them: a word that merely
/// contains one ("highway", "lower") does not count.
pub proof fn law_severity_by_whole_words(transcript: Seq<char>)
    requires
        trim(transcript).len() > 0,
    ensures
        ({
            let lower = ascii_lower_seq(trim(transcript));
            let w = runs(lower, ascii_alpha_mask(lower));
            rule_based_report(transcript) matches Some(f) && {
                &&& w.contains("low"@) ==> f.2 == "low"@
                &&& !w.contains("low"@) && w.contains("medium"@) ==> f.2 == "medium"@
                &&& !w.contains("low"@) && !w.contains("medium"@) && w.contains("high"@) ==> f.2
                    == "high"@
                &&& !w.contains("low"@) && !w.contains("medium"@) && !w.contains("high"@) ==> f.2
                    == "unknown"@
            }
        }),
{
}

} // verus!
