//! Post-recognition transcript handling: whitespace normalization and a
//! conservative guard against silence markers and dictionary-prompt echoes.
use vstd::prelude::*;

use crate::dictionary::DictionaryPrompt;
use crate::text::{
    alnum_mask, alphanumeric_mask, chars_eq, chars_of, collapse_whitespace, collapse_ws,
    lemma_split_ws_clean, runs, split_runs, split_ws, string_of, tokens_contain, tokens_eq, trim,
    trim_chars, to_ascii_lower_chars, ascii_lower_seq, clean_tokens, join, views, is_ws,
    non_ws_mask,
};

verus! {

/// What the guard concluded about a transcript.
#[derive(Clone, Copy, Debug, PartialEq, Eq)]
pub enum TranscriptGuardDecision {
    Accept,
    Empty,
    KnownSilenceMarker,
    DictionaryPromptEcho,
}

impl TranscriptGuardDecision {
    /// Every decision but `Accept` discards the transcript.
    pub fn should_discard(self) -> (r: bool)
        ensures
            r == !(self is Accept),
    {
        !matches!(self, TranscriptGuardDecision::Accept)
    }
}

/// The transcript with whitespace runs collapsed to one space and trimmed.
pub fn normalize_transcript(text: &str) -> (r: String)
    ensures
        r@ == collapse_ws(text@),
{
    let chars = chars_of(text);
    let collapsed = collapse_whitespace(&chars);
    string_of(&collapsed)
}

/// The words of a text: maximal runs of alphanumeric characters, trimmed.
pub open spec fn words(s: Seq<char>) -> Seq<Seq<char>> {
    runs(s, alnum_mask(s)).map_values(|w: Seq<char>| trim(w))
}

/// How many times `x` occurs in `s`.
pub open spec fn count_in(s: Seq<Seq<char>>, x: Seq<char>) -> nat
    decreases s.len(),
{
    if s.len() == 0 {
        0
    } else {
        count_in(s.drop_last(), x) + if s.last() == x {
            1nat
        } else {
            0nat
        }
    }
}

/// Whether some word occurs at least three times.
pub open spec fn has_repeated_word(s: Seq<Seq<char>>) -> bool {
    exists|i: int| 0 <= i < s.len() && count_in(s, s[i]) >= 3
}

/// Whether some three consecutive words of `a` also occur consecutively in `b`.
pub open spec fn shares_three_words(a: Seq<Seq<char>>, b: Seq<Seq<char>>) -> bool {
    exists|i: int, j: int|
        0 <= i && i + 3 <= a.len() && 0 <= j && j + 3 <= b.len() && #[trigger] a.subrange(i, i + 3)
            == #[trigger] b.subrange(j, j + 3)
}

/// Membership in `p`, as a predicate.
pub open spec fn member_of(p: Seq<Seq<char>>) -> spec_fn(Seq<char>) -> bool {
    |w: Seq<char>| p.contains(w)
}

/// The number of distinct words of `t` that also occur in `p`.
pub open spec fn shared_distinct(t: Seq<Seq<char>>, p: Seq<Seq<char>>) -> nat {
    t.to_set().filter(member_of(p)).len()
}

/// Whether the (normalized) text looks like the recognizer continuing the
/// dictionary prompt rather than transcribing speech: identical words, or at
/// least 90% of its distinct words taken from the prompt together with a
/// repeated word, a shared three-word sequence, or a trailing comma.
pub open spec fn is_prompt_echo(text: Seq<char>, prompt: Seq<char>) -> bool {
    let tw = words(text);
    let pw = words(prompt);
    if tw.len() == 0 || pw.len() == 0 {
        false
    } else if tw == pw {
        true
    } else {
        10 * shared_distinct(tw, pw) >= 9 * tw.to_set().len() && (has_repeated_word(tw)
            || shares_three_words(pw, tw) || text.last() == ',')
    }
}

/// The markers recognizers emit for silence.
pub open spec fn is_silence_marker(m: Seq<char>) -> bool {
    ||| m == "[blank_audio]"@
    ||| m == "blank_audio"@
    ||| m == "[silence]"@
    ||| m == "[inaudible]"@
    ||| m == "(silence)"@
    ||| m == "silence"@
}

/// The guard's decision for `text` given the dictionary prompt text, if any.
pub open spec fn guard(text: Seq<char>, prompt: Option<Seq<char>>) -> TranscriptGuardDecision {
    let normalized = collapse_ws(text);
    if normalized.len() == 0 {
        TranscriptGuardDecision::Empty
    } else if is_silence_marker(ascii_lower_seq(trim(normalized))) {
        TranscriptGuardDecision::KnownSilenceMarker
    } else {
        match prompt {
            None => TranscriptGuardDecision::Accept,
            Some(p) => if is_prompt_echo(normalized, p) {
                TranscriptGuardDecision::DictionaryPromptEcho
            } else {
                TranscriptGuardDecision::Accept
            },
        }
    }
}

/// The prompt text of an optional dictionary prompt.
pub open spec fn prompt_view(prompt: Option<&DictionaryPrompt>) -> Option<Seq<char>> {
    match prompt {
        Some(p) => Some(p.text@),
        None => None,
    }
}

/// Conservative post-recognition protection against known blank markers and
/// prompt continuation. Ordinary words that happen to occur in the
/// dictionary are not discarded.
pub fn guard_transcript(text: &str, prompt: Option<&DictionaryPrompt>) -> (d:
    TranscriptGuardDecision)
    ensures
        d == guard(text@, prompt_view(prompt)),
{
    let chars = chars_of(text);
    let normalized = collapse_whitespace(&chars);
    if normalized.len() == 0 {
        return TranscriptGuardDecision::Empty;
    }
    let trimmed = trim_chars(&normalized);
    let marker = to_ascii_lower_chars(&trimmed);
    if silence_marker(&marker) {
        return TranscriptGuardDecision::KnownSilenceMarker;
    }
    match prompt {
        None => TranscriptGuardDecision::Accept,
        Some(p) => {
            let prompt_chars = chars_of(p.text.as_str());
            if prompt_echo(&normalized, &prompt_chars) {
                TranscriptGuardDecision::DictionaryPromptEcho
            } else {
                TranscriptGuardDecision::Accept
            }
        },
    }
}

/// Whether `m` is one of the silence markers.
fn silence_marker(m: &[char]) -> (r: bool)
    ensures
        r == is_silence_marker(m@),
{
    chars_eq(m, &chars_of("[blank_audio]")) || chars_eq(m, &chars_of("blank_audio")) || chars_eq(
        m,
        &chars_of("[silence]"),
    ) || chars_eq(m, &chars_of("[inaudible]")) || chars_eq(m, &chars_of("(silence)"))
        || chars_eq(m, &chars_of("silence"))
}

/// The words of `s`.
fn words_of(s: &[char]) -> (w: Vec<Vec<char>>)
    ensures
        views(w@) == words(s@),
{
    let keep = alphanumeric_mask(s);
    let pieces = split_runs(s, &keep);
    let mut w: Vec<Vec<char>> = Vec::new();
    let mut i: usize = 0;
    while i < pieces.len()
        invariant
            i <= pieces.len(),
            views(w@) == views(pieces@).take(i as int).map_values(|x: Seq<char>| trim(x)),
        decreases pieces.len() - i,
    {
        w.push(trim_chars(&pieces[i]));
        i += 1;
        assert(views(pieces@).take(i as int).map_values(|x: Seq<char>| trim(x)) =~= views(
            pieces@,
        ).take(i as int - 1).map_values(|x: Seq<char>| trim(x)).push(trim(pieces@[i - 1]@)));
        assert(views(w@) =~= views(pieces@).take(i as int).map_values(|x: Seq<char>| trim(x)));
    }
    assert(views(pieces@).take(pieces.len() as int) == views(pieces@));
    w
}

/// How many times `x` occurs in `s`.
fn count_of(s: &[Vec<char>], x: &[char]) -> (n: usize)
    ensures
        n == count_in(views(s@), x@),
{
    let mut n: usize = 0;
    let mut i: usize = 0;
    while i < s.len()
        invariant
            i <= s.len(),
            n == count_in(views(s@).take(i as int), x@),
            n <= i,
        decreases s.len() - i,
    {
        let ghost t = views(s@).take(i as int + 1);
        assert(t.drop_last() == views(s@).take(i as int));
        assert(t.last() == s@[i as int]@);
        if chars_eq(&s[i], x) {
            n += 1;
        }
        i += 1;
    }
    assert(views(s@).take(s.len() as int) == views(s@));
    n
}

/// Whether some word of `s` occurs at least three times.
fn repeated_word(s: &[Vec<char>]) -> (r: bool)
    ensures
        r == has_repeated_word(views(s@)),
{
    let mut i: usize = 0;
    while i < s.len()
        invariant
            i <= s.len(),
            forall|k: int| 0 <= k < i ==> count_in(views(s@), views(s@)[k]) < 3,
        decreases s.len() - i,
    {
        assert(views(s@)[i as int] == s@[i as int]@);
        if count_of(s, &s[i]) >= 3 {
            return true;
        }
        i += 1;
    }
    false
}

/// Whether three consecutive words of `a` occur consecutively in `b`.
fn three_words_shared(a: &[Vec<char>], b: &[Vec<char>]) -> (r: bool)
    ensures
        r == shares_three_words(views(a@), views(b@)),
{
    if a.len() < 3 || b.len() < 3 {
        return false;
    }
    let mut i: usize = 0;
    while i <= a.len() - 3
        invariant
            a.len() >= 3,
            b.len() >= 3,
            i <= a.len() - 2,
            forall|x: int, y: int|
                0 <= x < i && 0 <= y && y + 3 <= b.len() ==> #[trigger] views(a@).subrange(x, x + 3)
                    != #[trigger] views(b@).subrange(y, y + 3),
        decreases a.len() - i,
    {
        let mut j: usize = 0;
        while j <= b.len() - 3
            invariant
                a.len() >= 3,
                b.len() >= 3,
                i + 3 <= a.len(),
                j <= b.len() - 2,
                forall|y: int|
                    0 <= y < j ==> views(a@).subrange(i as int, i + 3) != #[trigger] views(
                        b@,
                    ).subrange(y, y + 3),
            decreases b.len() - j,
        {
            if chars_eq(&a[i], &b[j]) && chars_eq(&a[i + 1], &b[j + 1]) && chars_eq(
                &a[i + 2],
                &b[j + 2],
            ) {
                assert(views(a@).subrange(i as int, i + 3) =~= views(b@).subrange(
                    j as int,
                    j + 3,
                ));
                return true;
            }
            assert(views(a@).subrange(i as int, i + 3)[0] == a@[i as int]@);
            assert(views(b@).subrange(j as int, j + 3)[0] == b@[j as int]@);
            assert(views(a@).subrange(i as int, i + 3)[1] == a@[i + 1]@);
            assert(views(b@).subrange(j as int, j + 3)[1] == b@[j + 1]@);
            assert(views(a@).subrange(i as int, i + 3)[2] == a@[i + 2]@);
            assert(views(b@).subrange(j as int, j + 3)[2] == b@[j + 2]@);
            j += 1;
        }
        i += 1;
    }
    false
}

/// A sequence without duplicates has as many elements as its set, and so
/// does its filtered part.
proof fn lemma_distinct_counts(u: Seq<Seq<char>>, p: Seq<Seq<char>>)
    requires
        u.no_duplicates(),
    ensures
        u.to_set().len() == u.len(),
        u.to_set().filter(member_of(p)).len() == u.filter(member_of(p)).len(),
{
    broadcast use vstd::seq_lib::group_filter_ensures;

    u.unique_seq_to_set();
    let pred = member_of(p);
    let f = u.filter(pred);
    assert(f.no_duplicates()) by {
        assert forall|i: int, j: int| 0 <= i < f.len() && 0 <= j < f.len() && i != j implies f[i]
            != f[j] by {
            lemma_filter_no_dup(u, pred, i, j);
        }
    }
    f.unique_seq_to_set();
    assert(f.to_set() =~= u.to_set().filter(pred)) by {
        assert forall|w: Seq<char>| f.to_set().contains(w) <==> u.to_set().filter(pred).contains(
            w,
        ) by {
            if u.to_set().filter(pred).contains(w) {
                let k = choose|k: int| 0 <= k < u.len() && u[k] == w;
                assert(f.contains(u[k]));
            }
            if f.to_set().contains(w) {
                let k = choose|k: int| 0 <= k < f.len() && f[k] == w;
                assert(f.contains(w));
                u.lemma_filter_contains_rev(pred, w);
                assert(pred(f[k]));
            }
        }
    }
}

/// Filtering a duplicate-free sequence keeps it duplicate-free.
proof fn lemma_filter_no_dup(u: Seq<Seq<char>>, pred: spec_fn(Seq<char>) -> bool, i: int, j: int)
    requires
        u.no_duplicates(),
        0 <= i < u.filter(pred).len(),
        0 <= j < u.filter(pred).len(),
        i != j,
    ensures
        u.filter(pred)[i] != u.filter(pred)[j],
    decreases u.len(),
{
    reveal_with_fuel(Seq::filter, 1);
    if u.len() > 0 {
        let d = u.drop_last();
        assert(d.no_duplicates());
        let fd = d.filter(pred);
        let f = u.filter(pred);
        if pred(u.last()) {
            assert(f == fd.push(u.last()));
            if i < fd.len() && j < fd.len() {
                lemma_filter_no_dup(d, pred, i, j);
            } else {
                let k = if i < fd.len() {
                    i
                } else {
                    j
                };
                assert(fd.contains(fd[k]));
                d.lemma_filter_contains_rev(pred, fd[k]);
                assert(d.contains(fd[k]));
                let m = choose|m: int| 0 <= m < d.len() && d[m] == fd[k];
                assert(u[m] == d[m]);
                assert(u[u.len() - 1] == u.last());
            }
        } else {
            assert(f == fd);
            lemma_filter_no_dup(d, pred, i, j);
        }
    }
}

/// The prompt-echo heuristic on the normalized text and the prompt text.
fn prompt_echo(text: &[char], prompt: &[char]) -> (r: bool)
    ensures
        r == is_prompt_echo(text@, prompt@),
{
    let tw = words_of(text);
    let pw = words_of(prompt);
    if tw.len() == 0 || pw.len() == 0 {
        return false;
    }
    if tokens_eq(&tw, &pw) {
        return true;
    }
    let ghost t = views(tw@);
    let ghost p = views(pw@);
    let ghost pred = member_of(p);
    let mut unique: Vec<Vec<char>> = Vec::new();
    let mut shared: usize = 0;
    let mut i: usize = 0;
    while i < tw.len()
        invariant
            t == views(tw@),
            p == views(pw@),
            pred == member_of(p),
            i <= tw.len(),
            views(unique@).no_duplicates(),
            views(unique@).to_set() == t.take(i as int).to_set(),
            shared == views(unique@).filter(pred).len(),
            unique.len() <= i,
        decreases tw.len() - i,
    {
        let w = &tw[i];
        let ghost u0 = views(unique@);
        assert(t.take(i as int + 1) == t.take(i as int).push(w@));
        proof {
            t.take(i as int).lemma_push_to_set_commute(w@);
        }
        if !tokens_contain(&unique, w) {
            let in_prompt = tokens_contain(&pw, w);
            unique.push(w.clone());
            assert(views(unique@) == u0.push(w@));
            proof {
                u0.lemma_push_to_set_commute(w@);
            }
            assert(views(unique@).filter(pred) == if pred(w@) {
                u0.filter(pred).push(w@)
            } else {
                u0.filter(pred)
            }) by {
                u0.lemma_filter_push(w@, pred);
            }
            if in_prompt {
                shared += 1;
            }
        } else {
            assert(u0.to_set().insert(w@) =~= u0.to_set());
        }
        i += 1;
    }
    assert(t.take(tw.len() as int) == t);
    proof {
        lemma_distinct_counts(views(unique@), p);
    }
    let distinct = unique.len();
    let composition = (shared as u128) * 10 >= (distinct as u128) * 9;
    if !composition {
        return false;
    }
    repeated_word(&tw) || three_words_shared(&pw, &tw) || text[text.len() - 1] == ','
}

/// `split_ws` unfolded one character from the end.
proof fn lemma_split_ws_unfold(x: Seq<char>)
    requires
        x.len() > 0,
    ensures
        split_ws(x) == ({
            let p = split_ws(x.drop_last());
            let c = x.last();
            if is_ws(c) {
                p
            } else if x.len() >= 2 && !is_ws(x[x.len() - 2]) {
                p.update(p.len() - 1, p.last().push(c))
            } else {
                p.push(seq![c])
            }
        }),
{
    assert(non_ws_mask(x).take(x.len() - 1) =~= non_ws_mask(x.drop_last()));
}

/// Appending a whitespace character adds no token.
proof fn lemma_split_ws_space(s: Seq<char>)
    ensures
        split_ws(s + seq![' ']) == split_ws(s),
{
    let x = s + seq![' '];
    lemma_split_ws_unfold(x);
    assert(x.drop_last() == s);
}

/// Appending a clean token after whitespace (or at the start) adds exactly
/// that token.
proof fn lemma_split_ws_append_token(s: Seq<char>, t: Seq<char>)
    requires
        s.len() == 0 || is_ws(s.last()),
        t.len() > 0,
        forall|j: int| 0 <= j < t.len() ==> !is_ws(#[trigger] t[j]),
    ensures
        split_ws(s + t) == split_ws(s).push(t),
    decreases t.len(),
{
    let x = s + t;
    lemma_split_ws_unfold(x);
    if t.len() == 1 {
        assert(x.drop_last() == s);
        assert(x.last() == t[0]);
        if x.len() >= 2 {
            assert(x[x.len() - 2] == s.last());
        }
        assert(seq![t[0]] == t);
    } else {
        let u = t.drop_last();
        assert forall|j: int| 0 <= j < u.len() implies !is_ws(#[trigger] u[j]) by {
            assert(u[j] == t[j]);
        }
        lemma_split_ws_append_token(s, u);
        assert(x.drop_last() == s + u);
        assert(x[x.len() - 2] == t[t.len() - 2]);
        assert(x.last() == t.last());
        let p = split_ws(s).push(u);
        assert(u.push(t.last()) =~= t);
        assert(p.last() == u);
        assert(p.update(p.len() - 1, p.last().push(t.last())) =~= split_ws(s).push(t));
    }
}

/// Splitting clean tokens joined by single spaces gives the tokens back.
proof fn lemma_split_join(toks: Seq<Seq<char>>)
    requires
        clean_tokens(toks),
    ensures
        split_ws(join(toks, seq![' '])) == toks,
    decreases toks.len(),
{
    if toks.len() == 0 {
        assert(split_ws(Seq::<char>::empty()) == Seq::<Seq<char>>::empty());
    } else if toks.len() == 1 {
        let t = toks[0];
        assert(forall|j: int| 0 <= j < t.len() ==> !is_ws(#[trigger] t[j]));
        lemma_split_ws_append_token(Seq::<char>::empty(), t);
        assert(Seq::<char>::empty() + t == t);
        assert(split_ws(Seq::<char>::empty()) == Seq::<Seq<char>>::empty());
        assert(Seq::<Seq<char>>::empty().push(t) == toks);
    } else {
        let d = toks.drop_last();
        assert(clean_tokens(d)) by {
            assert forall|k: int| 0 <= k < d.len() implies {
                &&& (#[trigger] d[k]).len() > 0
                &&& forall|j: int| 0 <= j < d[k].len() ==> !is_ws(#[trigger] d[k][j])
            } by {
                assert(d[k] == toks[k]);
            }
        }
        lemma_split_join(d);
        let jd = join(d, seq![' ']);
        let t = toks.last();
        assert(t == toks[toks.len() - 1]);
        assert(forall|j: int| 0 <= j < t.len() ==> !is_ws(#[trigger] t[j]));
        let s = jd + seq![' '];
        lemma_split_ws_append_token(s, t);
        lemma_split_ws_space(jd);
        assert(join(toks, seq![' ']) == s + t);
        assert(d.push(t) == toks);
    }
}

/// Normalizing a normalized text changes nothing.
pub proof fn law_normalize_idempotent(text: Seq<char>)
    ensures
        collapse_ws(collapse_ws(text)) == collapse_ws(text),
{
    lemma_split_ws_clean(text);
    lemma_split_join(split_ws(text));
}

/// Normalizing keeps the words: the result is the text's whitespace-separated
/// words, none rewritten, joined by single spaces, and it splits into those
/// same words again.
pub proof fn law_normalize_keeps_words(text: Seq<char>)
    ensures
        collapse_ws(text) == join(split_ws(text), seq![' ']),
        split_ws(collapse_ws(text)) == split_ws(text),
{
    lemma_split_ws_clean(text);
    lemma_split_join(split_ws(text));
}

/// A text with no words, or one that is empty after normalization, is never
/// accepted; without a prompt, no transcript is judged a prompt echo.
pub proof fn law_guard_outcomes(text: Seq<char>, prompt: Option<Seq<char>>)
    ensures
        collapse_ws(text).len() == 0 <==> guard(text, prompt) == TranscriptGuardDecision::Empty,
        prompt is None ==> guard(text, prompt) != TranscriptGuardDecision::DictionaryPromptEcho,
{
}

/// How the guard judges a transcript against a dictionary prompt, once it
/// is neither empty nor a silence marker. With `n` the normalized
/// transcript, `tw` its words and `pw` the prompt's words (both non-empty):
/// the same words as the prompt are an echo; when at least 90% of the
/// distinct words of `tw` occur in `pw`, a trailing comma of `n`, a word
/// said three times or more, or three consecutive prompt words said in
/// order make it an echo; with less than 90% taken from the prompt and
/// other words than the prompt's, the transcript is accepted.
pub proof fn law_prompt_echo_judgement(text: Seq<char>, prompt: Seq<char>)
    requires
        collapse_ws(text).len() > 0,
        !is_silence_marker(ascii_lower_seq(trim(collapse_ws(text)))),
        words(collapse_ws(text)).len() > 0,
        words(prompt).len() > 0,
    ensures
        ({
            let n = collapse_ws(text);
            let tw = words(n);
            let pw = words(prompt);
            let from_prompt = 10 * tw.to_set().filter(|w: Seq<char>| pw.contains(w)).len() >= 9
                * tw.to_set().len();
            let repeated = exists|i: int| 0 <= i < tw.len() && count_in(tw, tw[i]) >= 3;
            let sequence = exists|i: int, j: int|
                0 <= i && i + 3 <= pw.len() && 0 <= j && j + 3 <= tw.len() && #[trigger] pw.subrange(i, i + 3)
                    == #[trigger] tw.subrange(j, j + 3);
            &&& tw == pw ==> guard(text, Some(prompt)) == TranscriptGuardDecision::DictionaryPromptEcho
            &&& from_prompt && n.last() == ',' ==> guard(text, Some(prompt))
                == TranscriptGuardDecision::DictionaryPromptEcho
            &&& from_prompt && (repeated || sequence) ==> guard(text, Some(prompt))
                == TranscriptGuardDecision::DictionaryPromptEcho
            &&& !from_prompt && tw != pw ==> guard(text, Some(prompt)) == TranscriptGuardDecision::Accept
        }),
{
    let n = collapse_ws(text);
    let tw = words(n);
    let pw = words(prompt);
    assert(tw.to_set().filter(|w: Seq<char>| pw.contains(w)) == tw.to_set().filter(member_of(pw)));
}

} // verus!
