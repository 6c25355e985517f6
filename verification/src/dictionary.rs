//! Dictionary hints that bias the recognizer toward known terms: cleaned,
//! deduplicated by a case- and punctuation-insensitive key, and joined into a
//! prompt that never exceeds its character budget.
use vstd::prelude::*;

use crate::text::{
    chars_of, collapse_whitespace, collapse_ws, is_alphanumeric, is_whitespace, is_ws, join,
    string_of, to_lowercase, tokens_contain, trim, trim_chars, unicode_alphanumeric,
    unicode_lowercase, views, string_views,
};

verus! {

/// Terms and free-form snippets from which a recognizer prompt is built.
#[derive(Clone, Debug)]
pub struct DictionaryHints {
    pub terms: Vec<String>,
    pub snippets: Vec<String>,
    pub max_prompt_characters: usize,
}

/// A prompt built from dictionary hints.
#[derive(Clone, Debug, PartialEq, Eq)]
pub struct DictionaryPrompt {
    pub text: String,
}

/// The separator placed between prompt values.
pub open spec fn prompt_separator() -> Seq<char> {
    seq![',', ' ']
}

/// The concatenated lowercase mappings of the characters of `s`.
pub open spec fn lowercase_seq(s: Seq<char>) -> Seq<char>
    decreases s.len(),
{
    if s.len() == 0 {
        seq![]
    } else {
        lowercase_seq(s.drop_last()) + unicode_lowercase(s.last())
    }
}

/// Alphanumeric and whitespace characters are kept; all others become a space.
pub open spec fn key_char(c: char) -> char {
    if unicode_alphanumeric(c) || is_ws(c) {
        c
    } else {
        ' '
    }
}

/// The comparison key of a hint: lowercased, punctuation turned into spaces,
/// whitespace collapsed.
pub open spec fn hint_key(v: Seq<char>) -> Seq<char> {
    collapse_ws(lowercase_seq(v).map_values(|c: char| key_char(c)))
}

/// A hint as it appears in a prompt: whitespace collapsed and trimmed.
pub open spec fn cleaned_hint(v: Seq<char>) -> Seq<char> {
    trim(collapse_ws(v))
}

/// Whether some value of `values` has the key `k`.
pub open spec fn key_taken(values: Seq<Seq<char>>, k: Seq<char>) -> bool {
    exists|i: int| 0 <= i < values.len() && hint_key(values[i]) == k
}

/// The cleaned hints, in order, that are non-empty, have a non-empty key and
/// whose key no earlier accepted hint has.
pub open spec fn prompt_values(raw: Seq<Seq<char>>) -> Seq<Seq<char>>
    decreases raw.len(),
{
    if raw.len() == 0 {
        seq![]
    } else {
        let p = prompt_values(raw.drop_last());
        let v = cleaned_hint(raw.last());
        let k = hint_key(v);
        if v.len() == 0 || k.len() == 0 || key_taken(p, k) {
            p
        } else {
            p.push(v)
        }
    }
}

/// How many leading values fit, joined by the separator, within `max`
/// characters.
pub open spec fn fitting_count(values: Seq<Seq<char>>, max: int) -> nat
    decreases values.len(),
{
    if values.len() == 0 {
        0
    } else if join(values, prompt_separator()).len() <= max {
        values.len()
    } else {
        fitting_count(values.drop_last(), max)
    }
}

/// The prompt text: the longest prefix of the accepted values that fits the
/// budget (at least one character), joined by the separator.
pub open spec fn prompt_text(raw: Seq<Seq<char>>, max_chars: usize) -> Seq<char> {
    let values = prompt_values(raw);
    let max = if max_chars == 0 {
        1
    } else {
        max_chars as int
    };
    join(values.take(fitting_count(values, max) as int), prompt_separator())
}

/// What `DictionaryHints::prompt` returns: the prompt text, if non-empty.
pub open spec fn spec_prompt(hints: DictionaryHints) -> Option<Seq<char>> {
    let t = prompt_text(
        string_views(hints.terms@) + string_views(hints.snippets@),
        hints.max_prompt_characters,
    );
    if t.len() == 0 {
        None
    } else {
        Some(t)
    }
}

/// The length of a join grows by the separator and the new value.
pub proof fn lemma_join_take_len(values: Seq<Seq<char>>, sep: Seq<char>, k: int)
    requires
        0 <= k < values.len(),
    ensures
        join(values.take(k + 1), sep).len() == join(values.take(k), sep).len() + (if k == 0 {
            0
        } else {
            sep.len()
        }) + values[k].len(),
{
    let t = values.take(k + 1);
    assert(t.drop_last() == values.take(k));
    assert(t.last() == values[k]);
    if k == 0 {
        assert(join(values.take(0), sep) == Seq::<char>::empty());
    }
}

/// Joining more values never gives a shorter text.
pub proof fn lemma_join_take_monotone(values: Seq<Seq<char>>, sep: Seq<char>, a: int, b: int)
    requires
        0 <= a <= b <= values.len(),
    ensures
        join(values.take(a), sep).len() <= join(values.take(b), sep).len(),
    decreases b - a,
{
    if a < b {
        lemma_join_take_monotone(values, sep, a, b - 1);
        lemma_join_take_len(values, sep, b - 1);
    }
}

/// `fitting_count` is the point where the next value stops fitting.
pub proof fn lemma_fitting_count(values: Seq<Seq<char>>, max: int, i: int)
    requires
        0 <= i <= values.len(),
        i == 0 || join(values.take(i), prompt_separator()).len() <= max,
        i == values.len() || join(values.take(i + 1), prompt_separator()).len() > max,
    ensures
        fitting_count(values, max) == i,
    decreases values.len(),
{
    assert(values.take(values.len() as int) == values);
    if values.len() > 0 && i < values.len() {
        lemma_join_take_monotone(values, prompt_separator(), i + 1, values.len() as int);
        let d = values.drop_last();
        assert(d.take(i) == values.take(i));
        if i < d.len() {
            assert(d.take(i + 1) == values.take(i + 1));
        }
        lemma_fitting_count(d, max, i);
    }
}

/// The joined prefix counted by `fitting_count` fits the budget.
pub proof fn lemma_fitting_count_fits(values: Seq<Seq<char>>, max: int)
    ensures
        fitting_count(values, max) <= values.len(),
        join(values.take(fitting_count(values, max) as int), prompt_separator()).len() <= max
            || fitting_count(values, max) == 0,
    decreases values.len(),
{
    assert(values.take(values.len() as int) == values);
    if values.len() > 0 && join(values, prompt_separator()).len() > max {
        let d = values.drop_last();
        lemma_fitting_count_fits(d, max);
        let k = fitting_count(d, max);
        assert(d.take(k as int) == values.take(k as int));
    }
}

/// The key of a hint, computed.
fn hint_key_of(v: &[char]) -> (k: Vec<char>)
    ensures
        k@ == hint_key(v@),
{
    let mut lowered: Vec<char> = Vec::new();
    let mut i: usize = 0;
    while i < v.len()
        invariant
            i <= v.len(),
            lowered@ == lowercase_seq(v@.take(i as int)),
        decreases v.len() - i,
    {
        let low = to_lowercase(v[i]);
        let ghost before = lowered@;
        let mut j: usize = 0;
        while j < low.len()
            invariant
                j <= low.len(),
                lowered@ == before + low@.take(j as int),
            decreases low.len() - j,
        {
            lowered.push(low[j]);
            j += 1;
            assert(low@.take(j as int) == low@.take(j as int - 1).push(low@[j as int - 1]));
        }
        assert(low@.take(low.len() as int) == low@);
        let ghost t = v@.take(i as int + 1);
        assert(t.drop_last() == v@.take(i as int));
        i += 1;
    }
    assert(v@.take(v.len() as int) == v@);
    let mut mapped: Vec<char> = Vec::new();
    let mut i: usize = 0;
    while i < lowered.len()
        invariant
            i <= lowered.len(),
            mapped@ == lowered@.take(i as int).map_values(|c: char| key_char(c)),
        decreases lowered.len() - i,
    {
        let c = lowered[i];
        let m = if is_alphanumeric(c) || is_whitespace(c) {
            c
        } else {
            ' '
        };
        mapped.push(m);
        i += 1;
        assert(lowered@.take(i as int).map_values(|c: char| key_char(c)) =~= lowered@.take(
            i as int - 1,
        ).map_values(|c: char| key_char(c)).push(key_char(c)));
    }
    assert(lowered@.take(lowered.len() as int) == lowered@);
    collapse_whitespace(&mapped)
}

/// Each key is the key of the value at the same position.
pub open spec fn keys_match(keys: Seq<Vec<char>>, values: Seq<Vec<char>>) -> bool {
    &&& keys.len() == values.len()
    &&& forall|k: int| 0 <= k < keys.len() ==> keys[k]@ == hint_key(values[k]@)
}

/// Adds `source` to the accepted values if its cleaned form and key are
/// non-empty and the key is new.
fn accept_hint(
    values: &mut Vec<Vec<char>>,
    keys: &mut Vec<Vec<char>>,
    source: &str,
    Ghost(pre): Ghost<Seq<Seq<char>>>,
)
    requires
        views(old(values)@) == prompt_values(pre),
        keys_match(old(keys)@, old(values)@),
    ensures
        views(final(values)@) == prompt_values(pre.push(source@)),
        keys_match(final(keys)@, final(values)@),
{
    let ghost post = pre.push(source@);
    assert(post.drop_last() == pre);
    let chars = chars_of(source);
    let collapsed = collapse_whitespace(&chars);
    let value = trim_chars(&collapsed);
    if value.len() > 0 {
        let key = hint_key_of(&value);
        if key.len() > 0 {
            let taken = tokens_contain(keys, &key);
            proof {
                let p = prompt_values(pre);
                if taken {
                    let k = choose|k: int| 0 <= k < views(keys@).len() && views(keys@)[k] == key@;
                    assert(hint_key(p[k]) == key@);
                } else {
                    assert forall|k: int| 0 <= k < p.len() implies hint_key(p[k]) != key@ by {
                        assert(views(keys@)[k] == keys@[k]@);
                    }
                }
            }
            if !taken {
                values.push(value);
                keys.push(key);
                assert(views(values@) =~= prompt_values(pre).push(cleaned_hint(source@)));
            }
        }
    }
}

impl DictionaryHints {
    /// Hints with no terms or snippets and a 2000-character prompt budget.
    pub fn new() -> (h: Self)
        ensures
            h.terms@.len() == 0,
            h.snippets@.len() == 0,
            h.max_prompt_characters == 2000,
    {
        DictionaryHints { terms: Vec::new(), snippets: Vec::new(), max_prompt_characters: 2_000 }
    }

    /// Hints with the given terms, no snippets and the default budget.
    pub fn with_terms(terms: Vec<String>) -> (h: Self)
        ensures
            h.terms@ == terms@,
            h.snippets@.len() == 0,
            h.max_prompt_characters == 2000,
    {
        DictionaryHints { terms, snippets: Vec::new(), max_prompt_characters: 2_000 }
    }

    /// The recognizer prompt: each hint cleaned, hints whose key repeats an
    /// earlier one or is empty dropped, and as many leading hints as fit the
    /// character budget joined by ", ". `None` when nothing fits.
    pub fn prompt(&self) -> (r: Option<DictionaryPrompt>)
        ensures
            r matches Some(p) ==> spec_prompt(*self) == Some(p.text@),
            r is None ==> spec_prompt(*self) is None,
    {
        let ghost terms = string_views(self.terms@);
        let ghost snippets = string_views(self.snippets@);
        let ghost raw = terms + snippets;
        let mut values: Vec<Vec<char>> = Vec::new();
        let mut keys: Vec<Vec<char>> = Vec::new();
        let mut i: usize = 0;
        while i < self.terms.len()
            invariant
                terms == string_views(self.terms@),
                i <= self.terms.len(),
                views(values@) == prompt_values(terms.take(i as int)),
                keys_match(keys@, values@),
            decreases self.terms.len() - i,
        {
            accept_hint(&mut values, &mut keys, self.terms[i].as_str(), Ghost(terms.take(i as int)));
            assert(terms.take(i as int + 1) == terms.take(i as int).push(self.terms@[i as int]@));
            i += 1;
        }
        assert(terms.take(self.terms.len() as int) == terms);
        let mut j: usize = 0;
        while j < self.snippets.len()
            invariant
                terms == string_views(self.terms@),
                snippets == string_views(self.snippets@),
                j <= self.snippets.len(),
                views(values@) == prompt_values(terms + snippets.take(j as int)),
                keys_match(keys@, values@),
            decreases self.snippets.len() - j,
        {
            accept_hint(
                &mut values,
                &mut keys,
                self.snippets[j].as_str(),
                Ghost(terms + snippets.take(j as int)),
            );
            assert(terms + snippets.take(j as int + 1) == (terms + snippets.take(j as int)).push(
                self.snippets@[j as int]@,
            ));
            j += 1;
        }
        assert(snippets.take(self.snippets.len() as int) == snippets);
        assert(terms + snippets == raw);
        let max: usize = if self.max_prompt_characters == 0 {
            1
        } else {
            self.max_prompt_characters
        };
        let ghost vals = views(values@);
        let mut text: Vec<char> = Vec::new();
        let sep = [',', ' '];
        assert(sep@ == prompt_separator());
        let mut n: usize = 0;
        let mut stop = false;
        while n < values.len() && !stop
            invariant
                vals == views(values@),
                n <= values.len(),
                sep@ == prompt_separator(),
                text@ == join(vals.take(n as int), prompt_separator()),
                n == 0 || text@.len() <= max,
                stop ==> n < values.len() && join(vals.take(n as int + 1), prompt_separator()).len()
                    > max,
            decreases values.len() - n + (if stop { 0int } else { 1int }),
        {
            let value = &values[n];
            let extra: usize = if n == 0 {
                0
            } else {
                2
            };
            proof {
                lemma_join_take_len(vals, prompt_separator(), n as int);
            }
            if (text.len() as u128) + (extra as u128) + (value.len() as u128) > (max as u128) {
                stop = true;
            } else {
                if n > 0 {
                    text.push(sep[0]);
                    text.push(sep[1]);
                }
                let mut j: usize = 0;
                let ghost t0 = text@;
                while j < value.len()
                    invariant
                        j <= value.len(),
                        text@ == t0 + value@.take(j as int),
                    decreases value.len() - j,
                {
                    text.push(value[j]);
                    j += 1;
                    assert(value@.take(j as int) == value@.take(j as int - 1).push(
                        value@[j as int - 1],
                    ));
                }
                assert(value@.take(value.len() as int) == value@);
                let ghost t = vals.take(n as int + 1);
                assert(t.drop_last() == vals.take(n as int));
                assert(t.last() == value@);
                if n == 0 {
                    assert(text@ =~= join(t, prompt_separator()));
                } else {
                    assert(text@ =~= join(t, prompt_separator()));
                }
                n += 1;
            }
        }
        proof {
            lemma_fitting_count(vals, max as int, n as int);
        }
        if text.len() == 0 {
            None
        } else {
            Some(DictionaryPrompt { text: string_of(&text) })
        }
    }
}

/// The prompt never exceeds its character budget (at least one character).
pub proof fn law_prompt_within_budget(hints: DictionaryHints)
    ensures
        spec_prompt(hints) matches Some(t) ==> t.len() <= if hints.max_prompt_characters == 0 {
            1
        } else {
            hints.max_prompt_characters as int
        },
{
    let raw = string_views(hints.terms@) + string_views(hints.snippets@);
    let values = prompt_values(raw);
    let max = if hints.max_prompt_characters == 0 {
        1
    } else {
        hints.max_prompt_characters as int
    };
    lemma_fitting_count_fits(values, max);
    if fitting_count(values, max) == 0 {
        assert(values.take(0).len() == 0);
    }
}

/// The accepted hints have pairwise distinct, non-empty keys, and each is
/// non-empty.
pub proof fn law_prompt_values_distinct(raw: Seq<Seq<char>>)
    ensures
        forall|i: int, j: int|
            0 <= i < j < prompt_values(raw).len() ==> hint_key(prompt_values(raw)[i]) != hint_key(
                prompt_values(raw)[j],
            ),
        forall|i: int|
            0 <= i < prompt_values(raw).len() ==> (#[trigger] prompt_values(raw)[i]).len() > 0
                && hint_key(prompt_values(raw)[i]).len() > 0,
    decreases raw.len(),
{
    if raw.len() > 0 {
        law_prompt_values_distinct(raw.drop_last());
        let p = prompt_values(raw.drop_last());
        let q = prompt_values(raw);
        assert forall|i: int, j: int| 0 <= i < j < q.len() implies hint_key(q[i]) != hint_key(
            q[j],
        ) by {
            if j == p.len() {
                assert(q[j] == cleaned_hint(raw.last()));
                assert(q[i] == p[i]);
            } else {
                assert(q[i] == p[i] && q[j] == p[j]);
            }
        }
        assert forall|i: int| 0 <= i < q.len() implies (#[trigger] q[i]).len() > 0 && hint_key(
            q[i],
        ).len() > 0 by {
            if i < p.len() {
                assert(q[i] == p[i]);
            }
        }
    }
}

} // verus!
