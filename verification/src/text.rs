//! Character-level text primitives shared by the transcript, dictionary and
//! incident modules: Unicode whitespace, whitespace splitting and joining,
//! trimming, ASCII case folding and substring search, all over `Seq<char>`.
use vstd::prelude::*;

verus! {

// ---------------------------------------------------------------------------
// Whitespace
// ---------------------------------------------------------------------------

/// The Unicode `White_Space` property, as used by `char::is_whitespace`,
/// `str::split_whitespace` and `str::trim`.
pub open spec fn is_ws(c: char) -> bool {
    ||| ('\u{9}' <= c && c <= '\u{d}')
    ||| c == ' '
    ||| c == '\u{85}'
    ||| c == '\u{a0}'
    ||| c == '\u{1680}'
    ||| ('\u{2000}' <= c && c <= '\u{200a}')
    ||| c == '\u{2028}'
    ||| c == '\u{2029}'
    ||| c == '\u{202f}'
    ||| c == '\u{205f}'
    ||| c == '\u{3000}'
}

/// Whether `c` is Unicode whitespace.
pub fn is_whitespace(c: char) -> (r: bool)
    ensures
        r == is_ws(c),
{
    ('\u{9}' <= c && c <= '\u{d}') || c == ' ' || c == '\u{85}' || c == '\u{a0}' || c
        == '\u{1680}' || ('\u{2000}' <= c && c <= '\u{200a}') || c == '\u{2028}' || c
        == '\u{2029}' || c == '\u{202f}' || c == '\u{205f}' || c == '\u{3000}'
}

/// The maximal runs of characters of `s` whose flag in `keep` is set, in
/// order (`keep` has one flag per character).
pub open spec fn runs(s: Seq<char>, keep: Seq<bool>) -> Seq<Seq<char>>
    decreases s.len(),
{
    if s.len() == 0 {
        seq![]
    } else {
        let p = runs(s.drop_last(), keep.take(s.len() - 1));
        if !keep[s.len() - 1] {
            p
        } else if s.len() >= 2 && keep[s.len() - 2] {
            p.update(p.len() - 1, p.last().push(s.last()))
        } else {
            p.push(seq![s.last()])
        }
    }
}

/// One flag per character of `s`: set where the character is not whitespace.
pub open spec fn non_ws_mask(s: Seq<char>) -> Seq<bool> {
    Seq::new(s.len(), |i: int| !is_ws(s[i]))
}

/// The maximal runs of non-whitespace characters of `s` (`str::split_whitespace`).
pub open spec fn split_ws(s: Seq<char>) -> Seq<Seq<char>> {
    runs(s, non_ws_mask(s))
}

/// The character sequences held by a vector of character vectors.
pub open spec fn views(v: Seq<Vec<char>>) -> Seq<Seq<char>> {
    v.map_values(|t: Vec<char>| t@)
}

/// Whether every token is non-empty and free of whitespace.
pub open spec fn clean_tokens(toks: Seq<Seq<char>>) -> bool {
    forall|k: int|
        0 <= k < toks.len() ==> {
            &&& (#[trigger] toks[k]).len() > 0
            &&& forall|j: int| 0 <= j < toks[k].len() ==> !is_ws(#[trigger] toks[k][j])
        }
}

/// The tokens of `s` concatenated with `sep` between consecutive ones.
pub open spec fn join(toks: Seq<Seq<char>>, sep: Seq<char>) -> Seq<char>
    decreases toks.len(),
{
    if toks.len() == 0 {
        seq![]
    } else if toks.len() == 1 {
        toks[0]
    } else {
        join(toks.drop_last(), sep) + sep + toks.last()
    }
}

/// `s` with every run of whitespace collapsed to one space and no leading or
/// trailing whitespace.
pub open spec fn collapse_ws(s: Seq<char>) -> Seq<char> {
    join(split_ws(s), seq![' '])
}

/// `s` without leading whitespace.
pub open spec fn trim_start(s: Seq<char>) -> Seq<char>
    decreases s.len(),
{
    if s.len() > 0 && is_ws(s[0]) {
        trim_start(s.drop_first())
    } else {
        s
    }
}

/// `s` without trailing whitespace.
pub open spec fn trim_end(s: Seq<char>) -> Seq<char>
    decreases s.len(),
{
    if s.len() > 0 && is_ws(s.last()) {
        trim_end(s.drop_last())
    } else {
        s
    }
}

/// `s` without leading and trailing whitespace.
pub open spec fn trim(s: Seq<char>) -> Seq<char> {
    trim_end(trim_start(s))
}

proof fn lemma_runs_last(s: Seq<char>, keep: Seq<bool>)
    requires
        s.len() > 0,
        keep.len() == s.len(),
        keep[s.len() - 1],
    ensures
        runs(s, keep).len() > 0,
    decreases s.len(),
{
    if s.len() >= 2 && keep[s.len() - 2] {
        lemma_runs_last(s.drop_last(), keep.take(s.len() - 1));
    }
}

/// Every run is non-empty and made of characters whose flag is set.
pub proof fn lemma_runs_flagged(s: Seq<char>, keep: Seq<bool>)
    requires
        keep.len() == s.len(),
    ensures
        forall|k: int|
            0 <= k < runs(s, keep).len() ==> (#[trigger] runs(s, keep)[k]).len() > 0,
        forall|k: int, j: int|
            0 <= k < runs(s, keep).len() && 0 <= j < runs(s, keep)[k].len() ==> exists|i: int|
                0 <= i < s.len() && keep[i] && s[i] == #[trigger] runs(s, keep)[k][j],
    decreases s.len(),
{
    if s.len() > 0 {
        let t = s.drop_last();
        let kt = keep.take(s.len() - 1);
        lemma_runs_flagged(t, kt);
        let p = runs(t, kt);
        let q = runs(s, keep);
        let n = s.len() - 1;
        if keep[n] && s.len() >= 2 && keep[s.len() - 2] {
            lemma_runs_last(t, kt);
        }
        assert forall|k: int| 0 <= k < q.len() implies (#[trigger] q[k]).len() > 0 by {
            if keep[n] && s.len() >= 2 && keep[s.len() - 2] {
                if k != p.len() - 1 {
                    assert(q[k] == p[k]);
                }
            } else if keep[n] {
                if k < p.len() {
                    assert(q[k] == p[k]);
                }
            }
        }
        assert forall|k: int, j: int| 0 <= k < q.len() && 0 <= j < q[k].len() implies exists|i: int|
            0 <= i < s.len() && keep[i] && s[i] == #[trigger] q[k][j] by {
            if !keep[n] {
                let i = choose|i: int| 0 <= i < t.len() && kt[i] && t[i] == p[k][j];
                assert(s[i] == t[i]);
            } else if s.len() >= 2 && keep[s.len() - 2] {
                if k == p.len() - 1 && j == p[k].len() {
                    assert(q[k][j] == s[n]);
                } else {
                    assert(q[k][j] == p[k][j]);
                    let i = choose|i: int| 0 <= i < t.len() && kt[i] && t[i] == p[k][j];
                    assert(s[i] == t[i]);
                }
            } else {
                if k == p.len() {
                    assert(q[k][j] == s[n]);
                } else {
                    assert(q[k][j] == p[k][j]);
                    let i = choose|i: int| 0 <= i < t.len() && kt[i] && t[i] == p[k][j];
                    assert(s[i] == t[i]);
                }
            }
        }
    }
}

/// Every token produced by `split_ws` is non-empty and whitespace-free.
pub proof fn lemma_split_ws_clean(s: Seq<char>)
    ensures
        clean_tokens(split_ws(s)),
{
    let m = non_ws_mask(s);
    lemma_runs_flagged(s, m);
    let q = split_ws(s);
    assert forall|k: int| 0 <= k < q.len() implies {
        &&& (#[trigger] q[k]).len() > 0
        &&& forall|j: int| 0 <= j < q[k].len() ==> !is_ws(#[trigger] q[k][j])
    } by {
        assert forall|j: int| 0 <= j < q[k].len() implies !is_ws(#[trigger] q[k][j]) by {
            let i = choose|i: int| 0 <= i < s.len() && m[i] && s[i] == q[k][j];
        }
    }
}

// ---------------------------------------------------------------------------
// Conversions between strings and character vectors
// ---------------------------------------------------------------------------

/// The characters of `s`, in order.
pub fn chars_of(s: &str) -> (v: Vec<char>)
    ensures
        v@ == s@,
{
    let mut v: Vec<char> = Vec::new();
    for c in it: s.chars()
        invariant
            v@ == it.seq().take(it.index() as int),
            it.seq() == s@,
    {
        v.push(c);
    }
    v
}

/// `String::push`: appends one character.
#[verifier::external_body]
pub(crate) fn push_char(s: &mut String, c: char)
    ensures
        final(s)@ == old(s)@.push(c),
{
    s.push(c);
}

/// `s` without its last character; the empty string stays empty.
pub fn without_last(s: &String) -> (r: String)
    ensures
        r@ == if s@.len() == 0 {
            s@
        } else {
            s@.drop_last()
        },
{
    let v = chars_of(s.as_str());
    let mut r = String::new();
    if v.len() == 0 {
        return r;
    }
    let n = v.len() - 1;
    let mut i: usize = 0;
    while i < n
        invariant
            i <= n,
            n + 1 == v.len(),
            v@ == s@,
            r@ == s@.take(i as int),
        decreases n - i,
    {
        push_char(&mut r, v[i]);
        i += 1;
        assert(s@.take(i as int) == s@.take(i as int - 1).push(s@[i as int - 1]));
    }
    r
}

/// The string whose characters are `v`.
pub fn string_of(v: &[char]) -> (s: String)
    ensures
        s@ == v@,
{
    let mut s = String::new();
    let mut i: usize = 0;
    while i < v.len()
        invariant
            i <= v.len(),
            s@ == v@.take(i as int),
        decreases v.len() - i,
    {
        push_char(&mut s, v[i]);
        i += 1;
        assert(v@.take(i as int) == v@.take(i as int - 1).push(v@[i as int - 1]));
    }
    assert(v@.take(v.len() as int) == v@);
    s
}

// ---------------------------------------------------------------------------
// Splitting, joining, trimming
// ---------------------------------------------------------------------------

/// The maximal runs of characters of `s` whose flag in `keep` is set.
pub fn split_runs(s: &[char], keep: &[bool]) -> (toks: Vec<Vec<char>>)
    requires
        keep.len() == s.len(),
    ensures
        views(toks@) == runs(s@, keep@),
{
    let mut toks: Vec<Vec<char>> = Vec::new();
    let mut i: usize = 0;
    while i < s.len()
        invariant
            i <= s.len(),
            keep.len() == s.len(),
            views(toks@) == runs(s@.take(i as int), keep@.take(i as int)),
        decreases s.len() - i,
    {
        let c = s[i];
        let ghost pre = s@.take(i as int);
        let ghost kpre = keep@.take(i as int);
        let ghost post = s@.take(i as int + 1);
        let ghost kpost = keep@.take(i as int + 1);
        assert(post.drop_last() == pre);
        assert(kpost.take(i as int) == kpre);
        assert(post.last() == c);
        assert(kpost[i as int] == keep[i as int]);
        if !keep[i] {
        } else if i > 0 && keep[i - 1] {
            assert(kpost[i - 1] == keep[i - 1]);
            assert(kpre[i - 1] == keep[i - 1]);
            proof {
                lemma_runs_last(pre, kpre);
            }
            let mut last = toks.pop().unwrap();
            last.push(c);
            toks.push(last);
            assert(views(toks@) =~= runs(pre, kpre).update(
                runs(pre, kpre).len() - 1,
                runs(pre, kpre).last().push(c),
            ));
        } else {
            let mut tok: Vec<char> = Vec::new();
            tok.push(c);
            toks.push(tok);
            assert(views(toks@) =~= runs(pre, kpre).push(seq![c]));
        }
        i += 1;
    }
    assert(s@.take(s.len() as int) == s@);
    assert(keep@.take(s.len() as int) == keep@);
    toks
}

/// The whitespace-separated tokens of `s`.
pub fn split_whitespace(s: &[char]) -> (toks: Vec<Vec<char>>)
    ensures
        views(toks@) == split_ws(s@),
{
    let mut keep: Vec<bool> = Vec::new();
    let mut i: usize = 0;
    while i < s.len()
        invariant
            i <= s.len(),
            keep.len() == i,
            forall|k: int| 0 <= k < i ==> keep@[k] == !is_ws(s@[k]),
        decreases s.len() - i,
    {
        keep.push(!is_whitespace(s[i]));
        i += 1;
    }
    assert(keep@ =~= non_ws_mask(s@));
    split_runs(s, &keep)
}

/// The tokens `toks` joined with `sep`.
pub fn join_chars(toks: &[Vec<char>], sep: &[char]) -> (r: Vec<char>)
    ensures
        r@ == join(views(toks@), sep@),
{
    let mut r: Vec<char> = Vec::new();
    let mut i: usize = 0;
    while i < toks.len()
        invariant
            i <= toks.len(),
            r@ == join(views(toks@).take(i as int), sep@),
        decreases toks.len() - i,
    {
        let ghost pre = views(toks@).take(i as int);
        let ghost post = views(toks@).take(i as int + 1);
        assert(post.drop_last() == pre);
        assert(post.last() == toks[i as int]@);
        if i > 0 {
            let mut j: usize = 0;
            let ghost r0 = r@;
            while j < sep.len()
                invariant
                    j <= sep.len(),
                    r@ == r0 + sep@.take(j as int),
                decreases sep.len() - j,
            {
                r.push(sep[j]);
                j += 1;
                assert(sep@.take(j as int) == sep@.take(j as int - 1).push(sep@[j as int - 1]));
            }
            assert(sep@.take(sep.len() as int) == sep@);
        }
        let tok = &toks[i];
        let mut j: usize = 0;
        let ghost r1 = r@;
        while j < tok.len()
            invariant
                j <= tok.len(),
                r@ == r1 + tok@.take(j as int),
            decreases tok.len() - j,
        {
            r.push(tok[j]);
            j += 1;
            assert(tok@.take(j as int) == tok@.take(j as int - 1).push(tok@[j as int - 1]));
        }
        assert(tok@.take(tok.len() as int) == tok@);
        if i == 0 {
            assert(r@ =~= post[0]);
        }
        i += 1;
    }
    assert(views(toks@).take(toks.len() as int) == views(toks@));
    r
}

/// `s` with whitespace runs collapsed to single spaces and the ends trimmed.
pub fn collapse_whitespace(s: &[char]) -> (r: Vec<char>)
    ensures
        r@ == collapse_ws(s@),
{
    let toks = split_whitespace(s);
    let sep = [' '];
    let r = join_chars(&toks, &sep);
    assert(sep@ == seq![' ']);
    r
}

/// `s` without leading and trailing whitespace.
pub fn trim_chars(s: &[char]) -> (r: Vec<char>)
    ensures
        r@ == trim(s@),
{
    let mut start: usize = 0;
    assert(s@.subrange(0, s.len() as int) == s@);
    while start < s.len() && is_whitespace(s[start])
        invariant
            start <= s.len(),
            trim_start(s@) == trim_start(s@.subrange(start as int, s.len() as int)),
        decreases s.len() - start,
    {
        let ghost t = s@.subrange(start as int, s.len() as int);
        assert(t.drop_first() == s@.subrange(start as int + 1, s.len() as int));
        start += 1;
    }
    let ghost ts = s@.subrange(start as int, s.len() as int);
    assert(trim_start(ts) == ts);
    let mut end: usize = s.len();
    while end > start && is_whitespace(s[end - 1])
        invariant
            start <= end <= s.len(),
            trim_end(ts) == trim_end(s@.subrange(start as int, end as int)),
        decreases end - start,
    {
        let ghost t = s@.subrange(start as int, end as int);
        assert(t.drop_last() == s@.subrange(start as int, end as int - 1));
        end -= 1;
    }
    let ghost te = s@.subrange(start as int, end as int);
    assert(trim_end(te) == te);
    let mut r: Vec<char> = Vec::new();
    let mut k: usize = start;
    while k < end
        invariant
            start <= k <= end <= s.len(),
            r@ == s@.subrange(start as int, k as int),
        decreases end - k,
    {
        r.push(s[k]);
        k += 1;
        assert(s@.subrange(start as int, k as int) == s@.subrange(start as int, k as int - 1).push(
            s@[k as int - 1],
        ));
    }
    r
}

// ---------------------------------------------------------------------------
// ASCII case folding
// ---------------------------------------------------------------------------

/// `char::to_ascii_lowercase`.
pub open spec fn ascii_lower(c: char) -> char {
    if 'A' <= c && c <= 'Z' {
        ((c as u32) + 32) as char
    } else {
        c
    }
}

/// `str::to_ascii_lowercase`, character by character.
pub open spec fn ascii_lower_seq(s: Seq<char>) -> Seq<char> {
    s.map_values(|c: char| ascii_lower(c))
}

/// `char::is_ascii_alphabetic`.
pub open spec fn is_ascii_alpha(c: char) -> bool {
    ('a' <= c && c <= 'z') || ('A' <= c && c <= 'Z')
}

/// The ASCII lowercase of `c`.
pub fn to_ascii_lower(c: char) -> (r: char)
    ensures
        r == ascii_lower(c),
{
    if 'A' <= c && c <= 'Z' {
        let b: u8 = c as u8;
        (b + 32) as char
    } else {
        c
    }
}

/// The ASCII lowercase of every character of `s`.
pub fn to_ascii_lower_chars(s: &[char]) -> (r: Vec<char>)
    ensures
        r@ == ascii_lower_seq(s@),
{
    let mut r: Vec<char> = Vec::new();
    let mut i: usize = 0;
    while i < s.len()
        invariant
            i <= s.len(),
            r@ == ascii_lower_seq(s@.take(i as int)),
        decreases s.len() - i,
    {
        r.push(to_ascii_lower(s[i]));
        i += 1;
        assert(ascii_lower_seq(s@.take(i as int)) =~= ascii_lower_seq(s@.take(i as int - 1)).push(
            ascii_lower(s@[i as int - 1]),
        ));
    }
    assert(s@.take(s.len() as int) == s@);
    r
}

// ---------------------------------------------------------------------------
// Substring search
// ---------------------------------------------------------------------------

/// Whether `p` occurs in `s` starting at index `i`.
pub open spec fn occurs_at(s: Seq<char>, p: Seq<char>, i: int) -> bool {
    0 <= i && i + p.len() <= s.len() && s.subrange(i, i + p.len()) == p
}

/// The first index at or after `i` where `p` occurs in `s`.
pub open spec fn find_from(s: Seq<char>, p: Seq<char>, i: int) -> Option<int>
    decreases s.len() + 1 - i,
{
    if i < 0 || i + p.len() > s.len() {
        None
    } else if occurs_at(s, p, i) {
        Some(i)
    } else {
        find_from(s, p, i + 1)
    }
}

/// `str::find`, in characters: the first index where `p` occurs in `s`.
pub open spec fn find(s: Seq<char>, p: Seq<char>) -> Option<int> {
    find_from(s, p, 0)
}

/// `str::contains`.
pub open spec fn contains(s: Seq<char>, p: Seq<char>) -> bool {
    find(s, p) is Some
}

/// The result of `find_from` lies in range and is the least occurrence.
pub proof fn lemma_find_from(s: Seq<char>, p: Seq<char>, i: int)
    requires
        0 <= i,
    ensures
        find_from(s, p, i) matches Some(k) ==> i <= k && occurs_at(s, p, k) && forall|j: int|
            i <= j < k ==> !occurs_at(s, p, j),
        find_from(s, p, i) is None ==> forall|j: int| i <= j ==> !occurs_at(s, p, j),
    decreases s.len() + 1 - i,
{
    if i + p.len() <= s.len() && !occurs_at(s, p, i) {
        lemma_find_from(s, p, i + 1);
    }
}

/// Whether `p` occurs in `s` at `i`, checked character by character.
fn matches_at(s: &[char], p: &[char], i: usize) -> (r: bool)
    requires
        i + p.len() <= s.len(),
    ensures
        r == occurs_at(s@, p@, i as int),
{
    let mut j: usize = 0;
    while j < p.len()
        invariant
            i + p.len() <= s.len(),
            j <= p.len(),
            forall|k: int| 0 <= k < j ==> s@[i + k] == p@[k],
        decreases p.len() - j,
    {
        if s[i + j] != p[j] {
            assert(s@.subrange(i as int, i + p.len())[j as int] != p@[j as int]);
            return false;
        }
        j += 1;
    }
    assert(s@.subrange(i as int, i + p.len()) =~= p@);
    true
}

/// The first index where `p` occurs in `s`.
pub fn find_chars(s: &[char], p: &[char]) -> (r: Option<usize>)
    ensures
        r matches Some(k) ==> find(s@, p@) == Some(k as int),
        r is None ==> find(s@, p@) is None,
{
    if p.len() > s.len() {
        return None;
    }
    let mut i: usize = 0;
    while i <= s.len() - p.len()
        invariant
            p.len() <= s.len(),
            i <= s.len() - p.len() + 1,
            find(s@, p@) == find_from(s@, p@, i as int),
        decreases s.len() - p.len() + 1 - i,
    {
        if matches_at(s, p, i) {
            return Some(i);
        }
        if i == s.len() - p.len() {
            assert(find_from(s@, p@, i as int + 1) is None);
            return None;
        }
        i += 1;
    }
    None
}


// ---------------------------------------------------------------------------
// Equality
// ---------------------------------------------------------------------------

/// Whether `a` and `b` hold the same characters.
pub fn chars_eq(a: &[char], b: &[char]) -> (r: bool)
    ensures
        r == (a@ == b@),
{
    if a.len() != b.len() {
        return false;
    }
    let mut i: usize = 0;
    while i < a.len()
        invariant
            a.len() == b.len(),
            i <= a.len(),
            forall|k: int| 0 <= k < i ==> a@[k] == b@[k],
        decreases a.len() - i,
    {
        if a[i] != b[i] {
            return false;
        }
        i += 1;
    }
    assert(a@ =~= b@);
    true
}

/// Whether `a` and `b` hold the same tokens.
pub fn tokens_eq(a: &[Vec<char>], b: &[Vec<char>]) -> (r: bool)
    ensures
        r == (views(a@) == views(b@)),
{
    if a.len() != b.len() {
        assert(views(a@).len() != views(b@).len());
        return false;
    }
    let mut i: usize = 0;
    while i < a.len()
        invariant
            a.len() == b.len(),
            i <= a.len(),
            forall|k: int| 0 <= k < i ==> a@[k]@ == b@[k]@,
        decreases a.len() - i,
    {
        if !chars_eq(&a[i], &b[i]) {
            assert(views(a@)[i as int] != views(b@)[i as int]);
            return false;
        }
        i += 1;
    }
    assert(views(a@) =~= views(b@));
    true
}

/// Whether some token of `toks` equals `w`.
pub fn tokens_contain(toks: &[Vec<char>], w: &[char]) -> (r: bool)
    ensures
        r == views(toks@).contains(w@),
{
    let mut i: usize = 0;
    while i < toks.len()
        invariant
            i <= toks.len(),
            forall|k: int| 0 <= k < i ==> toks@[k]@ != w@,
        decreases toks.len() - i,
    {
        if chars_eq(&toks[i], w) {
            assert(views(toks@)[i as int] == w@);
            return true;
        }
        i += 1;
    }
    assert forall|k: int| 0 <= k < views(toks@).len() implies views(toks@)[k] != w@ by {
        assert(views(toks@)[k] == toks@[k]@);
    }
    false
}

// ---------------------------------------------------------------------------
// Unicode properties that std computes from its tables
// ---------------------------------------------------------------------------

/// What `char::is_alphanumeric` returns for `c`: whether `c` has the Unicode
/// `Alphabetic` property or a numeric general category.
pub uninterp spec fn unicode_alphanumeric(c: char) -> bool;

/// What `char::to_lowercase` yields for `c`, as a sequence of characters.
pub uninterp spec fn unicode_lowercase(c: char) -> Seq<char>;

/// What `char::to_uppercase` yields for `c`, as a sequence of characters.
pub uninterp spec fn unicode_uppercase(c: char) -> Seq<char>;

/// `char::is_alphanumeric`. The contract names std's answer for `c`; which
/// characters are alphanumeric is left to std's Unicode tables.
#[verifier::external_body]
pub(crate) fn is_alphanumeric(c: char) -> (r: bool)
    ensures
        r == unicode_alphanumeric(c),
{
    c.is_alphanumeric()
}

/// `char::to_lowercase`, collected into a vector. The contract names std's
/// answer for `c`; the case mapping itself is left to std's Unicode tables.
#[verifier::external_body]
pub(crate) fn to_lowercase(c: char) -> (r: Vec<char>)
    ensures
        r@ == unicode_lowercase(c),
{
    c.to_lowercase().collect()
}

/// `char::to_uppercase`, collected into a vector. The contract names std's
/// answer for `c`; the case mapping itself is left to std's Unicode tables.
#[verifier::external_body]
pub(crate) fn to_uppercase(c: char) -> (r: Vec<char>)
    ensures
        r@ == unicode_uppercase(c),
{
    c.to_uppercase().collect()
}

/// One flag per character of `s`: set where the character is alphanumeric.
pub open spec fn alnum_mask(s: Seq<char>) -> Seq<bool> {
    Seq::new(s.len(), |i: int| unicode_alphanumeric(s[i]))
}

/// The flags of `alnum_mask(s)`, computed.
pub fn alphanumeric_mask(s: &[char]) -> (keep: Vec<bool>)
    ensures
        keep@ == alnum_mask(s@),
{
    let mut keep: Vec<bool> = Vec::new();
    let mut i: usize = 0;
    while i < s.len()
        invariant
            i <= s.len(),
            keep.len() == i,
            forall|k: int| 0 <= k < i ==> keep@[k] == unicode_alphanumeric(s@[k]),
        decreases s.len() - i,
    {
        keep.push(is_alphanumeric(s[i]));
        i += 1;
    }
    assert(keep@ =~= alnum_mask(s@));
    keep
}

/// `s` with its first character replaced by its uppercase mapping.
pub open spec fn capitalize(s: Seq<char>) -> Seq<char> {
    if s.len() == 0 {
        s
    } else {
        unicode_uppercase(s[0]) + s.drop_first()
    }
}

/// The first character of `s` mapped to uppercase, the rest unchanged.
pub fn capitalize_chars(s: &[char]) -> (r: Vec<char>)
    ensures
        r@ == capitalize(s@),
{
    if s.len() == 0 {
        return Vec::new();
    }
    let mut r = to_uppercase(s[0]);
    let ghost head = r@;
    let mut i: usize = 1;
    while i < s.len()
        invariant
            1 <= i <= s.len(),
            r@ == head + s@.subrange(1, i as int),
        decreases s.len() - i,
    {
        r.push(s[i]);
        i += 1;
        assert(s@.subrange(1, i as int) == s@.subrange(1, i as int - 1).push(s@[i as int - 1]));
    }
    assert(s@.subrange(1, s.len() as int) == s@.drop_first());
    r
}

// ---------------------------------------------------------------------------
// Owned strings
// ---------------------------------------------------------------------------

/// The strings of a vector, as character sequences.
pub open spec fn string_views(v: Seq<String>) -> Seq<Seq<char>> {
    v.map_values(|s: String| s@)
}

/// A copy of a string.
pub fn copy_string(s: &String) -> (r: String)
    ensures
        r == *s,
{
    s.clone()
}

/// A copy of an optional string.
pub fn copy_opt_string(s: &Option<String>) -> (r: Option<String>)
    ensures
        r == *s,
{
    match s {
        Some(v) => Some(v.clone()),
        None => None,
    }
}

/// A copy of a vector of strings.
pub fn copy_strings(v: &Vec<String>) -> (r: Vec<String>)
    ensures
        r@ == v@,
{
    let mut r: Vec<String> = Vec::new();
    let mut i: usize = 0;
    while i < v.len()
        invariant
            i <= v.len(),
            r@ == v@.take(i as int),
        decreases v.len() - i,
    {
        r.push(v[i].clone());
        i += 1;
        assert(v@.take(i as int) == v@.take(i as int - 1).push(v@[i as int - 1]));
    }
    assert(v@.take(v.len() as int) == v@);
    r
}

/// The characters of each string, in order.
pub fn strings_chars(v: &Vec<String>) -> (r: Vec<Vec<char>>)
    ensures
        views(r@) == string_views(v@),
{
    let mut r: Vec<Vec<char>> = Vec::new();
    let mut i: usize = 0;
    while i < v.len()
        invariant
            i <= v.len(),
            views(r@) == string_views(v@.take(i as int)),
        decreases v.len() - i,
    {
        let ghost r0 = r@;
        r.push(chars_of(v[i].as_str()));
        assert(v@.take(i as int + 1) == v@.take(i as int).push(v@[i as int]));
        assert(views(r@) =~= views(r0).push(v@[i as int]@));
        assert(string_views(v@.take(i as int + 1)) =~= string_views(v@.take(i as int)).push(
            v@[i as int]@,
        ));
        i += 1;
    }
    assert(v@.take(v.len() as int) == v@);
    r
}

/// The characters of `a` followed by those of `b`.
pub fn concat_chars(a: Vec<char>, b: &[char]) -> (r: Vec<char>)
    ensures
        r@ == a@ + b@,
{
    let mut r = a;
    let ghost r0 = r@;
    let mut i: usize = 0;
    while i < b.len()
        invariant
            i <= b.len(),
            r@ == r0 + b@.take(i as int),
        decreases b.len() - i,
    {
        r.push(b[i]);
        i += 1;
        assert(b@.take(i as int) == b@.take(i as int - 1).push(b@[i as int - 1]));
    }
    assert(b@.take(b.len() as int) == b@);
    r
}

// ---------------------------------------------------------------------------
// Prefixes and suffixes
// ---------------------------------------------------------------------------

/// `str::starts_with`.
pub fn has_prefix(s: &str, p: &str) -> (r: bool)
    ensures
        r == p@.is_prefix_of(s@),
{
    let sv = chars_of(s);
    let pv = chars_of(p);
    if pv.len() > sv.len() {
        return false;
    }
    let mut i: usize = 0;
    while i < pv.len()
        invariant
            sv@ == s@,
            pv@ == p@,
            pv.len() <= sv.len(),
            i <= pv.len(),
            forall|k: int| 0 <= k < i ==> sv@[k] == pv@[k],
        decreases pv.len() - i,
    {
        if sv[i] != pv[i] {
            assert(s@.subrange(0, p@.len() as int)[i as int] != p@[i as int]);
            assert(s@.subrange(0, p@.len() as int) != p@);
            return false;
        }
        i += 1;
    }
    assert(pv@ =~= sv@.subrange(0, pv@.len() as int));
    true
}

/// `str::ends_with`.
pub fn has_suffix(s: &str, p: &str) -> (r: bool)
    ensures
        r == p@.is_suffix_of(s@),
{
    let sv = chars_of(s);
    let pv = chars_of(p);
    if pv.len() > sv.len() {
        return false;
    }
    let off = sv.len() - pv.len();
    let mut i: usize = 0;
    while i < pv.len()
        invariant
            sv@ == s@,
            pv@ == p@,
            pv.len() <= sv.len(),
            off == sv.len() - pv.len(),
            i <= pv.len(),
            forall|k: int| 0 <= k < i ==> sv@[off + k] == pv@[k],
        decreases pv.len() - i,
    {
        if sv[off + i] != pv[i] {
            assert(s@.subrange(off as int, s@.len() as int)[i as int] != p@[i as int]);
            assert(s@.subrange(off as int, s@.len() as int) != p@);
            return false;
        }
        i += 1;
    }
    assert(pv@ =~= sv@.subrange(off as int, sv@.len() as int));
    true
}

/// `str == str`.
pub fn str_eq(a: &str, b: &str) -> (r: bool)
    ensures
        r == (a@ == b@),
{
    let x = chars_of(a);
    let y = chars_of(b);
    chars_eq(&x, &y)
}

// ---------------------------------------------------------------------------
// Lines
// ---------------------------------------------------------------------------

/// The end of the line that starts at `i`: the index of the next `\n`, or
/// the end of `s`.
pub open spec fn line_end(s: Seq<char>, i: int) -> int
    decreases s.len() - i,
{
    if i >= s.len() {
        s.len() as int
    } else if s[i] == '\n' {
        i
    } else {
        line_end(s, i + 1)
    }
}

pub proof fn lemma_line_end(s: Seq<char>, i: int)
    requires
        0 <= i,
    ensures
        i <= s.len() ==> i <= line_end(s, i) <= s.len(),
        i > s.len() ==> line_end(s, i) == s.len(),
        line_end(s, i) < s.len() ==> s[line_end(s, i)] == '\n',
        forall|k: int| i <= k < line_end(s, i) ==> s[k] != '\n',
    decreases s.len() - i,
{
    if i < s.len() && s[i] != '\n' {
        lemma_line_end(s, i + 1);
    }
}

} // verus!
