//! Names of the runs the terminal interface starts: `run-`, a namespace of
//! the interface's process, `-`, and a counter of at least four digits. A
//! new name never repeats the name of a saved run.
use vstd::prelude::*;
use vstd::string::StringExecFns;
use crate::logs::digit_char;
use crate::server::{decimal, decimal_chars};
use crate::text::{push_char, string_of, string_views};

verus! {

/// `k` zero digits.
pub open spec fn zeros(k: nat) -> Seq<char>
    decreases k,
{
    if k == 0 {
        seq![]
    } else {
        zeros((k - 1) as nat).push('0')
    }
}

/// The decimal digits of `n`, zero-padded to at least four.
pub open spec fn padded4(n: nat) -> Seq<char> {
    if decimal(n).len() < 4 {
        zeros((4 - decimal(n).len()) as nat) + decimal(n)
    } else {
        decimal(n)
    }
}

/// The name of run number `n` in a namespace.
pub open spec fn run_name(namespace: Seq<char>, n: nat) -> Seq<char> {
    "run-"@ + namespace + "-"@ + padded4(n)
}

/// The counter `k` steps after `start`, wrapping around at the end of the
/// 64-bit range.
pub open spec fn counter_after(start: u64, k: nat) -> u64 {
    ((start + k) % 0x1_0000_0000_0000_0000) as u64
}

spec fn digit_value(c: char) -> int {
    if c == '1' {
        1
    } else if c == '2' {
        2
    } else if c == '3' {
        3
    } else if c == '4' {
        4
    } else if c == '5' {
        5
    } else if c == '6' {
        6
    } else if c == '7' {
        7
    } else if c == '8' {
        8
    } else if c == '9' {
        9
    } else {
        0
    }
}

spec fn value_of(s: Seq<char>) -> int
    decreases s.len(),
{
    if s.len() == 0 {
        0
    } else {
        value_of(s.drop_last()) * 10 + digit_value(s.last())
    }
}

proof fn lemma_digit_value(d: int)
    requires
        0 <= d < 10,
    ensures
        digit_value(digit_char(d)) == d,
{
}

proof fn lemma_value_of_decimal(n: nat)
    ensures
        value_of(decimal(n)) == n,
    decreases n,
{
    if n >= 10 {
        lemma_value_of_decimal(n / 10);
        let d = decimal(n);
        assert(d.drop_last() =~= decimal(n / 10));
        assert(d.last() == digit_char((n % 10) as int));
        lemma_digit_value((n % 10) as int);
        assert(value_of(d) == value_of(d.drop_last()) * 10 + digit_value(d.last()));
        assert(n == (n / 10) * 10 + n % 10);
    } else {
        let d = decimal(n);
        assert(d.drop_last() =~= Seq::<char>::empty());
        assert(value_of(d.drop_last()) == 0);
        lemma_digit_value(n as int);
        assert(value_of(d) == value_of(d.drop_last()) * 10 + digit_value(d.last()));
    }
}

proof fn lemma_value_of_zeros(k: nat)
    ensures
        value_of(zeros(k)) == 0,
    decreases k,
{
    if k > 0 {
        lemma_value_of_zeros((k - 1) as nat);
        assert(zeros(k).drop_last() =~= zeros((k - 1) as nat));
    }
}

proof fn lemma_value_of_zero_prefix(k: nat, s: Seq<char>)
    ensures
        value_of(zeros(k) + s) == value_of(s),
    decreases s.len(),
{
    if s.len() == 0 {
        lemma_value_of_zeros(k);
        assert(zeros(k) + s =~= zeros(k));
    } else {
        lemma_value_of_zero_prefix(k, s.drop_last());
        assert((zeros(k) + s).drop_last() =~= zeros(k) + s.drop_last());
    }
}

proof fn lemma_value_of_padded(n: nat)
    ensures
        value_of(padded4(n)) == n,
{
    lemma_value_of_decimal(n);
    if decimal(n).len() < 4 {
        lemma_value_of_zero_prefix((4 - decimal(n).len()) as nat, decimal(n));
    }
}

/// Different run numbers give different names in a namespace.
pub proof fn law_run_names_distinct(namespace: Seq<char>, n: nat, m: nat)
    requires
        n != m,
    ensures
        run_name(namespace, n) != run_name(namespace, m),
{
    let p = "run-"@ + namespace + "-"@;
    if run_name(namespace, n) == run_name(namespace, m) {
        assert(run_name(namespace, n) == p + padded4(n));
        assert(run_name(namespace, m) == p + padded4(m));
        assert((p + padded4(n)).skip(p.len() as int) =~= padded4(n));
        assert((p + padded4(m)).skip(p.len() as int) =~= padded4(m));
        lemma_value_of_padded(n);
        lemma_value_of_padded(m);
    }
}

/// The name of run number `n` in a namespace.
pub fn run_name_text(namespace: &str, n: u64) -> (r: String)
    ensures
        r@ == run_name(namespace@, n as nat),
{
    let digits = decimal_chars(n as u128);
    let mut r = "run-".to_owned();
    r.append(namespace);
    r.append("-");
    let ghost prefix = r@;
    let mut k: usize = digits.len();
    while k < 4
        invariant
            digits.len() <= k <= 4 || (k == digits.len() && k >= 4),
            r@ == prefix + zeros((k - digits.len()) as nat),
        decreases 4 - k,
    {
        push_char(&mut r, '0');
        k += 1;
    }
    let tail = string_of(&digits);
    r.append(tail.as_str());
    proof {
        if digits.len() >= 4 {
            assert(zeros(0) =~= Seq::<char>::empty());
        }
    }
    r
}

proof fn lemma_counters_distinct(start: u64, i: nat, j: nat)
    requires
        i < j < 0x1_0000_0000_0000_0000,
    ensures
        counter_after(start, i) != counter_after(start, j),
{
}

/// The first run number from `start` on whose name no saved run has, and
/// the counter after it; `taken` are the names of the saved runs.
pub fn fresh_run_name(namespace: &str, start: u64, taken: &Vec<String>) -> (r: (String, u64))
    requires
        taken@.len() < u64::MAX,
    ensures
        exists|k: nat|
            #![trigger counter_after(start, k)]
            {
                &&& k <= taken@.len()
                &&& r.0@ == run_name(namespace@, counter_after(start, k) as nat)
                &&& r.1 == counter_after(start, k + 1)
                &&& forall|j: nat| j < k ==> string_views(taken@).contains(
                    run_name(namespace@, #[trigger] counter_after(start, j) as nat),
                )
            },
        !string_views(taken@).contains(r.0@),
{
    let ghost names = string_views(taken@);
    let count = taken.len();
    let mut next = start;
    let mut tried: usize = 0;
    loop
        invariant
            names == string_views(taken@),
            count == taken@.len(),
            taken@.len() < u64::MAX,
            tried <= taken@.len(),
            next == counter_after(start, tried as nat),
            forall|j: nat| j < tried ==> names.contains(run_name(namespace@, #[trigger] counter_after(start, j) as nat)),
        decreases taken@.len() - tried,
    {
        let id = run_name_text(namespace, next);
        let following = next.wrapping_add(1);
        proof {
            assert(following == counter_after(start, tried as nat + 1));
        }
        if !contains_name(taken, &id) {
            return (id, following);
        }
        proof {
            assert(names.contains(run_name(namespace@, counter_after(start, tried as nat) as nat)));
            lemma_all_tried_are_taken(namespace@, start, tried as nat, names);
            assert(names.len() == taken@.len());
        }
        next = following;
        tried += 1;
    }
}

/// Whether a name is among the names.
fn contains_name(names: &Vec<String>, name: &String) -> (r: bool)
    ensures
        r == string_views(names@).contains(name@),
{
    let mut i: usize = 0;
    while i < names.len()
        invariant
            i <= names@.len(),
            forall|k: int| 0 <= k < i ==> names@[k]@ != name@,
        decreases names.len() - i,
    {
        if crate::text::str_eq(names[i].as_str(), name.as_str()) {
            assert(string_views(names@)[i as int] == name@);
            return true;
        }
        i += 1;
    }
    proof {
        if string_views(names@).contains(name@) {
            let k = choose|k: int| 0 <= k < names@.len() && string_views(names@)[k] == name@;
            assert(names@[k]@ == name@);
        }
    }
    false
}

/// When the names of runs `start` to `start + tried` are all taken, more
/// names are taken than were tried.
proof fn lemma_all_tried_are_taken(namespace: Seq<char>, start: u64, tried: nat, names: Seq<Seq<char>>)
    requires
        tried + 1 < 0x1_0000_0000_0000_0000,
        forall|j: nat| j <= tried ==> names.contains(run_name(namespace, #[trigger] counter_after(start, j) as nat)),
    ensures
        tried + 1 <= names.len(),
{
    let tried_names = Seq::new((tried + 1) as nat, |j: int| run_name(namespace, counter_after(start, j as nat) as nat));
    assert forall|a: int, b: int| 0 <= a < b < tried_names.len() implies tried_names[a] != tried_names[b] by {
        lemma_counters_distinct(start, a as nat, b as nat);
        law_run_names_distinct(namespace, counter_after(start, a as nat) as nat, counter_after(start, b as nat) as nat);
    }
    assert(tried_names.no_duplicates());
    tried_names.unique_seq_to_set();
    names.lemma_cardinality_of_set();
    assert forall|x: Seq<char>| tried_names.to_set().contains(x) implies names.to_set().contains(x) by {
        let a = choose|a: int| 0 <= a < tried_names.len() && tried_names[a] == x;
        assert(names.contains(run_name(namespace, counter_after(start, a as nat) as nat)));
    }
    vstd::set_lib::lemma_len_subset(tried_names.to_set(), names.to_set());
}

} // verus!
