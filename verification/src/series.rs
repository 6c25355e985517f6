//! The metric series of the telemetry views: events grouped by series, the
//! series ordered by category, name, scope and source (first seen first
//! among equals), and each series' events ordered by time and sequence
//! number (first seen first among equals).
use vstd::prelude::*;
use crate::folder::{lemma_lex_le_order, lex_le, lex_le_exec};
use crate::metrics::{copy_key, series_equal, MetricScope, MetricUnit, SeriesKey};
use crate::navigation::{first_from, key_view};
use crate::text::chars_of;

verus! {

broadcast use vstd::seq_lib::group_to_multiset_ensures;

/// What the telemetry views read of a metric event: its series and when it
/// was taken.
pub struct EventStamp {
    pub key: SeriesKey,
    pub timestamp_ms: u64,
    pub sequence: u64,
}

/// A series: its key and the positions of its events, oldest first.
pub struct SeriesGroup {
    pub key: SeriesKey,
    pub members: Vec<usize>,
}

/// The name of a scope as it is spelled.
pub open spec fn scope_name(s: MetricScope) -> Seq<char> {
    match s {
        MetricScope::Run => "Run"@,
        MetricScope::Process => "Process"@,
        MetricScope::System => "System"@,
        MetricScope::Device => "Device"@,
    }
}

/// The order of series: by category, then name, then scope, then source.
pub open spec fn series_le(
    a: (Seq<char>, Seq<char>, MetricScope, Seq<char>, MetricUnit),
    b: (Seq<char>, Seq<char>, MetricScope, Seq<char>, MetricUnit),
) -> bool {
    if a.1 != b.1 {
        lex_le(a.1, b.1)
    } else if a.0 != b.0 {
        lex_le(a.0, b.0)
    } else if a.2 != b.2 {
        lex_le(scope_name(a.2), scope_name(b.2))
    } else {
        lex_le(a.3, b.3)
    }
}

/// The series keys of the events, in order.
pub open spec fn event_keys(events: Seq<EventStamp>) -> Seq<(Seq<char>, Seq<char>, MetricScope, Seq<char>, MetricUnit)> {
    events.map_values(|e: EventStamp| key_view(e.key))
}

/// Where a series is first seen among the events.
pub open spec fn first_seen(
    events: Seq<EventStamp>,
    k: (Seq<char>, Seq<char>, MetricScope, Seq<char>, MetricUnit),
) -> int {
    match first_from(event_keys(events), k, 0) {
        Some(i) => i,
        None => events.len() as int,
    }
}

/// Whether series `a` comes before series `b`: earlier in the series order,
/// or equal there and seen first.
pub open spec fn series_before(
    events: Seq<EventStamp>,
    a: (Seq<char>, Seq<char>, MetricScope, Seq<char>, MetricUnit),
    b: (Seq<char>, Seq<char>, MetricScope, Seq<char>, MetricUnit),
) -> bool {
    if series_le(a, b) && series_le(b, a) {
        first_seen(events, a) < first_seen(events, b)
    } else {
        series_le(a, b)
    }
}

/// Whether event `a` comes before event `b` in a series: earlier in time,
/// then in sequence number, then seen first.
pub open spec fn event_before(events: Seq<EventStamp>, a: int, b: int) -> bool {
    let (x, y) = (events[a], events[b]);
    x.timestamp_ms < y.timestamp_ms || (x.timestamp_ms == y.timestamp_ms && (x.sequence < y.sequence
        || (x.sequence == y.sequence && a < b)))
}

/// Whether the groups are the series of the events: each group holds
/// exactly the events of its series, in event order; every event is in a
/// group; and the groups follow the series order.
pub open spec fn grouped(events: Seq<EventStamp>, groups: Seq<SeriesGroup>) -> bool {
    &&& forall|g: int|
        #![trigger groups[g]]
        0 <= g < groups.len() ==> {
            let m = groups[g].members@;
            &&& m.len() > 0
            &&& forall|p: int| 0 <= p < m.len() ==> 0 <= #[trigger] m[p] < events.len()
                && key_view(events[m[p] as int].key) == key_view(groups[g].key)
            &&& forall|p: int, q: int| 0 <= p < q < m.len() ==> event_before(events, #[trigger] m[p] as int, #[trigger] m[q] as int)
            &&& forall|i: int| 0 <= i < events.len() && key_view(#[trigger] events[i].key) == key_view(groups[g].key)
                ==> m.contains(i as usize)
        }
    &&& forall|i: int|
        #![trigger events[i]]
        0 <= i < events.len() ==> exists|g: int|
            0 <= g < groups.len() && key_view(#[trigger] groups[g].key) == key_view(events[i].key)
    &&& forall|g: int, h: int|
        0 <= g < h < groups.len() ==> series_before(events, key_view(#[trigger] groups[g].key), key_view(#[trigger] groups[h].key))
}

/// Whether each of the first `n` events has its series among the keys.
pub open spec fn covers(events: Seq<EventStamp>, keys: Seq<SeriesKey>, n: int) -> bool {
    forall|k: int|
        #![trigger events[k]]
        0 <= k < n ==> exists|g: int| 0 <= g < keys.len() && key_view(#[trigger] keys[g]) == key_view(events[k].key)
}

/// The position of the series of `k` among the keys.
fn find_series(keys: &Vec<SeriesKey>, k: &SeriesKey) -> (r: Option<usize>)
    ensures
        match r {
            Some(j) => j < keys@.len() && key_view(keys@[j as int]) == key_view(*k),
            None => forall|g: int| 0 <= g < keys@.len() ==> key_view(#[trigger] keys@[g]) != key_view(*k),
        },
{
    let mut j: usize = 0;
    while j < keys.len()
        invariant
            j <= keys@.len(),
            forall|g: int| 0 <= g < j ==> key_view(#[trigger] keys@[g]) != key_view(*k),
        decreases keys.len() - j,
    {
        if series_equal(&keys[j], k) {
            return Some(j);
        }
        j += 1;
    }
    None
}

/// The events of each series, in the order the series are first seen,
/// each series' events in the order they come.
fn collect_series(events: &Vec<EventStamp>) -> (r: (Vec<SeriesKey>, Vec<Vec<usize>>))
    ensures
        r.0@.len() == r.1@.len(),
        forall|g: int| 0 <= g < r.1@.len() ==> (#[trigger] r.1@[g])@.len() > 0,
        forall|g: int, p: int|
            0 <= g < r.1@.len() && 0 <= p < r.1@[g]@.len() ==> {
                &&& (#[trigger] r.1@[g]@[p]) < events@.len()
                &&& key_view(events@[r.1@[g]@[p] as int].key) == key_view(r.0@[g])
            },
        forall|g: int, p: int, q: int|
            0 <= g < r.1@.len() && 0 <= p < q < r.1@[g]@.len() ==> #[trigger] r.1@[g]@[p] < #[trigger] r.1@[g]@[q],
        forall|k: int, g: int|
            0 <= k < events@.len() && 0 <= g < r.0@.len() && key_view(#[trigger] events@[k].key) == key_view(
                #[trigger] r.0@[g],
            ) ==> r.1@[g]@.contains(k as usize),
        covers(events@, r.0@, events@.len() as int),
        forall|g: int, h: int| 0 <= g < h < r.0@.len() ==> key_view(#[trigger] r.0@[g]) != key_view(#[trigger] r.0@[h]),
{
    let mut keys: Vec<SeriesKey> = Vec::new();
    let mut members: Vec<Vec<usize>> = Vec::new();
    let mut i: usize = 0;
    while i < events.len()
        invariant
            i <= events@.len(),
            keys@.len() == members@.len(),
            forall|g: int| 0 <= g < members@.len() ==> (#[trigger] members@[g])@.len() > 0,
            forall|g: int, p: int|
                0 <= g < members@.len() && 0 <= p < members@[g]@.len() ==> {
                    &&& (#[trigger] members@[g]@[p]) < i
                    &&& key_view(events@[members@[g]@[p] as int].key) == key_view(keys@[g])
                },
            forall|g: int, p: int, q: int|
                0 <= g < members@.len() && 0 <= p < q < members@[g]@.len() ==> #[trigger] members@[g]@[p]
                    < #[trigger] members@[g]@[q],
            forall|k: int, g: int|
                0 <= k < i && 0 <= g < keys@.len() && key_view(#[trigger] events@[k].key) == key_view(
                    #[trigger] keys@[g],
                ) ==> members@[g]@.contains(k as usize),
            covers(events@, keys@, i as int),
            forall|g: int, h: int| 0 <= g < h < keys@.len() ==> key_view(#[trigger] keys@[g]) != key_view(#[trigger] keys@[h]),
        decreases events.len() - i,
    {
        let ghost k0 = keys@;
        let ghost m0 = members@;
        match find_series(&keys, &events[i].key) {
            Some(j) => {
                let mut m: Vec<usize> = Vec::new();
                members.set_and_swap(j, &mut m);
                let ghost old_m = m@;
                m.push(i);
                members.set(j, m);
                proof {
                    assert(members@[j as int]@ == old_m.push(i));
                    assert forall|k: int, g: int|
                        0 <= k < i + 1 && 0 <= g < keys@.len() && key_view(#[trigger] events@[k].key)
                            == key_view(#[trigger] keys@[g]) implies members@[g]@.contains(k as usize) by {
                        if k < i {
                            assert(m0[g]@.contains(k as usize));
                            if g == j {
                                let p = choose|p: int| 0 <= p < old_m.len() && old_m[p] == k as usize;
                                assert(members@[g]@[p] == k as usize);
                            } else {
                                assert(members@[g] == m0[g]);
                            }
                        } else {
                            if g != j {
                                assert(key_view(keys@[g]) == key_view(keys@[j as int]));
                                assert(false);
                            }
                            assert(members@[g]@[old_m.len() as int] == k as usize);
                        }
                    }
                    assert forall|k: int|
                        #![trigger events@[k]]
                        0 <= k < i + 1 implies exists|g: int|
                            0 <= g < keys@.len() && key_view(#[trigger] keys@[g]) == key_view(events@[k].key) by {
                        if k == i {
                            assert(key_view(keys@[j as int]) == key_view(events@[k].key));
                        } else {
                            assert(covers(events@, keys@, i as int));
                        }
                    }
                }
            },
            None => {
                keys.push(copy_key(&events[i].key));
                let mut m: Vec<usize> = Vec::new();
                m.push(i);
                members.push(m);
                proof {
                    let n = k0.len() as int;
                    assert(key_view(keys@[n]) == key_view(events@[i as int].key));
                    assert forall|k: int, g: int|
                        0 <= k < i + 1 && 0 <= g < keys@.len() && key_view(#[trigger] events@[k].key)
                            == key_view(#[trigger] keys@[g]) implies members@[g]@.contains(k as usize) by {
                        if g < n {
                            assert(keys@[g] == k0[g]);
                            assert(members@[g] == m0[g]);
                            if k == i {
                                assert(key_view(k0[g]) != key_view(events@[i as int].key));
                            }
                        } else {
                            if k < i {
                                let g2 = choose|g2: int|
                                    0 <= g2 < k0.len() && key_view(#[trigger] k0[g2]) == key_view(events@[k].key);
                                assert(key_view(k0[g2]) != key_view(events@[i as int].key));
                            }
                            assert(members@[g]@[0] == k as usize);
                        }
                    }
                    assert forall|k: int|
                        #![trigger events@[k]]
                        0 <= k < i + 1 implies exists|g: int|
                            0 <= g < keys@.len() && key_view(#[trigger] keys@[g]) == key_view(events@[k].key) by {
                        if k == i {
                            assert(key_view(keys@[n]) == key_view(events@[k].key));
                        } else {
                            let g2 = choose|g2: int|
                                0 <= g2 < k0.len() && key_view(#[trigger] k0[g2]) == key_view(events@[k].key);
                            assert(keys@[g2] == k0[g2]);
                        }
                    }
                }
            },
        }
        i += 1;
    }
    assert(i == events@.len());
    (keys, members)
}

proof fn lemma_series_le_order(
    a: (Seq<char>, Seq<char>, MetricScope, Seq<char>, MetricUnit),
    b: (Seq<char>, Seq<char>, MetricScope, Seq<char>, MetricUnit),
    c: (Seq<char>, Seq<char>, MetricScope, Seq<char>, MetricUnit),
)
    ensures
        series_le(a, b) || series_le(b, a),
        series_le(a, b) && series_le(b, c) ==> series_le(a, c),
{
    lemma_lex_le_order(a.1, b.1, c.1);
    lemma_lex_le_order(b.1, a.1, c.1);
    lemma_lex_le_order(a.1, c.1, b.1);
    lemma_lex_le_order(a.0, b.0, c.0);
    lemma_lex_le_order(b.0, a.0, c.0);
    lemma_lex_le_order(a.0, c.0, b.0);
    lemma_lex_le_order(scope_name(a.2), scope_name(b.2), scope_name(c.2));
    lemma_lex_le_order(scope_name(b.2), scope_name(a.2), scope_name(c.2));
    lemma_lex_le_order(scope_name(a.2), scope_name(c.2), scope_name(b.2));
    lemma_lex_le_order(a.3, b.3, c.3);
    lemma_lex_le_order(b.3, a.3, c.3);
    lemma_lex_le_order(a.3, c.3, b.3);
    lemma_scope_names_distinct(a.2, b.2);
    lemma_scope_names_distinct(b.2, c.2);
    lemma_scope_names_distinct(a.2, c.2);
}

proof fn lemma_scope_names_distinct(x: MetricScope, y: MetricScope)
    ensures
        x != y ==> scope_name(x) != scope_name(y),
{
    reveal_strlit("Run");
    reveal_strlit("Process");
    reveal_strlit("System");
    reveal_strlit("Device");
    if x != y {
        assert(scope_name(x).len() != scope_name(y).len() || scope_name(x)[0] != scope_name(y)[0]);
    }
}

/// The scope's name as it is spelled.
fn scope_text(s: MetricScope) -> (r: &'static str)
    ensures
        r@ == scope_name(s),
{
    match s {
        MetricScope::Run => "Run",
        MetricScope::Process => "Process",
        MetricScope::System => "System",
        MetricScope::Device => "Device",
    }
}

fn text_le(a: &str, b: &str) -> (r: bool)
    ensures
        r == lex_le(a@, b@),
{
    let x = chars_of(a);
    let y = chars_of(b);
    lex_le_exec(&x, &y)
}

fn series_le_exec(a: &SeriesKey, b: &SeriesKey) -> (r: bool)
    ensures
        r == series_le(key_view(*a), key_view(*b)),
{
    if !crate::text::str_eq(a.category.as_str(), b.category.as_str()) {
        text_le(a.category.as_str(), b.category.as_str())
    } else if !crate::text::str_eq(a.name.as_str(), b.name.as_str()) {
        text_le(a.name.as_str(), b.name.as_str())
    } else if a.scope != b.scope {
        text_le(scope_text(a.scope), scope_text(b.scope))
    } else {
        text_le(a.source.as_str(), b.source.as_str())
    }
}

/// Whether a group comes before another by the order of their series,
/// then by their first events.
pub open spec fn group_before(a: SeriesGroup, b: SeriesGroup) -> bool {
    if series_le(key_view(a.key), key_view(b.key)) && series_le(key_view(b.key), key_view(a.key)) {
        a.members@[0] < b.members@[0]
    } else {
        series_le(key_view(a.key), key_view(b.key))
    }
}

fn group_before_exec(a: &SeriesGroup, b: &SeriesGroup) -> (r: bool)
    requires
        a.members@.len() > 0,
        b.members@.len() > 0,
    ensures
        r == group_before(*a, *b),
{
    let ab = series_le_exec(&a.key, &b.key);
    let ba = series_le_exec(&b.key, &a.key);
    if ab && ba {
        a.members[0] < b.members[0]
    } else {
        ab
    }
}

proof fn lemma_group_before_order(a: SeriesGroup, b: SeriesGroup, c: SeriesGroup)
    requires
        a.members@.len() > 0,
        b.members@.len() > 0,
        c.members@.len() > 0,
    ensures
        a.members@[0] != b.members@[0] ==> group_before(a, b) || group_before(b, a),
        group_before(a, b) && group_before(b, c) ==> group_before(a, c),
{
    let (x, y, z) = (key_view(a.key), key_view(b.key), key_view(c.key));
    lemma_series_le_order(x, y, z);
    lemma_series_le_order(y, x, z);
    lemma_series_le_order(x, z, y);
    lemma_series_le_order(y, z, x);
    lemma_series_le_order(z, x, y);
    lemma_series_le_order(z, y, x);
}

/// The groups sorted by `group_before`.
fn sort_groups(items: Vec<SeriesGroup>) -> (r: Vec<SeriesGroup>)
    requires
        forall|g: int| 0 <= g < items@.len() ==> (#[trigger] items@[g]).members@.len() > 0,
        forall|g: int, h: int|
            0 <= g < h < items@.len() ==> (#[trigger] items@[g]).members@[0] != (#[trigger] items@[h]).members@[0],
    ensures
        r@.to_multiset() == items@.to_multiset(),
        forall|i: int, j: int| 0 <= i < j < r@.len() ==> group_before(#[trigger] r@[i], #[trigger] r@[j]),
{
    let mut rest = items;
    let mut out: Vec<SeriesGroup> = Vec::new();
    while rest.len() > 0
        invariant
            forall|i: int, j: int| 0 <= i < j < out@.len() ==> group_before(#[trigger] out@[i], #[trigger] out@[j]),
            out@.to_multiset().add(rest@.to_multiset()) == items@.to_multiset(),
            forall|g: int| 0 <= g < items@.len() ==> (#[trigger] items@[g]).members@.len() > 0,
            forall|g: int, h: int|
                0 <= g < h < items@.len() ==> (#[trigger] items@[g]).members@[0] != (#[trigger] items@[h]).members@[0],
        decreases rest.len(),
    {
        let ghost r0 = rest@;
        proof {
            lemma_from_items(items@, out@, rest@);
        }
        let x = rest.remove(0);
        let mut pos: usize = out.len();
        while pos > 0 && !group_before_exec(&out[pos - 1], &x)
            invariant
                pos <= out.len(),
                forall|i: int, j: int| 0 <= i < j < out@.len() ==> group_before(#[trigger] out@[i], #[trigger] out@[j]),
                forall|k: int| 0 <= k < out@.len() ==> (#[trigger] out@[k]).members@.len() > 0,
                x.members@.len() > 0,
                forall|k: int| pos <= k < out.len() ==> !group_before(#[trigger] out@[k], x),
            decreases pos,
        {
            pos -= 1;
        }
        let ghost o0 = out@;
        proof {
            assert forall|k: int| 0 <= k < pos implies group_before(#[trigger] o0[k], x) by {
                lemma_group_before_order(o0[k], o0[pos - 1], x);
            }
            assert forall|k: int| pos <= k < o0.len() implies group_before(x, #[trigger] o0[k]) by {
                lemma_group_before_order(x, o0[k], x);
            }
        }
        out.insert(pos, x);
        proof {
            let o1 = out@;
            assert(o1.remove(pos as int) == o0);
            assert(o1[pos as int] == x);
            assert(o1.to_multiset() =~= o0.to_multiset().insert(x)) by {
                assert(o0.to_multiset() =~= o1.to_multiset().remove(x));
            }
            assert(r0.to_multiset() =~= rest@.to_multiset().insert(x)) by {
                assert(r0.remove(0) == rest@);
            }
            assert forall|i: int, j: int| 0 <= i < j < o1.len() implies group_before(
                #[trigger] o1[i],
                #[trigger] o1[j],
            ) by {
                if j < pos {
                    assert(o1[i] == o0[i] && o1[j] == o0[j]);
                } else if j == pos {
                    assert(o1[i] == o0[i]);
                } else if i == pos {
                    assert(o1[j] == o0[j - 1]);
                } else if i < pos {
                    assert(o1[i] == o0[i] && o1[j] == o0[j - 1]);
                } else {
                    assert(o1[i] == o0[i - 1] && o1[j] == o0[j - 1]);
                }
            }
            assert(out@.to_multiset().add(rest@.to_multiset()) =~= items@.to_multiset());
        }
    }
    proof {
        assert(rest@ =~= Seq::<SeriesGroup>::empty());
        assert(out@.to_multiset().add(rest@.to_multiset()) =~= out@.to_multiset());
    }
    out
}

/// The groups still to sort and those sorted are groups of the input,
/// with distinct first members.
proof fn lemma_from_items(items: Seq<SeriesGroup>, out: Seq<SeriesGroup>, rest: Seq<SeriesGroup>)
    requires
        out.to_multiset().add(rest.to_multiset()) == items.to_multiset(),
        forall|g: int| 0 <= g < items.len() ==> (#[trigger] items[g]).members@.len() > 0,
        forall|g: int, h: int|
            0 <= g < h < items.len() ==> (#[trigger] items[g]).members@[0] != (#[trigger] items[h]).members@[0],
    ensures
        forall|k: int| 0 <= k < out.len() ==> items.contains(#[trigger] out[k]),
        forall|k: int| 0 <= k < rest.len() ==> items.contains(#[trigger] rest[k]),
        forall|k: int| 0 <= k < out.len() ==> (#[trigger] out[k]).members@.len() > 0,
        forall|k: int| 0 <= k < rest.len() ==> (#[trigger] rest[k]).members@.len() > 0,
        forall|k: int| 0 <= k < out.len() && rest.len() > 0 ==> (#[trigger] out[k]).members@[0] != rest[0].members@[0],
{
    assert forall|k: int| 0 <= k < out.len() implies items.contains(#[trigger] out[k]) by {
        assert(out.to_multiset().count(out[k]) > 0);
        assert(items.to_multiset().count(out[k]) > 0);
    }
    assert forall|k: int| 0 <= k < rest.len() implies items.contains(#[trigger] rest[k]) by {
        assert(rest.to_multiset().count(rest[k]) > 0);
        assert(items.to_multiset().count(rest[k]) > 0);
    }
    assert forall|k: int| 0 <= k < out.len() && rest.len() > 0 implies (#[trigger] out[k]).members@[0] != rest[0].members@[0] by {
        let x = out[k];
        let y = rest[0];
        let gi = choose|g: int| 0 <= g < items.len() && items[g] == x;
        let hi = choose|g: int| 0 <= g < items.len() && items[g] == y;
        if gi == hi {
            assert(x == y);
            assert(out.to_multiset().count(x) >= 1);
            assert(rest.to_multiset().count(x) >= 1);
            assert(items.to_multiset().count(x) >= 2);
            lemma_count_two(items, x);
        }
    }
}

/// A value that occurs twice in a sequence sits at two positions.
proof fn lemma_count_two<T>(s: Seq<T>, x: T)
    requires
        s.to_multiset().count(x) >= 2,
    ensures
        exists|i: int, j: int| 0 <= i < j < s.len() && s[i] == x && s[j] == x,
    decreases s.len(),
{
    if s.len() == 0 {
        assert(s.to_multiset() =~= vstd::multiset::Multiset::empty());
    } else {
        let t = s.drop_last();
        assert(s == t.push(s.last()));
        if s.last() == x {
            assert(t.to_multiset().count(x) >= 1);
            let i = choose|i: int| 0 <= i < t.len() && t[i] == x;
            assert(s[i] == x && s[s.len() - 1] == x);
        } else {
            assert(t.to_multiset().count(x) >= 2);
            lemma_count_two(t, x);
            let (i, j) = choose|i: int, j: int| 0 <= i < j < t.len() && t[i] == x && t[j] == x;
            assert(s[i] == x && s[j] == x);
        }
    }
}

fn event_before_exec(events: &Vec<EventStamp>, a: usize, b: usize) -> (r: bool)
    requires
        a < events@.len(),
        b < events@.len(),
    ensures
        r == event_before(events@, a as int, b as int),
{
    let x = &events[a];
    let y = &events[b];
    x.timestamp_ms < y.timestamp_ms || (x.timestamp_ms == y.timestamp_ms && (x.sequence < y.sequence
        || (x.sequence == y.sequence && a < b)))
}

/// The positions sorted by `event_before`.
fn sort_members(events: &Vec<EventStamp>, items: Vec<usize>) -> (r: Vec<usize>)
    requires
        forall|k: int| 0 <= k < items@.len() ==> #[trigger] items@[k] < events@.len(),
    ensures
        r@.to_multiset() == items@.to_multiset(),
        forall|i: int, j: int| 0 <= i < j < r@.len() ==> r@[i] != r@[j] ==> event_before(
            events@,
            #[trigger] r@[i] as int,
            #[trigger] r@[j] as int,
        ),
        forall|i: int, j: int| 0 <= i < j < r@.len() ==> r@[i] == r@[j] || event_before(
            events@,
            #[trigger] r@[i] as int,
            #[trigger] r@[j] as int,
        ),
{
    let mut rest = items;
    let mut out: Vec<usize> = Vec::new();
    while rest.len() > 0
        invariant
            forall|i: int, j: int| 0 <= i < j < out@.len() ==> out@[i] == out@[j] || event_before(
                events@,
                #[trigger] out@[i] as int,
                #[trigger] out@[j] as int,
            ),
            forall|k: int| 0 <= k < out@.len() ==> #[trigger] out@[k] < events@.len(),
            forall|k: int| 0 <= k < rest@.len() ==> #[trigger] rest@[k] < events@.len(),
            out@.to_multiset().add(rest@.to_multiset()) == items@.to_multiset(),
        decreases rest.len(),
    {
        let ghost r0 = rest@;
        let x = rest.remove(0);
        let mut pos: usize = out.len();
        while pos > 0 && out[pos - 1] != x && !event_before_exec(events, out[pos - 1], x)
            invariant
                pos <= out.len(),
                x < events@.len(),
                forall|k: int| 0 <= k < out@.len() ==> #[trigger] out@[k] < events@.len(),
                forall|i: int, j: int| 0 <= i < j < out@.len() ==> out@[i] == out@[j] || event_before(
                    events@,
                    #[trigger] out@[i] as int,
                    #[trigger] out@[j] as int,
                ),
                forall|k: int| pos <= k < out.len() ==> out@[k] != x && !event_before(events@, #[trigger] out@[k] as int, x as int),
            decreases pos,
        {
            pos -= 1;
        }
        let ghost o0 = out@;
        out.insert(pos, x);
        proof {
            let o1 = out@;
            assert(o1.remove(pos as int) == o0);
            assert(o1[pos as int] == x);
            assert(o1.to_multiset() =~= o0.to_multiset().insert(x)) by {
                assert(o0.to_multiset() =~= o1.to_multiset().remove(x));
            }
            assert(r0.to_multiset() =~= rest@.to_multiset().insert(x)) by {
                assert(r0.remove(0) == rest@);
            }
            assert forall|i: int, j: int| 0 <= i < j < o1.len() implies o1[i] == o1[j] || event_before(
                events@,
                #[trigger] o1[i] as int,
                #[trigger] o1[j] as int,
            ) by {
                if j < pos {
                    assert(o1[i] == o0[i] && o1[j] == o0[j]);
                } else if j == pos {
                    assert(o1[i] == o0[i]);
                    if pos > 0 && i < pos - 1 {
                        assert(o0[i] == o0[pos - 1] || event_before(events@, o0[i] as int, o0[pos - 1] as int));
                    }
                } else if i == pos {
                    assert(o1[j] == o0[j - 1]);
                } else if i < pos {
                    assert(o1[i] == o0[i] && o1[j] == o0[j - 1]);
                } else {
                    assert(o1[i] == o0[i - 1] && o1[j] == o0[j - 1]);
                }
            }
            assert(out@.to_multiset().add(rest@.to_multiset()) =~= items@.to_multiset());
        }
    }
    proof {
        assert(rest@ =~= Seq::<usize>::empty());
        assert(out@.to_multiset().add(rest@.to_multiset()) =~= out@.to_multiset());
    }
    out
}

/// A group as collected: its events in the order they come, and all events
/// of its series.
pub open spec fn collected_group(events: Seq<EventStamp>, g: SeriesGroup) -> bool {
    let m = g.members@;
    &&& m.len() > 0
    &&& forall|p: int| 0 <= p < m.len() ==> #[trigger] m[p] < events.len() && key_view(events[m[p] as int].key)
        == key_view(g.key)
    &&& forall|p: int, q: int| 0 <= p < q < m.len() ==> #[trigger] m[p] < #[trigger] m[q]
    &&& forall|i: int| 0 <= i < events.len() && key_view(#[trigger] events[i].key) == key_view(g.key) ==> m.contains(
        i as usize,
    )
}

/// A collected group's first event is where its series is first seen.
proof fn lemma_first_member_first_seen(events: Seq<EventStamp>, g: SeriesGroup)
    requires
        collected_group(events, g),
    ensures
        first_seen(events, key_view(g.key)) == g.members@[0] as int,
{
    let ks = event_keys(events);
    let m = g.members@;
    let j = m[0] as int;
    assert(ks[j] == key_view(g.key));
    assert forall|k: int| 0 <= k < j implies ks[k] != key_view(g.key) by {
        if ks[k] == key_view(g.key) {
            assert(key_view(events[k].key) == key_view(g.key));
            assert(m.contains(k as usize));
            let p = choose|p: int| 0 <= p < m.len() && m[p] == k as usize;
            if p > 0 {
                assert(m[0] < m[p]);
            }
        }
    }
    lemma_first_from_at_index(ks, key_view(g.key), 0, j);
}

proof fn lemma_first_from_at_index<T>(s: Seq<T>, x: T, i: int, j: int)
    requires
        0 <= i <= j < s.len(),
        s[j] == x,
        forall|k: int| i <= k < j ==> s[k] != x,
    ensures
        first_from(s, x, i) == Some(j),
    decreases j - i,
{
    if i < j {
        lemma_first_from_at_index(s, x, i + 1, j);
    }
}


/// Whether each event has its series among the groups.
pub open spec fn groups_cover(events: Seq<EventStamp>, groups: Seq<SeriesGroup>) -> bool {
    forall|i: int|
        #![trigger events[i]]
        0 <= i < events.len() ==> exists|g: int|
            0 <= g < groups.len() && key_view(#[trigger] groups[g].key) == key_view(events[i].key)
}

/// The groups of the series in the order they are first seen.
fn collected_groups(events: &Vec<EventStamp>) -> (raw: Vec<SeriesGroup>)
    ensures
        forall|g: int| 0 <= g < raw@.len() ==> collected_group(events@, #[trigger] raw@[g]),
        forall|g: int, h: int|
            0 <= g < h < raw@.len() ==> (#[trigger] raw@[g]).members@[0] != (#[trigger] raw@[h]).members@[0],
        groups_cover(events@, raw@),
{
    let (mut keys, mut members) = collect_series(events);
    let ghost k0 = keys@;
    let ghost m0 = members@;
    let mut raw: Vec<SeriesGroup> = Vec::new();
    while keys.len() > 0
        invariant
            k0.len() == m0.len(),
            keys@.len() == members@.len(),
            raw@.len() + keys@.len() == k0.len(),
            keys@ == k0.skip(raw@.len() as int),
            members@ == m0.skip(raw@.len() as int),
            forall|g: int| 0 <= g < raw@.len() ==> (#[trigger] raw@[g]).key == k0[g] && raw@[g].members == m0[g],
        decreases keys.len(),
    {
        let ghost n = raw@.len();
        let key = keys.remove(0);
        let m = members.remove(0);
        raw.push(SeriesGroup { key, members: m });
        proof {
            assert(keys@ =~= k0.skip(n as int + 1));
            assert(members@ =~= m0.skip(n as int + 1));
        }
    }
    proof {
        assert forall|g: int| 0 <= g < raw@.len() implies collected_group(events@, #[trigger] raw@[g]) by {
            assert(raw@[g].key == k0[g] && raw@[g].members == m0[g]);
        }
        assert forall|g: int, h: int| 0 <= g < h < raw@.len() implies (#[trigger] raw@[g]).members@[0]
            != (#[trigger] raw@[h]).members@[0] by {
            assert(raw@[g].key == k0[g] && raw@[g].members == m0[g]);
            assert(raw@[h].key == k0[h] && raw@[h].members == m0[h]);
            if raw@[g].members@[0] == raw@[h].members@[0] {
                let x = raw@[g].members@[0];
                assert(key_view(events@[x as int].key) == key_view(k0[g]));
                assert(key_view(events@[x as int].key) == key_view(k0[h]));
            }
        }
        assert forall|i: int|
            #![trigger events@[i]]
            0 <= i < events@.len() implies exists|g: int|
                0 <= g < raw@.len() && key_view(#[trigger] raw@[g].key) == key_view(events@[i].key) by {
            assert(covers(events@, k0, events@.len() as int));
            let g0 = choose|g: int| 0 <= g < k0.len() && key_view(#[trigger] k0[g]) == key_view(events@[i].key);
            assert(raw@[g0].key == k0[g0]);
        }
    }
    raw
}

/// The groups in the series order.
fn ordered_groups(events: &Vec<EventStamp>) -> (sorted: Vec<SeriesGroup>)
    ensures
        forall|g: int| 0 <= g < sorted@.len() ==> collected_group(events@, #[trigger] sorted@[g]),
        groups_cover(events@, sorted@),
        forall|g: int, h: int|
            0 <= g < h < sorted@.len() ==> series_before(
                events@,
                key_view((#[trigger] sorted@[g]).key),
                key_view((#[trigger] sorted@[h]).key),
            ),
{
    let raw = collected_groups(events);
    let ghost raw0 = raw@;
    let sorted = sort_groups(raw);
    proof {
        assert forall|g: int| 0 <= g < sorted@.len() implies collected_group(events@, #[trigger] sorted@[g]) by {
            assert(sorted@.to_multiset().count(sorted@[g]) > 0);
            assert(raw0.to_multiset().count(sorted@[g]) > 0);
        }
        assert forall|g: int, h: int| 0 <= g < h < sorted@.len() implies series_before(
            events@,
            key_view((#[trigger] sorted@[g]).key),
            key_view((#[trigger] sorted@[h]).key),
        ) by {
            lemma_first_member_first_seen(events@, sorted@[g]);
            lemma_first_member_first_seen(events@, sorted@[h]);
        }
        assert forall|i: int|
            #![trigger events@[i]]
            0 <= i < events@.len() implies exists|g: int|
                0 <= g < sorted@.len() && key_view(#[trigger] sorted@[g].key) == key_view(events@[i].key) by {
            let g0 = choose|g: int| 0 <= g < raw0.len() && key_view(#[trigger] raw0[g].key) == key_view(events@[i].key);
            assert(raw0.to_multiset().count(raw0[g0]) > 0);
            assert(sorted@.to_multiset().count(raw0[g0]) > 0);
            let g1 = choose|g: int| 0 <= g < sorted@.len() && sorted@[g] == raw0[g0];
            assert(key_view(sorted@[g1].key) == key_view(events@[i].key));
        }
    }
    sorted
}

/// A finished group: its events are those of its series, in event order.
pub open spec fn finished_group(events: Seq<EventStamp>, g: SeriesGroup) -> bool {
    let m = g.members@;
    &&& m.len() > 0
    &&& forall|p: int| 0 <= p < m.len() ==> 0 <= #[trigger] m[p] < events.len() && key_view(events[m[p] as int].key)
        == key_view(g.key)
    &&& forall|p: int, q: int| 0 <= p < q < m.len() ==> event_before(events, #[trigger] m[p] as int, #[trigger] m[q] as int)
    &&& forall|i: int| 0 <= i < events.len() && key_view(#[trigger] events[i].key) == key_view(g.key) ==> m.contains(
        i as usize,
    )
}

/// A collected group with its events put in event order.
fn finish_group(events: &Vec<EventStamp>, g: SeriesGroup) -> (r: SeriesGroup)
    requires
        collected_group(events@, g),
    ensures
        key_view(r.key) == key_view(g.key),
        finished_group(events@, r),
{
    let ghost m0 = g.members@;
    proof {
        assert forall|p: int, q: int| 0 <= p < m0.len() && 0 <= q < m0.len() && p != q implies m0[p] != m0[q] by {
            if p < q {
                assert(m0[p] < m0[q]);
            } else {
                assert(m0[q] < m0[p]);
            }
        }
        assert(m0.no_duplicates());
        m0.lemma_multiset_has_no_duplicates();
    }
    let members = sort_members(events, g.members);
    let r = SeriesGroup { key: g.key, members };
    proof {
        let m = r.members@;
        assert forall|x: usize| m.to_multiset().contains(x) implies m.to_multiset().count(x) == 1 by {
            assert(m0.to_multiset().contains(x));
        }
        m.lemma_multiset_has_no_duplicates_conv();
        assert(m.len() == m0.len()) by {
            assert(m.to_multiset().len() == m0.to_multiset().len());
        }
        assert forall|p: int, q: int| 0 <= p < q < m.len() implies event_before(
            events@,
            #[trigger] m[p] as int,
            #[trigger] m[q] as int,
        ) by {
            assert(m[p] != m[q]);
        }
        assert forall|p: int| 0 <= p < m.len() implies 0 <= #[trigger] m[p] < events@.len() && key_view(
            events@[m[p] as int].key,
        ) == key_view(r.key) by {
            assert(m.to_multiset().count(m[p]) > 0);
            assert(m0.to_multiset().count(m[p]) > 0);
            let q = choose|q: int| 0 <= q < m0.len() && m0[q] == m[p];
            assert(m0[q] < events@.len());
        }
        assert forall|i: int| 0 <= i < events@.len() && key_view(#[trigger] events@[i].key) == key_view(r.key)
            implies m.contains(i as usize) by {
            assert(m0.contains(i as usize));
            assert(m0.to_multiset().count(i as usize) > 0);
            assert(m.to_multiset().count(i as usize) > 0);
        }
    }
    r
}

/// The metric series of the events: grouped by series, the series in the
/// order of category, name, scope and source (first seen first among
/// equals), each series' events in the order of time and sequence number
/// (first seen first among equals).
pub fn group_series(events: &Vec<EventStamp>) -> (groups: Vec<SeriesGroup>)
    ensures
        grouped(events@, groups@),
{
    let sorted = ordered_groups(events);
    let ghost s0 = sorted@;
    let mut rest = sorted;
    let mut out: Vec<SeriesGroup> = Vec::new();
    while rest.len() > 0
        invariant
            out@.len() + rest@.len() == s0.len(),
            rest@ == s0.skip(out@.len() as int),
            forall|g: int| 0 <= g < s0.len() ==> collected_group(events@, #[trigger] s0[g]),
            forall|g: int|
                0 <= g < out@.len() ==> key_view((#[trigger] out@[g]).key) == key_view(s0[g].key)
                    && finished_group(events@, out@[g]),
        decreases rest.len(),
    {
        let ghost n = out@.len();
        let g = rest.remove(0);
        proof {
            assert(g == s0[n as int]);
            assert(rest@ =~= s0.skip(n as int + 1));
        }
        let f = finish_group(events, g);
        out.push(f);
    }
    proof {
        assert forall|g: int|
            #![trigger out@[g]]
            0 <= g < out@.len() implies {
                let m = out@[g].members@;
                &&& m.len() > 0
                &&& forall|p: int| 0 <= p < m.len() ==> 0 <= #[trigger] m[p] < events@.len()
                    && key_view(events@[m[p] as int].key) == key_view(out@[g].key)
                &&& forall|p: int, q: int| 0 <= p < q < m.len() ==> event_before(events@, #[trigger] m[p] as int, #[trigger] m[q] as int)
                &&& forall|i: int| 0 <= i < events@.len() && key_view(#[trigger] events@[i].key) == key_view(out@[g].key)
                    ==> m.contains(i as usize)
            } by {
            assert(finished_group(events@, out@[g]));
        }
        assert forall|i: int|
            #![trigger events@[i]]
            0 <= i < events@.len() implies exists|g: int|
                0 <= g < out@.len() && key_view(#[trigger] out@[g].key) == key_view(events@[i].key) by {
            assert(groups_cover(events@, s0));
            let g0 = choose|g: int| 0 <= g < s0.len() && key_view(#[trigger] s0[g].key) == key_view(events@[i].key);
            assert(key_view(out@[g0].key) == key_view(s0[g0].key));
        }
    }
    out
}

/// Each event belongs to exactly one series: no two groups share a series.
pub proof fn law_one_series_per_event(events: Seq<EventStamp>, groups: Seq<SeriesGroup>, i: int, g: int, h: int)
    requires
        grouped(events, groups),
        0 <= i < events.len(),
        0 <= g < groups.len(),
        0 <= h < groups.len(),
        groups[g].members@.contains(i as usize),
        groups[h].members@.contains(i as usize),
    ensures
        g == h,
{
    let pg = choose|p: int| 0 <= p < groups[g].members@.len() && groups[g].members@[p] == i as usize;
    let ph = choose|p: int| 0 <= p < groups[h].members@.len() && groups[h].members@[p] == i as usize;
    assert(key_view(events[groups[g].members@[pg] as int].key) == key_view(groups[g].key));
    assert(key_view(events[groups[h].members@[ph] as int].key) == key_view(groups[h].key));
    let k = key_view(groups[g].key);
    lemma_series_le_order(k, k, k);
    if g < h {
        assert(series_before(events, key_view(groups[g].key), key_view(groups[h].key)));
    } else if h < g {
        assert(series_before(events, key_view(groups[h].key), key_view(groups[g].key)));
    }
}

} // verus!
