//! How drained metric events are grouped into batches for an exporter: one
//! batch per experiment and run, in ascending order of experiment (none
//! first) and run, each holding its events in ascending sequence order. The
//! plan is computed over the events' keys; the caller moves the events.
use vstd::prelude::*;
use crate::folder::{lemma_lex_le_order, lex_le, lex_le_exec};
use crate::text::{chars_eq, chars_of, copy_opt_string, copy_string};

verus! {

/// What places an event in a batch: its experiment, its run and its
/// sequence number.
#[derive(Debug)]
pub struct EventKey {
    pub experiment_id: Option<String>,
    pub run_id: String,
    pub sequence: u64,
}

/// One planned batch: its experiment and run, and the indices of its events
/// in the drained list, in batch order.
#[derive(Debug)]
pub struct BatchPlan {
    pub experiment_id: Option<String>,
    pub run_id: String,
    pub members: Vec<usize>,
}

/// The group of an event: experiment and run.
pub open spec fn group_of(k: EventKey) -> (Option<Seq<char>>, Seq<char>) {
    (
        match k.experiment_id {
            Some(e) => Some(e@),
            None => None,
        },
        k.run_id@,
    )
}

/// The group of a planned batch.
pub open spec fn plan_group(b: BatchPlan) -> (Option<Seq<char>>, Seq<char>) {
    (
        match b.experiment_id {
            Some(e) => Some(e@),
            None => None,
        },
        b.run_id@,
    )
}

/// The order of groups: no experiment first, then by experiment, then by
/// run, each compared as text.
pub open spec fn group_le(a: (Option<Seq<char>>, Seq<char>), b: (Option<Seq<char>>, Seq<char>)) -> bool {
    match (a.0, b.0) {
        (None, Some(_)) => true,
        (Some(_), None) => false,
        (None, None) => lex_le(a.1, b.1),
        (Some(x), Some(y)) => if x != y {
            lex_le(x, y)
        } else {
            lex_le(a.1, b.1)
        },
    }
}

proof fn lemma_group_order(
    a: (Option<Seq<char>>, Seq<char>),
    b: (Option<Seq<char>>, Seq<char>),
    c: (Option<Seq<char>>, Seq<char>),
)
    ensures
        group_le(a, b) || group_le(b, a),
        group_le(a, b) && group_le(b, a) ==> a == b,
        group_le(a, b) && group_le(b, c) ==> group_le(a, c),
{
    lemma_lex_le_order(a.1, b.1, c.1);
    lemma_lex_le_order(b.1, a.1, c.1);
    lemma_lex_le_order(a.1, c.1, b.1);
    if let (Some(x), Some(y)) = (a.0, b.0) {
        lemma_lex_le_order(x, y, x);
        if let Some(z) = c.0 {
            lemma_lex_le_order(x, y, z);
            lemma_lex_le_order(y, x, z);
            lemma_lex_le_order(x, z, y);
        }
    }
    if let (Some(x), Some(z)) = (a.0, c.0) {
        lemma_lex_le_order(x, z, x);
    }
    if let (Some(y), Some(z)) = (b.0, c.0) {
        lemma_lex_le_order(y, z, y);
    }
}

/// Whether `members` lists exactly the events of group `g`, each once, in
/// ascending order of sequence number and, for equal numbers, of position.
pub open spec fn members_of(keys: Seq<EventKey>, g: (Option<Seq<char>>, Seq<char>), members: Seq<usize>) -> bool {
    &&& forall|j: int| 0 <= j < members.len() ==> (#[trigger] members[j]) < keys.len()
        && group_of(keys[members[j] as int]) == g
    &&& forall|i: int| 0 <= i < keys.len() && group_of(keys[i]) == g ==> members.contains(i as usize)
    &&& forall|j: int, l: int|
        #![trigger members[j], members[l]]
        0 <= j < l < members.len() ==> {
            let (a, b) = (keys[members[j] as int], keys[members[l] as int]);
            a.sequence < b.sequence || (a.sequence == b.sequence && members[j] < members[l])
        }
}

/// Whether `plan` is the batching of events with keys `keys`: one batch per
/// group that occurs, in strictly ascending group order, each with exactly
/// its members in order.
pub open spec fn batches_of(keys: Seq<EventKey>, plan: Seq<BatchPlan>) -> bool {
    &&& forall|b: int, c: int|
        #![trigger plan[b], plan[c]]
        0 <= b < c < plan.len() ==> group_le(plan_group(plan[b]), plan_group(plan[c]))
            && plan_group(plan[b]) != plan_group(plan[c])
    &&& forall|i: int| 0 <= i < keys.len() ==> groups(plan).contains(#[trigger] group_of(keys[i]))
    &&& forall|b: int|
        0 <= b < plan.len() ==> members_of(keys, plan_group(#[trigger] plan[b]), plan[b].members@)
}

fn group_le_exec(a: &EventKey, b: &BatchPlan) -> (r: bool)
    ensures
        r == group_le(group_of(*a), plan_group(*b)),
{
    match (&a.experiment_id, &b.experiment_id) {
        (None, Some(_)) => true,
        (Some(_), None) => false,
        (None, None) => lex_le_exec(&chars_of(a.run_id.as_str()), &chars_of(b.run_id.as_str())),
        (Some(x), Some(y)) => {
            let xs = chars_of(x.as_str());
            let ys = chars_of(y.as_str());
            if !chars_eq(&xs, &ys) {
                lex_le_exec(&xs, &ys)
            } else {
                lex_le_exec(&chars_of(a.run_id.as_str()), &chars_of(b.run_id.as_str()))
            }
        },
    }
}

fn same_group(a: &EventKey, b: &BatchPlan) -> (r: bool)
    ensures
        r == (group_of(*a) == plan_group(*b)),
{
    let runs = chars_eq(&chars_of(a.run_id.as_str()), &chars_of(b.run_id.as_str()));
    match (&a.experiment_id, &b.experiment_id) {
        (None, None) => runs,
        (Some(x), Some(y)) => runs && chars_eq(&chars_of(x.as_str()), &chars_of(y.as_str())),
        _ => false,
    }
}

/// The groups of planned batches, in order.
pub open spec fn groups(plan: Seq<BatchPlan>) -> Seq<(Option<Seq<char>>, Seq<char>)> {
    plan.map_values(|b: BatchPlan| plan_group(b))
}

/// Whether groups are in strictly ascending order.
pub open spec fn strictly_ascending(gs: Seq<(Option<Seq<char>>, Seq<char>)>) -> bool {
    forall|b: int, c: int|
        #![trigger gs[b], gs[c]]
        0 <= b < c < gs.len() ==> group_le(gs[b], gs[c]) && gs[b] != gs[c]
}

proof fn lemma_insert_ascending(
    gs: Seq<(Option<Seq<char>>, Seq<char>)>,
    pos: int,
    g: (Option<Seq<char>>, Seq<char>),
)
    requires
        0 <= pos <= gs.len(),
        strictly_ascending(gs),
        forall|b: int| 0 <= b < pos ==> !group_le(g, #[trigger] gs[b]),
        pos < gs.len() ==> group_le(g, gs[pos]) && g != gs[pos],
    ensures
        strictly_ascending(gs.insert(pos, g)),
{
    let hs = gs.insert(pos, g);
    assert forall|b: int| 0 <= b < pos implies group_le(#[trigger] gs[b], g) && gs[b] != g by {
        lemma_group_order(gs[b], g, g);
        lemma_group_order(g, g, g);
    }
    assert forall|b: int| pos <= b < gs.len() implies group_le(g, #[trigger] gs[b]) && gs[b] != g by {
        if b > pos {
            lemma_group_order(g, gs[pos], gs[b]);
            lemma_group_order(gs[pos], gs[b], g);
        }
    }
    assert forall|b: int, c: int|
        #![trigger hs[b], hs[c]]
        0 <= b < c < hs.len() implies group_le(hs[b], hs[c]) && hs[b] != hs[c] by {
        if c < pos {
            assert(hs[b] == gs[b] && hs[c] == gs[c]);
        } else if c == pos {
            assert(hs[b] == gs[b]);
        } else if b == pos {
            assert(hs[c] == gs[c - 1]);
        } else if b < pos {
            assert(hs[b] == gs[b] && hs[c] == gs[c - 1]);
            lemma_group_order(gs[b], g, gs[c - 1]);
            lemma_group_order(gs[c - 1], gs[b], g);
        } else {
            assert(hs[b] == gs[b - 1] && hs[c] == gs[c - 1]);
        }
    }
}

proof fn lemma_batches(keys: Seq<EventKey>, plan: Seq<BatchPlan>)
    requires
        strictly_ascending(groups(plan)),
        forall|k: int| 0 <= k < keys.len() ==> groups(plan).contains(#[trigger] group_of(keys[k])),
        forall|x: int|
            0 <= x < plan.len() ==> members_of(keys, plan_group(#[trigger] plan[x]), plan[x].members@),
    ensures
        batches_of(keys, plan),
{
    let gs = groups(plan);
    assert forall|x: int, c: int|
        #![trigger plan[x], plan[c]]
        0 <= x < c < plan.len() implies group_le(plan_group(plan[x]), plan_group(plan[c]))
            && plan_group(plan[x]) != plan_group(plan[c]) by {
        assert(gs[x] == plan_group(plan[x]) && gs[c] == plan_group(plan[c]));
    }
}

/// The batches of drained events with the given keys.
pub fn plan_batches(keys: &Vec<EventKey>) -> (plan: Vec<BatchPlan>)
    ensures
        batches_of(keys@, plan@),
{
    let mut plan: Vec<BatchPlan> = Vec::new();
    let mut i: usize = 0;
    while i < keys.len()
        invariant
            i <= keys@.len(),
            strictly_ascending(groups(plan@)),
            forall|k: int| 0 <= k < i ==> groups(plan@).contains(#[trigger] group_of(keys@[k])),
            forall|b: int| 0 <= b < plan@.len() ==> (#[trigger] plan@[b]).members@.len() == 0,
        decreases keys@.len() - i,
    {
        let key = &keys[i];
        let ghost g = group_of(*key);
        let mut pos: usize = 0;
        while pos < plan.len() && !group_le_exec(key, &plan[pos])
            invariant
                pos <= plan@.len(),
                g == group_of(*key),
                forall|b: int| 0 <= b < pos ==> !group_le(g, #[trigger] groups(plan@)[b]),
            decreases plan@.len() - pos,
        {
            pos += 1;
        }
        let ghost p0 = plan@;
        let ghost gs0 = groups(p0);
        if pos < plan.len() && same_group(key, &plan[pos]) {
            assert(gs0[pos as int] == g);
            assert(gs0.contains(g));
        } else {
            let fresh = BatchPlan {
                experiment_id: copy_opt_string(&key.experiment_id),
                run_id: copy_string(&key.run_id),
                members: Vec::new(),
            };
            assert(plan_group(fresh) == g);
            plan.insert(pos, fresh);
            proof {
                assert(groups(plan@) =~= gs0.insert(pos as int, g));
                lemma_insert_ascending(gs0, pos as int, g);
                assert(groups(plan@)[pos as int] == g);
                assert forall|k: int| 0 <= k < i implies groups(plan@).contains(
                    #[trigger] group_of(keys@[k]),
                ) by {
                    let x = group_of(keys@[k]);
                    let b0 = choose|b0: int| 0 <= b0 < gs0.len() && gs0[b0] == x;
                    if b0 < pos {
                        assert(groups(plan@)[b0] == x);
                    } else {
                        assert(groups(plan@)[b0 + 1] == x);
                    }
                }
                assert forall|b: int| 0 <= b < plan@.len() implies (#[trigger] plan@[b]).members@.len()
                    == 0 by {
                    if b < pos {
                        assert(plan@[b] == p0[b]);
                    } else if b > pos {
                        assert(plan@[b] == p0[b - 1]);
                    }
                }
            }
        }
        i += 1;
    }
    let mut b: usize = 0;
    while b < plan.len()
        invariant
            b <= plan@.len(),
            strictly_ascending(groups(plan@)),
            forall|k: int| 0 <= k < keys@.len() ==> groups(plan@).contains(#[trigger] group_of(keys@[k])),
            forall|x: int|
                0 <= x < b ==> members_of(keys@, plan_group(#[trigger] plan@[x]), plan@[x].members@),
        decreases plan@.len() - b,
    {
        let members = sorted_members(keys, &plan[b]);
        let ghost p0 = plan@;
        let mut batch = plan.remove(b);
        batch.members = members;
        plan.insert(b, batch);
        proof {
            assert forall|x: int| 0 <= x < plan@.len() && x != b implies plan@[x] == p0[x] by {}
            assert(plan_group(plan@[b as int]) == plan_group(p0[b as int]));
            assert(groups(plan@) =~= groups(p0));
        }
        b += 1;
    }
    proof {
        lemma_batches(keys@, plan@);
    }
    plan
}

/// What holds of the members collected from the first `i` events.
pub open spec fn collected(keys: Seq<EventKey>, g: (Option<Seq<char>>, Seq<char>), m: Seq<usize>, i: int) -> bool {
    &&& forall|j: int| 0 <= j < m.len() ==> (#[trigger] m[j]) < i && group_of(keys[m[j] as int]) == g
    &&& forall|k: int|
        #![trigger keys[k]]
        0 <= k < i && group_of(keys[k]) == g ==> m.contains(k as usize)
    &&& forall|j: int, l: int|
        #![trigger m[j], m[l]]
        0 <= j < l < m.len() ==> {
            let (a, c) = (keys[m[j] as int], keys[m[l] as int]);
            a.sequence < c.sequence || (a.sequence == c.sequence && m[j] < m[l])
        }
}

proof fn lemma_insert_member(
    keys: Seq<EventKey>,
    g: (Option<Seq<char>>, Seq<char>),
    m0: Seq<usize>,
    pos: int,
    i: int,
)
    requires
        0 <= i < keys.len(),
        i <= usize::MAX,
        collected(keys, g, m0, i),
        group_of(keys[i]) == g,
        0 <= pos <= m0.len(),
        forall|j: int| pos <= j < m0.len() ==> keys[(#[trigger] m0[j]) as int].sequence > keys[i].sequence,
        pos > 0 ==> keys[m0[pos - 1] as int].sequence <= keys[i].sequence,
    ensures
        collected(keys, g, m0.insert(pos, i as usize), i + 1),
{
    lemma_insert_member_group(keys, g, m0, pos, i);
    lemma_insert_member_all(keys, g, m0, pos, i);
    lemma_insert_member_order(keys, g, m0, pos, i);
}

proof fn lemma_insert_member_group(
    keys: Seq<EventKey>,
    g: (Option<Seq<char>>, Seq<char>),
    m0: Seq<usize>,
    pos: int,
    i: int,
)
    requires
        0 <= i < keys.len(),
        i <= usize::MAX,
        forall|j: int| 0 <= j < m0.len() ==> (#[trigger] m0[j]) < i && group_of(keys[m0[j] as int]) == g,
        group_of(keys[i]) == g,
        0 <= pos <= m0.len(),
    ensures
        ({
            let m = m0.insert(pos, i as usize);
            forall|j: int| 0 <= j < m.len() ==> (#[trigger] m[j]) < i + 1 && group_of(keys[m[j] as int]) == g
        }),
{
    let m = m0.insert(pos, i as usize);
    assert forall|j: int| 0 <= j < m.len() implies (#[trigger] m[j]) < i + 1 && group_of(
        keys[m[j] as int],
    ) == g by {
        if j < pos {
            assert(m[j] == m0[j]);
        } else if j > pos {
            assert(m[j] == m0[j - 1]);
        } else {
            assert(m[j] == i as usize);
        }
    }
}

proof fn lemma_insert_member_all(
    keys: Seq<EventKey>,
    g: (Option<Seq<char>>, Seq<char>),
    m0: Seq<usize>,
    pos: int,
    i: int,
)
    requires
        0 <= i < keys.len(),
        i <= usize::MAX,
        forall|k: int|
            #![trigger keys[k]]
            0 <= k < i && group_of(keys[k]) == g ==> m0.contains(k as usize),
        0 <= pos <= m0.len(),
    ensures
        ({
            let m = m0.insert(pos, i as usize);
            forall|k: int|
                #![trigger keys[k]]
                0 <= k < i + 1 && group_of(keys[k]) == g ==> m.contains(k as usize)
        }),
{
    let m = m0.insert(pos, i as usize);
    assert forall|k: int|
        #![trigger keys[k]]
        0 <= k < i + 1 && group_of(keys[k]) == g implies m.contains(k as usize) by {
        if k == i {
            assert(m[pos] == k as usize);
        } else {
            assert(m0.contains(k as usize));
            let j = choose|j: int| 0 <= j < m0.len() && m0[j] == k as usize;
            if j < pos {
                assert(m[j] == m0[j]);
            } else {
                assert(m[j + 1] == m0[j]);
            }
        }
    }
}

proof fn lemma_insert_member_order(
    keys: Seq<EventKey>,
    g: (Option<Seq<char>>, Seq<char>),
    m0: Seq<usize>,
    pos: int,
    i: int,
)
    requires
        0 <= i < keys.len(),
        i <= usize::MAX,
        forall|j: int| 0 <= j < m0.len() ==> (#[trigger] m0[j]) < i,
        forall|j: int, l: int|
            #![trigger m0[j], m0[l]]
            0 <= j < l < m0.len() ==> {
                let (a, c) = (keys[m0[j] as int], keys[m0[l] as int]);
                a.sequence < c.sequence || (a.sequence == c.sequence && m0[j] < m0[l])
            },
        0 <= pos <= m0.len(),
        forall|j: int| pos <= j < m0.len() ==> keys[(#[trigger] m0[j]) as int].sequence > keys[i].sequence,
        pos > 0 ==> keys[m0[pos - 1] as int].sequence <= keys[i].sequence,
    ensures
        ({
            let m = m0.insert(pos, i as usize);
            forall|j: int, l: int|
                #![trigger m[j], m[l]]
                0 <= j < l < m.len() ==> {
                    let (a, c) = (keys[m[j] as int], keys[m[l] as int]);
                    a.sequence < c.sequence || (a.sequence == c.sequence && m[j] < m[l])
                }
        }),
{
    let m = m0.insert(pos, i as usize);
    assert forall|j: int, l: int|
        #![trigger m[j], m[l]]
        0 <= j < l < m.len() implies {
            let (a, c) = (keys[m[j] as int], keys[m[l] as int]);
            a.sequence < c.sequence || (a.sequence == c.sequence && m[j] < m[l])
        } by {
        if l < pos {
            assert(m[j] == m0[j] && m[l] == m0[l]);
        } else if l == pos {
            assert(m[j] == m0[j] && m[l] == i as usize);
            if j < pos - 1 {
                assert(keys[m0[j] as int].sequence <= keys[m0[pos - 1] as int].sequence);
            }
        } else if j == pos {
            assert(m[j] == i as usize && m[l] == m0[l - 1]);
        } else if j < pos {
            assert(m[j] == m0[j] && m[l] == m0[l - 1]);
            if pos < m0.len() {
                assert(keys[m0[pos] as int].sequence > keys[i].sequence);
                assert(keys[m0[j] as int].sequence <= keys[m0[pos - 1] as int].sequence || j
                    == pos - 1);
            }
        } else {
            assert(m[j] == m0[j - 1] && m[l] == m0[l - 1]);
        }
    }
}

/// The events of a batch's group, in ascending sequence order.
fn sorted_members(keys: &Vec<EventKey>, batch: &BatchPlan) -> (m: Vec<usize>)
    ensures
        members_of(keys@, plan_group(*batch), m@),
{
    let ghost g = plan_group(*batch);
    let mut m: Vec<usize> = Vec::new();
    let mut i: usize = 0;
    while i < keys.len()
        invariant
            i <= keys@.len(),
            g == plan_group(*batch),
            collected(keys@, g, m@, i as int),
        decreases keys@.len() - i,
    {
        if same_group(&keys[i], batch) {
            let seq = keys[i].sequence;
            let mut pos: usize = m.len();
            while pos > 0 && keys[m[pos - 1]].sequence > seq
                invariant
                    pos <= m@.len(),
                    i < keys@.len(),
                    seq == keys@[i as int].sequence,
                    collected(keys@, g, m@, i as int),
                    forall|j: int| pos <= j < m@.len() ==> keys@[(#[trigger] m@[j]) as int].sequence > seq,
                decreases pos,
            {
                pos -= 1;
            }
            proof {
                lemma_insert_member(keys@, g, m@, pos as int, i as int);
            }
            m.insert(pos, i);
        }
        i += 1;
    }
    m
}

/// Every drained event lands in exactly one batch: the batch of its
/// experiment and run.
pub proof fn law_each_event_in_one_batch(keys: Seq<EventKey>, plan: Seq<BatchPlan>, i: int)
    requires
        batches_of(keys, plan),
        0 <= i < keys.len(),
    ensures
        exists|b: int|
            0 <= b < plan.len() && plan[b].members@.contains(i as usize) && plan_group(plan[b])
                == group_of(keys[i]),
        forall|b: int, c: int|
            0 <= b < plan.len() && 0 <= c < plan.len() && plan[b].members@.contains(i as usize)
                && plan[c].members@.contains(i as usize) ==> b == c,
{
    let gs = groups(plan);
    assert(gs.contains(group_of(keys[i])));
    let b = choose|b: int| 0 <= b < gs.len() && gs[b] == group_of(keys[i]);
    assert(plan_group(plan[b]) == group_of(keys[i]));
    assert(members_of(keys, plan_group(plan[b]), plan[b].members@));
    assert(plan[b].members@.contains(i as usize));
    assert forall|x: int, c: int|
        0 <= x < plan.len() && 0 <= c < plan.len() && plan[x].members@.contains(i as usize)
            && plan[c].members@.contains(i as usize) implies x == c by {
        assert(members_of(keys, plan_group(plan[x]), plan[x].members@));
        assert(members_of(keys, plan_group(plan[c]), plan[c].members@));
        let jx = choose|j: int| 0 <= j < plan[x].members@.len() && plan[x].members@[j] == i as usize;
        let jc = choose|j: int| 0 <= j < plan[c].members@.len() && plan[c].members@[j] == i as usize;
        assert(group_of(keys[plan[x].members@[jx] as int]) == plan_group(plan[x]));
        assert(group_of(keys[plan[c].members@[jc] as int]) == plan_group(plan[c]));
        if x < c {
            assert(plan_group(plan[x]) != plan_group(plan[c]));
        } else if c < x {
            assert(plan_group(plan[c]) != plan_group(plan[x]));
        }
    }
}

/// The events gathered for the next drain, oldest first, and the number
/// the next batch gets.
pub struct BatchQueue<E> {
    events: Vec<E>,
    next_batch_sequence: u64,
}

/// The counter after `count` numbers were handed out from `next`: it wraps
/// past the largest `u64`, as an atomic counter's addition does.
pub open spec fn counter_after(next: u64, count: u64) -> u64 {
    ((next as int + count as int) % 0x1_0000_0000_0000_0000) as u64
}

impl<E> BatchQueue<E> {
    /// The events waiting for the next drain, oldest first.
    pub closed spec fn pending(&self) -> Seq<E> {
        self.events@
    }

    /// The number the next batch gets.
    pub closed spec fn next_number(&self) -> u64 {
        self.next_batch_sequence
    }

    /// An empty queue whose first batch gets number 0.
    pub fn new() -> (q: Self)
        ensures
            q.pending() == Seq::<E>::empty(),
            q.next_number() == 0,
    {
        BatchQueue { events: Vec::new(), next_batch_sequence: 0 }
    }

    /// Gathers an event for the next drain.
    pub fn on_event(&mut self, event: E)
        ensures
            final(self).pending() == old(self).pending().push(event),
            final(self).next_number() == old(self).next_number(),
    {
        self.events.push(event);
    }

    /// How many events wait for the next drain.
    pub fn pending_events(&self) -> (n: usize)
        ensures
            n == self.pending().len(),
    {
        self.events.len()
    }

    /// Takes every waiting event, oldest first: none wait afterwards.
    pub fn take_pending(&mut self) -> (events: Vec<E>)
        ensures
            events@ == old(self).pending(),
            final(self).pending() == Seq::<E>::empty(),
            final(self).next_number() == old(self).next_number(),
    {
        let mut taken: Vec<E> = Vec::new();
        std::mem::swap(&mut taken, &mut self.events);
        taken
    }

    /// Hands out `count` batch numbers, one per batch of a drain: the first
    /// is returned, the batches get it and the numbers after it, and the
    /// counter moves past them.
    pub fn reserve_numbers(&mut self, count: u64) -> (first: u64)
        ensures
            first == old(self).next_number(),
            final(self).next_number() == counter_after(old(self).next_number(), count),
            final(self).pending() == old(self).pending(),
    {
        let first = self.next_batch_sequence;
        self.next_batch_sequence = first.wrapping_add(count);
        first
    }
}

/// Batches are numbered upward across drains: as long as the counter has
/// not wrapped, every batch of a later drain has a larger number than
/// every batch of an earlier one, and no number is handed out twice.
pub proof fn law_batch_numbers_increase_across_drains(next: u64, first_count: u64, second_count: u64, i: int, j: int)
    requires
        next as int + first_count as int + second_count as int <= u64::MAX as int,
        0 <= i < first_count,
        0 <= j < second_count,
    ensures
        counter_after(next, first_count) == next + first_count,
        next + i < counter_after(next, first_count) + j,
        counter_after(counter_after(next, first_count), second_count) == next + first_count + second_count,
{
}

} // verus!
