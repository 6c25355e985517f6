//! The reports of finished runs that the telemetry views keep: newest
//! first, one per run, at most a hundred; with the run selected for display
//! and the run under way.
use vstd::prelude::*;
use crate::navigation::{first_from, opt_text};
use crate::run_record::{
    busy_position, copy_event, copy_record, events_view, record_views, with_event, RunEvent, RunRecord,
};
use crate::text::{copy_opt_string, copy_string, str_eq};

verus! {

/// How many run reports are kept.
pub const MAX_REPORTS: usize = 100;

/// Run reports by run id, newest first.
pub struct ReportStore<R> {
    reports: Vec<(String, R)>,
    selected_run: Option<String>,
    active_run: Option<String>,
}

/// The run ids of a list of reports.
pub open spec fn ids_of<R>(reports: Seq<(String, R)>) -> Seq<Seq<char>> {
    reports.map_values(|p: (String, R)| p.0@)
}

/// The reports of a list, without their run ids.
pub open spec fn bodies_of<R>(reports: Seq<(String, R)>) -> Seq<R> {
    reports.map_values(|p: (String, R)| p.1)
}

/// Whether no value occurs twice.
pub open spec fn distinct<T>(s: Seq<T>) -> bool {
    forall|i: int, j: int| 0 <= i < j < s.len() ==> s[i] != s[j]
}

/// The report of a run, where one is kept.
pub open spec fn report_of<R>(ids: Seq<Seq<char>>, bodies: Seq<R>, id: Seq<char>) -> Option<R> {
    match first_from(ids, id, 0) {
        Some(i) => Some(bodies[i]),
        None => None,
    }
}

/// The run ids after a report is stored: a known run keeps its place, a
/// new run comes first and the oldest beyond the limit go.
pub open spec fn ids_after_upsert(ids: Seq<Seq<char>>, id: Seq<char>) -> Seq<Seq<char>> {
    if ids.contains(id) {
        ids
    } else {
        let added = seq![id] + ids;
        if added.len() > MAX_REPORTS {
            added.take(MAX_REPORTS as int)
        } else {
            added
        }
    }
}

/// The reports after a report is stored: it replaces the run's report, or
/// comes first, and the oldest beyond the limit go.
pub open spec fn bodies_after_upsert<R>(ids: Seq<Seq<char>>, bodies: Seq<R>, id: Seq<char>, r: R) -> Seq<R> {
    match first_from(ids, id, 0) {
        Some(i) => bodies.update(i, r),
        None => {
            let added = seq![r] + bodies;
            if added.len() > MAX_REPORTS {
                added.take(MAX_REPORTS as int)
            } else {
                added
            }
        },
    }
}

impl<R> ReportStore<R> {
    /// The run ids, newest first.
    pub closed spec fn ids(&self) -> Seq<Seq<char>> {
        ids_of(self.reports@)
    }

    /// The reports, newest first.
    pub closed spec fn bodies(&self) -> Seq<R> {
        bodies_of(self.reports@)
    }

    /// The run selected for display.
    pub closed spec fn selection(&self) -> Option<Seq<char>> {
        opt_text(self.selected_run)
    }

    /// The run under way.
    pub closed spec fn running(&self) -> Option<Seq<char>> {
        opt_text(self.active_run)
    }

    /// One report per run, at most the limit.
    pub closed spec fn wf(&self) -> bool {
        &&& distinct(self.ids())
        &&& self.reports@.len() <= MAX_REPORTS
    }

    pub proof fn lemma_lengths(&self)
        ensures
            self.ids().len() == self.bodies().len(),
    {
    }

    /// A well-formed store keeps one report per run, at most the limit.
    pub proof fn lemma_wf(&self)
        requires
            self.wf(),
        ensures
            distinct(self.ids()),
            self.ids().len() <= MAX_REPORTS,
    {
    }

    /// An empty store.
    pub fn new() -> (s: Self)
        ensures
            s.wf(),
            s.ids() == Seq::<Seq<char>>::empty(),
            s.bodies() == Seq::<R>::empty(),
            s.selection() is None,
            s.running() is None,
    {
        ReportStore { reports: Vec::new(), selected_run: None, active_run: None }
    }

    fn position(&self, run_id: &str) -> (i: Option<usize>)
        ensures
            match i {
                Some(j) => first_from(self.ids(), run_id@, 0) == Some(j as int) && j < self.reports@.len(),
                None => first_from(self.ids(), run_id@, 0) is None,
            },
    {
        let mut i: usize = 0;
        while i < self.reports.len()
            invariant
                i <= self.reports@.len(),
                first_from(self.ids(), run_id@, 0) == first_from(self.ids(), run_id@, i as int),
            decreases self.reports.len() - i,
        {
            if str_eq(self.reports[i].0.as_str(), run_id) {
                return Some(i);
            }
            i += 1;
        }
        None
    }

    /// Stores the report of a run: it replaces the run's report where there
    /// is one; otherwise it comes first, becomes the selected run where none
    /// was selected, and the oldest reports beyond the limit go.
    pub fn upsert(&mut self, run_id: String, report: R)
        requires
            old(self).wf(),
        ensures
            final(self).wf(),
            final(self).ids() == ids_after_upsert(old(self).ids(), run_id@),
            final(self).bodies() == bodies_after_upsert(old(self).ids(), old(self).bodies(), run_id@, report),
            final(self).selection() == if old(self).ids().contains(run_id@) || old(self).selection() is Some {
                old(self).selection()
            } else {
                Some(run_id@)
            },
            final(self).running() == old(self).running(),
    {
        proof {
            lemma_first_from_found(self.ids(), run_id@, 0);
        }
        match self.position(run_id.as_str()) {
            Some(i) => {
                let ghost before = self.reports@;
                self.reports.set(i, (run_id, report));
                proof {
                    assert(ids_of(self.reports@) =~= ids_of(before));
                    assert(bodies_of(self.reports@) =~= bodies_of(before).update(i as int, report));
                }
            },
            None => {
                if self.selected_run.is_none() {
                    self.selected_run = Some(copy_string(&run_id));
                }
                let ghost before = self.reports@;
                self.reports.insert(0, (run_id, report));
                proof {
                    assert(ids_of(self.reports@) =~= seq![run_id@] + ids_of(before));
                    assert(bodies_of(self.reports@) =~= seq![report] + bodies_of(before));
                }
                let ghost added = self.reports@;
                if self.reports.len() > MAX_REPORTS {
                    self.reports.truncate(MAX_REPORTS);
                    proof {
                        assert(ids_of(self.reports@) =~= ids_of(added).take(MAX_REPORTS as int));
                        assert(bodies_of(self.reports@) =~= bodies_of(added).take(MAX_REPORTS as int));
                    }
                }
            },
        }
    }

    /// The report of a run, where one is kept.
    pub fn report(&self, run_id: &str) -> (r: Option<&R>)
        ensures
            match report_of(self.ids(), self.bodies(), run_id@) {
                Some(b) => r == Some(&b),
                None => r is None,
            },
    {
        match self.position(run_id) {
            Some(i) => Some(&self.reports[i].1),
            None => None,
        }
    }

    /// The run ids, newest first.
    pub fn run_ids(&self) -> (r: Vec<String>)
        ensures
            r@.map_values(|s: String| s@) == self.ids(),
    {
        let mut r: Vec<String> = Vec::new();
        let mut i: usize = 0;
        while i < self.reports.len()
            invariant
                i <= self.reports@.len(),
                r@.len() == i,
                forall|k: int| 0 <= k < i ==> #[trigger] r@[k]@ == self.ids()[k],
            decreases self.reports.len() - i,
        {
            r.push(copy_string(&self.reports[i].0));
            i += 1;
        }
        assert(r@.map_values(|s: String| s@) =~= self.ids());
        r
    }

    /// How many reports are kept.
    pub fn len(&self) -> (n: usize)
        ensures
            n == self.ids().len(),
    {
        self.reports.len()
    }

    /// Selects a run for display.
    pub fn select_run(&mut self, run_id: Option<String>)
        requires
            old(self).wf(),
        ensures
            final(self).wf(),
            final(self).selection() == opt_text(run_id),
            final(self).ids() == old(self).ids(),
            final(self).bodies() == old(self).bodies(),
            final(self).running() == old(self).running(),
    {
        self.selected_run = run_id;
    }

    /// The run selected for display.
    pub fn selected_run(&self) -> (r: Option<String>)
        ensures
            opt_text(r) == self.selection(),
    {
        copy_opt_string(&self.selected_run)
    }

    /// The report of the selected run, where one is kept.
    pub fn selected_report(&self) -> (r: Option<&R>)
        ensures
            match self.selection() {
                Some(id) => match report_of(self.ids(), self.bodies(), id) {
                    Some(b) => r == Some(&b),
                    None => r is None,
                },
                None => r is None,
            },
    {
        match &self.selected_run {
            Some(id) => self.report(id.as_str()),
            None => None,
        }
    }

    /// Marks the run under way, or none.
    pub fn set_active_run(&mut self, run_id: Option<String>)
        requires
            old(self).wf(),
        ensures
            final(self).wf(),
            final(self).running() == opt_text(run_id),
            final(self).ids() == old(self).ids(),
            final(self).bodies() == old(self).bodies(),
            final(self).selection() == old(self).selection(),
    {
        self.active_run = run_id;
    }

    /// The run under way.
    pub fn active_run(&self) -> (r: Option<String>)
        ensures
            opt_text(r) == self.running(),
    {
        copy_opt_string(&self.active_run)
    }

    /// Drops every report and the selection.
    pub fn clear_runs(&mut self)
        ensures
            final(self).wf(),
            final(self).ids() == Seq::<Seq<char>>::empty(),
            final(self).bodies() == Seq::<R>::empty(),
            final(self).selection() is None,
            final(self).running() == old(self).running(),
    {
        self.reports = Vec::new();
        self.selected_run = None;
    }
}

impl ReportStore<RunRecord> {
    /// Hands an event to the report of its run while that run is under way
    /// (`BUSY`): the first such report takes it, last.
    pub fn append_to_busy(&mut self, event: &RunEvent)
        requires
            old(self).wf(),
        ensures
            final(self).wf(),
            final(self).ids() == old(self).ids(),
            record_views(final(self).bodies()) == with_event(record_views(old(self).bodies()), event@),
            final(self).selection() == old(self).selection(),
            final(self).running() == old(self).running(),
    {
        let ghost views = record_views(self.bodies());
        let mut i: usize = 0;
        while i < self.reports.len()
            invariant
                i <= self.reports@.len(),
                old(self).wf(),
                *self == *old(self),
                views == record_views(self.bodies()),
                views.len() == self.reports@.len(),
                busy_position(views, event.run_id@, 0) == busy_position(views, event.run_id@, i as int),
            decreases self.reports.len() - i,
        {
            if str_eq(self.reports[i].1.status.as_str(), "BUSY") && str_eq(
                self.reports[i].1.run_id.as_str(),
                event.run_id.as_str(),
            ) {
                proof {
                    assert(views[i as int] == self.reports@[i as int].1@);
                }
                let mut rec = copy_record(&self.reports[i].1);
                let ghost old_events = rec.events@;
                rec.events.push(copy_event(event));
                proof {
                    assert(events_view(rec.events@) =~= events_view(old_events).push(event@));
                }
                let id = copy_string(&self.reports[i].0);
                let ghost before = self.reports@;
                self.reports.set(i, (id, rec));
                proof {
                    assert(ids_of(self.reports@) =~= ids_of(before));
                    assert(self.ids() == old(self).ids());
                    assert(self.reports@.len() == before.len());
                    assert(record_views(bodies_of(self.reports@)) =~= with_event(views, event@));
                }
                return;
            }
            proof {
                assert(views[i as int] == self.reports@[i as int].1@);
            }
            i += 1;
        }
    }
}

proof fn lemma_first_from_found<T>(s: Seq<T>, x: T, i: int)
    requires
        0 <= i <= s.len(),
    ensures
        (first_from(s, x, i) is Some) == (exists|j: int| i <= j < s.len() && s[j] == x),
        first_from(s, x, i) matches Some(j) ==> i <= j < s.len() && s[j] == x,
    decreases s.len() - i,
{
    if i < s.len() {
        lemma_first_from_found(s, x, i + 1);
    }
}

proof fn lemma_first_from_at<T>(s: Seq<T>, x: T, i: int, j: int)
    requires
        0 <= i <= j < s.len(),
        s[j] == x,
        forall|k: int| i <= k < j ==> s[k] != x,
    ensures
        first_from(s, x, i) == Some(j),
    decreases j - i,
{
    if i < j {
        lemma_first_from_at(s, x, i + 1, j);
    }
}

/// A run's report is the one stored last for it: storing a report and then
/// asking for the run's report gives that report back.
pub proof fn law_stored_report_is_read_back<R>(ids: Seq<Seq<char>>, bodies: Seq<R>, id: Seq<char>, r: R)
    requires
        distinct(ids),
        ids.len() == bodies.len(),
    ensures
        report_of(ids_after_upsert(ids, id), bodies_after_upsert(ids, bodies, id, r), id) == Some(r),
{
    lemma_first_from_found(ids, id, 0);
    if ids.contains(id) {
        let i = choose|i: int| 0 <= i < ids.len() && ids[i] == id;
        lemma_first_from_at(ids, id, 0, i);
    } else {
        let added = seq![id] + ids;
        let after = ids_after_upsert(ids, id);
        assert(after[0] == id);
        lemma_first_from_at(after, id, 0, 0);
    }
}

/// Storing a report leaves the reports of other runs as they were, for
/// every run that is still kept.
pub proof fn law_other_reports_unchanged<R>(
    ids: Seq<Seq<char>>,
    bodies: Seq<R>,
    id: Seq<char>,
    r: R,
    other: Seq<char>,
)
    requires
        distinct(ids),
        ids.len() == bodies.len(),
        other != id,
        ids_after_upsert(ids, id).contains(other),
    ensures
        report_of(ids_after_upsert(ids, id), bodies_after_upsert(ids, bodies, id, r), other)
            == report_of(ids, bodies, other),
{
    let after = ids_after_upsert(ids, id);
    let j2 = choose|j: int| 0 <= j < after.len() && after[j] == other;
    lemma_first_from_found(ids, id, 0);
    if ids.contains(id) {
        let i = choose|i: int| 0 <= i < ids.len() && ids[i] == id;
        lemma_first_from_at(ids, id, 0, i);
        lemma_first_from_at(ids, other, 0, j2);
    } else {
        let added = seq![id] + ids;
        assert(j2 >= 1);
        assert(ids[j2 - 1] == other);
        lemma_first_from_at(ids, other, 0, j2 - 1);
        assert forall|k: int| 0 <= k < j2 implies after[k] != other by {
            if k > 0 {
                assert(after[k] == ids[k - 1]);
            }
        }
        lemma_first_from_at(after, other, 0, j2);
    }
}

/// At most the limit of reports is kept, one per run, and a new run's
/// report comes first.
pub proof fn law_reports_bounded_and_newest_first(ids: Seq<Seq<char>>, id: Seq<char>)
    requires
        distinct(ids),
        ids.len() <= MAX_REPORTS,
    ensures
        distinct(ids_after_upsert(ids, id)),
        ids_after_upsert(ids, id).len() <= MAX_REPORTS,
        ids_after_upsert(ids, id).contains(id),
        !ids.contains(id) ==> ids_after_upsert(ids, id)[0] == id,
{
    let after = ids_after_upsert(ids, id);
    if !ids.contains(id) {
        let added = seq![id] + ids;
        assert forall|i: int, j: int| 0 <= i < j < after.len() implies after[i] != after[j] by {
            if i == 0 {
                assert(after[j] == ids[j - 1]);
            } else {
                assert(after[i] == ids[i - 1]);
                assert(after[j] == ids[j - 1]);
            }
        }
        assert(after[0] == id);
    }
}

/// A run that no report is kept for has no report: in particular a run
/// named afresh, whose name no saved run has.
pub proof fn law_unknown_run_has_no_report<R>(ids: Seq<Seq<char>>, bodies: Seq<R>, id: Seq<char>)
    requires
        !ids.contains(id),
    ensures
        report_of(ids, bodies, id) is None,
{
    lemma_first_from_found(ids, id, 0);
}

} // verus!
