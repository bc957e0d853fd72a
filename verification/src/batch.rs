use vstd::prelude::*;

use crate::admission::Admission;
use crate::links::Link;
use crate::outcome::TransferOutcome;

verus! {

/// How many entries of a result table are already resolved.
pub open spec fn resolved_count(s: Seq<Option<TransferOutcome>>) -> int
    decreases s.len(),
{
    if s.len() == 0 {
        0
    } else {
        resolved_count(s.drop_last()) + if s.last() is Some {
            1int
        } else {
            0int
        }
    }
}

proof fn lemma_resolved_bounds(s: Seq<Option<TransferOutcome>>)
    ensures
        0 <= resolved_count(s) <= s.len(),
    decreases s.len(),
{
    if s.len() > 0 {
        lemma_resolved_bounds(s.drop_last());
    }
}

proof fn lemma_resolved_all_none(s: Seq<Option<TransferOutcome>>)
    requires
        forall|i: int| 0 <= i < s.len() ==> s[i] is None,
    ensures
        resolved_count(s) == 0,
    decreases s.len(),
{
    if s.len() > 0 {
        lemma_resolved_all_none(s.drop_last());
    }
}

proof fn lemma_resolved_update_some(
    s: Seq<Option<TransferOutcome>>,
    idx: int,
    o: TransferOutcome,
)
    requires
        0 <= idx < s.len(),
        s[idx] is None,
    ensures
        resolved_count(s.update(idx, Some(o))) == resolved_count(s) + 1,
    decreases s.len(),
{
    let t = s.update(idx, Some(o));
    if idx == s.len() - 1 {
        assert(t.drop_last() =~= s.drop_last());
    } else {
        assert(t.drop_last() =~= s.drop_last().update(idx, Some(o)));
        lemma_resolved_update_some(s.drop_last(), idx, o);
    }
}

proof fn lemma_resolved_ignores_none_tail(s: Seq<Option<TransferOutcome>>, k: int)
    requires
        0 <= k <= s.len(),
        forall|i: int| k <= i < s.len() ==> s[i] is None,
    ensures
        resolved_count(s) == resolved_count(s.take(k)),
    decreases s.len(),
{
    if k == s.len() {
        assert(s.take(k) =~= s);
    } else {
        assert(s.drop_last() =~= s.take(s.len() - 1));
        lemma_resolved_ignores_none_tail(s.take(s.len() - 1), k);
        assert(s.take(s.len() - 1).take(k) =~= s.take(k));
    }
}

proof fn lemma_resolved_with_none(s: Seq<Option<TransferOutcome>>, idx: int)
    requires
        0 <= idx < s.len(),
        s[idx] is None,
    ensures
        resolved_count(s) <= s.len() - 1,
    decreases s.len(),
{
    if idx == s.len() - 1 {
        lemma_resolved_bounds(s.drop_last());
    } else {
        lemma_resolved_with_none(s.drop_last(), idx);
    }
}

proof fn lemma_resolved_full(s: Seq<Option<TransferOutcome>>)
    requires
        resolved_count(s) == s.len(),
    ensures
        forall|i: int| 0 <= i < s.len() ==> s[i] is Some,
{
    assert forall|i: int| 0 <= i < s.len() implies s[i] is Some by {
        if s[i] is None {
            lemma_resolved_with_none(s, i);
        }
    }
}

/// The batch orchestrator: every link of one listing, the admission
/// controller that caps how many transfer units run at once, how many links
/// have been submitted so far, and one result slot per link.
///
/// A link is submitted exactly once, in order; its slot stays `None` from
/// submission until its unit completes, and is written exactly once.
#[derive(Debug)]
pub struct Batch {
    pub links: Vec<Link>,
    pub admission: Admission,
    pub next: usize,
    pub results: Vec<Option<TransferOutcome>>,
}

impl Batch {
    /// Every state the orchestrator can reach:
    /// one result slot per link; submissions never pass the end; the permits
    /// held are exactly the submitted-but-unresolved units; links not yet
    /// submitted have empty slots.
    pub open spec fn wf(self) -> bool {
        &&& self.admission.wf()
        &&& self.results@.len() == self.links@.len()
        &&& self.next <= self.links@.len()
        &&& self.admission.active as int == self.next as int - resolved_count(self.results@)
        &&& forall|i: int| self.next <= i < self.results@.len() ==> self.results@[i] is None
    }

    /// Whether the next queued link may start now: a link remains and a
    /// permit is free.
    pub open spec fn may_submit(self) -> bool {
        self.next < self.links@.len() && self.admission.active < self.admission.cap
    }

    /// Whether the batch has finished: every link submitted and no unit
    /// still in flight.
    pub open spec fn done(self) -> bool {
        self.next == self.links@.len() && self.admission.active == 0
    }

    /// A fresh batch over `links` with concurrency cap `cap`: nothing
    /// submitted, nothing resolved, every permit free.
    pub fn new(links: Vec<Link>, cap: u64) -> (r: Batch)
        requires
            cap >= 1,
        ensures
            r.wf(),
            r.links == links,
            r.next == 0,
            r.admission == (Admission { cap, active: 0 }),
            r.results@.len() == links@.len(),
            forall|i: int| 0 <= i < r.results@.len() ==> r.results@[i] is None,
    {
        let n = links.len();
        let mut results: Vec<Option<TransferOutcome>> = Vec::new();
        let mut i: usize = 0;
        while i < n
            invariant
                i <= n,
                results@.len() == i as int,
                forall|j: int| 0 <= j < i as int ==> results@[j] is None,
            decreases n - i,
        {
            results.push(None);
            i = i + 1;
        }
        proof {
            lemma_resolved_all_none(results@);
        }
        Batch { links, admission: Admission::new(cap), next: 0, results }
    }

    /// Whether the next queued link may start now.
    pub fn can_submit(&self) -> (b: bool)
        ensures
            b == self.may_submit(),
    {
        self.next < self.links.len() && self.admission.has_free_slot()
    }

    /// Admit the next queued link: it takes one permit and its index is
    /// handed back so the caller can start its transfer unit.
    pub fn submit(&mut self) -> (idx: usize)
        requires
            old(self).wf(),
            old(self).may_submit(),
        ensures
            final(self).wf(),
            idx == old(self).next,
            final(self).next == old(self).next + 1,
            final(self).links == old(self).links,
            final(self).results == old(self).results,
            final(self).admission.cap == old(self).admission.cap,
            final(self).admission.active == old(self).admission.active + 1,
    {
        let idx = self.next;
        // Fetching the length shows the verifier that `idx + 1` fits.
        let n = self.links.len();
        assert(idx < n);
        self.next = idx + 1;
        let _granted = self.admission.try_acquire();
        idx
    }

    /// Record the one outcome of the unit for link `idx` and give its permit
    /// back. A failure frees the lane exactly as a success does: afterwards a
    /// permit is always free, and no other link's slot is touched, so queued
    /// and in-flight units are never held up by a completed one.
    pub fn complete(&mut self, idx: usize, outcome: TransferOutcome)
        requires
            old(self).wf(),
            idx < old(self).next,
            old(self).results@[idx as int] is None,
        ensures
            final(self).wf(),
            final(self).links == old(self).links,
            final(self).next == old(self).next,
            final(self).admission.cap == old(self).admission.cap,
            final(self).admission.active == old(self).admission.active - 1,
            final(self).admission.active < final(self).admission.cap,
            final(self).results@ == old(self).results@.update(idx as int, Some(outcome)),
            final(self).results@[idx as int] == Some(outcome),
            forall|j: int|
                0 <= j < old(self).results@.len() && j != idx ==> final(self).results@[j]
                    == old(self).results@[j],
    {
        proof {
            let s = self.results@;
            lemma_resolved_ignores_none_tail(s, self.next as int);
            lemma_resolved_with_none(s.take(self.next as int), idx as int);
            lemma_resolved_update_some(s, idx as int, outcome);
        }
        self.results.set(idx, Some(outcome));
        self.admission.release();
    }

    /// Whether the batch has finished.
    pub fn is_done(&self) -> (b: bool)
        ensures
            b == self.done(),
    {
        self.next == self.links.len() && self.admission.active == 0
    }

    /// The final report of a finished batch: for each link, in submission
    /// order, its name beside its one recorded outcome.
    pub fn report(&self) -> (r: Vec<(String, TransferOutcome)>)
        requires
            self.wf(),
            self.done(),
        ensures
            r@.len() == self.links@.len(),
            forall|i: int|
                0 <= i < r@.len() ==> #[trigger] r@[i] == (
                self.links@[i].name,
                self.results@[i]->0,
                ),
    {
        proof {
            lemma_resolved_full(self.results@);
        }
        let n = self.links.len();
        let mut r: Vec<(String, TransferOutcome)> = Vec::new();
        let mut i: usize = 0;
        while i < n
            invariant
                self.wf(),
                self.done(),
                n == self.links@.len(),
                i <= n,
                r@.len() == i as int,
                forall|k: int| 0 <= k < self.results@.len() ==> self.results@[k] is Some,
                forall|k: int|
                    0 <= k < i as int ==> #[trigger] r@[k] == (
                    self.links@[k].name,
                    self.results@[k]->0,
                    ),
            decreases n - i,
        {
            let o = self.results[i].unwrap();
            let nm = self.links[i].name.clone();
            r.push((nm, o));
            assert(r@[i as int] == (self.links@[i as int].name, self.results@[i as int]->0));
            i = i + 1;
        }
        r
    }
}

/// However many links wait and whatever has failed so far, the number of
/// transfer units in flight never exceeds the concurrency cap, nor the
/// number of links in the batch.
pub proof fn lemma_in_flight_bounded(b: Batch)
    requires
        b.wf(),
    ensures
        b.admission.active <= b.admission.cap,
        b.admission.active as int <= b.links@.len(),
{
    lemma_resolved_bounds(b.results@);
}

/// When a batch is done, every link has exactly one recorded outcome:
/// the result table is as long as the link list and every slot is filled.
pub proof fn lemma_done_one_result_each(b: Batch)
    requires
        b.wf(),
        b.done(),
    ensures
        b.results@.len() == b.links@.len(),
        forall|i: int| 0 <= i < b.results@.len() ==> b.results@[i] is Some,
{
    lemma_resolved_full(b.results@);
}

} // verus!
