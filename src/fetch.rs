//! The fetch coordinator: which nodes have an expansion outstanding, and what
//! each streamed outcome of an expansion does to the graph.

use vstd::prelude::*;

use crate::graph::{upsert_post, GraphStore, GraphView};
use crate::topology::INDEX_LIMIT;
use crate::url::Url;

verus! {

/// Names one expansion: the node it was started for, and the reset epoch it
/// was started in. Outcomes carrying a ticket of an earlier epoch are dropped.
#[derive(Debug, Clone, Copy, PartialEq, Eq, Structural)]
pub struct Ticket {
    pub epoch: u64,
    pub node: usize,
}

/// Whether any expansion is still outstanding.
#[derive(Debug, Clone, Copy, PartialEq, Eq, Structural)]
pub enum ExpansionStatus {
    AllDone,
    StillPending,
}

/// One thing that a retrieval worker reports.
#[derive(Debug, Clone)]
pub enum Outcome {
    /// A link found on the page.
    Found(Url),
    /// One link could not be retrieved; the expansion goes on.
    ItemFailed,
    /// The worker finished normally and its stream is drained.
    Finished,
    /// The worker itself failed.
    Faulted,
}

/// What handing an outcome to the coordinator did.
#[derive(Debug, Clone, Copy, PartialEq, Eq, Structural)]
pub enum Applied {
    /// The ticket belongs to no outstanding expansion: nothing changed.
    Stale,
    /// The link was merged into the graph as child `index`, new or not.
    Added { index: usize, new: bool },
    /// The graph cannot take one more node or edge: nothing changed.
    Full,
    /// An item error, which changes nothing.
    Skipped,
    /// The expansion ended normally and is no longer outstanding.
    Completed,
    /// The expansion ended in a fault and is no longer outstanding.
    Failed,
}

/// How a worker's expansion ended, once its handle reports it finished and
/// its channel is drained: normally where it sent its last report, in a fault
/// where it stopped without it. `None` while it may still report.
pub fn completion_outcome(done_seen: bool, channel_empty: bool, handle_finished: bool) -> (r: Option<
    Outcome,
>)
    ensures
        !(handle_finished && channel_empty) ==> r is None,
        handle_finished && channel_empty && done_seen ==> r matches Some(Outcome::Finished),
        handle_finished && channel_empty && !done_seen ==> r matches Some(Outcome::Faulted),
{
    if !(handle_finished && channel_empty) {
        None
    } else if done_seen {
        Some(Outcome::Finished)
    } else {
        Some(Outcome::Faulted)
    }
}

/// What a coordinator holds.
pub struct FetchView {
    /// The nodes with an outstanding expansion.
    pub active: Seq<usize>,
    /// The current reset epoch.
    pub epoch: u64,
    /// Whether some expansion of this epoch ended in a fault.
    pub failed: bool,
}

impl FetchView {
    pub open spec fn valid(self) -> bool {
        forall|i: int, j: int|
            0 <= i < self.active.len() && 0 <= j < self.active.len() && i != j ==> self.active[i]
                != self.active[j]
    }

    /// `t` names an outstanding expansion.
    pub open spec fn is_live(self, t: Ticket) -> bool {
        t.epoch == self.epoch && self.active.contains(t.node)
    }
}

/// The epoch after `e`.
pub open spec fn next_epoch(e: u64) -> u64 {
    if e == u64::MAX {
        0
    } else {
        (e + 1) as u64
    }
}

/// `f1`, `g1` and `r` are what applying `outcome`, reported under `ticket`,
/// makes of the coordinator `f0` and the graph `g0`.
pub open spec fn apply_post<P>(
    f0: FetchView,
    g0: GraphView<P>,
    ticket: Ticket,
    outcome: Outcome,
    pos: P,
    f1: FetchView,
    g1: GraphView<P>,
    r: Applied,
) -> bool {
    if !f0.is_live(ticket) {
        r == Applied::Stale && f1 == f0 && g1 == g0
    } else {
        match outcome {
            Outcome::Found(link) => if g0.len() + 1 < INDEX_LIMIT && g0.edges.len() + 1 < INDEX_LIMIT {
                &&& r matches Applied::Added { index, new }
                &&& upsert_post(g0, ticket.node, link@, pos, g1, (index, new))
                &&& f1 == f0
            } else {
                r == Applied::Full && f1 == f0 && g1 == g0
            },
            Outcome::ItemFailed => r == Applied::Skipped && f1 == f0 && g1 == g0,
            Outcome::Finished => {
                &&& r == Applied::Completed
                &&& g1 == g0
                &&& f1.epoch == f0.epoch
                &&& f1.failed == f0.failed
                &&& forall|x: usize| f1.active.contains(x) <==> (f0.active.contains(x) && x != ticket.node)
            },
            Outcome::Faulted => {
                &&& r == Applied::Failed
                &&& g1 == g0
                &&& f1.epoch == f0.epoch
                &&& f1.failed
                &&& forall|x: usize| f1.active.contains(x) <==> (f0.active.contains(x) && x != ticket.node)
            },
        }
    }
}

/// The coordinator of the outstanding expansions.
pub struct FetchCoordinator {
    active: Vec<usize>,
    epoch: u64,
    failed: bool,
}

impl View for FetchCoordinator {
    type V = FetchView;

    closed spec fn view(&self) -> FetchView {
        FetchView { active: self.active@, epoch: self.epoch, failed: self.failed }
    }
}

impl FetchCoordinator {
    pub open spec fn wf(&self) -> bool {
        self@.valid()
    }

    /// A coordinator with nothing outstanding.
    pub fn new() -> (r: FetchCoordinator)
        ensures
            r.wf(),
            r@.active == Seq::<usize>::empty(),
            r@.epoch == 0,
            !r@.failed,
    {
        FetchCoordinator { active: Vec::new(), epoch: 0, failed: false }
    }

    /// Forgets every outstanding expansion and starts a new epoch, so that
    /// whatever their workers still report is dropped.
    pub fn reset(&mut self)
        ensures
            final(self).wf(),
            final(self)@ == (FetchView {
                active: Seq::empty(),
                epoch: next_epoch(old(self)@.epoch),
                failed: false,
            }),
    {
        self.active = Vec::new();
        self.epoch = if self.epoch == u64::MAX {
            0
        } else {
            self.epoch + 1
        };
        self.failed = false;
    }

    /// Whether node `node` has an outstanding expansion.
    pub fn is_active(&self, node: usize) -> (r: bool)
        ensures
            r == self@.active.contains(node),
    {
        let mut i: usize = 0;
        while i < self.active.len()
            invariant
                i <= self.active.len(),
                forall|k: int| 0 <= k < i ==> self.active@[k] != node,
            decreases self.active.len() - i,
        {
            if self.active[i] == node {
                return true;
            }
            i = i + 1;
        }
        false
    }

    /// The nodes with an outstanding expansion, in the order they were started.
    pub fn active(&self) -> (r: Vec<usize>)
        ensures
            r@ == self@.active,
    {
        self.active.clone()
    }

    /// The number of outstanding expansions.
    pub fn active_count(&self) -> (r: usize)
        ensures
            r == self@.active.len(),
    {
        self.active.len()
    }

    /// Whether some expansion of this epoch ended in a fault.
    pub fn has_failed(&self) -> (r: bool)
        ensures
            r == self@.failed,
    {
        self.failed
    }

    /// Forgets that an expansion ended in a fault.
    pub fn clear_failure(&mut self)
        requires
            old(self).wf(),
        ensures
            final(self).wf(),
            final(self)@ == (FetchView { failed: false, ..old(self)@ }),
    {
        self.failed = false;
    }

    /// Starts the expansion of `node`, which has none outstanding, and returns
    /// the ticket its worker's outcomes are to carry.
    pub fn begin_expansion(&mut self, node: usize) -> (r: Ticket)
        requires
            old(self).wf(),
            !old(self)@.active.contains(node),
        ensures
            final(self).wf(),
            final(self)@ == (FetchView { active: old(self)@.active.push(node), ..old(self)@ }),
            r == (Ticket { epoch: old(self)@.epoch, node }),
    {
        let ghost a = self.active@;
        self.active.push(node);
        proof {
            assert forall|i: int, j: int|
                0 <= i < self.active@.len() && 0 <= j < self.active@.len() && i != j implies self.active@[i]
                != self.active@[j] by {
                if i == a.len() {
                    assert(a[j] == self.active@[j]);
                    assert(a.contains(self.active@[j]));
                } else if j == a.len() {
                    assert(a[i] == self.active@[i]);
                    assert(a.contains(self.active@[i]));
                }
            }
        }
        Ticket { epoch: self.epoch, node }
    }

    /// Removes `node` from the outstanding expansions.
    fn finish(&mut self, node: usize)
        requires
            old(self).wf(),
            old(self)@.active.contains(node),
        ensures
            final(self).wf(),
            final(self)@.epoch == old(self)@.epoch,
            final(self)@.failed == old(self)@.failed,
            forall|x: usize| final(self)@.active.contains(x) <==> (old(self)@.active.contains(x) && x != node),
    {
        let ghost a = self.active@;
        let mut i: usize = 0;
        while i < self.active.len() && self.active[i] != node
            invariant
                self.active@ == a,
                i <= a.len(),
                forall|k: int| 0 <= k < i ==> a[k] != node,
            decreases a.len() - i,
        {
            i = i + 1;
        }
        if i == self.active.len() {
            proof {
                let k = choose|k: int| 0 <= k < a.len() && a[k] == node;
                assert(a[k] == node);
            }
            return;
        }
        self.active.remove(i);
        proof {
            assert(self.active@ =~= a.remove(i as int));
            assert forall|x: usize| self.active@.contains(x) <==> (a.contains(x) && x != node) by {
                if self.active@.contains(x) {
                    let k = choose|k: int| 0 <= k < self.active@.len() && self.active@[k] == x;
                    if k < i {
                        assert(a[k] == x);
                        assert(k != i as int);
                    } else {
                        assert(a[k + 1] == x);
                        assert(k + 1 != i as int);
                    }
                }
                if a.contains(x) && x != node {
                    let k = choose|k: int| 0 <= k < a.len() && a[k] == x;
                    assert(k != i as int);
                    if k < i {
                        assert(self.active@[k] == x);
                    } else {
                        assert(self.active@[k - 1] == x);
                    }
                }
            }
        }
    }

    /// AllDone when nothing is outstanding, else StillPending.
    pub fn status(&self) -> (r: ExpansionStatus)
        ensures
            r == (if self@.active.len() == 0 {
                ExpansionStatus::AllDone
            } else {
                ExpansionStatus::StillPending
            }),
    {
        if self.active.len() == 0 {
            ExpansionStatus::AllDone
        } else {
            ExpansionStatus::StillPending
        }
    }

    /// Applies one outcome reported under `ticket`: a found link is merged
    /// into `g` as a child of the ticket's node (a new node goes at `pos`); an
    /// item error changes nothing; the end of the stream, or a fault, ends the
    /// expansion, a fault also marking the epoch as failed. An outcome under a
    /// ticket that is not outstanding changes nothing.
    pub fn apply<P: Copy>(
        &mut self,
        g: &mut GraphStore<P>,
        ticket: Ticket,
        outcome: Outcome,
        pos: P,
    ) -> (r: Applied)
        requires
            old(self).wf(),
            old(g).wf(),
            forall|x: usize| old(self)@.active.contains(x) ==> x < old(g)@.len(),
        ensures
            final(self).wf(),
            final(g).wf(),
            apply_post(old(self)@, old(g)@, ticket, outcome, pos, final(self)@, final(g)@, r),
            forall|x: usize| final(self)@.active.contains(x) ==> x < final(g)@.len(),
    {
        if ticket.epoch != self.epoch || !self.is_active(ticket.node) {
            return Applied::Stale;
        }
        match outcome {
            Outcome::Found(link) => {
                let n = g.node_count();
                let e = g.edge_count();
                if n < INDEX_LIMIT - 1 && e < INDEX_LIMIT - 1 {
                    let (index, new) = g.upsert_child(ticket.node, link, pos);
                    Applied::Added { index, new }
                } else {
                    Applied::Full
                }
            },
            Outcome::ItemFailed => Applied::Skipped,
            Outcome::Finished => {
                self.finish(ticket.node);
                Applied::Completed
            },
            Outcome::Faulted => {
                self.finish(ticket.node);
                self.failed = true;
                Applied::Failed
            },
        }
    }
}

} // verus!
