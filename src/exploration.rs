//! The exploration: a root submitted by the user, the expansions it grows by,
//! and navigation over the result, driven one event at a time.

use vstd::prelude::*;

use crate::cursor::{
    is_member_list, lemma_next_child_wraps, lemma_out_targets_bound, Cursor, CursorView, NavError,
    Position,
};
use crate::fetch::{apply_post, Applied, FetchCoordinator, FetchView, Outcome, Ticket};
use crate::graph::{GraphStore, GraphView};
use crate::layout::{reconcile, reconcile_post, LayoutSync, MirrorPlan};
use crate::topology::{out_targets, INDEX_LIMIT};
use crate::text::has_infix;
use crate::url::{kind_of, parsed_url, Type, Url, UrlView, WIKI_HOST};

verus! {

/// Where the exploration stands.
#[derive(Debug, Clone, Copy, PartialEq, Eq, Structural)]
pub enum State {
    /// Waiting for the user to submit a root.
    AwaitingRoot,
    /// The submitted root was rejected.
    RootInvalid,
    /// Links are being fetched.
    Expanding,
    /// An expansion's worker failed.
    ExpansionFailed,
    /// All expansions finished and the cursor has been updated.
    Ready,
    /// The graph can be navigated.
    Navigable,
}

/// Why a submitted root was rejected.
#[derive(Debug, Clone, Copy, PartialEq, Eq, Structural)]
pub enum RootRejected {
    /// The text is not an absolute link.
    Malformed,
    /// The link is not on the wiki.
    NotWiki,
}

/// What an exploration holds.
pub struct ExplorationView<P> {
    pub graph: GraphView<P>,
    pub fetch: FetchView,
    pub cursor: Option<CursorView>,
    pub state: State,
    /// The node whose expansion the cursor registers when all are done.
    pub expanding: Option<usize>,
    /// How many nodes and edges the layout mirrors.
    pub synced: (usize, usize),
}

/// Every member of every root of `c` is a node of a graph of `n` nodes.
pub open spec fn members_within(c: CursorView, n: nat) -> bool {
    forall|t: int, x: usize| 0 <= t < c.members.len() && c.members[t].contains(x) ==> x < n
}

/// The link of `root` is accepted as the root of an exploration.
pub open spec fn acceptable_root(text: Seq<char>) -> bool {
    parsed_url(text) matches Some(p) && has_infix(p.1, WIKI_HOST@)
}

impl<P> ExplorationView<P> {
    pub open spec fn valid(self) -> bool {
        &&& self.graph.valid()
        &&& self.fetch.valid()
        &&& forall|x: usize| self.fetch.active.contains(x) ==> x < self.graph.len()
        &&& self.cursor matches Some(c) ==> c.valid() && members_within(c, self.graph.len())
        &&& self.expanding matches Some(r) ==> r < self.graph.len()
        &&& self.synced.0 <= self.graph.len()
        &&& self.synced.1 <= self.graph.edges.len()
        &&& (self.state == State::Navigable || self.state == State::Ready) ==> self.cursor is Some
        &&& self.state == State::Expanding ==> self.expanding is Some
    }

    /// Only the cursor and the graph's selection may differ between `self` and `h`.
    pub open spec fn same_but_navigation(self, h: ExplorationView<P>) -> bool {
        &&& h.graph == (GraphView { selected: h.graph.selected, ..self.graph })
        &&& h.fetch == self.fetch
        &&& h.state == self.state
        &&& h.expanding == self.expanding
        &&& h.synced == self.synced
    }

    /// The kind of node `n`.
    pub open spec fn kind(self, n: usize) -> Type {
        kind_of(self.graph.urls[n as int])
    }
}

/// Once a new root is accepted (which moves the coordinator from `f0` to a
/// state `f1` of another epoch), an outcome reported under a ticket of the
/// earlier epoch is dropped: it changes neither the coordinator nor the graph.
pub proof fn lemma_reset_discards_old_tickets<P>(
    f0: FetchView,
    f1: FetchView,
    g1: GraphView<P>,
    t: Ticket,
    outcome: Outcome,
    pos: P,
    f2: FetchView,
    g2: GraphView<P>,
    r: Applied,
)
    requires
        t.epoch == f0.epoch,
        f1.epoch != f0.epoch,
        apply_post(f1, g1, t, outcome, pos, f2, g2, r),
    ensures
        r == Applied::Stale,
        f2 == f1,
        g2 == g1,
{
}

/// An exploration of linked pages.
pub struct Exploration<P> {
    graph: GraphStore<P>,
    fetch: FetchCoordinator,
    cursor: Option<Cursor>,
    layout: LayoutSync,
    state: State,
    expanding: Option<usize>,
}

impl<P: Copy> View for Exploration<P> {
    type V = ExplorationView<P>;

    closed spec fn view(&self) -> ExplorationView<P> {
        ExplorationView {
            graph: self.graph@,
            fetch: self.fetch@,
            cursor: match self.cursor {
                Some(c) => Some(c@),
                None => None,
            },
            state: self.state,
            expanding: self.expanding,
            synced: (self.layout.nodes, self.layout.edges),
        }
    }
}

proof fn lemma_children_within<P>(g: GraphView<P>, root: usize, m: Seq<usize>)
    requires
        g.valid(),
        root < g.len(),
        is_member_list(m, root, out_targets(g.edges, root)),
    ensures
        forall|x: usize| m.contains(x) ==> x < g.len(),
{
    assert forall|x: usize| m.contains(x) implies x < g.len() by {
        if x != root {
            lemma_out_targets_bound(g.edges, root, x);
            let k = choose|k: int| 0 <= k < g.edges.len() && g.edges[k] == (root, x);
            assert(g.edges_in_range());
        }
    }
}

/// The cursor `c` after `j` steps forward, or back.
pub open spec fn steps(c: CursorView, j: nat, forward: bool) -> CursorView {
    if forward {
        c.after_nexts(j)
    } else {
        c.after_prevs(j)
    }
}

/// The first article that `j` steps from `c0` reach, with the cursor `c1`
/// there: no earlier step reached an article.
pub open spec fn first_article_at<P>(
    c0: CursorView,
    g: GraphView<P>,
    forward: bool,
    j: nat,
    c1: CursorView,
) -> bool {
    &&& 1 <= j <= c0.here().len()
    &&& c1 == steps(c0, j, forward)
    &&& kind_of(g.urls[c1.node as int]) == Type::Article
    &&& forall|i: nat|
        1 <= i < j ==> kind_of(g.urls[#[trigger] steps(c0, i, forward).node as int])
            != Type::Article
}

/// Steps `c` forward (or back) through the current root's members until an
/// article of `g` is reached, for at most one full turn.
fn seek_article<P: Copy>(c: &mut Cursor, g: &GraphStore<P>, forward: bool) -> (r: Option<usize>)
    requires
        old(c).wf(),
        g.wf(),
        members_within(old(c)@, g@.len()),
    ensures
        final(c).wf(),
        members_within(final(c)@, g@.len()),
        ({
            let c0 = old(c)@;
            let n = c0.here().len();
            match r {
                Some(x) => x == final(c)@.node && exists|j: nat|
                    first_article_at(c0, g@, forward, j, final(c)@),
                None => final(c)@ == c0 && forall|i: nat|
                    1 <= i <= n ==> kind_of(g@.urls[#[trigger] steps(c0, i, forward).node as int])
                        != Type::Article,
            }
        }),
{
    let ghost c0 = c@;
    let n = c.member_count();
    let mut j: usize = 0;
    while j < n
        invariant
            c.wf(),
            c0 == old(c)@,
            0 <= j <= n,
            n == c0.here().len(),
            c0.valid(),
            g.wf(),
            members_within(c0, g@.len()),
            c@ == steps(c0, j as nat, forward),
            c@.roots == c0.roots && c@.members == c0.members && c@.current == c0.current
                && c@.tree == c0.tree,
            forall|i: nat|
                1 <= i <= j ==> kind_of(g@.urls[#[trigger] steps(c0, i, forward).node as int])
                    != Type::Article,
        decreases n - j,
    {
        let x = if forward {
            c.next_child()
        } else {
            c.prev_child()
        };
        proof {
            let jj: nat = (j + 1) as nat;
            assert((jj - 1) as nat == j as nat);
            if forward {
                assert(c0.after_nexts(jj) == c0.after_nexts((jj - 1) as nat).after_next());
            } else {
                assert(c0.after_prevs(jj) == c0.after_prevs((jj - 1) as nat).after_prev());
            }
        }
        j = j + 1;
        assert(c@ == steps(c0, j as nat, forward));
        assert(c@.members[c@.current as int].contains(x));
        let u = g.node(x).url();
        let kind = u.url_type();
        if kind == Type::Article {
            assert(first_article_at(c0, g@, forward, j as nat, c@));
            return Some(x);
        }
    }
    proof {
        lemma_next_child_wraps(c0);
    }
    None
}

impl<P: Copy> Exploration<P> {
    pub closed spec fn consistent(&self) -> bool {
        &&& self.graph.consistent()
        &&& self.cursor matches Some(c) ==> c.consistent()
    }

    /// The exploration's invariant.
    pub open spec fn wf(&self) -> bool {
        self.consistent() && self@.valid()
    }

    /// An exploration waiting for its root.
    pub fn new() -> (r: Exploration<P>)
        ensures
            r.wf(),
            r@.state == State::AwaitingRoot,
            r@.graph.len() == 0,
            r@.fetch.active.len() == 0,
            r@.cursor is None,
    {
        Exploration {
            graph: GraphStore::new(),
            fetch: FetchCoordinator::new(),
            cursor: None,
            layout: LayoutSync::new(),
            state: State::AwaitingRoot,
            expanding: None,
        }
    }

    /// Submits `text` as the root. A text that is not an absolute link on the
    /// wiki is rejected and leaves the state at RootInvalid. An accepted root
    /// replaces the whole exploration: the graph holds it alone (at `pos`),
    /// earlier expansions are forgotten, and its own expansion starts.
    pub fn submit_root(&mut self, text: &str, pos: P) -> (r: Result<Ticket, RootRejected>)
        requires
            old(self).wf(),
        ensures
            final(self).wf(),
            r is Ok <==> acceptable_root(text@),
            parsed_url(text@) is None ==> r == Err::<Ticket, RootRejected>(RootRejected::Malformed),
            parsed_url(text@) is Some && !acceptable_root(text@) ==> r == Err::<Ticket, RootRejected>(
                RootRejected::NotWiki,
            ),
            r is Err ==> final(self)@ == (ExplorationView { state: State::RootInvalid, ..old(self)@ }),
            r matches Ok(t) ==> {
                let p = parsed_url(text@)->Some_0;
                &&& final(self)@.graph.is_rooted_at(UrlView { val: p.0, host: p.1, path: p.2 }, pos)
                &&& final(self)@.fetch.active == seq![0usize]
                &&& final(self)@.fetch.epoch != old(self)@.fetch.epoch
                &&& !final(self)@.fetch.failed
                &&& t == Ticket { epoch: final(self)@.fetch.epoch, node: 0 }
                &&& final(self)@.cursor is None
                &&& final(self)@.state == State::Expanding
                &&& final(self)@.expanding == Some(0usize)
                &&& final(self)@.synced == (0usize, 0usize)
            },
    {
        let url = match Url::new(text) {
            Ok(u) => u,
            Err(_) => {
                self.state = State::RootInvalid;
                return Err(RootRejected::Malformed);
            },
        };
        if !url.is_wiki() {
            self.state = State::RootInvalid;
            return Err(RootRejected::NotWiki);
        }
        let root = self.graph.reset_with_root(url, pos);
        self.fetch.reset();
        self.cursor = None;
        self.layout.reset();
        let ticket = self.fetch.begin_expansion(root);
        assert(self.fetch@.active =~= seq![0usize]);
        self.expanding = Some(root);
        self.state = State::Expanding;
        Ok(ticket)
    }

    /// Hands one outcome of a worker to the coordinator; see
    /// `FetchCoordinator::apply`. Outcomes of expansions that a new root made
    /// stale change nothing.
    pub fn deliver(&mut self, ticket: Ticket, outcome: Outcome, pos: P) -> (r: Applied)
        requires
            old(self).wf(),
        ensures
            final(self).wf(),
            apply_post(
                old(self)@.fetch,
                old(self)@.graph,
                ticket,
                outcome,
                pos,
                final(self)@.fetch,
                final(self)@.graph,
                r,
            ),
            final(self)@.cursor == old(self)@.cursor,
            final(self)@.state == old(self)@.state,
            final(self)@.expanding == old(self)@.expanding,
            final(self)@.synced == old(self)@.synced,
    {
        self.fetch.apply(&mut self.graph, ticket, outcome, pos)
    }

    /// Advances the state once: an expansion with a failed worker goes to
    /// ExpansionFailed; one with nothing outstanding registers the expanded
    /// root with the cursor (creating the cursor the first time), selects that
    /// root and goes to Ready; Ready goes to Navigable. Other states stay.
    pub fn tick(&mut self) -> (r: State)
        requires
            old(self).wf(),
        ensures
            final(self).wf(),
            r == final(self)@.state,
            final(self)@.fetch == old(self)@.fetch,
            final(self)@.synced == old(self)@.synced,
            old(self)@.state == State::Expanding && old(self)@.fetch.failed ==> final(self)@
                == (ExplorationView { state: State::ExpansionFailed, ..old(self)@ }),
            old(self)@.state == State::Expanding && !old(self)@.fetch.failed
                && old(self)@.fetch.active.len() > 0 ==> final(self)@ == old(self)@,
            old(self)@.state == State::Expanding && !old(self)@.fetch.failed
                && old(self)@.fetch.active.len() == 0 && old(self)@.expanding is Some ==> {
                let root = old(self)@.expanding->Some_0;
                let children = out_targets(old(self)@.graph.edges, root);
                &&& final(self)@.state == State::Ready
                &&& final(self)@.graph == (GraphView { selected: Some(root), ..old(self)@.graph })
                &&& final(self)@.expanding is None
                &&& final(self)@.cursor matches Some(c) && match old(self)@.cursor {
                    None => c.roots == seq![root] && c.tree.len() == 0 && c.current == 0 && c.node
                        == root && is_member_list(c.members[0], root, children),
                    Some(c0) => c0.roots.len() + 1 < INDEX_LIMIT ==> crate::cursor::register_post(
                        c0,
                        root,
                        children,
                        c,
                    ),
                }
            },
            old(self)@.state == State::Ready ==> final(self)@ == (ExplorationView {
                state: State::Navigable,
                ..old(self)@
            }),
            old(self)@.state != State::Expanding && old(self)@.state != State::Ready ==> final(self)@
                == old(self)@,
    {
        match self.state {
            State::Expanding => {
                if self.fetch.has_failed() {
                    self.state = State::ExpansionFailed;
                } else if self.fetch.active_count() == 0 {
                    if let Some(root) = self.expanding {
                        self.register(root);
                        self.graph.set_selected(root);
                        self.expanding = None;
                    }
                    self.state = State::Ready;
                }
            },
            State::Ready => {
                self.state = State::Navigable;
            },
            _ => {},
        }
        self.state
    }

    /// Registers the finished expansion of `root` with the cursor.
    fn register(&mut self, root: usize)
        requires
            old(self).wf(),
            root < old(self)@.graph.len(),
        ensures
            final(self).consistent(),
            final(self)@ == (ExplorationView { cursor: final(self)@.cursor, ..old(self)@ }),
            final(self)@.cursor matches Some(c) && c.valid() && members_within(
                c,
                old(self)@.graph.len(),
            ),
            final(self)@.cursor matches Some(c) && match old(self)@.cursor {
                None => c.roots == seq![root] && c.tree.len() == 0 && c.current == 0 && c.node == root
                    && is_member_list(c.members[0], root, out_targets(old(self)@.graph.edges, root)),
                Some(c0) => c0.roots.len() + 1 < INDEX_LIMIT ==> crate::cursor::register_post(
                    c0,
                    root,
                    out_targets(old(self)@.graph.edges, root),
                    c,
                ),
            },
    {
        let ghost g = self.graph@;
        match self.cursor {
            None => {
                let c = Cursor::new(root, &self.graph);
                proof {
                    lemma_children_within(g, root, c@.members[0]);
                }
                self.cursor = Some(c);
            },
            Some(ref mut c) => {
                if c.root_count() < INDEX_LIMIT - 1 {
                    let ghost c0 = c@;
                    c.update(root, &self.graph);
                    proof {
                        lemma_children_within(g, root, c@.here());
                        assert forall|t: int, x: usize|
                            0 <= t < c@.members.len() && c@.members[t].contains(x) implies x < g.len() by {
                            if t != c@.current {
                                assert(c@.members[t] == c0.members[t]);
                            }
                        }
                    }
                }
            },
        }
    }

    /// Starts expanding the selected node, where the graph can be navigated
    /// and that node has no expansion outstanding; a fault of an earlier
    /// expansion is forgotten. Otherwise nothing changes.
    pub fn expand_selected(&mut self) -> (r: Option<Ticket>)
        requires
            old(self).wf(),
        ensures
            final(self).wf(),
            ({
                let s = old(self)@;
                if s.state == State::Navigable && s.graph.selected is Some
                    && !s.fetch.active.contains(s.graph.selected->Some_0) {
                    let i = s.graph.selected->Some_0;
                    &&& r == Some(Ticket { epoch: s.fetch.epoch, node: i })
                    &&& final(self)@ == (ExplorationView {
                        fetch: FetchView { active: s.fetch.active.push(i), failed: false, ..s.fetch },
                        state: State::Expanding,
                        expanding: Some(i),
                        ..s
                    })
                } else {
                    r is None && final(self)@ == s
                }
            }),
    {
        if self.state != State::Navigable {
            return None;
        }
        match self.graph.selected() {
            Some(i) => {
                if self.fetch.is_active(i) {
                    return None;
                }
                let ghost a = self.fetch@.active;
                self.fetch.clear_failure();
                let t = self.fetch.begin_expansion(i);
                assert forall|x: usize| self.fetch@.active.contains(x) implies x < self.graph@.len() by {
                    let k = choose|k: int| 0 <= k < self.fetch@.active.len() && self.fetch@.active[k] == x;
                    if k < a.len() {
                        assert(a[k] == x);
                        assert(a.contains(x));
                    } else {
                        assert(x == i);
                    }
                }
                self.expanding = Some(i);
                self.state = State::Expanding;
                Some(t)
            },
            None => None,
        }
    }

    /// Leaves ExpansionFailed: the fault is forgotten, and the state goes back
    /// to the graph where there is a cursor, else to waiting for a root.
    /// Other states stay.
    pub fn acknowledge_failure(&mut self) -> (r: State)
        requires
            old(self).wf(),
        ensures
            final(self).wf(),
            r == final(self)@.state,
            old(self)@.state == State::ExpansionFailed ==> final(self)@ == (ExplorationView {
                state: if old(self)@.cursor is Some {
                    State::Navigable
                } else {
                    State::AwaitingRoot
                },
                expanding: None,
                fetch: FetchView { failed: false, ..old(self)@.fetch },
                ..old(self)@
            }),
            old(self)@.state != State::ExpansionFailed ==> final(self)@ == old(self)@,
    {
        if self.state == State::ExpansionFailed {
            self.fetch.clear_failure();
            self.expanding = None;
            self.state = match self.cursor {
                Some(_) => State::Navigable,
                None => State::AwaitingRoot,
            };
        }
        self.state
    }

    /// The graph.
    pub fn graph(&self) -> (r: &GraphStore<P>)
        requires
            self.wf(),
        ensures
            r.wf(),
            r@ == self@.graph,
    {
        &self.graph
    }

    /// Where the exploration stands.
    pub fn state(&self) -> (r: State)
        ensures
            r == self@.state,
    {
        self.state
    }

    /// The number of outstanding expansions.
    pub fn active_count(&self) -> (r: usize)
        ensures
            r == self@.fetch.active.len(),
    {
        self.fetch.active_count()
    }

    /// The cursor's position, once there is a cursor.
    pub fn position(&self) -> (r: Option<Position>)
        requires
            self.wf(),
        ensures
            self@.cursor is None ==> r is None,
            self@.cursor matches Some(c) ==> r == Some((c.current_root(), c.node)),
    {
        match &self.cursor {
            Some(c) => Some(c.position()),
            None => None,
        }
    }

    /// The roots that have `idx` among their members; see `Cursor::roots`.
    pub fn roots_of(&self, idx: usize) -> (r: Option<Vec<usize>>)
        requires
            self.wf(),
        ensures
            self@.cursor is None ==> r is None,
            self@.cursor matches Some(c) ==> {
                &&& r is None <==> c.holders(idx, c.roots.len() as int).len() == 0
                &&& r matches Some(v) ==> v@ == c.holders(idx, c.roots.len() as int)
            },
    {
        match &self.cursor {
            Some(c) => c.roots(idx),
            None => None,
        }
    }

    /// Steps forward through the current root's members and selects the node
    /// reached; only while the graph can be navigated.
    pub fn select_next(&mut self) -> (r: Option<usize>)
        requires
            old(self).wf(),
        ensures
            final(self).wf(),
            old(self)@.state != State::Navigable ==> r is None && final(self)@ == old(self)@,
            old(self)@.state == State::Navigable ==> {
                let c = old(self)@.cursor->Some_0.after_next();
                &&& r == Some(c.node)
                &&& final(self)@.cursor == Some(c)
                &&& final(self)@.graph.selected == Some(c.node)
                &&& old(self)@.same_but_navigation(final(self)@)
            },
    {
        if self.state != State::Navigable {
            return None;
        }
        match self.cursor {
            Some(ref mut c) => {
                let n = c.next_child();
                self.graph.set_selected(n);
                Some(n)
            },
            None => None,
        }
    }

    /// Steps back through the current root's members and selects the node
    /// reached; only while the graph can be navigated.
    pub fn select_prev(&mut self) -> (r: Option<usize>)
        requires
            old(self).wf(),
        ensures
            final(self).wf(),
            old(self)@.state != State::Navigable ==> r is None && final(self)@ == old(self)@,
            old(self)@.state == State::Navigable ==> {
                let c = old(self)@.cursor->Some_0.after_prev();
                &&& r == Some(c.node)
                &&& final(self)@.cursor == Some(c)
                &&& final(self)@.graph.selected == Some(c.node)
                &&& old(self)@.same_but_navigation(final(self)@)
            },
    {
        if self.state != State::Navigable {
            return None;
        }
        match self.cursor {
            Some(ref mut c) => {
                let n = c.prev_child();
                self.graph.set_selected(n);
                Some(n)
            },
            None => None,
        }
    }

    /// Steps forward through the current root's members to the first article
    /// and selects it, taking at most one full turn; where no member is an
    /// article the cursor ends where it started and nothing is selected anew.
    pub fn select_next_article(&mut self) -> (r: Option<usize>)
        requires
            old(self).wf(),
        ensures
            final(self).wf(),
            old(self)@.state != State::Navigable ==> r is None && final(self)@ == old(self)@,
            old(self)@.state == State::Navigable ==> {
                let s = old(self)@;
                let c = s.cursor->Some_0;
                let n = c.here().len();
                match r {
                    Some(x) => {
                        &&& final(self)@.cursor matches Some(c1) && x == c1.node && exists|j: nat|
                            first_article_at(c, s.graph, true, j, c1)
                        &&& final(self)@.graph.selected == Some(x)
                        &&& s.same_but_navigation(final(self)@)
                    },
                    None => final(self)@ == s && forall|i: nat|
                        1 <= i <= n ==> s.kind(#[trigger] steps(c, i, true).node) != Type::Article,
                }
            },
    {
        if self.state != State::Navigable {
            return None;
        }
        match self.cursor {
            Some(ref mut c) => {
                let found = seek_article(c, &self.graph, true);
                match found {
                    Some(x) => {
                        self.graph.set_selected(x);
                        Some(x)
                    },
                    None => None,
                }
            },
            None => None,
        }
    }

    /// Steps back through the current root's members to the first article and
    /// selects it, taking at most one full turn; where no member is an article
    /// the cursor ends where it started and nothing is selected anew.
    pub fn select_prev_article(&mut self) -> (r: Option<usize>)
        requires
            old(self).wf(),
        ensures
            final(self).wf(),
            old(self)@.state != State::Navigable ==> r is None && final(self)@ == old(self)@,
            old(self)@.state == State::Navigable ==> {
                let s = old(self)@;
                let c = s.cursor->Some_0;
                let n = c.here().len();
                match r {
                    Some(x) => {
                        &&& final(self)@.cursor matches Some(c1) && x == c1.node && exists|j: nat|
                            first_article_at(c, s.graph, false, j, c1)
                        &&& final(self)@.graph.selected == Some(x)
                        &&& s.same_but_navigation(final(self)@)
                    },
                    None => final(self)@ == s && forall|i: nat|
                        1 <= i <= n ==> s.kind(#[trigger] steps(c, i, false).node) != Type::Article,
                }
            },
    {
        if self.state != State::Navigable {
            return None;
        }
        match self.cursor {
            Some(ref mut c) => {
                let found = seek_article(c, &self.graph, false);
                match found {
                    Some(x) => {
                        self.graph.set_selected(x);
                        Some(x)
                    },
                    None => None,
                }
            },
            None => None,
        }
    }

    /// Moves to the root most recently expanded from inside the current one
    /// (the cursor to its first member) and selects that root; without one,
    /// the cursor stays and the current root is selected. Only while the
    /// graph can be navigated.
    pub fn select_next_root(&mut self) -> (r: Option<usize>)
        requires
            old(self).wf(),
        ensures
            final(self).wf(),
            old(self)@.state != State::Navigable ==> r is None && final(self)@ == old(self)@,
            old(self)@.state == State::Navigable ==> {
                let c = old(self)@.cursor->Some_0;
                let outs = out_targets(c.tree, c.current);
                let (c1, root) = if outs.len() == 0 {
                    (c, c.current_root())
                } else {
                    (
                        CursorView { current: outs[0], node: c.members[outs[0] as int][0], ..c },
                        c.roots[outs[0] as int],
                    )
                };
                &&& r == Some(root)
                &&& final(self)@.cursor == Some(c1)
                &&& final(self)@.graph.selected == Some(root)
                &&& old(self)@.same_but_navigation(final(self)@)
            },
    {
        if self.state != State::Navigable {
            return None;
        }
        match self.cursor {
            Some(ref mut c) => {
                let current = c.position().0;
                let n = match c.next_root() {
                    Some(root) => root,
                    None => current,
                };
                self.graph.set_selected(n);
                Some(n)
            },
            None => None,
        }
    }

    /// Moves to the root that the current one was expanded from (the cursor
    /// to its first member) and selects that root; at the first root, the
    /// cursor stays and that root is selected. Only while the graph can be
    /// navigated.
    pub fn select_prev_root(&mut self) -> (r: Option<usize>)
        requires
            old(self).wf(),
        ensures
            final(self).wf(),
            old(self)@.state != State::Navigable ==> r is None && final(self)@ == old(self)@,
            old(self)@.state == State::Navigable ==> {
                let c = old(self)@.cursor->Some_0;
                let ins = crate::topology::in_sources(c.tree, c.current);
                let (c1, root) = if ins.len() == 0 {
                    (c, c.current_root())
                } else {
                    (
                        CursorView { current: ins[0], node: c.members[ins[0] as int][0], ..c },
                        c.roots[ins[0] as int],
                    )
                };
                &&& r == Some(root)
                &&& final(self)@.cursor == Some(c1)
                &&& final(self)@.graph.selected == Some(root)
                &&& old(self)@.same_but_navigation(final(self)@)
            },
    {
        if self.state != State::Navigable {
            return None;
        }
        match self.cursor {
            Some(ref mut c) => {
                let current = c.position().0;
                let n = match c.prev_root() {
                    Some(root) => root,
                    None => current,
                };
                self.graph.set_selected(n);
                Some(n)
            },
            None => None,
        }
    }

    /// The user selected node `idx`: the cursor moves to it under the root
    /// that `Cursor::sticky_root` takes, and it becomes the selected node.
    /// Fails, changing nothing, before the first expansion has finished or
    /// where no root has `idx` as a member.
    pub fn select_node(&mut self, idx: usize) -> (r: Result<usize, NavError>)
        requires
            old(self).wf(),
        ensures
            final(self).wf(),
            old(self)@.cursor is None ==> r == Err::<usize, NavError>(NavError::Uninitialized)
                && final(self)@ == old(self)@,
            old(self)@.cursor matches Some(c) ==> {
                &&& r is Err <==> forall|t: int| !c.holds(t, idx)
                &&& r is Err ==> r == Err::<usize, NavError>(NavError::NotMember) && final(self)@ == old(self)@
                &&& r matches Ok(x) ==> exists|t: int|
                    c.sticky_choice(idx, t) && c.roots[t] == x && final(self)@.cursor == Some(
                        CursorView { current: t as usize, node: idx, ..c },
                    ) && final(self)@.graph.selected == Some(idx) && old(self)@.same_but_navigation(
                        final(self)@,
                    )
            },
    {
        match self.cursor {
            Some(ref mut c) => {
                let r = c.move_to(idx);
                match r {
                    Ok(x) => {
                        assert(c@.members[c@.current as int].contains(idx));
                        self.graph.set_selected(idx);
                        Ok(x)
                    },
                    Err(e) => Err(e),
                }
            },
            None => Err(NavError::Uninitialized),
        }
    }

    /// The user drags node `i` to `pos`; false, changing nothing, where there
    /// is no node `i`.
    pub fn drag(&mut self, i: usize, pos: P) -> (r: bool)
        requires
            old(self).wf(),
        ensures
            final(self).wf(),
            r == (i < old(self)@.graph.len()),
            !r ==> final(self)@ == old(self)@,
            r ==> final(self)@ == (ExplorationView {
                graph: GraphView {
                    positions: old(self)@.graph.positions.update(i as int, pos),
                    manual: old(self)@.graph.manual.update(i as int, true),
                    ..old(self)@.graph
                },
                ..old(self)@
            }),
    {
        if i < self.graph.node_count() {
            self.graph.set_manual_position(i, pos);
            true
        } else {
            false
        }
    }

    /// The user lets go of node `i`; false, changing nothing, where there is
    /// no node `i`.
    pub fn release(&mut self, i: usize) -> (r: bool)
        requires
            old(self).wf(),
        ensures
            final(self).wf(),
            r == (i < old(self)@.graph.len()),
            !r ==> final(self)@ == old(self)@,
            r ==> final(self)@ == (ExplorationView {
                graph: GraphView {
                    manual: old(self)@.graph.manual.update(i as int, false),
                    ..old(self)@.graph
                },
                ..old(self)@
            }),
    {
        if i < self.graph.node_count() {
            self.graph.clear_manual_position(i);
            true
        } else {
            false
        }
    }

    /// The points and edges that the layout still lacks; see
    /// `LayoutSync::mirror_topology`.
    pub fn mirror_topology(&mut self) -> (r: MirrorPlan)
        requires
            old(self).wf(),
        ensures
            final(self).wf(),
            final(self)@ == (ExplorationView {
                synced: (old(self)@.graph.len() as usize, old(self)@.graph.edges.len() as usize),
                ..old(self)@
            }),
            r.nodes@.len() == old(self)@.graph.len() - old(self)@.synced.0,
            forall|k: int| 0 <= k < r.nodes@.len() ==> r.nodes@[k] == old(self)@.synced.0 + k,
            r.edges@ == old(self)@.graph.edges.subrange(
                old(self)@.synced.1 as int,
                old(self)@.graph.edges.len() as int,
            ),
    {
        self.layout.mirror_topology(&self.graph)
    }

    /// Settles each node's position between the graph and the layout's points
    /// `sim`, indexed like the nodes; see `reconcile`. False, changing nothing,
    /// where `sim` does not hold one point per node.
    pub fn reconcile(&mut self, sim: &mut Vec<P>) -> (r: bool)
        requires
            old(self).wf(),
        ensures
            final(self).wf(),
            r == (old(sim)@.len() == old(self)@.graph.len()),
            !r ==> final(self)@ == old(self)@ && final(sim)@ == old(sim)@,
            r ==> reconcile_post(old(self)@.graph, old(sim)@, final(self)@.graph, final(sim)@)
                && final(self)@ == (ExplorationView { graph: final(self)@.graph, ..old(self)@ }),
    {
        if sim.len() != self.graph.node_count() {
            return false;
        }
        reconcile(&mut self.graph, sim);
        true
    }
}

} // verus!
