//! Synchronisation between the graph store and a force-directed layout: which
//! points and edges the layout still lacks, which of its edges are self-loops
//! to take out for the duration of a step, and who owns each node's position.

use vstd::prelude::*;

use crate::graph::{GraphStore, GraphView};

verus! {

/// The edges of `e` that join a node to itself, as those nodes, in order.
pub open spec fn loop_nodes(e: Seq<(usize, usize)>) -> Seq<usize>
    decreases e.len(),
{
    if e.len() == 0 {
        Seq::empty()
    } else if e.last().0 == e.last().1 {
        loop_nodes(e.drop_last()).push(e.last().0)
    } else {
        loop_nodes(e.drop_last())
    }
}

/// The edges of `e` that are not self-loops, in order.
pub open spec fn without_loops(e: Seq<(usize, usize)>) -> Seq<(usize, usize)>
    decreases e.len(),
{
    if e.len() == 0 {
        Seq::empty()
    } else if e.last().0 == e.last().1 {
        without_loops(e.drop_last())
    } else {
        without_loops(e.drop_last()).push(e.last())
    }
}

/// The positions in `e` of its self-loops, in increasing order.
pub open spec fn loop_positions(e: Seq<(usize, usize)>) -> Seq<usize>
    decreases e.len(),
{
    if e.len() == 0 {
        Seq::empty()
    } else if e.last().0 == e.last().1 {
        loop_positions(e.drop_last()).push((e.len() - 1) as usize)
    } else {
        loop_positions(e.drop_last())
    }
}

/// A self-loop on each of `nodes`, in order.
pub open spec fn loops_on(nodes: Seq<usize>) -> Seq<(usize, usize)> {
    nodes.map_values(|n: usize| (n, n))
}

/// The nodes that have a self-loop in `e`.
pub open spec fn loop_set(e: Seq<(usize, usize)>) -> Set<usize> {
    Set::new(|n: usize| e.contains((n, n)))
}

/// The self-loops of a layout's edge list: where they stand, to take them out
/// before a step, and on which nodes, to put them back after it.
pub struct LoopSplit {
    pub positions: Vec<usize>,
    pub nodes: Vec<usize>,
}

/// Finds the self-loops among `edges`.
pub fn split_self_loops(edges: &Vec<(usize, usize)>) -> (r: LoopSplit)
    ensures
        r.positions@ == loop_positions(edges@),
        r.nodes@ == loop_nodes(edges@),
{
    let mut positions: Vec<usize> = Vec::new();
    let mut nodes: Vec<usize> = Vec::new();
    let mut k: usize = 0;
    while k < edges.len()
        invariant
            k <= edges.len(),
            positions@ == loop_positions(edges@.subrange(0, k as int)),
            nodes@ == loop_nodes(edges@.subrange(0, k as int)),
        decreases edges.len() - k,
    {
        let ghost pre = edges@.subrange(0, k as int);
        assert(edges@.subrange(0, k + 1).drop_last() =~= pre);
        let (a, b) = edges[k];
        if a == b {
            positions.push(k);
            nodes.push(a);
        }
        k = k + 1;
    }
    assert(edges@.subrange(0, edges.len() as int) =~= edges@);
    LoopSplit { positions, nodes }
}

proof fn lemma_push_contains<T>(s: Seq<T>, x: T, y: T)
    ensures
        s.push(x).contains(y) <==> (s.contains(y) || y == x),
{
    if s.push(x).contains(y) {
        let k = choose|k: int| 0 <= k < s.len() + 1 && s.push(x)[k] == y;
        if k < s.len() {
            assert(s[k] == y);
        }
    }
    if s.contains(y) {
        let k = choose|k: int| 0 <= k < s.len() && s[k] == y;
        assert(s.push(x)[k] == y);
    }
    if y == x {
        assert(s.push(x)[s.len() as int] == y);
    }
}

proof fn lemma_loop_parts(e: Seq<(usize, usize)>)
    ensures
        forall|n: usize| !(#[trigger] without_loops(e).contains((n, n))),
        forall|p: (usize, usize)| p.0 != p.1 ==> (#[trigger] without_loops(e).contains(p) <==> e.contains(p)),
        forall|n: usize| #[trigger] loop_nodes(e).contains(n) <==> e.contains((n, n)),
    decreases e.len(),
{
    if e.len() > 0 {
        let d = e.drop_last();
        let x = e.last();
        lemma_loop_parts(d);
        assert(e == d.push(x));
        let w = without_loops(d);
        let l = loop_nodes(d);
        if x.0 == x.1 {
            assert forall|n: usize| !(#[trigger] without_loops(e).contains((n, n))) by {
                assert(!w.contains((n, n)));
            }
            assert forall|p: (usize, usize)| p.0 != p.1 implies (#[trigger] without_loops(e).contains(p) <==> e.contains(p)) by {
                lemma_push_contains(d, x, p);
                assert(w.contains(p) <==> d.contains(p));
            }
            assert forall|n: usize| #[trigger] loop_nodes(e).contains(n) <==> e.contains((n, n)) by {
                lemma_push_contains(d, x, (n, n));
                lemma_push_contains(l, x.0, n);
                assert(l.contains(n) <==> d.contains((n, n)));
            }
        } else {
            assert forall|n: usize| !(#[trigger] without_loops(e).contains((n, n))) by {
                lemma_push_contains(w, x, (n, n));
                assert(!w.contains((n, n)));
            }
            assert forall|p: (usize, usize)| p.0 != p.1 implies (#[trigger] without_loops(e).contains(p) <==> e.contains(p)) by {
                lemma_push_contains(d, x, p);
                lemma_push_contains(w, x, p);
                assert(w.contains(p) <==> d.contains(p));
            }
            assert forall|n: usize| #[trigger] loop_nodes(e).contains(n) <==> e.contains((n, n)) by {
                lemma_push_contains(d, x, (n, n));
                assert(l.contains(n) <==> d.contains((n, n)));
            }
        }
    }
}

/// Taking the self-loops out of an edge list leaves none, keeps every other
/// edge, and putting a loop back on each node that had one restores the set
/// of nodes with a self-loop exactly.
pub proof fn lemma_self_loops_restored(e: Seq<(usize, usize)>)
    ensures
        loop_set(without_loops(e)) == Set::<usize>::empty(),
        forall|p: (usize, usize)| p.0 != p.1 ==> (without_loops(e).contains(p) <==> e.contains(p)),
        loop_set(without_loops(e) + loops_on(loop_nodes(e))) == loop_set(e),
{
    lemma_loop_parts(e);
    let w = without_loops(e);
    let l = loops_on(loop_nodes(e));
    assert(loop_set(w) =~= Set::<usize>::empty());
    assert forall|n: usize| #[trigger] (w + l).contains((n, n)) <==> e.contains((n, n)) by {
        assert(!w.contains((n, n)));
        assert(loop_nodes(e).contains(n) <==> e.contains((n, n)));
        if (w + l).contains((n, n)) {
            let k = choose|k: int| 0 <= k < (w + l).len() && (w + l)[k] == (n, n);
            if k < w.len() {
                assert(w[k] == (n, n));
            } else {
                assert(l[k - w.len()] == (n, n));
                assert(loop_nodes(e)[k - w.len()] == n);
            }
        }
        if e.contains((n, n)) {
            assert(loop_nodes(e).contains(n));
            let k = choose|k: int| 0 <= k < loop_nodes(e).len() && loop_nodes(e)[k] == n;
            assert(l[k] == (n, n));
            assert((w + l)[w.len() + k] == (n, n));
        }
    }
    assert(loop_set(w + l) =~= loop_set(e));
}

proof fn lemma_concat(a: Seq<(usize, usize)>, b: Seq<(usize, usize)>)
    ensures
        loop_nodes(a + b) == loop_nodes(a) + loop_nodes(b),
        without_loops(a + b) == without_loops(a) + without_loops(b),
    decreases b.len(),
{
    if b.len() == 0 {
        assert(a + b =~= a);
        assert(loop_nodes(a) + loop_nodes(b) =~= loop_nodes(a));
        assert(without_loops(a) + without_loops(b) =~= without_loops(a));
    } else {
        lemma_concat(a, b.drop_last());
        assert((a + b).drop_last() =~= a + b.drop_last());
        assert((a + b).last() == b.last());
        assert(loop_nodes(a) + loop_nodes(b.drop_last()).push(b.last().0) =~= (loop_nodes(a)
            + loop_nodes(b.drop_last())).push(b.last().0));
        assert(without_loops(a) + without_loops(b.drop_last()).push(b.last()) =~= (without_loops(
            a,
        ) + without_loops(b.drop_last())).push(b.last()));
    }
}

proof fn lemma_parts_of_parts(e: Seq<(usize, usize)>)
    ensures
        loop_nodes(without_loops(e)) == Seq::<usize>::empty(),
        without_loops(without_loops(e)) == without_loops(e),
    decreases e.len(),
{
    if e.len() > 0 {
        lemma_parts_of_parts(e.drop_last());
        if e.last().0 != e.last().1 {
            let w = without_loops(e.drop_last());
            assert(w.push(e.last()).drop_last() =~= w);
        }
    }
}

proof fn lemma_loops_on(l: Seq<usize>)
    ensures
        loop_nodes(loops_on(l)) == l,
        without_loops(loops_on(l)) == Seq::<(usize, usize)>::empty(),
    decreases l.len(),
{
    if l.len() > 0 {
        lemma_loops_on(l.drop_last());
        assert(loops_on(l).drop_last() =~= loops_on(l.drop_last()));
        assert(l.drop_last().push(l.last()) =~= l);
    } else {
        assert(loops_on(l) =~= Seq::<(usize, usize)>::empty());
    }
}

/// Taking the self-loops out of an edge list and appending a loop on each
/// node that had one gives back the same self-loops, one for one and in the
/// same order (so the same multiset), and the same other edges in the same
/// order.
pub proof fn lemma_self_loops_restored_exactly(e: Seq<(usize, usize)>)
    ensures
        loop_nodes(without_loops(e) + loops_on(loop_nodes(e))) == loop_nodes(e),
        loop_nodes(without_loops(e) + loops_on(loop_nodes(e))).to_multiset()
            == loop_nodes(e).to_multiset(),
        without_loops(without_loops(e) + loops_on(loop_nodes(e))) == without_loops(e),
{
    let w = without_loops(e);
    let l = loops_on(loop_nodes(e));
    lemma_concat(w, l);
    lemma_parts_of_parts(e);
    lemma_loops_on(loop_nodes(e));
    assert(Seq::<usize>::empty() + loop_nodes(e) =~= loop_nodes(e));
    assert(w + Seq::<(usize, usize)>::empty() =~= w);
}

/// The points and edges that a layout still lacks.
pub struct MirrorPlan {
    /// The nodes to add a point for, in increasing order.
    pub nodes: Vec<usize>,
    /// The edges to add.
    pub edges: Vec<(usize, usize)>,
}

/// How much of the graph store the layout mirrors: the first `nodes` nodes
/// and the first `edges` edges.
pub struct LayoutSync {
    pub nodes: usize,
    pub edges: usize,
}

impl LayoutSync {
    /// A layout that mirrors nothing yet.
    pub fn new() -> (r: LayoutSync)
        ensures
            r.nodes == 0,
            r.edges == 0,
    {
        LayoutSync { nodes: 0, edges: 0 }
    }

    /// The layout was emptied along with the graph.
    pub fn reset(&mut self)
        ensures
            final(self).nodes == 0,
            final(self).edges == 0,
    {
        self.nodes = 0;
        self.edges = 0;
    }

    /// What the layout lacks of `g`, which it then counts as mirrored: a point
    /// for each node after those mirrored, and each edge after those mirrored.
    pub fn mirror_topology<P: Copy>(&mut self, g: &GraphStore<P>) -> (r: MirrorPlan)
        requires
            g.wf(),
            old(self).nodes <= g@.len(),
            old(self).edges <= g@.edges.len(),
        ensures
            final(self).nodes == g@.len(),
            final(self).edges == g@.edges.len(),
            r.nodes@.len() == g@.len() - old(self).nodes,
            forall|k: int| 0 <= k < r.nodes@.len() ==> r.nodes@[k] == old(self).nodes + k,
            r.edges@ == g@.edges.subrange(old(self).edges as int, g@.edges.len() as int),
    {
        let n = g.node_count();
        let all = g.edges();
        let mut nodes: Vec<usize> = Vec::new();
        let mut i: usize = self.nodes;
        while i < n
            invariant
                self.nodes <= i <= n,
                nodes@.len() == i - self.nodes,
                forall|k: int| 0 <= k < nodes@.len() ==> nodes@[k] == self.nodes + k,
            decreases n - i,
        {
            nodes.push(i);
            i = i + 1;
        }
        let mut edges: Vec<(usize, usize)> = Vec::new();
        let mut k: usize = self.edges;
        while k < all.len()
            invariant
                all@ == g@.edges,
                self.edges <= k <= all.len(),
                edges@ == all@.subrange(self.edges as int, k as int),
            decreases all.len() - k,
        {
            edges.push(all[k]);
            k = k + 1;
            assert(edges@ =~= all@.subrange(self.edges as int, k as int));
        }
        self.nodes = n;
        self.edges = all.len();
        MirrorPlan { nodes, edges }
    }
}

/// `h` and `s1` are what reconciling `g` with the layout's positions `s0`
/// makes of them: a node whose position the user owns keeps it and the
/// layout's point follows it; every other node takes the layout's point.
pub open spec fn reconcile_post<P>(
    g: GraphView<P>,
    s0: Seq<P>,
    h: GraphView<P>,
    s1: Seq<P>,
) -> bool {
    &&& h == (GraphView { positions: h.positions, ..g })
    &&& h.positions.len() == g.positions.len()
    &&& s1.len() == s0.len()
    &&& forall|i: int|
        0 <= i < g.positions.len() ==> if g.manual[i] {
            h.positions[i] == g.positions[i] && s1[i] == g.positions[i]
        } else {
            h.positions[i] == s0[i] && s1[i] == s0[i]
        }
}

/// Settles each node's position between the graph and the layout, whose
/// points `sim` are indexed like the nodes.
pub fn reconcile<P: Copy>(g: &mut GraphStore<P>, sim: &mut Vec<P>)
    requires
        old(g).wf(),
        old(sim)@.len() == old(g)@.len(),
    ensures
        final(g).wf(),
        reconcile_post(old(g)@, old(sim)@, final(g)@, final(sim)@),
{
    let n = g.node_count();
    let ghost og = g@;
    let ghost os = sim@;
    let mut i: usize = 0;
    while i < n
        invariant
            g.wf(),
            os.len() == n,
            og.positions.len() == n,
            og.manual.len() == n,
            n == g@.len(),
            i <= n,
            sim@.len() == n,
            g@ == (GraphView { positions: g@.positions, ..og }),
            forall|k: int|
                #![trigger og.manual[k]]
                0 <= k && k < i ==> if og.manual[k] {
                    g@.positions[k] == og.positions[k] && sim@[k] == og.positions[k]
                } else {
                    g@.positions[k] == os[k] && sim@[k] == os[k]
                },
            forall|k: int| #![trigger os[k]] i <= k && k < n ==> sim@[k] == os[k],
            forall|k: int| #![trigger og.positions[k]] i <= k && k < n ==> g@.positions[k] == og.positions[k],
        decreases n - i,
    {
        let ghost g0 = g@;
        let ghost s0 = sim@;
        assert(s0[i as int] == os[i as int]);
        assert(g0.positions[i as int] == og.positions[i as int]);
        if g.is_manually_positioned(i) {
            let p = g.position(i);
            sim.set(i, p);
            assert(sim@ == s0.update(i as int, p));
        } else {
            let p = sim[i];
            g.set_position(i, p);
        }
        assert forall|k: int| #![trigger os[k]] i < k && k < n implies sim@[k] == os[k] by {
            assert(s0[k] == os[k]);
        }
        assert forall|k: int| #![trigger og.positions[k]] i < k && k < n implies g@.positions[k] == og.positions[k] by {
            assert(g0.positions[k] == g@.positions[k]);
        }
        i = i + 1;
    }
}

} // verus!
