//! The graph store: nodes with stable indices, at most one node per link, at
//! most one edge per ordered pair, a single selection, and per-node positions.

use vstd::prelude::*;

use petgraph::graph::Graph;

use crate::node::Node;
use crate::topology::{
    add_arc, add_vertex, edge_list, edges_of, has_arc, neighbor_list, new_graph, node_count_of,
    out_targets, INDEX_LIMIT,
};
use crate::url::{Url, UrlView};

verus! {

/// What a graph store holds.
pub struct GraphView<P> {
    /// The link of each node, by index.
    pub urls: Seq<UrlView>,
    /// The position of each node.
    pub positions: Seq<P>,
    /// Whether each node's position is set by the user.
    pub manual: Seq<bool>,
    /// The selected node, if any.
    pub selected: Option<usize>,
    /// The edges as (parent, child) pairs, in order of insertion.
    pub edges: Seq<(usize, usize)>,
}

impl<P> GraphView<P> {
    pub open spec fn len(self) -> nat {
        self.urls.len()
    }

    /// Some node has the link `link`.
    pub open spec fn has_link(self, link: Seq<char>) -> bool {
        exists|i: int| 0 <= i < self.urls.len() && self.urls[i].val == link
    }

    /// Node `i` is the node of the link `link`.
    pub open spec fn is_node_of(self, i: int, link: Seq<char>) -> bool {
        0 <= i < self.urls.len() && self.urls[i].val == link
    }

    pub open spec fn links_unique(self) -> bool {
        forall|i: int, j: int|
            0 <= i < self.urls.len() && 0 <= j < self.urls.len() && i != j ==> self.urls[i].val
                != self.urls[j].val
    }

    pub open spec fn edges_unique(self) -> bool {
        forall|i: int, j: int|
            0 <= i < self.edges.len() && 0 <= j < self.edges.len() && i != j ==> self.edges[i]
                != self.edges[j]
    }

    pub open spec fn edges_in_range(self) -> bool {
        forall|k: int|
            0 <= k < self.edges.len() ==> self.edges[k].0 < self.urls.len() && self.edges[k].1
                < self.urls.len()
    }

    pub open spec fn valid(self) -> bool {
        &&& self.positions.len() == self.urls.len()
        &&& self.manual.len() == self.urls.len()
        &&& self.links_unique()
        &&& self.edges_unique()
        &&& self.edges_in_range()
        &&& self.selected matches Some(s) ==> s < self.urls.len()
    }

    /// The store holds the one node `root` at `pos`, and nothing else.
    pub open spec fn is_rooted_at(self, root: UrlView, pos: P) -> bool {
        &&& self.urls == seq![root]
        &&& self.positions == seq![pos]
        &&& self.manual == seq![false]
        &&& self.selected is None
        &&& self.edges == Seq::<(usize, usize)>::empty()
    }

    /// Only the edges may differ between `self` and `h`.
    pub open spec fn same_nodes(self, h: GraphView<P>) -> bool {
        &&& h.urls == self.urls
        &&& h.positions == self.positions
        &&& h.manual == self.manual
        &&& h.selected == self.selected
    }
}

/// `h` and `r` are what upserting `link` (at `pos` if new) as a child of
/// `parent` makes of `g`: the existing node of the link, with the edge added if
/// absent, or else a new node at the next index together with the edge.
pub open spec fn upsert_post<P>(
    g: GraphView<P>,
    parent: usize,
    link: UrlView,
    pos: P,
    h: GraphView<P>,
    r: (usize, bool),
) -> bool {
    if g.has_link(link.val) {
        &&& !r.1
        &&& g.is_node_of(r.0 as int, link.val)
        &&& g.same_nodes(h)
        &&& h.edges == (if g.edges.contains((parent, r.0)) {
            g.edges
        } else {
            g.edges.push((parent, r.0))
        })
    } else {
        &&& r.1
        &&& r.0 == g.len()
        &&& h.urls == g.urls.push(link)
        &&& h.positions == g.positions.push(pos)
        &&& h.manual == g.manual.push(false)
        &&& h.selected == g.selected
        &&& h.edges == g.edges.push((parent, r.0))
    }
}

/// The graph of discovered pages.
pub struct GraphStore<P> {
    nodes: Vec<Node>,
    positions: Vec<P>,
    manual: Vec<bool>,
    selected: Option<usize>,
    topology: Graph<(), ()>,
}

impl<P: Copy> View for GraphStore<P> {
    type V = GraphView<P>;

    closed spec fn view(&self) -> GraphView<P> {
        GraphView {
            urls: self.nodes@.map_values(|n: Node| n@),
            positions: self.positions@,
            manual: self.manual@,
            selected: self.selected,
            edges: edges_of(self.topology),
        }
    }
}

impl<P: Copy> GraphStore<P> {
    pub closed spec fn consistent(&self) -> bool {
        node_count_of(self.topology) == self.nodes.len()
    }

    /// The store's invariant: its view is valid.
    pub open spec fn wf(&self) -> bool {
        self.consistent() && self@.valid()
    }

    /// An empty store.
    pub fn new() -> (r: GraphStore<P>)
        ensures
            r.wf(),
            r@.urls.len() == 0,
            r@.edges.len() == 0,
            r@.selected is None,
    {
        let r = GraphStore {
            nodes: Vec::new(),
            positions: Vec::new(),
            manual: Vec::new(),
            selected: None,
            topology: new_graph(),
        };
        assert(r@.urls =~= Seq::<UrlView>::empty());
        r
    }

    /// Clears the store and inserts the single node `link` at `pos`.
    pub fn reset_with_root(&mut self, link: Url, pos: P) -> (r: usize)
        ensures
            r == 0,
            final(self).wf(),
            final(self)@.is_rooted_at(link@, pos),
    {
        let mut topology = new_graph();
        let idx = add_vertex(&mut topology);
        let node = Node::new(link);
        let mut nodes = Vec::new();
        nodes.push(node);
        let mut positions = Vec::new();
        positions.push(pos);
        let mut manual = Vec::new();
        manual.push(false);
        *self = GraphStore { nodes, positions, manual, selected: None, topology };
        assert(self@.urls =~= seq![link@]);
        assert(self@.positions =~= seq![pos]);
        assert(self@.manual =~= seq![false]);
        idx
    }

    /// The number of nodes.
    pub fn node_count(&self) -> (r: usize)
        requires
            self.wf(),
        ensures
            r == self@.len(),
    {
        self.nodes.len()
    }

    /// The number of edges.
    pub fn edge_count(&self) -> (r: usize)
        requires
            self.wf(),
        ensures
            r == self@.edges.len(),
    {
        edge_list(&self.topology).len()
    }

    /// The node at index `i`.
    pub fn node(&self, i: usize) -> (r: &Node)
        requires
            self.wf(),
            i < self@.len(),
        ensures
            r@ == self@.urls[i as int],
    {
        &self.nodes[i]
    }

    /// The edges as (parent, child) pairs, in order of insertion.
    pub fn edges(&self) -> (r: Vec<(usize, usize)>)
        ensures
            r@ == self@.edges,
    {
        edge_list(&self.topology)
    }

    /// The children of node `i`, the most recently linked first.
    pub fn children(&self, i: usize) -> (r: Vec<usize>)
        requires
            self.wf(),
            i < self@.len(),
        ensures
            r@ == out_targets(self@.edges, i),
    {
        neighbor_list(&self.topology, i, true)
    }

    /// Whether some edge goes from `a` to `b`.
    pub fn has_edge(&self, a: usize, b: usize) -> (r: bool)
        requires
            self.wf(),
            a < self@.len(),
            b < self@.len(),
        ensures
            r == self@.edges.contains((a, b)),
    {
        has_arc(&self.topology, a, b)
    }

    /// The index of the node of `link`, if there is one.
    pub fn find(&self, link: &Url) -> (r: Option<usize>)
        requires
            self.wf(),
        ensures
            r is None <==> !self@.has_link(link@.val),
            r matches Some(i) ==> self@.is_node_of(i as int, link@.val),
    {
        let n = self.nodes.len();
        let mut i: usize = 0;
        while i < n
            invariant
                self.wf(),
                n == self@.len(),
                i <= n,
                forall|k: int| 0 <= k < i ==> self@.urls[k].val != link@.val,
            decreases n - i,
        {
            if self.nodes[i].url().same_link(link) {
                assert(self@.urls[i as int] == self.nodes@[i as int]@);
                assert(self@.is_node_of(i as int, link@.val));
                return Some(i);
            }
            i = i + 1;
        }
        None
    }

    /// Adds `link` as a child of `parent`: to the existing node of that link if
    /// there is one, else to a new node at `pos`; the edge from `parent` is
    /// added unless it is there. Returns the child's index and whether it is new.
    pub fn upsert_child(&mut self, parent: usize, link: Url, pos: P) -> (r: (usize, bool))
        requires
            old(self).wf(),
            parent < old(self)@.len(),
            old(self)@.len() + 1 < INDEX_LIMIT,
            old(self)@.edges.len() + 1 < INDEX_LIMIT,
        ensures
            final(self).wf(),
            upsert_post(old(self)@, parent, link@, pos, final(self)@, r),
    {
        match self.find(&link) {
            Some(i) => {
                if !has_arc(&self.topology, parent, i) {
                    add_arc(&mut self.topology, parent, i);
                    proof {
                        let e = self@.edges;
                        assert forall|a: int, b: int|
                            0 <= a < e.len() && 0 <= b < e.len() && a != b implies e[a]
                            != e[b] by {
                            if a == e.len() - 1 {
                                assert(old(self)@.edges.contains(e[b]));
                            } else if b == e.len() - 1 {
                                assert(old(self)@.edges.contains(e[a]));
                            }
                        }
                    }
                }
                (i, false)
            },
            None => {
                let ghost g = self@;
                let idx = add_vertex(&mut self.topology);
                self.nodes.push(Node::new(link));
                self.positions.push(pos);
                self.manual.push(false);
                assert(self@.urls =~= g.urls.push(link@));
                add_arc(&mut self.topology, parent, idx);
                proof {
                    let e = self@.edges;
                    assert forall|a: int, b: int|
                        0 <= a < e.len() && 0 <= b < e.len() && a != b implies e[a] != e[b] by {
                        if a == e.len() - 1 {
                            assert(g.edges_in_range());
                        } else if b == e.len() - 1 {
                            assert(g.edges_in_range());
                        }
                    }
                }
                (idx, true)
            },
        }
    }

    /// Whether node `i` is the selected one.
    pub fn is_selected(&self, i: usize) -> (r: bool)
        ensures
            r == (self@.selected == Some(i)),
    {
        match self.selected {
            Some(s) => s == i,
            None => false,
        }
    }

    /// The selected node, if any.
    pub fn selected(&self) -> (r: Option<usize>)
        ensures
            r == self@.selected,
    {
        self.selected
    }

    /// Selects node `i`, which clears the previous selection.
    pub fn set_selected(&mut self, i: usize)
        requires
            old(self).wf(),
            i < old(self)@.len(),
        ensures
            final(self).wf(),
            final(self)@ == (GraphView { selected: Some(i), ..old(self)@ }),
    {
        self.selected = Some(i);
    }

    /// The position of node `i`.
    pub fn position(&self, i: usize) -> (r: P)
        requires
            self.wf(),
            i < self@.len(),
        ensures
            r == self@.positions[i as int],
    {
        self.positions[i]
    }

    /// Whether node `i`'s position is set by the user.
    pub fn is_manually_positioned(&self, i: usize) -> (r: bool)
        requires
            self.wf(),
            i < self@.len(),
        ensures
            r == self@.manual[i as int],
    {
        self.manual[i]
    }

    /// The user places node `i` at `pos`; the position stays theirs until cleared.
    pub fn set_manual_position(&mut self, i: usize, pos: P)
        requires
            old(self).wf(),
            i < old(self)@.len(),
        ensures
            final(self).wf(),
            final(self)@ == (GraphView {
                positions: old(self)@.positions.update(i as int, pos),
                manual: old(self)@.manual.update(i as int, true),
                ..old(self)@
            }),
    {
        self.positions.set(i, pos);
        self.manual.set(i, true);
    }

    /// The user lets go of node `i`: the layout drives its position again.
    pub fn clear_manual_position(&mut self, i: usize)
        requires
            old(self).wf(),
            i < old(self)@.len(),
        ensures
            final(self).wf(),
            final(self)@ == (GraphView { manual: old(self)@.manual.update(i as int, false), ..old(self)@ }),
    {
        self.manual.set(i, false);
    }

    /// Moves node `i` to `pos` without touching who owns its position.
    pub fn set_position(&mut self, i: usize, pos: P)
        requires
            old(self).wf(),
            i < old(self)@.len(),
        ensures
            final(self).wf(),
            final(self)@ == (GraphView { positions: old(self)@.positions.update(i as int, pos), ..old(self)@ }),
    {
        self.positions.set(i, pos);
    }
}


/// Upserting the same link under the same parent twice leaves one node for the
/// link and one edge from the parent to it: the second call returns the node
/// of the first, reports it as not new, and changes nothing.
pub proof fn lemma_upsert_twice<P>(
    g0: GraphView<P>,
    g1: GraphView<P>,
    g2: GraphView<P>,
    parent: usize,
    link: UrlView,
    pos1: P,
    pos2: P,
    r1: (usize, bool),
    r2: (usize, bool),
)
    requires
        g0.valid(),
        parent < g0.len(),
        upsert_post(g0, parent, link, pos1, g1, r1),
        upsert_post(g1, parent, link, pos2, g2, r2),
    ensures
        r2 == (r1.0, false),
        g2 == g1,
        forall|i: int| g2.is_node_of(i, link.val) <==> i == r1.0,
        g2.edges.contains((parent, r1.0)),
        forall|a: int, b: int|
            0 <= a < g2.edges.len() && 0 <= b < g2.edges.len() && g2.edges[a] == (parent, r1.0)
                && g2.edges[b] == (parent, r1.0) ==> a == b,
{
    if g0.has_link(link.val) {
        assert(g1.is_node_of(r1.0 as int, link.val));
        assert(g1.links_unique());
        if !g0.edges.contains((parent, r1.0)) {
            assert(g1.edges[g1.edges.len() - 1] == (parent, r1.0));
        }
    } else {
        assert(g1.urls[r1.0 as int] == link);
        assert(g1.is_node_of(r1.0 as int, link.val));
        assert forall|i: int, j: int|
            0 <= i < g1.urls.len() && 0 <= j < g1.urls.len() && i != j implies g1.urls[i].val
            != g1.urls[j].val by {
            if i == r1.0 {
                assert(g0.urls[j] == g1.urls[j]);
            } else if j == r1.0 {
                assert(g0.urls[i] == g1.urls[i]);
            } else {
                assert(g0.urls[i] == g1.urls[i] && g0.urls[j] == g1.urls[j]);
            }
        }
        assert(g1.edges[g1.edges.len() - 1] == (parent, r1.0));
        assert forall|a: int, b: int|
            0 <= a < g1.edges.len() && 0 <= b < g1.edges.len() && a != b implies g1.edges[a]
            != g1.edges[b] by {
            if a == g1.edges.len() - 1 {
                assert(g0.edges_in_range());
                assert(g0.edges[b] == g1.edges[b]);
            } else if b == g1.edges.len() - 1 {
                assert(g0.edges_in_range());
                assert(g0.edges[a] == g1.edges[a]);
            } else {
                assert(g0.edges[a] == g1.edges[a] && g0.edges[b] == g1.edges[b]);
            }
        }
    }
    assert(g1.has_link(link.val));
    assert(g2.urls == g1.urls);
    assert(g2.edges =~= g1.edges);
    assert(g2 == g1);
}

} // verus!
