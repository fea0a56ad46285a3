//! The navigation cursor: the tree of expansion roots, the sorted members of
//! each root, and a position (current root, current node) that moves through
//! them.

use vstd::prelude::*;

use petgraph::graph::Graph;

use crate::graph::GraphStore;
use crate::topology::{
    add_arc, add_vertex, edges_of, in_sources, neighbor_list, new_graph, node_count_of,
    out_targets, INDEX_LIMIT,
};

verus! {

/// Why the cursor cannot move to a node.
#[derive(Debug, Clone, Copy, PartialEq, Eq, Structural)]
pub enum NavError {
    /// The node belongs to no root.
    NotMember,
    /// There is no cursor yet: nothing has been expanded.
    Uninitialized,
}

pub open spec fn strictly_sorted(s: Seq<usize>) -> bool {
    forall|i: int, j: int| 0 <= i < j < s.len() ==> s[i] < s[j]
}

/// `m` lists `root` and `children` without repetition, in increasing order.
pub open spec fn is_member_list(m: Seq<usize>, root: usize, children: Seq<usize>) -> bool {
    &&& strictly_sorted(m)
    &&& forall|x: usize| m.contains(x) <==> (x == root || children.contains(x))
}

/// The position of `x` in `m`.
pub open spec fn member_index(m: Seq<usize>, x: usize) -> int {
    choose|i: int| 0 <= i < m.len() && m[i] == x
}

/// The root tree: tree node `k + 1` was added under an earlier tree node by
/// the `k`-th edge, so tree node 0 is the only one without a parent.
pub open spec fn tree_shaped(tree: Seq<(usize, usize)>, n: nat) -> bool {
    &&& tree.len() + 1 == n
    &&& forall|k: int| 0 <= k < tree.len() ==> tree[k].1 == k + 1 && tree[k].0 <= k
}

/// What a cursor holds.
pub struct CursorView {
    /// The node index of each root, by tree node.
    pub roots: Seq<usize>,
    /// The sorted members of each root, by tree node.
    pub members: Seq<Seq<usize>>,
    /// The edges of the root tree, between tree nodes, in order of insertion.
    pub tree: Seq<(usize, usize)>,
    /// The tree node of the current root.
    pub current: usize,
    /// The current node.
    pub node: usize,
}

impl CursorView {
    pub open spec fn valid(self) -> bool {
        &&& self.roots.len() >= 1
        &&& self.members.len() == self.roots.len()
        &&& self.current < self.roots.len()
        &&& forall|s: int, t: int|
            0 <= s < self.roots.len() && 0 <= t < self.roots.len() && s != t ==> self.roots[s]
                != self.roots[t]
        &&& forall|t: int|
            0 <= t < self.members.len() ==> strictly_sorted(self.members[t])
                && self.members[t].contains(self.roots[t])
        &&& self.members[self.current as int].contains(self.node)
        &&& tree_shaped(self.tree, self.roots.len())
    }

    /// The node index of the current root.
    pub open spec fn current_root(self) -> usize {
        self.roots[self.current as int]
    }

    /// The members of the current root.
    pub open spec fn here(self) -> Seq<usize> {
        self.members[self.current as int]
    }

    /// The cursor after one step forward through the current root's members,
    /// from the last back to the first.
    pub open spec fn after_next(self) -> CursorView {
        let m = self.here();
        let i = member_index(m, self.node);
        CursorView {
            node: if i + 1 < m.len() {
                m[i + 1]
            } else {
                m[0]
            },
            ..self
        }
    }

    /// The cursor after one step back through the current root's members,
    /// from the first back to the last.
    pub open spec fn after_prev(self) -> CursorView {
        let m = self.here();
        let i = member_index(m, self.node);
        CursorView {
            node: if i > 0 {
                m[i - 1]
            } else {
                m[m.len() - 1]
            },
            ..self
        }
    }

    /// The cursor after `n` steps forward.
    pub open spec fn after_nexts(self, n: nat) -> CursorView
        decreases n,
    {
        if n == 0 {
            self
        } else {
            self.after_nexts((n - 1) as nat).after_next()
        }
    }

    /// The cursor after `n` steps back.
    pub open spec fn after_prevs(self, n: nat) -> CursorView
        decreases n,
    {
        if n == 0 {
            self
        } else {
            self.after_prevs((n - 1) as nat).after_prev()
        }
    }

    /// Tree node `t` is a root that has `idx` among its members.
    pub open spec fn holds(self, t: int, idx: usize) -> bool {
        0 <= t < self.roots.len() && self.members[t].contains(idx)
    }

    /// The roots, in tree order, among the first `n` that have `idx` as a member.
    pub open spec fn holders(self, idx: usize, n: int) -> Seq<usize>
        decreases n,
    {
        if n <= 0 {
            Seq::empty()
        } else if self.members[n - 1].contains(idx) {
            self.holders(idx, n - 1).push(self.roots[n - 1])
        } else {
            self.holders(idx, n - 1)
        }
    }

    /// The root for `idx` is tree node `t`: the current root if it has `idx`
    /// as a member, else the one with the lowest node index among those that do.
    pub open spec fn sticky_choice(self, idx: usize, t: int) -> bool {
        &&& self.holds(t, idx)
        &&& self.holds(self.current as int, idx) ==> t == self.current
        &&& !self.holds(self.current as int, idx) ==> forall|s: int|
            self.holds(s, idx) ==> self.roots[t] <= self.roots[s]
    }

    /// The root tree node whose root is the node `root`.
    pub open spec fn is_tree_node_of(self, t: int, root: usize) -> bool {
        0 <= t < self.roots.len() && self.roots[t] == root
    }
}

/// `h` is what registering the finished expansion of `root`, whose children
/// are `children`, makes of `c`: `root`'s members are itself and its children;
/// a root seen for the first time becomes a child of the current root in the
/// tree; the cursor moves to (`root`, `root`).
pub open spec fn register_post(
    c: CursorView,
    root: usize,
    children: Seq<usize>,
    h: CursorView,
) -> bool {
    &&& h.node == root
    &&& h.current_root() == root
    &&& is_member_list(h.here(), root, children)
    &&& if c.roots.contains(root) {
        &&& h.roots == c.roots
        &&& h.tree == c.tree
        &&& c.roots[h.current as int] == root
        &&& h.members.len() == c.members.len()
        &&& forall|t: int| 0 <= t < c.members.len() && t != h.current ==> h.members[t] == c.members[t]
    } else {
        &&& h.roots == c.roots.push(root)
        &&& h.tree == c.tree.push((c.current, c.roots.len() as usize))
        &&& h.current == c.roots.len()
        &&& h.members.len() == c.members.len() + 1
        &&& forall|t: int| 0 <= t < c.members.len() ==> h.members[t] == c.members[t]
    }
}

/// The root and the node the cursor is at.
pub type Position = (usize, usize);

/// A cursor over the roots of an exploration and their members.
pub struct Cursor {
    roots: Vec<usize>,
    members: Vec<Vec<usize>>,
    tree: Graph<(), ()>,
    current: usize,
    node: usize,
}

impl View for Cursor {
    type V = CursorView;

    closed spec fn view(&self) -> CursorView {
        CursorView {
            roots: self.roots@,
            members: self.members@.map_values(|m: Vec<usize>| m@),
            tree: edges_of(self.tree),
            current: self.current,
            node: self.node,
        }
    }
}

fn contains_index(v: &Vec<usize>, x: usize) -> (r: bool)
    ensures
        r == v@.contains(x),
{
    let mut i: usize = 0;
    while i < v.len()
        invariant
            i <= v.len(),
            forall|k: int| 0 <= k < i ==> v@[k] != x,
        decreases v.len() - i,
    {
        if v[i] == x {
            return true;
        }
        i = i + 1;
    }
    false
}

/// Inserts `x` into the strictly increasing `v` unless it is there.
fn insert_sorted(v: &mut Vec<usize>, x: usize)
    requires
        strictly_sorted(old(v)@),
    ensures
        strictly_sorted(final(v)@),
        forall|y: usize| final(v)@.contains(y) <==> (old(v)@.contains(y) || y == x),
{
    let mut i: usize = 0;
    while i < v.len() && v[i] < x
        invariant
            v@ == old(v)@,
            strictly_sorted(v@),
            i <= v.len(),
            forall|k: int| 0 <= k < i ==> v@[k] < x,
        decreases v.len() - i,
    {
        i = i + 1;
    }
    if i < v.len() && v[i] == x {
        assert(v@[i as int] == x);
        assert(v@.contains(x));
        return;
    }
    let ghost w = v@;
    assert(w == old(v)@);
    v.insert(i, x);
    assert forall|y: usize| #[trigger] v@.contains(y) <==> (old(v)@.contains(y) || y == x) by {
        if w.contains(y) {
            let k = choose|k: int| 0 <= k < w.len() && w[k] == y;
            if k < i {
                assert(v@[k] == y);
            } else {
                assert(v@[k + 1] == y);
            }
        }
        if v@.contains(y) {
            let k = choose|k: int| 0 <= k < v@.len() && v@[k] == y;
            if k < i {
                assert(w[k] == y);
            } else if k > i {
                assert(w[k - 1] == y);
            }
        }
        if y == x {
            assert(v@[i as int] == x);
        }
    }
}

/// The members of `root`: itself and its children in `g`, without repetition,
/// in increasing order.
pub fn get_children_unique_inclusive_sorted<P: Copy>(
    root: usize,
    g: &GraphStore<P>,
) -> (r: Vec<usize>)
    requires
        g.wf(),
        root < g@.len(),
    ensures
        is_member_list(r@, root, out_targets(g@.edges, root)),
{
    let children = g.children(root);
    let mut r: Vec<usize> = Vec::new();
    insert_sorted(&mut r, root);
    let mut i: usize = 0;
    while i < children.len()
        invariant
            i <= children.len(),
            children@ == out_targets(g@.edges, root),
            strictly_sorted(r@),
            forall|y: usize|
                r@.contains(y) <==> (y == root || exists|k: int| 0 <= k < i && children@[k] == y),
        decreases children.len() - i,
    {
        insert_sorted(&mut r, children[i]);
        proof {
            assert forall|y: usize|
                r@.contains(y) <==> (y == root || exists|k: int| 0 <= k < i + 1 && children@[k] == y) by {
                if y == children@[i as int] {
                    assert(0 <= i < i + 1 && children@[i as int] == y);
                }
                if exists|k: int| 0 <= k < i + 1 && children@[k] == y {
                    let k = choose|k: int| 0 <= k < i + 1 && children@[k] == y;
                    if k < i {
                        assert(0 <= k < i && children@[k] == y);
                    }
                }
            }
        }
        i = i + 1;
    }
    assert forall|y: usize| r@.contains(y) <==> (y == root || children@.contains(y)) by {
        if children@.contains(y) {
            let k = choose|k: int| 0 <= k < children@.len() && children@[k] == y;
            assert(0 <= k < i && children@[k] == y);
        }
    }
    r
}

proof fn lemma_unique_index(m: Seq<usize>, x: usize, k: int)
    requires
        strictly_sorted(m),
        0 <= k < m.len(),
        m[k] == x,
    ensures
        member_index(m, x) == k,
{
    let i = member_index(m, x);
    assert(0 <= i < m.len() && m[i] == x);
}

pub proof fn lemma_out_targets_bound(e: Seq<(usize, usize)>, a: usize, x: usize)
    requires
        out_targets(e, a).contains(x),
    ensures
        exists|k: int| 0 <= k < e.len() && e[k] == (a, x),
    decreases e.len(),
{
    if e.len() > 0 {
        let rest = out_targets(e.drop_last(), a);
        if e.last().0 == a && x == e.last().1 {
            assert(e[e.len() - 1] == (a, x));
        } else {
            if e.last().0 == a {
                let k = choose|k: int| 0 <= k < out_targets(e, a).len() && out_targets(e, a)[k] == x;
                assert(k > 0);
                assert(rest[k - 1] == x);
            }
            lemma_out_targets_bound(e.drop_last(), a, x);
            let k = choose|k: int| 0 <= k < e.drop_last().len() && e.drop_last()[k] == (a, x);
            assert(e[k] == (a, x));
        }
    }
}

proof fn lemma_in_sources_bound(e: Seq<(usize, usize)>, a: usize, x: usize)
    requires
        in_sources(e, a).contains(x),
    ensures
        exists|k: int| 0 <= k < e.len() && e[k] == (x, a),
    decreases e.len(),
{
    if e.len() > 0 {
        let rest = in_sources(e.drop_last(), a);
        if e.last().1 == a && x == e.last().0 {
            assert(e[e.len() - 1] == (x, a));
        } else {
            if e.last().1 == a {
                let k = choose|k: int| 0 <= k < in_sources(e, a).len() && in_sources(e, a)[k] == x;
                assert(k > 0);
                assert(rest[k - 1] == x);
            }
            lemma_in_sources_bound(e.drop_last(), a, x);
            let k = choose|k: int| 0 <= k < e.drop_last().len() && e.drop_last()[k] == (x, a);
            assert(e[k] == (x, a));
        }
    }
}


impl Cursor {
    pub closed spec fn consistent(&self) -> bool {
        node_count_of(self.tree) == self.roots.len()
    }

    /// The cursor's invariant: its view is valid.
    pub open spec fn wf(&self) -> bool {
        self.consistent() && self@.valid()
    }

    /// A cursor with the single root `root`, whose members are `root` and its
    /// children in `g`, placed at (`root`, `root`).
    pub fn new<P: Copy>(root: usize, g: &GraphStore<P>) -> (r: Cursor)
        requires
            g.wf(),
            root < g@.len(),
        ensures
            r.wf(),
            r@.roots == seq![root],
            r@.members.len() == 1,
            is_member_list(r@.members[0], root, out_targets(g@.edges, root)),
            r@.tree == Seq::<(usize, usize)>::empty(),
            r@.current == 0,
            r@.node == root,
    {
        let elements = get_children_unique_inclusive_sorted(root, g);
        let mut tree = new_graph();
        add_vertex(&mut tree);
        let mut roots: Vec<usize> = Vec::new();
        roots.push(root);
        let mut members: Vec<Vec<usize>> = Vec::new();
        members.push(elements);
        let r = Cursor { roots, members, tree, current: 0, node: root };
        assert(r@.members[0] == elements@);
        assert(r@.roots =~= seq![root]);
        r
    }

    /// The current root and the current node.
    pub fn position(&self) -> (r: Position)
        requires
            self.wf(),
        ensures
            r == (self@.current_root(), self@.node),
    {
        (self.roots[self.current], self.node)
    }

    /// The number of roots.
    pub fn root_count(&self) -> (r: usize)
        requires
            self.wf(),
        ensures
            r == self@.roots.len(),
    {
        self.roots.len()
    }

    /// The number of members of the current root.
    pub fn member_count(&self) -> (r: usize)
        requires
            self.wf(),
        ensures
            r == self@.here().len(),
    {
        self.members[self.current].len()
    }

    /// The tree node of the root `root`, if it is one.
    fn tree_index_of(&self, root: usize) -> (r: Option<usize>)
        requires
            self.wf(),
        ensures
            r is None <==> !self@.roots.contains(root),
            r matches Some(t) ==> self@.is_tree_node_of(t as int, root),
    {
        let mut t: usize = 0;
        while t < self.roots.len()
            invariant
                t <= self.roots.len(),
                forall|s: int| 0 <= s < t ==> self.roots@[s] != root,
            decreases self.roots.len() - t,
        {
            if self.roots[t] == root {
                return Some(t);
            }
            t = t + 1;
        }
        None
    }

    /// Adds a tree node under the current root's and returns it.
    fn add_root_to_tree(&mut self) -> (r: usize)
        requires
            old(self).wf(),
            old(self)@.roots.len() + 1 < INDEX_LIMIT,
        ensures
            r == old(self)@.roots.len(),
            node_count_of(final(self).tree) == old(self)@.roots.len() + 1,
            final(self)@ == (CursorView {
                tree: old(self)@.tree.push((old(self)@.current, r)),
                ..old(self)@
            }),
    {
        let t = add_vertex(&mut self.tree);
        add_arc(&mut self.tree, self.current, t);
        t
    }

    /// Registers the finished expansion of `root`: its members become itself
    /// and its children in `g`; a new root goes into the tree under the
    /// current root; the cursor moves to (`root`, `root`).
    pub fn update<P: Copy>(&mut self, root: usize, g: &GraphStore<P>)
        requires
            old(self).wf(),
            g.wf(),
            root < g@.len(),
            old(self)@.roots.len() + 1 < INDEX_LIMIT,
        ensures
            final(self).wf(),
            register_post(old(self)@, root, out_targets(g@.edges, root), final(self)@),
    {
        let elements = get_children_unique_inclusive_sorted(root, g);
        let ghost old_view = self@;
        match self.tree_index_of(root) {
            Some(t) => {
                self.members.set(t, elements);
                self.current = t;
                self.node = root;
                assert(self@.members =~= old_view.members.update(t as int, elements@));
            },
            None => {
                let t = self.add_root_to_tree();
                self.roots.push(root);
                self.members.push(elements);
                self.current = t;
                self.node = root;
                assert(self@.members =~= old_view.members.push(elements@));
                assert(self@.roots =~= old_view.roots.push(root));
                assert forall|s: int, u: int|
                    0 <= s < self@.roots.len() && 0 <= u < self@.roots.len() && s != u implies self@.roots[s]
                    != self@.roots[u] by {
                    if s == t as int {
                        assert(old_view.roots[u] == self@.roots[u]);
                    } else if u == t as int {
                        assert(old_view.roots[s] == self@.roots[s]);
                    }
                }
            },
        }
    }

    /// The position of the current node among the current root's members.
    fn member_position(&self) -> (r: usize)
        requires
            self.wf(),
        ensures
            r < self@.here().len(),
            r == member_index(self@.here(), self@.node),
    {
        let m = &self.members[self.current];
        assert(m@ == self@.here());
        let mut k: usize = 0;
        while k < m.len()
            invariant
                m@ == self@.here(),
                self@.valid(),
                k <= m.len(),
                forall|s: int| 0 <= s < k ==> m@[s] != self@.node,
            decreases m.len() - k,
        {
            if m[k] == self.node {
                proof {
                    lemma_unique_index(m@, self.node, k as int);
                }
                return k;
            }
            k = k + 1;
        }
        assert(false);
        0
    }

    /// Moves to the next member of the current root, from the last back to
    /// the first, and returns it.
    pub fn next_child(&mut self) -> (r: usize)
        requires
            old(self).wf(),
        ensures
            final(self).wf(),
            final(self)@ == old(self)@.after_next(),
            r == final(self)@.node,
    {
        let k = self.member_position();
        let m = &self.members[self.current];
        assert(m@ == self@.here());
        let next = if k < m.len() - 1 {
            m[k + 1]
        } else {
            m[0]
        };
        self.node = next;
        next
    }

    /// Moves to the previous member of the current root, from the first back
    /// to the last, and returns it.
    pub fn prev_child(&mut self) -> (r: usize)
        requires
            old(self).wf(),
        ensures
            final(self).wf(),
            final(self)@ == old(self)@.after_prev(),
            r == final(self)@.node,
    {
        let k = self.member_position();
        let m = &self.members[self.current];
        assert(m@ == self@.here());
        let prev = if k > 0 {
            m[k - 1]
        } else {
            m[m.len() - 1]
        };
        self.node = prev;
        prev
    }

    /// Moves to the root most recently added under the current one, at that
    /// root's first (lowest-indexed) member, and returns the root; without
    /// such a root nothing changes.
    pub fn next_root(&mut self) -> (r: Option<usize>)
        requires
            old(self).wf(),
        ensures
            final(self).wf(),
            ({
                let outs = out_targets(old(self)@.tree, old(self)@.current);
                if outs.len() == 0 {
                    r is None && final(self)@ == old(self)@
                } else {
                    &&& r == Some(old(self)@.roots[outs[0]as int])
                    &&& final(self)@ == (CursorView {
                        current: outs[0],
                        node: old(self)@.members[outs[0] as int][0],
                        ..old(self)@
                    })
                }
            }),
    {
        let outs = neighbor_list(&self.tree, self.current, true);
        if outs.len() == 0 {
            return None;
        }
        let t = outs[0];
        proof {
            assert(outs@.contains(t));
            lemma_out_targets_bound(self@.tree, self.current, t);
        }
        self.current = t;
        self.node = self.members[t][0];
        Some(self.roots[t])
    }

    /// Moves to the parent of the current root in the tree, at that root's
    /// first (lowest-indexed) member, and returns the root; at the first root
    /// nothing changes.
    pub fn prev_root(&mut self) -> (r: Option<usize>)
        requires
            old(self).wf(),
        ensures
            final(self).wf(),
            ({
                let ins = in_sources(old(self)@.tree, old(self)@.current);
                if ins.len() == 0 {
                    r is None && final(self)@ == old(self)@
                } else {
                    &&& r == Some(old(self)@.roots[ins[0] as int])
                    &&& final(self)@ == (CursorView {
                        current: ins[0],
                        node: old(self)@.members[ins[0] as int][0],
                        ..old(self)@
                    })
                }
            }),
    {
        let ins = neighbor_list(&self.tree, self.current, false);
        if ins.len() == 0 {
            return None;
        }
        let t = ins[0];
        proof {
            assert(ins@.contains(t));
            lemma_in_sources_bound(self@.tree, self.current, t);
        }
        self.current = t;
        self.node = self.members[t][0];
        Some(self.roots[t])
    }

    /// The roots that have `idx` among their members, in the order they were
    /// added; `None` where there are none.
    pub fn roots(&self, idx: usize) -> (r: Option<Vec<usize>>)
        requires
            self.wf(),
        ensures
            r is None <==> self@.holders(idx, self@.roots.len() as int).len() == 0,
            r matches Some(v) ==> v@ == self@.holders(idx, self@.roots.len() as int),
    {
        let mut found: Vec<usize> = Vec::new();
        let mut t: usize = 0;
        while t < self.roots.len()
            invariant
                self.wf(),
                t <= self.roots.len(),
                found@ == self@.holders(idx, t as int),
            decreases self.roots.len() - t,
        {
            assert(self.members@[t as int]@ == self@.members[t as int]);
            if contains_index(&self.members[t], idx) {
                found.push(self.roots[t]);
            }
            t = t + 1;
        }
        if found.len() == 0 {
            None
        } else {
            Some(found)
        }
    }

    /// The tree node of the root that the cursor takes for `idx`.
    fn sticky_tree_index(&self, idx: usize) -> (r: Option<usize>)
        requires
            self.wf(),
        ensures
            r is None <==> forall|t: int| !self@.holds(t, idx),
            r matches Some(t) ==> self@.sticky_choice(idx, t as int),
    {
        assert(self.members@[self.current as int]@ == self@.here());
        if contains_index(&self.members[self.current], idx) {
            assert(self@.holds(self.current as int, idx));
            return Some(self.current);
        }
        let mut best: Option<usize> = None;
        let mut t: usize = 0;
        while t < self.roots.len()
            invariant
                self.wf(),
                !self@.holds(self@.current as int, idx),
                t <= self.roots.len(),
                best is None ==> forall|s: int| 0 <= s < t ==> !self@.holds(s, idx),
                best matches Some(b) ==> b < t && self@.holds(b as int, idx) && forall|s: int|
                    0 <= s < t && #[trigger] self@.holds(s, idx) ==> self@.roots[b as int]
                        <= self@.roots[s],
            decreases self.roots.len() - t,
        {
            assert(self.members@[t as int]@ == self@.members[t as int]);
            if contains_index(&self.members[t], idx) {
                match best {
                    None => {
                        best = Some(t);
                    },
                    Some(b) => {
                        if self.roots[t] < self.roots[b] {
                            best = Some(t);
                        }
                    },
                }
            }
            t = t + 1;
        }
        best
    }

    /// The root that the cursor takes for `idx`: the current root where `idx`
    /// is one of its members, else the lowest-indexed root that has it; `None`
    /// where no root has it.
    pub fn sticky_root(&self, idx: usize) -> (r: Option<usize>)
        requires
            self.wf(),
        ensures
            r is None <==> forall|t: int| !self@.holds(t, idx),
            r matches Some(x) ==> exists|t: int| self@.sticky_choice(idx, t) && self@.roots[t] == x,
    {
        match self.sticky_tree_index(idx) {
            Some(t) => Some(self.roots[t]),
            None => None,
        }
    }

    /// Moves to node `idx` under the root that `sticky_root` takes for it and
    /// returns that root; fails where no root has `idx` as a member.
    pub fn move_to(&mut self, idx: usize) -> (r: Result<usize, NavError>)
        requires
            old(self).wf(),
        ensures
            final(self).wf(),
            r is Err <==> forall|t: int| !old(self)@.holds(t, idx),
            r is Err ==> final(self)@ == old(self)@ && r == Err::<usize, NavError>(NavError::NotMember),
            r matches Ok(x) ==> exists|t: int|
                old(self)@.sticky_choice(idx, t) && old(self)@.roots[t] == x && final(self)@ == (
                CursorView { current: t as usize, node: idx, ..old(self)@ }),
    {
        match self.sticky_tree_index(idx) {
            Some(t) => {
                self.current = t;
                self.node = idx;
                Ok(self.roots[t])
            },
            None => Err(NavError::NotMember),
        }
    }
}

/// The index of the member reached from position `i0` after `j` forward steps
/// through `n` members.
pub open spec fn index_after(i0: int, j: int, n: int) -> int {
    if i0 + j < n {
        i0 + j
    } else {
        i0 + j - n
    }
}

proof fn lemma_nexts(c: CursorView, j: nat)
    requires
        c.valid(),
        j <= c.here().len(),
    ensures
        c.after_nexts(j) == (CursorView {
            node: c.here()[index_after(member_index(c.here(), c.node), j as int, c.here().len() as int)],
            ..c
        }),
    decreases j,
{
    let m = c.here();
    let i0 = member_index(m, c.node);
    assert(0 <= i0 < m.len() && m[i0] == c.node);
    if j > 0 {
        lemma_nexts(c, (j - 1) as nat);
        let p = index_after(i0, j - 1, m.len() as int);
        let d = c.after_nexts((j - 1) as nat);
        lemma_unique_index(m, m[p], p);
        assert(d.here() == m);
    } else {
        assert(c == CursorView { node: m[i0], ..c });
    }
}

/// The index of the member reached from position `i0` after `j` backward
/// steps through `n` members.
pub open spec fn index_before(i0: int, j: int, n: int) -> int {
    if i0 - j >= 0 {
        i0 - j
    } else {
        i0 - j + n
    }
}

proof fn lemma_prevs(c: CursorView, j: nat)
    requires
        c.valid(),
        j <= c.here().len(),
    ensures
        c.after_prevs(j) == (CursorView {
            node: c.here()[index_before(member_index(c.here(), c.node), j as int, c.here().len() as int)],
            ..c
        }),
    decreases j,
{
    let m = c.here();
    let i0 = member_index(m, c.node);
    assert(0 <= i0 < m.len() && m[i0] == c.node);
    if j > 0 {
        lemma_prevs(c, (j - 1) as nat);
        let p = index_before(i0, j - 1, m.len() as int);
        let d = c.after_prevs((j - 1) as nat);
        lemma_unique_index(m, m[p], p);
        assert(d.here() == m);
    } else {
        assert(c == CursorView { node: m[i0], ..c });
    }
}

/// Stepping forward, or backward, through the current root's members as many
/// times as there are members brings the cursor back to where it started.
pub proof fn lemma_next_child_wraps(c: CursorView)
    requires
        c.valid(),
    ensures
        c.after_nexts(c.here().len()) == c,
        c.after_prevs(c.here().len()) == c,
{
    let m = c.here();
    let i0 = member_index(m, c.node);
    assert(0 <= i0 < m.len() && m[i0] == c.node);
    lemma_nexts(c, m.len());
    lemma_prevs(c, m.len());
    assert(c == CursorView { node: m[i0], ..c });
}

/// The root tree has exactly one node without a parent, the first root, and
/// every other tree node has exactly one parent.
pub proof fn lemma_root_tree_shape(c: CursorView)
    requires
        c.valid(),
    ensures
        forall|t: usize| t < c.roots.len() ==> (#[trigger] in_sources(c.tree, t).len() == 0 <==> t == 0),
        forall|t: usize| 1 <= t < c.roots.len() ==> #[trigger] in_sources(c.tree, t).len() == 1,
{
    assert forall|t: usize| t < c.roots.len() implies #[trigger] in_sources(c.tree, t).len() == (
    if t == 0 {
        0int
    } else {
        1int
    }) by {
        lemma_in_sources_count(c.tree, t, c.tree.len() as int);
        assert(c.tree.subrange(0, c.tree.len() as int) =~= c.tree);
    }
}

proof fn lemma_in_sources_count(tree: Seq<(usize, usize)>, t: usize, n: int)
    requires
        0 <= n <= tree.len(),
        forall|k: int| 0 <= k < tree.len() ==> tree[k].1 == k + 1 && tree[k].0 <= k,
    ensures
        in_sources(tree.subrange(0, n), t).len() == (if 1 <= t <= n {
            1int
        } else {
            0int
        }),
    decreases n,
{
    if n > 0 {
        lemma_in_sources_count(tree, t, n - 1);
        assert(tree.subrange(0, n).drop_last() =~= tree.subrange(0, n - 1));
    } else {
        assert(tree.subrange(0, 0) =~= Seq::<(usize, usize)>::empty());
    }
    if n == tree.len() {
        assert(tree.subrange(0, n) =~= tree);
    }
}

} // verus!
