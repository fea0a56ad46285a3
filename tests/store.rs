use wiki_links::graph::GraphStore;
use wiki_links::layout::{reconcile, split_self_loops, LayoutSync};
use wiki_links::url::Url;

fn link(s: &str) -> Url {
    Url::new(s).unwrap()
}

fn rooted() -> GraphStore<(i32, i32)> {
    let mut g = GraphStore::new();
    let r = g.reset_with_root(link("https://en.wikipedia.org/wiki/Root"), (0, 0));
    assert_eq!(r, 0);
    g
}

#[test]
fn reset_holds_one_node() {
    let mut g = rooted();
    g.upsert_child(0, link("https://en.wikipedia.org/wiki/A"), (1, 1));
    let r = g.reset_with_root(link("https://en.wikipedia.org/wiki/Other"), (5, 5));
    assert_eq!(r, 0);
    assert_eq!(g.node_count(), 1);
    assert_eq!(g.edge_count(), 0);
    assert_eq!(g.node(0).url().val(), "https://en.wikipedia.org/wiki/Other");
    assert_eq!(g.selected(), None);
}

#[test]
fn upsert_same_link_twice_dedups() {
    let mut g = rooted();
    assert_eq!(g.upsert_child(0, link("https://en.wikipedia.org/wiki/A"), (1, 1)), (1, true));
    assert_eq!(g.upsert_child(0, link("https://en.wikipedia.org/wiki/A"), (9, 9)), (1, false));
    assert_eq!(g.node_count(), 2);
    assert_eq!(g.edge_count(), 1);
    assert_eq!(g.edges(), vec![(0, 1)]);
    assert_eq!(g.position(1), (1, 1));
}

#[test]
fn upsert_existing_link_from_other_parent_adds_edge() {
    let mut g = rooted();
    g.upsert_child(0, link("https://en.wikipedia.org/wiki/A"), (1, 1));
    g.upsert_child(0, link("https://en.wikipedia.org/wiki/B"), (2, 2));
    assert_eq!(g.upsert_child(1, link("https://en.wikipedia.org/wiki/B"), (3, 3)), (2, false));
    assert_eq!(g.edges(), vec![(0, 1), (0, 2), (1, 2)]);
    assert!(g.has_edge(1, 2));
    assert!(!g.has_edge(2, 1));
}

#[test]
fn self_link_makes_self_loop_once() {
    let mut g = rooted();
    assert_eq!(g.upsert_child(0, link("https://en.wikipedia.org/wiki/Root"), (1, 1)), (0, false));
    assert_eq!(g.upsert_child(0, link("https://en.wikipedia.org/wiki/Root"), (1, 1)), (0, false));
    assert_eq!(g.edges(), vec![(0, 0)]);
    assert_eq!(g.node_count(), 1);
}

#[test]
fn children_most_recent_first() {
    let mut g = rooted();
    g.upsert_child(0, link("https://en.wikipedia.org/wiki/A"), (1, 1));
    g.upsert_child(0, link("https://en.wikipedia.org/wiki/B"), (2, 2));
    g.upsert_child(1, link("https://en.wikipedia.org/wiki/C"), (3, 3));
    assert_eq!(g.children(0), vec![2, 1]);
    assert_eq!(g.children(1), vec![3]);
    assert_eq!(g.children(3), Vec::<usize>::new());
}

#[test]
fn find_by_link() {
    let mut g = rooted();
    g.upsert_child(0, link("https://en.wikipedia.org/wiki/A"), (1, 1));
    assert_eq!(g.find(&link("https://en.wikipedia.org/wiki/A")), Some(1));
    assert_eq!(g.find(&link("https://en.wikipedia.org/wiki/Z")), None);
}

#[test]
fn selection_is_single() {
    let mut g = rooted();
    g.upsert_child(0, link("https://en.wikipedia.org/wiki/A"), (1, 1));
    g.set_selected(0);
    g.set_selected(1);
    assert!(!g.is_selected(0));
    assert!(g.is_selected(1));
    assert_eq!(g.selected(), Some(1));
}

#[test]
fn manual_position_set_and_cleared() {
    let mut g = rooted();
    g.set_manual_position(0, (7, 8));
    assert!(g.is_manually_positioned(0));
    assert_eq!(g.position(0), (7, 8));
    g.clear_manual_position(0);
    assert!(!g.is_manually_positioned(0));
    assert_eq!(g.position(0), (7, 8));
}

#[test]
fn reconcile_respects_drag() {
    let mut g = rooted();
    g.upsert_child(0, link("https://en.wikipedia.org/wiki/A"), (1, 1));
    g.set_manual_position(0, (10, 10));
    let mut sim = vec![(50, 50), (60, 60)];
    reconcile(&mut g, &mut sim);
    assert_eq!(g.position(0), (10, 10));
    assert_eq!(sim[0], (10, 10));
    assert_eq!(g.position(1), (60, 60));
    assert_eq!(sim[1], (60, 60));
}

#[test]
fn self_loops_split_and_restore() {
    let edges = vec![(0, 1), (2, 2), (1, 2), (0, 0), (2, 2)];
    let split = split_self_loops(&edges);
    assert_eq!(split.positions, vec![1, 3, 4]);
    assert_eq!(split.nodes, vec![2, 0, 2]);
    let mut kept: Vec<(usize, usize)> = edges
        .iter()
        .enumerate()
        .filter(|(k, _)| !split.positions.contains(k))
        .map(|(_, e)| *e)
        .collect();
    assert!(kept.iter().all(|(a, b)| a != b));
    for n in &split.nodes {
        kept.push((*n, *n));
    }
    let mut before: Vec<usize> = edges.iter().filter(|(a, b)| a == b).map(|(a, _)| *a).collect();
    let mut after: Vec<usize> = kept.iter().filter(|(a, b)| a == b).map(|(a, _)| *a).collect();
    before.sort();
    before.dedup();
    after.sort();
    after.dedup();
    assert_eq!(before, after);
}

#[test]
fn self_loops_of_empty_list() {
    let split = split_self_loops(&Vec::new());
    assert!(split.positions.is_empty());
    assert!(split.nodes.is_empty());
}

#[test]
fn mirror_plan_is_incremental() {
    let mut g = rooted();
    let mut layout = LayoutSync::new();
    let p = layout.mirror_topology(&g);
    assert_eq!(p.nodes, vec![0]);
    assert!(p.edges.is_empty());
    g.upsert_child(0, link("https://en.wikipedia.org/wiki/A"), (1, 1));
    g.upsert_child(0, link("https://en.wikipedia.org/wiki/Root"), (1, 1));
    let q = layout.mirror_topology(&g);
    assert_eq!(q.nodes, vec![1]);
    assert_eq!(q.edges, vec![(0, 1), (0, 0)]);
    let r = layout.mirror_topology(&g);
    assert!(r.nodes.is_empty() && r.edges.is_empty());
    layout.reset();
    assert_eq!(layout.nodes, 0);
}

#[test]
fn empty_store() {
    let g: GraphStore<(i32, i32)> = GraphStore::new();
    assert_eq!(g.node_count(), 0);
    assert_eq!(g.edge_count(), 0);
    assert_eq!(g.find(&link("https://en.wikipedia.org/wiki/A")), None);
    assert_eq!(g.selected(), None);
}
