use wiki_links::cursor::NavError;
use wiki_links::exploration::{Exploration, RootRejected, State};
use wiki_links::fetch::{completion_outcome, Applied, ExpansionStatus, FetchCoordinator, Outcome, Ticket};
use wiki_links::graph::GraphStore;
use wiki_links::url::{Type, Url};

const ROOT: &str = "https://en.wikipedia.org/wiki/Rust_(programming_language)";

fn wiki(s: &str) -> Url {
    Url::new(&format!("https://en.wikipedia.org/wiki/{}", s)).unwrap()
}

#[test]
fn submit_root_and_expand_once() {
    let mut e: Exploration<(i32, i32)> = Exploration::new();
    assert_eq!(e.state(), State::AwaitingRoot);
    let t = e.submit_root(ROOT, (0, 0)).unwrap();
    assert_eq!(e.state(), State::Expanding);
    assert_eq!(e.graph().node_count(), 1);
    assert_eq!(e.graph().node(0).url().url_type(), Type::Article);
    assert_eq!(e.active_count(), 1);
    assert_eq!(t.node, 0);

    let a = wiki("Mozilla");
    let b = wiki("Graydon_Hoare");
    assert_eq!(e.deliver(t, Outcome::Found(a.clone()), (1, 1)), Applied::Added { index: 1, new: true });
    assert_eq!(e.deliver(t, Outcome::Found(b), (2, 2)), Applied::Added { index: 2, new: true });
    assert_eq!(e.deliver(t, Outcome::ItemFailed, (0, 0)), Applied::Skipped);
    assert_eq!(e.deliver(t, Outcome::Found(a), (3, 3)), Applied::Added { index: 1, new: false });
    assert_eq!(e.tick(), State::Expanding);
    assert_eq!(e.deliver(t, Outcome::Finished, (0, 0)), Applied::Completed);
    assert_eq!(e.tick(), State::Ready);

    assert_eq!(e.graph().node_count(), 3);
    assert_eq!(e.graph().edges(), vec![(0, 1), (0, 2)]);
    assert_eq!(e.active_count(), 0);
    assert_eq!(e.position(), Some((0, 0)));
    assert_eq!(e.graph().selected(), Some(0));
    assert_eq!(e.roots_of(1), Some(vec![0]));
    assert_eq!(e.roots_of(2), Some(vec![0]));

    assert_eq!(e.tick(), State::Navigable);
    assert_eq!(e.select_next(), Some(1));
    assert_eq!(e.select_next(), Some(2));
    assert_eq!(e.select_next(), Some(0));
}

#[test]
fn reset_mid_expansion_drops_old_results() {
    let mut e: Exploration<(i32, i32)> = Exploration::new();
    let old = e.submit_root(ROOT, (0, 0)).unwrap();
    e.deliver(old, Outcome::Found(wiki("Mozilla")), (1, 1));
    let new = e.submit_root("https://en.wikipedia.org/wiki/Ferris", (0, 0)).unwrap();
    assert_ne!(old, new);
    assert_eq!(e.active_count(), 1);
    assert_eq!(e.graph().node_count(), 1);
    assert_eq!(e.deliver(old, Outcome::Found(wiki("Late")), (1, 1)), Applied::Stale);
    assert_eq!(e.deliver(old, Outcome::Finished, (1, 1)), Applied::Stale);
    assert_eq!(e.deliver(old, Outcome::Faulted, (1, 1)), Applied::Stale);
    assert_eq!(e.graph().node_count(), 1);
    assert_eq!(e.graph().edge_count(), 0);
    assert_eq!(e.active_count(), 1);
    assert_eq!(e.position(), None);
}

#[test]
fn malformed_root_is_rejected() {
    let mut e: Exploration<(i32, i32)> = Exploration::new();
    assert_eq!(e.submit_root("wikipedia", (0, 0)), Err(RootRejected::Malformed));
    assert_eq!(e.state(), State::RootInvalid);
    assert_eq!(e.active_count(), 0);
}

#[test]
fn root_off_the_wiki_is_rejected() {
    let mut e: Exploration<(i32, i32)> = Exploration::new();
    assert_eq!(e.submit_root("https://www.rust-lang.org/", (0, 0)), Err(RootRejected::NotWiki));
    assert_eq!(e.state(), State::RootInvalid);
    assert!(e.submit_root(ROOT, (0, 0)).is_ok());
    assert_eq!(e.state(), State::Expanding);
}

#[test]
fn worker_fault_fails_expansion() {
    let mut e: Exploration<(i32, i32)> = Exploration::new();
    let t = e.submit_root(ROOT, (0, 0)).unwrap();
    e.deliver(t, Outcome::Found(wiki("A")), (1, 1));
    assert_eq!(e.deliver(t, Outcome::Faulted, (0, 0)), Applied::Failed);
    assert_eq!(e.tick(), State::ExpansionFailed);
    assert_eq!(e.graph().node_count(), 2);
    assert_eq!(e.acknowledge_failure(), State::AwaitingRoot);
}

fn navigable() -> (Exploration<(i32, i32)>, Ticket) {
    let mut e: Exploration<(i32, i32)> = Exploration::new();
    let t = e.submit_root(ROOT, (0, 0)).unwrap();
    e.deliver(t, Outcome::Found(Url::new("https://www.rust-lang.org/").unwrap()), (1, 1));
    e.deliver(t, Outcome::Found(wiki("Mozilla")), (2, 2));
    e.deliver(t, Outcome::Found(Url::new("https://example.com/a.png").unwrap()), (3, 3));
    e.deliver(t, Outcome::Finished, (0, 0));
    e.tick();
    e.tick();
    (e, t)
}

#[test]
fn article_navigation_skips_other_kinds() {
    let (mut e, _) = navigable();
    assert_eq!(e.state(), State::Navigable);
    assert_eq!(e.select_next_article(), Some(2));
    assert_eq!(e.select_next_article(), Some(0));
    assert_eq!(e.select_prev_article(), Some(2));
    assert_eq!(e.graph().selected(), Some(2));
}

#[test]
fn expansion_from_inside_a_root() {
    let (mut e, _) = navigable();
    assert_eq!(e.select_next(), Some(1));
    assert_eq!(e.select_next(), Some(2));
    let t = e.expand_selected().unwrap();
    assert_eq!(t.node, 2);
    assert_eq!(e.state(), State::Expanding);
    assert_eq!(e.expand_selected(), None);
    assert_eq!(e.select_next(), None);
    e.deliver(t, Outcome::Found(wiki("Firefox")), (5, 5));
    e.deliver(t, Outcome::Found(wiki("Rust_(programming_language)")), (5, 5));
    e.deliver(t, Outcome::Finished, (0, 0));
    assert_eq!(e.tick(), State::Ready);
    assert_eq!(e.position(), Some((2, 2)));
    assert_eq!(e.tick(), State::Navigable);
    assert_eq!(e.select_next(), Some(4));
    assert_eq!(e.select_next(), Some(0));
    assert_eq!(e.roots_of(0), Some(vec![0, 2]));
    assert_eq!(e.select_prev_root(), Some(0));
    assert_eq!(e.position(), Some((0, 0)));
    assert_eq!(e.select_prev_root(), Some(0));
    assert_eq!(e.position(), Some((0, 0)));
    assert_eq!(e.select_next_root(), Some(2));
    assert_eq!(e.position(), Some((2, 0)));
    assert_eq!(e.graph().selected(), Some(2));
    assert_eq!(e.select_next_root(), Some(2));
    assert_eq!(e.position(), Some((2, 0)));
}

#[test]
fn expansion_after_acknowledged_fault() {
    let (mut e, _) = navigable();
    assert_eq!(e.select_next(), Some(1));
    assert_eq!(e.select_next(), Some(2));
    let t = e.expand_selected().unwrap();
    assert_eq!(e.deliver(t, Outcome::Faulted, (0, 0)), Applied::Failed);
    assert_eq!(e.tick(), State::ExpansionFailed);
    assert_eq!(e.acknowledge_failure(), State::Navigable);
    let t2 = e.expand_selected().unwrap();
    assert_eq!(e.tick(), State::Expanding);
    e.deliver(t2, Outcome::Found(wiki("Firefox")), (5, 5));
    assert_eq!(e.deliver(t2, Outcome::Finished, (0, 0)), Applied::Completed);
    assert_eq!(e.tick(), State::Ready);
    assert_eq!(e.tick(), State::Navigable);
}

#[test]
fn completion_needs_finished_and_drained_worker() {
    assert!(completion_outcome(true, false, true).is_none());
    assert!(completion_outcome(true, true, false).is_none());
    assert!(matches!(completion_outcome(true, true, true), Some(Outcome::Finished)));
    assert!(matches!(completion_outcome(false, true, true), Some(Outcome::Faulted)));
}

#[test]
fn select_node_uses_sticky_root() {
    let (mut e, _) = navigable();
    assert_eq!(e.select_node(3), Ok(0));
    assert_eq!(e.position(), Some((0, 3)));
    assert_eq!(e.graph().selected(), Some(3));
    assert_eq!(e.select_node(17), Err(NavError::NotMember));
    assert_eq!(e.graph().selected(), Some(3));
}

#[test]
fn select_node_before_first_expansion() {
    let mut e: Exploration<(i32, i32)> = Exploration::new();
    e.submit_root(ROOT, (0, 0)).unwrap();
    assert_eq!(e.select_node(0), Err(NavError::Uninitialized));
}

#[test]
fn drag_and_reconcile() {
    let (mut e, _) = navigable();
    let plan = e.mirror_topology();
    assert_eq!(plan.nodes, vec![0, 1, 2, 3]);
    assert_eq!(plan.edges, vec![(0, 1), (0, 2), (0, 3)]);
    assert!(e.drag(1, (40, 40)));
    assert!(!e.drag(9, (40, 40)));
    let mut sim = vec![(10, 10), (11, 11), (12, 12), (13, 13)];
    assert!(e.reconcile(&mut sim));
    assert_eq!(e.graph().position(1), (40, 40));
    assert_eq!(sim[1], (40, 40));
    assert_eq!(e.graph().position(2), (12, 12));
    assert!(e.release(1));
    let mut sim2 = vec![(1, 1), (2, 2), (3, 3), (4, 4)];
    assert!(e.reconcile(&mut sim2));
    assert_eq!(e.graph().position(1), (2, 2));
    let mut short = vec![(1, 1)];
    assert!(!e.reconcile(&mut short));
}

#[test]
fn coordinator_tracks_records() {
    let mut g: GraphStore<(i32, i32)> = GraphStore::new();
    g.reset_with_root(wiki("Root"), (0, 0));
    g.upsert_child(0, wiki("A"), (0, 0));
    let mut f = FetchCoordinator::new();
    assert_eq!(f.status(), ExpansionStatus::AllDone);
    let t0 = f.begin_expansion(0);
    let t1 = f.begin_expansion(1);
    assert_eq!(f.status(), ExpansionStatus::StillPending);
    assert!(f.is_active(1));
    assert_eq!(f.apply(&mut g, t1, Outcome::Found(wiki("B")), (0, 0)), Applied::Added { index: 2, new: true });
    assert_eq!(f.apply(&mut g, t0, Outcome::Found(wiki("B")), (0, 0)), Applied::Added { index: 2, new: false });
    assert_eq!(f.apply(&mut g, t1, Outcome::Faulted, (0, 0)), Applied::Failed);
    assert!(f.has_failed());
    assert_eq!(f.active(), vec![0]);
    assert_eq!(f.apply(&mut g, t1, Outcome::Finished, (0, 0)), Applied::Stale);
    assert_eq!(f.apply(&mut g, t0, Outcome::Finished, (0, 0)), Applied::Completed);
    assert_eq!(f.status(), ExpansionStatus::AllDone);
    f.reset();
    assert!(!f.has_failed());
    assert_eq!(f.active_count(), 0);
    assert_eq!(g.edges(), vec![(0, 1), (1, 2), (0, 2)]);
}
