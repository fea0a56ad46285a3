use wiki_links::cursor::{get_children_unique_inclusive_sorted, Cursor, NavError};
use wiki_links::graph::GraphStore;
use wiki_links::url::Url;

fn link(s: &str) -> Url {
    Url::new(&format!("https://en.wikipedia.org/wiki/{}", s)).unwrap()
}

/// Root 0 with children 1, 2, 3; node 1 with children 4, 5 and 2.
fn sample() -> GraphStore<(i32, i32)> {
    let mut g = GraphStore::new();
    g.reset_with_root(link("Root"), (0, 0));
    g.upsert_child(0, link("A"), (0, 0));
    g.upsert_child(0, link("B"), (0, 0));
    g.upsert_child(0, link("C"), (0, 0));
    g.upsert_child(1, link("D"), (0, 0));
    g.upsert_child(1, link("E"), (0, 0));
    g.upsert_child(1, link("B"), (0, 0));
    g
}

#[test]
fn members_are_sorted_and_unique() {
    let mut g = sample();
    g.upsert_child(2, link("Root"), (0, 0));
    g.upsert_child(2, link("B"), (0, 0));
    assert_eq!(get_children_unique_inclusive_sorted(2, &g), vec![0, 2]);
    assert_eq!(get_children_unique_inclusive_sorted(1, &g), vec![1, 2, 4, 5]);
    assert_eq!(get_children_unique_inclusive_sorted(3, &g), vec![3]);
}

#[test]
fn new_cursor_starts_at_root() {
    let g = sample();
    let c = Cursor::new(0, &g);
    assert_eq!(c.position(), (0, 0));
    assert_eq!(c.root_count(), 1);
    assert_eq!(c.member_count(), 4);
}

#[test]
fn next_child_wraps_after_full_turn() {
    let g = sample();
    let mut c = Cursor::new(0, &g);
    assert_eq!(c.next_child(), 1);
    assert_eq!(c.next_child(), 2);
    assert_eq!(c.next_child(), 3);
    assert_eq!(c.next_child(), 0);
    let start = c.position();
    for _ in 0..c.member_count() {
        c.next_child();
    }
    assert_eq!(c.position(), start);
}

#[test]
fn prev_child_wraps_after_full_turn() {
    let g = sample();
    let mut c = Cursor::new(0, &g);
    assert_eq!(c.prev_child(), 3);
    assert_eq!(c.prev_child(), 2);
    c.next_child();
    let start = c.position();
    for _ in 0..c.member_count() {
        c.prev_child();
    }
    assert_eq!(c.position(), start);
}

#[test]
fn single_member_root_stays_put() {
    let g = sample();
    let mut c = Cursor::new(3, &g);
    assert_eq!(c.next_child(), 3);
    assert_eq!(c.prev_child(), 3);
}

#[test]
fn update_adds_root_under_current() {
    let g = sample();
    let mut c = Cursor::new(0, &g);
    c.next_child();
    c.update(1, &g);
    assert_eq!(c.position(), (1, 1));
    assert_eq!(c.root_count(), 2);
    assert_eq!(c.member_count(), 4);
    assert_eq!(c.next_child(), 2);
    assert_eq!(c.next_child(), 4);
    assert_eq!(c.prev_root(), Some(0));
    assert_eq!(c.position(), (0, 0));
    assert_eq!(c.prev_root(), None);
    assert_eq!(c.position(), (0, 0));
    assert_eq!(c.next_root(), Some(1));
    assert_eq!(c.position(), (1, 1));
    assert_eq!(c.next_root(), None);
}

#[test]
fn next_root_takes_latest_child_root() {
    let g = sample();
    let mut c = Cursor::new(0, &g);
    c.update(1, &g);
    c.prev_root();
    c.update(3, &g);
    c.prev_root();
    assert_eq!(c.position(), (0, 0));
    assert_eq!(c.next_root(), Some(3));
}

#[test]
fn update_of_known_root_keeps_tree() {
    let mut g = sample();
    let mut c = Cursor::new(0, &g);
    c.update(1, &g);
    g.upsert_child(0, link("F"), (0, 0));
    c.update(0, &g);
    assert_eq!(c.root_count(), 2);
    assert_eq!(c.position(), (0, 0));
    assert_eq!(c.member_count(), 5);
    assert_eq!(c.next_root(), Some(1));
}

#[test]
fn roots_of_shared_member() {
    let g = sample();
    let mut c = Cursor::new(0, &g);
    c.update(1, &g);
    assert_eq!(c.roots(2), Some(vec![0, 1]));
    assert_eq!(c.roots(4), Some(vec![1]));
    assert_eq!(c.roots(3), Some(vec![0]));
    assert_eq!(c.roots(42), None);
}

#[test]
fn sticky_root_prefers_current() {
    let g = sample();
    let mut c = Cursor::new(0, &g);
    c.update(1, &g);
    assert_eq!(c.sticky_root(2), Some(1));
    c.prev_root();
    assert_eq!(c.sticky_root(2), Some(0));
    assert_eq!(c.sticky_root(4), Some(1));
    assert_eq!(c.sticky_root(42), None);
}

#[test]
fn sticky_root_falls_back_to_lowest() {
    let mut g = sample();
    g.upsert_child(3, link("B"), (0, 0));
    let mut c = Cursor::new(0, &g);
    c.update(3, &g);
    c.prev_root();
    c.update(1, &g);
    c.next_child();
    c.move_to(5).unwrap();
    assert_eq!(c.sticky_root(2), Some(1));
    c.update(5, &g);
    assert_eq!(c.sticky_root(2), Some(0));
}

#[test]
fn move_to_sets_position() {
    let g = sample();
    let mut c = Cursor::new(0, &g);
    c.update(1, &g);
    assert_eq!(c.move_to(3), Ok(0));
    assert_eq!(c.position(), (0, 3));
    assert_eq!(c.move_to(2), Ok(0));
    assert_eq!(c.position(), (0, 2));
    assert_eq!(c.move_to(99), Err(NavError::NotMember));
    assert_eq!(c.position(), (0, 2));
}

#[test]
fn root_moves_land_on_first_member() {
    let mut g = sample();
    g.upsert_child(5, link("Root"), (0, 0));
    let mut c = Cursor::new(0, &g);
    c.update(1, &g);
    assert_eq!(c.move_to(5), Ok(1));
    c.update(5, &g);
    assert_eq!(c.position(), (5, 5));
    assert_eq!(c.prev_root(), Some(1));
    assert_eq!(c.position(), (1, 1));
    assert_eq!(c.next_root(), Some(5));
    assert_eq!(c.position(), (5, 0));
    assert_eq!(c.next_child(), 5);
}
