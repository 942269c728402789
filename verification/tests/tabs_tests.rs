use aterm::tabs::Tabs;

fn tabs_of(n: usize, active: usize) -> Tabs<usize> {
    let mut t = Tabs::new();
    for i in 0..n {
        t.insert_after_active(i);
    }
    let _ = t.select(active);
    t
}

#[test]
fn push_makes_new_tab_active() {
    let mut t: Tabs<&str> = Tabs::new();
    assert!(t.active_tab().is_none());
    t.insert_after_active("a");
    t.insert_after_active("b");
    assert_eq!(t.items, vec!["a", "b"]);
    assert_eq!(t.active, 1);
    assert_eq!(t.active_tab(), Some(&"b"));
}

#[test]
fn close_active_removes_it_and_keeps_index_in_range() {
    let mut t = tabs_of(3, 1);
    assert_eq!(t.close_active(), Some(1));
    assert_eq!(t.items, vec![0, 2]);
    assert_eq!(t.active, 1);
    assert_eq!(t.close_active(), Some(2));
    assert_eq!(t.items, vec![0]);
    assert_eq!(t.active, 0);
    assert_eq!(t.close_active(), Some(0));
    assert!(t.items.is_empty());
    assert_eq!(t.close_active(), None);
}

#[test]
fn select_prev_next_stay_in_range() {
    let mut t = tabs_of(3, 0);
    assert!(!t.select(7));
    assert_eq!(t.active, 0);
    t.prev();
    assert_eq!(t.active, 0);
    t.next();
    t.next();
    t.next();
    assert_eq!(t.active, 2);
    t.select_nth(1);
    assert_eq!(t.active, 0);
    t.select_nth(3);
    assert_eq!(t.active, 2);
    t.select_nth(9);
    assert_eq!(t.active, 2);
}

#[test]
fn reap_drops_exited_tabs_in_order() {
    let mut t = tabs_of(4, 1);
    assert!(t.reap(&vec![false, true, false, true]));
    assert_eq!(t.items, vec![0, 2]);
    assert_eq!(t.active, 1);
    assert!(!t.reap(&vec![false, false]));
    assert_eq!(t.active, 1);
    let mut t = tabs_of(3, 0);
    assert!(t.reap(&vec![false, true, false]));
    assert_eq!(t.items, vec![0, 2]);
    assert_eq!(t.active, 0);
    let mut t = tabs_of(2, 1);
    assert!(t.reap(&vec![true, true]));
    assert!(t.items.is_empty());
}

#[test]
fn new_tab_opens_to_right_of_active() {
    let mut t = tabs_of(3, 0);
    t.insert_after_active(9);
    assert_eq!(t.items, vec![0, 9, 1, 2]);
    assert_eq!(t.active, 1);
    assert_eq!(t.active_tab(), Some(&9));
}
