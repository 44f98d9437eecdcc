use gitui::scroll::{Index, Scrollable};

fn sample() -> Scrollable {
    Scrollable::new(
        vec![
            (String::from("alpha"), Index(0)),
            (String::from("beta"), Index(1)),
            (String::from("gamma"), Index(2)),
        ],
        Some(0),
    )
}

#[test]
fn new_defaults_selection_to_zero() {
    let s = Scrollable::new(vec![(String::from("a"), Index(0))], None);
    assert_eq!(s.get_index(), 0);
}

#[test]
fn repeated_steps_stay_in_bounds() {
    let mut s = sample();
    for _ in 0..10 {
        s.next();
        let i = s.get_index();
        assert!(i < s.get_items().len());
    }
    for _ in 0..10 {
        s.prev();
        let i = s.get_index();
        assert!(i < s.get_items().len());
    }
}

#[test]
fn next_then_prev_restores_non_boundary_selection() {
    let mut s = sample();
    s.select_from_index(1);
    s.next();
    s.prev();
    assert_eq!(s.get_index(), 1);
    s.prev();
    s.next();
    assert_eq!(s.get_index(), 1);
}

#[test]
fn next_wraps_from_last_to_first() {
    let mut s = sample();
    s.select_from_index(2);
    let r = s.next().unwrap();
    assert_eq!(s.get_index(), 0);
    assert_eq!(r.0, "alpha");
    assert_eq!(r.1 .0, 0);
}

#[test]
fn prev_wraps_from_first_to_last() {
    let mut s = sample();
    let r = s.prev().unwrap();
    assert_eq!(s.get_index(), 2);
    assert_eq!(r.0, "gamma");
}

#[test]
fn next_from_invalid_selection_wraps_to_start() {
    let mut s = Scrollable::new(
        vec![(String::from("a"), Index(0)), (String::from("b"), Index(1))],
        Some(9),
    );
    assert!(s.get_current().is_none());
    let r = s.next().unwrap();
    assert_eq!(s.get_index(), 0);
    assert_eq!(r.0, "a");
}

#[test]
fn empty_list_steps_are_no_ops() {
    let mut s = Scrollable::new(Vec::new(), Some(0));
    assert!(s.is_empty());
    assert!(s.next().is_none());
    assert!(s.prev().is_none());
    assert!(s.get_current().is_none());
    assert!(s.is_last());
    assert!(s.is_first());
}

#[test]
fn empty_list_reports_both_boundaries_despite_stale_selection() {
    let s = Scrollable::new(Vec::new(), Some(3));
    assert!(s.is_first());
    assert!(s.is_last());
    let f = sample().filtered("no such label");
    assert_eq!(f.get_index(), 0);
    assert!(f.is_first());
    assert!(f.is_last());
}

#[test]
fn filtered_with_empty_query_keeps_everything() {
    let s = sample();
    let f = s.filtered("");
    let items = f.get_items();
    assert_eq!(items.len(), 3);
    assert_eq!(items[0].0, "alpha");
    assert_eq!(items[0].1 .0, 0);
    assert_eq!(items[1].0, "beta");
    assert_eq!(items[1].1 .0, 1);
    assert_eq!(items[2].0, "gamma");
    assert_eq!(items[2].1 .0, 2);
    assert_eq!(f.get_index(), s.get_index());
}

#[test]
fn filtered_keeps_only_labels_containing_query() {
    let s = sample();
    let f = s.filtered("am");
    let items = f.get_items();
    assert_eq!(items.len(), 1);
    assert_eq!(items[0].0, "gamma");
    assert_eq!(items[0].1 .0, 2);
    for (label, _) in f.get_items().iter() {
        assert!(label.contains("am"));
    }
}

#[test]
fn filtered_carries_selection_unvalidated() {
    let mut s = sample();
    s.select_from_index(2);
    let mut f = s.filtered("alpha");
    assert_eq!(f.get_index(), 2);
    assert!(f.get_current().is_none());
    let r = f.next().unwrap();
    assert_eq!(r.1 .0, 0);
}

#[test]
fn boundary_reports() {
    let mut s = sample();
    assert!(s.is_first());
    assert!(!s.is_last());
    s.select_from_index(2);
    assert!(s.is_last());
    assert!(!s.is_first());
    s.reset_index();
    assert!(s.is_first());
}

#[test]
fn select_from_index_returns_the_entry() {
    let mut s = sample();
    let r = s.select_from_index(1);
    assert_eq!(r.0, "beta");
    assert_eq!(r.1 .0, 1);
    assert_eq!(s.get_index(), 1);
}
