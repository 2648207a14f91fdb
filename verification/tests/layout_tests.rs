use projectpad::layout::{environment_label, find_area, visible_items, Area, VisibleItems};
use projectpad::types::EnvironmentType;

#[test]
fn area_contains_its_inside_and_not_its_far_edges() {
    let a = Area::new(10, 20, 30, 40);
    assert_eq!(a, Area { x: 10, y: 20, width: 30, height: 40 });
    assert!(a.contains(10, 20));
    assert!(a.contains(39, 59));
    assert!(!a.contains(40, 59));
    assert!(!a.contains(39, 60));
    assert!(!a.contains(9, 20));
    assert!(!a.contains(10, 19));
}

#[test]
fn empty_area_contains_nothing() {
    assert!(!Area::new(5, 5, 0, 10).contains(5, 5));
    assert!(!Area::new(5, 5, -3, 10).contains(4, 5));
}

#[test]
fn area_at_the_limit_of_the_integers() {
    let a = Area::new(i32::MAX - 1, 0, i32::MAX, 1);
    assert!(a.contains(i32::MAX, 0));
    assert!(!a.contains(i32::MAX - 2, 0));
}

#[test]
fn find_area_gives_the_first_hit() {
    let areas = vec![
        (Area::new(0, 0, 10, 10), "a".to_string()),
        (Area::new(5, 5, 10, 10), "b".to_string()),
        (Area::new(5, 5, 2, 2), "c".to_string()),
    ];
    assert_eq!(find_area(&areas, 6, 6), Some(0));
    assert_eq!(find_area(&areas, 12, 12), Some(1));
    assert_eq!(find_area(&areas, 50, 50), None);
    let none: Vec<(Area, i32)> = vec![];
    assert_eq!(find_area(&none, 0, 0), None);
}

#[test]
fn visible_items_at_the_top() {
    assert_eq!(visible_items(0, 200, 10), VisibleItems { first: 0, end: 3 });
    assert_eq!(visible_items(0, 225, 10), VisibleItems { first: 0, end: 3 });
    assert_eq!(visible_items(0, 226, 10), VisibleItems { first: 0, end: 4 });
}

#[test]
fn visible_items_after_scrolling() {
    assert_eq!(visible_items(75, 200, 10), VisibleItems { first: 0, end: 4 });
    assert_eq!(visible_items(76, 200, 10), VisibleItems { first: 1, end: 4 });
    assert_eq!(visible_items(150, 200, 10), VisibleItems { first: 1, end: 5 });
    assert_eq!(visible_items(151, 200, 10), VisibleItems { first: 2, end: 5 });
}

#[test]
fn visible_items_stop_at_the_end_of_the_list() {
    assert_eq!(visible_items(0, 1000, 3), VisibleItems { first: 0, end: 3 });
    assert_eq!(visible_items(0, 200, 0), VisibleItems { first: 0, end: 0 });
    assert_eq!(visible_items(1000, 200, 3), VisibleItems { first: 13, end: 13 });
}

#[test]
fn visible_items_in_a_view_without_height() {
    assert_eq!(visible_items(0, 0, 5), VisibleItems { first: 0, end: 0 });
    assert_eq!(visible_items(100, -500, 5), VisibleItems { first: 1, end: 1 });
}

#[test]
fn environment_labels() {
    assert_eq!(environment_label(EnvironmentType::EnvDevelopment), "dev");
    assert_eq!(environment_label(EnvironmentType::EnvStage), "stg");
    assert_eq!(environment_label(EnvironmentType::EnvUat), "uat");
    assert_eq!(environment_label(EnvironmentType::EnvProd), "prod");
}
