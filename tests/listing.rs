use evil_textobj::listing::listing_text;

#[test]
fn listing_puts_parent_then_sorted_dirs_then_sorted_files() {
    let dirs = vec!["b".to_string(), "a".to_string()];
    let files = vec!["z.txt".to_string(), "m.txt".to_string()];
    assert_eq!(listing_text(&dirs, &files), "../\na/\nb/\nm.txt\nz.txt\n");
}

#[test]
fn listing_of_empty_directory() {
    assert_eq!(listing_text(&Vec::new(), &Vec::new()), "../\n");
}

#[test]
fn listing_orders_by_code_point() {
    let files = vec!["b".to_string(), "B".to_string(), "ä".to_string(), "a".to_string()];
    assert_eq!(listing_text(&Vec::new(), &files), "../\nB\na\nb\nä\n");
}

use evil_textobj::listing::{listing_entry, Entry};
use evil_textobj::range::{Range, Selection};
use evil_textobj::removal::removal_plan;

fn entry_at(text: &str, pos: usize) -> Option<Entry> {
    listing_entry(&ropey::Rope::from_str(text), &Selection::single(pos, pos))
}

#[test]
fn listing_entry_tells_parent_dirs_and_files() {
    let text = "../\na/\nm.txt\n";
    assert!(matches!(entry_at(text, 1), Some(Entry::Parent)));
    match entry_at(text, 4) {
        Some(Entry::Directory(n)) => assert_eq!(n, "a"),
        other => panic!("unexpected {:?}", other),
    }
    match entry_at(text, 8) {
        Some(Entry::File(n)) => assert_eq!(n, "m.txt"),
        other => panic!("unexpected {:?}", other),
    }
    assert!(entry_at(text, 40).is_none());
}

#[test]
fn removal_plan_shifts_later_spans() {
    let sel = Selection { ranges: vec![Range::new(1, 3), Range::new(6, 4)], primary: 1 };
    let (spans, after) = removal_plan(&sel, 8);
    assert_eq!(spans, vec![(1, 3), (2, 4)]);
    assert_eq!(after.ranges, vec![Range::point(1), Range::point(2)]);
    assert_eq!(after.primary, 1);
}

#[test]
fn removal_plan_clamps_and_merges_overlaps() {
    let sel = Selection { ranges: vec![Range::new(0, 4), Range::new(2, 9)], primary: 0 };
    let (spans, after) = removal_plan(&sel, 6);
    assert_eq!(spans, vec![(0, 4), (0, 2)]);
    assert_eq!(after.ranges, vec![Range::point(0), Range::point(0)]);
}
