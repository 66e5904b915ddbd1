//! Pagination: chunking entries into pages of eight and the wrap-around
//! navigation.

use reminders::pages::{chunk_pages, next_page, prev_page, wrap_page};

fn entries(n: usize) -> Vec<String> {
    (0..n).map(|i| format!("entry {i}")).collect()
}

#[test]
fn chunking_keeps_positions() {
    assert!(chunk_pages(entries(0)).is_empty());
    let one = chunk_pages(entries(1));
    assert_eq!(one.len(), 1);
    assert_eq!(one[0], vec!["entry 0".to_string()]);
    let exact = chunk_pages(entries(8));
    assert_eq!(exact.len(), 1);
    assert_eq!(exact[0].len(), 8);
    let nine = chunk_pages(entries(9));
    assert_eq!(nine.len(), 2);
    assert_eq!(nine[0].len(), 8);
    assert_eq!(nine[1], vec!["entry 8".to_string()]);
    let seventeen = chunk_pages(entries(17));
    assert_eq!(seventeen.len(), 3);
    assert_eq!(seventeen[2], vec!["entry 16".to_string()]);
    assert_eq!(seventeen[1][0], "entry 8");
}

#[test]
fn navigation_wraps_around() {
    assert_eq!(wrap_page(5, 3), 0);
    assert_eq!(wrap_page(2, 3), 2);
    assert_eq!(next_page(0, 3), 1);
    assert_eq!(next_page(2, 3), 0);
    assert_eq!(prev_page(1, 3), 0);
    assert_eq!(prev_page(0, 3), 2);
}
