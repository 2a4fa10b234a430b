use rss_bot::detect::{detect_updates, mark_after_delivery};

#[test]
fn detect_keeps_only_items_newer_than_mark() {
    let times = vec![5, 20, 10, 30];
    let found = detect_updates(10, &times);
    assert_eq!(found.new_items, vec![1, 3]);
    assert_eq!(found.new_mark, 30);
}

#[test]
fn detect_orders_oldest_first_and_keeps_document_order_on_ties() {
    let times = vec![40, 25, 40, 30];
    let found = detect_updates(0, &times);
    assert_eq!(found.new_items, vec![1, 3, 0, 2]);
    assert_eq!(found.new_mark, 40);
}

#[test]
fn detect_on_empty_document_keeps_mark() {
    let found = detect_updates(7, &vec![]);
    assert!(found.new_items.is_empty());
    assert_eq!(found.new_mark, 7);
}

#[test]
fn detect_never_announces_items_without_dates() {
    let times = vec![i64::MIN, i64::MIN];
    let found = detect_updates(i64::MIN, &times);
    assert!(found.new_items.is_empty());
    assert_eq!(found.new_mark, i64::MIN);
}

#[test]
fn delivery_moves_mark_to_latest_delivered() {
    assert_eq!(mark_after_delivery(10, &vec![20, 30], &vec![true, true]), 30);
    assert_eq!(mark_after_delivery(10, &vec![20, 30], &vec![true, false]), 20);
    assert_eq!(mark_after_delivery(10, &vec![20, 30], &vec![false, true]), 10);
    assert_eq!(mark_after_delivery(10, &vec![20, 30, 40], &vec![true, true, false]), 30);
}

#[test]
fn mark_stays_below_every_failed_delivery() {
    assert_eq!(mark_after_delivery(10, &vec![20, 30, 40], &vec![true, false, true]), 20);
    assert_eq!(mark_after_delivery(10, &vec![20, 20], &vec![true, false]), 10);
    assert_eq!(mark_after_delivery(10, &vec![20, 20, 30], &vec![true, true, false]), 20);
}

#[test]
fn failed_item_is_announced_again_next_sweep() {
    let times = vec![30, 20];
    let first = detect_updates(10, &times);
    assert_eq!(first.new_items, vec![1, 0]);
    // the older item (20) fails, the newer (30) goes through
    let mark = mark_after_delivery(10, &vec![20, 30], &vec![false, true]);
    assert_eq!(mark, 10);
    let second = detect_updates(mark, &times);
    assert!(second.new_items.contains(&1));
}

#[test]
fn failed_deliveries_leave_mark_alone() {
    assert_eq!(mark_after_delivery(10, &vec![20, 30], &vec![false, false]), 10);
    assert_eq!(mark_after_delivery(10, &vec![20, 30], &vec![]), 10);
}

#[test]
fn mark_never_moves_back_over_sweeps() {
    let mut mark = 0;
    let documents = vec![vec![5, 3], vec![2, 4], vec![9, 1]];
    for times in documents {
        let found = detect_updates(mark, &times);
        let announced: Vec<i64> = found.new_items.iter().map(|&i| times[i]).collect();
        let delivered = vec![true; announced.len()];
        let next = mark_after_delivery(mark, &announced, &delivered);
        assert!(next >= mark);
        mark = next;
    }
    assert_eq!(mark, 9);
}

#[test]
fn items_at_or_below_mark_are_not_announced_again() {
    let times = vec![10, 20];
    let first = detect_updates(0, &times);
    assert_eq!(first.new_items, vec![0, 1]);
    let mark = mark_after_delivery(0, &vec![10, 20], &vec![true, true]);
    let second = detect_updates(mark, &times);
    assert!(second.new_items.is_empty());
}
