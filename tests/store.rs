use rss_bot::store::{FeedStore, StoreError};

fn store_with_two_chats() -> FeedStore {
    let mut store = FeedStore::new();
    store.create_chat(1, 100).unwrap();
    store.create_chat(2, 200).unwrap();
    store
}

#[test]
fn register_twice_fails_with_duplicate_chat() {
    let mut store = FeedStore::new();
    let first = store.create_chat(42, 1_000).unwrap();
    assert_eq!(first.id, 42);
    assert_eq!(first.created_at, 1_000);
    let second = store.create_chat(42, 2_000);
    assert!(matches!(second, Err(StoreError::DuplicateChat)));
    assert!(store.chat_exists(42));
    // the first registration is untouched: its feed keeps the chat
    let feed = store.create_feed(42, "https://e.com/rss".to_string(), "E".to_string(), 3_000);
    assert!(feed.is_ok());
}

#[test]
fn create_feed_starts_mark_at_creation() {
    let mut store = store_with_two_chats();
    let feed = store.create_feed(1, "https://a.org/feed".to_string(), "A".to_string(), 500).unwrap();
    assert_eq!(feed.id, 1);
    assert_eq!(feed.chat_id, 1);
    assert_eq!(feed.url, "https://a.org/feed");
    assert_eq!(feed.title, "A");
    assert_eq!(feed.created_at, 500);
    assert_eq!(feed.updated_at, 500);
    let next = store.create_feed(2, "https://b.org/feed".to_string(), "B".to_string(), 600).unwrap();
    assert_eq!(next.id, 2);
}

#[test]
fn create_feed_for_unregistered_chat_fails() {
    let mut store = store_with_two_chats();
    let r = store.create_feed(9, "https://a.org/feed".to_string(), "A".to_string(), 500);
    assert!(matches!(r, Err(StoreError::NotFound)));
    assert!(store.list_all_feeds().is_empty());
}

#[test]
fn list_feeds_is_scoped_and_ordered() {
    let mut store = store_with_two_chats();
    store.create_feed(1, "u1".to_string(), "one".to_string(), 1).unwrap();
    store.create_feed(2, "u2".to_string(), "two".to_string(), 1).unwrap();
    store.create_feed(1, "u3".to_string(), "three".to_string(), 1).unwrap();
    let mine: Vec<i64> = store.list_feeds(1).iter().map(|f| f.id).collect();
    assert_eq!(mine, vec![1, 3]);
    let all: Vec<i64> = store.list_all_feeds().iter().map(|f| f.id).collect();
    assert_eq!(all, vec![1, 2, 3]);
}

#[test]
fn unsubscribe_from_another_chats_feed_deletes_nothing() {
    let mut store = store_with_two_chats();
    let theirs = store.create_feed(2, "u".to_string(), "t".to_string(), 1).unwrap();
    assert_eq!(store.delete_feed(1, theirs.id), 0);
    assert_eq!(store.list_feeds(2).len(), 1);
    assert_eq!(store.delete_feed(2, theirs.id), 1);
    assert!(store.list_feeds(2).is_empty());
    assert_eq!(store.delete_feed(2, theirs.id), 0);
}

#[test]
fn delete_chat_removes_its_feeds() {
    let mut store = store_with_two_chats();
    store.create_feed(1, "u1".to_string(), "one".to_string(), 1).unwrap();
    store.create_feed(2, "u2".to_string(), "two".to_string(), 1).unwrap();
    store.create_feed(1, "u3".to_string(), "three".to_string(), 1).unwrap();
    assert_eq!(store.delete_chat(1), 1);
    assert!(!store.chat_exists(1));
    assert!(store.list_feeds(1).is_empty());
    assert!(store.list_all_feeds().iter().all(|f| f.chat_id != 1));
    assert_eq!(store.list_all_feeds().len(), 1);
    assert_eq!(store.delete_chat(1), 0);
}

#[test]
fn advance_watermark_sets_the_mark() {
    let mut store = store_with_two_chats();
    let feed = store.create_feed(1, "u".to_string(), "t".to_string(), 10).unwrap();
    assert_eq!(store.advance_watermark(feed.id, 25), 1);
    assert_eq!(store.list_feeds(1)[0].updated_at, 25);
    assert_eq!(store.advance_watermark(99, 30), 0);
}
