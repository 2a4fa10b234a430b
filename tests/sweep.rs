use rss_bot::document::{decode_feed, decode_subscription, resolve_time, FeedError, EARLIEST};
use rss_bot::store::FeedStore;
use rss_bot::sweep::{plan_feed_update, watermark_after_delivery};

const SECOND: i64 = 1_000_000;

fn rss(items: &[(&str, Option<&str>)]) -> Vec<u8> {
    let mut xml = String::from(
        "<?xml version=\"1.0\"?><rss version=\"2.0\"><channel><title>News</title>\
         <link>https://example.com/</link><description>all the news</description>",
    );
    for (title, date) in items {
        xml.push_str("<item><title>");
        xml.push_str(title);
        xml.push_str("</title><link>https://example.com/");
        xml.push_str(title);
        xml.push_str("</link>");
        if let Some(d) = date {
            xml.push_str("<pubDate>");
            xml.push_str(d);
            xml.push_str("</pubDate>");
        }
        xml.push_str("</item>");
    }
    xml.push_str("</channel></rss>");
    xml.into_bytes()
}

fn subscribed_feed(created_at: i64) -> rss_bot::store::Feed {
    let mut store = FeedStore::new();
    store.create_chat(77, created_at).unwrap();
    store.create_feed(77, "https://example.com/rss".to_string(), "News".to_string(), created_at).unwrap()
}

#[test]
fn resolves_rfc2822_dates_to_microseconds() {
    assert_eq!(resolve_time(&Some("Tue, 10 Jun 2003 04:00:00 GMT".to_string())), 1055217600 * SECOND);
    assert_eq!(resolve_time(&Some("Wed, 11 Jun 2003 09:30:00 +0200".to_string())), 1055316600 * SECOND);
}

#[test]
fn resolves_sloppy_dates_through_the_fallback() {
    assert_eq!(resolve_time(&Some("Thu, 05 January 2023 10:00:00 GMT".to_string())), 1672912800 * SECOND);
}

#[test]
fn missing_or_unreadable_dates_resolve_to_earliest() {
    assert_eq!(resolve_time(&None), EARLIEST);
    assert_eq!(resolve_time(&Some("yesterday".to_string())), EARLIEST);
}

#[test]
fn decodes_items_in_document_order() {
    let doc = decode_feed(&rss(&[("a", Some("Mon, 02 Jan 2023 10:00:00 GMT")), ("b", None)])).unwrap();
    assert_eq!(doc.title, "News");
    assert_eq!(doc.link, "https://example.com/");
    assert_eq!(doc.items.len(), 2);
    assert_eq!(doc.items[0].title.as_deref(), Some("a"));
    assert_eq!(doc.items[0].pub_date.as_deref(), Some("Mon, 02 Jan 2023 10:00:00 GMT"));
    assert_eq!(doc.items[1].link.as_deref(), Some("https://example.com/b"));
    assert_eq!(doc.items[1].pub_date, None);
}

#[test]
fn garbage_is_a_decode_error() {
    assert!(matches!(decode_feed(b"not a feed"), Err(FeedError::Decode(_))));
    let feed = subscribed_feed(0);
    assert!(matches!(plan_feed_update(&feed, b"<html></html>"), Err(FeedError::Decode(_))));
}

#[test]
fn subscription_takes_the_requested_link() {
    let bytes = rss(&[("a", Some("Mon, 02 Jan 2023 10:00:00 GMT"))]);
    let doc = decode_subscription(&bytes, "https://example.com/rss").unwrap();
    assert_eq!(doc.link, "https://example.com/rss");
    assert_eq!(doc.title, "News");
}

#[test]
fn subscription_rejects_an_invalid_link() {
    let bytes = rss(&[("a", Some("Mon, 02 Jan 2023 10:00:00 GMT"))]);
    assert!(matches!(decode_subscription(&bytes, "not a url"), Err(FeedError::Invalid(_))));
    assert!(matches!(decode_subscription(b"junk", "https://e.com"), Err(FeedError::Decode(_))));
}

#[test]
fn items_older_than_the_subscription_are_not_announced() {
    let feed = subscribed_feed(1699101000 * SECOND);
    let bytes = rss(&[
        ("a", Some("Mon, 02 Jan 2023 10:00:00 GMT")),
        ("b", Some("Thu, 05 Jan 2023 10:00:00 GMT")),
        ("c", None),
    ]);
    let plan = plan_feed_update(&feed, &bytes).unwrap();
    assert!(plan.is_empty());
    assert_eq!(watermark_after_delivery(&feed, &plan, &vec![]), None);
}

#[test]
fn two_new_items_are_announced_oldest_first() {
    let feed = subscribed_feed(1000 * SECOND);
    let bytes = rss(&[
        ("later", Some("Thu, 05 Jan 2023 10:00:00 GMT")),
        ("earlier", Some("Mon, 02 Jan 2023 10:00:00 GMT")),
    ]);
    let plan = plan_feed_update(&feed, &bytes).unwrap();
    assert_eq!(plan.len(), 2);
    assert_eq!(plan[0].item, 1);
    assert_eq!(plan[0].published, 1672653600 * SECOND);
    assert_eq!(plan[0].chat_id, 77);
    assert_eq!(plan[0].text, "<i>News</i>\n<a href='https://example.com/earlier'>earlier</a>\n");
    assert_eq!(plan[1].item, 0);
    assert_eq!(plan[1].text, "<i>News</i>\n<a href='https://example.com/later'>later</a>\n");
    assert_eq!(watermark_after_delivery(&feed, &plan, &vec![true, true]), Some(1672912800 * SECOND));
}

#[test]
fn failed_deliveries_do_not_advance_the_mark() {
    let feed = subscribed_feed(1000 * SECOND);
    let bytes = rss(&[
        ("later", Some("Thu, 05 Jan 2023 10:00:00 GMT")),
        ("earlier", Some("Mon, 02 Jan 2023 10:00:00 GMT")),
    ]);
    let plan = plan_feed_update(&feed, &bytes).unwrap();
    assert_eq!(watermark_after_delivery(&feed, &plan, &vec![false, false]), None);
    assert_eq!(watermark_after_delivery(&feed, &plan, &vec![true, false]), Some(1672653600 * SECOND));
    assert_eq!(watermark_after_delivery(&feed, &plan, &vec![false, true]), None);
}

#[test]
fn a_second_sweep_announces_nothing_new() {
    let mut store = FeedStore::new();
    store.create_chat(5, 0).unwrap();
    let feed = store.create_feed(5, "u".to_string(), "News".to_string(), 0).unwrap();
    let bytes = rss(&[("a", Some("Mon, 02 Jan 2023 10:00:00 GMT"))]);
    let plan = plan_feed_update(&feed, &bytes).unwrap();
    assert_eq!(plan.len(), 1);
    let mark = watermark_after_delivery(&feed, &plan, &vec![true]).unwrap();
    assert_eq!(store.advance_watermark(feed.id, mark), 1);
    let feed = store.list_feeds(5).remove(0);
    assert_eq!(feed.updated_at, mark);
    assert!(plan_feed_update(&feed, &bytes).unwrap().is_empty());
}
