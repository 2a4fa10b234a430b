//! One sweep over the stored feeds. For each feed the caller fetches its
//! document, asks for the notifications to send, sends them in order, and
//! asks how far the feed's mark moves given what was delivered. The poll
//! scheduler decides when a sweep starts.

use vstd::prelude::*;
use crate::detect::{delivered_mark, detect_updates, is_announcement_order, mark_after_delivery};
use crate::document::{
    decode_feed, item_times, publish_times, rss_document, DocumentView, FeedDocument, FeedError,
    FeedItem, ItemView,
};
use crate::store::{Feed, FeedView};

verus! {

/// A message announcing one new item to the chat that owns the feed.
#[derive(Debug)]
pub struct Notification {
    pub chat_id: i64,
    pub text: String,
    /// The item's resolved publish time.
    pub published: i64,
    /// The item's position in the document.
    pub item: usize,
}

pub open spec fn text_or_empty(o: Option<Seq<char>>) -> Seq<char> {
    match o {
        Some(t) => t,
        None => Seq::empty(),
    }
}

/// The announcement of `item` of the feed titled `feed_title`: the feed's
/// title in italics, then the item's title linked to the item's link.
pub open spec fn notification_text(feed_title: Seq<char>, item: ItemView) -> Seq<char> {
    "<i>"@ + feed_title + "</i>\n<a href='"@ + text_or_empty(item.link) + "'>"@ + text_or_empty(item.title)
        + "</a>\n"@
}

fn push_opt(s: &mut String, o: &Option<String>)
    ensures
        final(s)@ == old(s)@ + text_or_empty(crate::document::opt_text(*o)),
{
    match o {
        Some(t) => s.append(t.as_str()),
        None => {
            proof {
                assert(old(s)@ + Seq::<char>::empty() =~= old(s)@);
            }
        },
    }
}

/// Writes the announcement of `item` of the feed titled `feed_title`.
pub fn announcement(feed_title: &str, item: &FeedItem) -> (r: String)
    ensures
        r@ == notification_text(feed_title@, item@),
{
    let mut s = String::new();
    s.append("<i>");
    s.append(feed_title);
    s.append("</i>\n<a href='");
    push_opt(&mut s, &item.link);
    s.append("'>");
    push_opt(&mut s, &item.title);
    s.append("</a>\n");
    proof {
        assert(s@ =~= notification_text(feed_title@, item@));
    }
    s
}

pub open spec fn notified_items(ns: Seq<Notification>) -> Seq<usize> {
    ns.map_values(|n: Notification| n.item)
}

pub open spec fn notified_times(ns: Seq<Notification>) -> Seq<i64> {
    ns.map_values(|n: Notification| n.published)
}

/// `ns` announces, to the owner of `feed`, the items of `doc` that are newer
/// than the feed's mark, one notification each, oldest first.
pub open spec fn is_update_plan(feed: FeedView, doc: DocumentView, ns: Seq<Notification>) -> bool {
    &&& is_announcement_order(feed.updated_at, item_times(doc), notified_items(ns))
    &&& forall|p: int|
        0 <= p < ns.len() ==> {
            &&& (#[trigger] ns[p]).chat_id == feed.chat_id
            &&& ns[p].published == item_times(doc)[ns[p].item as int]
            &&& ns[p].text@ == notification_text(feed.title, doc.items[ns[p].item as int])
        }
}

/// The notifications that announce the new items of `doc` for `feed`.
pub fn plan_notifications(feed: &Feed, doc: &FeedDocument) -> (r: Vec<Notification>)
    ensures
        is_update_plan(feed@, doc@, r@),
{
    let times = publish_times(doc);
    let found = detect_updates(feed.updated_at, &times);
    let order = found.new_items;
    let mut out: Vec<Notification> = Vec::new();
    let mut p: usize = 0;
    while p < order.len()
        invariant
            p <= order.len(),
            times@ == item_times(doc@),
            times@.len() == doc.items@.len(),
            is_announcement_order(feed.updated_at, times@, order@),
            notified_items(out@) == order@.subrange(0, p as int),
            forall|q: int|
                0 <= q < out.len() ==> {
                    &&& (#[trigger] out@[q]).chat_id == feed.chat_id
                    &&& out@[q].published == item_times(doc@)[out@[q].item as int]
                    &&& out@[q].text@ == notification_text(feed.title@, doc@.items[out@[q].item as int])
                },
        decreases order.len() - p,
    {
        let i = order[p];
        assert(i < times.len());
        let text = announcement(feed.title.as_str(), &doc.items[i]);
        let ghost before = out@;
        out.push(Notification { chat_id: feed.chat_id, text, published: times[i], item: i });
        p = p + 1;
        proof {
            assert(notified_items(out@) =~= notified_items(before).push(i));
            assert(notified_items(out@) =~= order@.subrange(0, p as int));
            assert(doc@.items[i as int] == doc.items@[i as int]@);
            assert forall|q: int| 0 <= q < out.len() implies {
                &&& (#[trigger] out@[q]).chat_id == feed.chat_id
                &&& out@[q].published == item_times(doc@)[out@[q].item as int]
                &&& out@[q].text@ == notification_text(feed.title@, doc@.items[out@[q].item as int])
            } by {
                if q < before.len() {
                    assert(out@[q] == before[q]);
                }
            }
        }
    }
    proof {
        assert(order@.subrange(0, p as int) =~= order@);
    }
    out
}

/// Decodes the document fetched for `feed` and plans its notifications.
pub fn plan_feed_update(feed: &Feed, bytes: &[u8]) -> (r: Result<Vec<Notification>, FeedError>)
    ensures
        match rss_document(bytes@) {
            Some(d) => r matches Ok(ns) && is_update_plan(feed@, d, ns@),
            None => r matches Err(FeedError::Decode(_)),
        },
{
    match decode_feed(bytes) {
        Ok(doc) => Ok(plan_notifications(feed, &doc)),
        Err(e) => Err(e),
    }
}

/// The mark that `feed` moves to once the notifications `sent` were
/// attempted with outcomes `delivered` (one per notification, in order; a
/// missing outcome counts as failed): `Some` of the greatest delivered
/// publish time that lies below every failed one, where it lies above the
/// current mark, else `None`. A failed notification thus stays above the
/// mark and is sent again by the next sweep.
pub fn watermark_after_delivery(feed: &Feed, sent: &Vec<Notification>, delivered: &Vec<bool>) -> (r: Option<i64>)
    ensures
        ({
            let m = delivered_mark(feed.updated_at, notified_times(sent@), delivered@);
            r == if m > feed.updated_at {
                Some(m)
            } else {
                None::<i64>
            }
        }),
{
    let mut times: Vec<i64> = Vec::new();
    let mut p: usize = 0;
    while p < sent.len()
        invariant
            p <= sent.len(),
            times@ == notified_times(sent@).subrange(0, p as int),
        decreases sent.len() - p,
    {
        times.push(sent[p].published);
        p = p + 1;
        proof {
            assert(times@ =~= notified_times(sent@).subrange(0, p as int));
        }
    }
    proof {
        assert(times@ =~= notified_times(sent@));
    }
    let m = mark_after_delivery(feed.updated_at, &times, delivered);
    if m > feed.updated_at {
        Some(m)
    } else {
        None
    }
}

} // verus!
