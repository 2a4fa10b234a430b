//! Feed documents as the library sees them: the channel's title and link and,
//! for each item, its optional title, link and publish date. Decoding and
//! validation are done by the `rss` crate; publish dates are read by
//! `rfc822_sanitizer`.

use vstd::prelude::*;

verus! {

#[verifier::external_type_specification]
#[verifier::external_body]
pub struct ExRssError(rss::Error);

#[verifier::external_type_specification]
#[verifier::external_body]
pub struct ExValidationError(rss::validation::ValidationError);

/// One item of a feed document.
#[derive(Debug)]
pub struct FeedItem {
    pub title: Option<String>,
    pub link: Option<String>,
    pub pub_date: Option<String>,
}

/// A decoded feed document.
#[derive(Debug)]
pub struct FeedDocument {
    pub title: String,
    pub link: String,
    pub items: Vec<FeedItem>,
}

pub struct ItemView {
    pub title: Option<Seq<char>>,
    pub link: Option<Seq<char>>,
    pub pub_date: Option<Seq<char>>,
}

pub struct DocumentView {
    pub title: Seq<char>,
    pub link: Seq<char>,
    pub items: Seq<ItemView>,
}

pub open spec fn opt_text(o: Option<String>) -> Option<Seq<char>> {
    match o {
        Some(s) => Some(s@),
        None => None,
    }
}

impl View for FeedItem {
    type V = ItemView;

    open spec fn view(&self) -> ItemView {
        ItemView {
            title: opt_text(self.title),
            link: opt_text(self.link),
            pub_date: opt_text(self.pub_date),
        }
    }
}

impl View for FeedDocument {
    type V = DocumentView;

    open spec fn view(&self) -> DocumentView {
        DocumentView {
            title: self.title@,
            link: self.link@,
            items: self.items@.map_values(|i: FeedItem| i@),
        }
    }
}

/// Why a feed document was not taken.
#[derive(Debug)]
pub enum FeedError {
    /// The bytes are not a feed document.
    Decode(String),
    /// The document decodes but breaks the format's structural rules.
    Invalid(String),
}

/// The document that the `rss` crate decodes from these bytes, if any.
pub uninterp spec fn rss_document(bytes: Seq<u8>) -> Option<DocumentView>;

/// The instant, in microseconds since the Unix epoch, that
/// `rfc822_sanitizer` reads from a date text, if any.
pub uninterp spec fn rfc2822_instant(text: Seq<char>) -> Option<i64>;

/// Whether the `rss` crate decodes a channel from these bytes and, with its
/// link replaced by `link`, finds it valid.
pub uninterp spec fn rss_accepts(bytes: Seq<u8>, link: Seq<char>) -> bool;

/// Relies on `rss::Channel::read_from`: decodes a channel from bytes; the
/// outcome depends on the bytes alone. Hands back the channel's title, link
/// and items' title, link and publish date.
#[verifier::external_body]
fn read_channel(bytes: &[u8]) -> (r: Result<FeedDocument, rss::Error>)
    ensures
        r is Ok <==> rss_document(bytes@) is Some,
        r matches Ok(doc) ==> rss_document(bytes@) == Some(doc@),
{
    rss::Channel::read_from(bytes).map(|c| {
        let items = c.items.iter().map(|i| FeedItem {
            title: i.title.clone(), link: i.link.clone(), pub_date: i.pub_date.clone(),
        }).collect();
        FeedDocument { title: c.title, link: c.link, items }
    })
}

/// Relies on `rss::Channel::read_from`, `rss::Channel::set_link` and
/// `rss::validation::Validate::validate` for a channel (links are URLs,
/// dates are RFC 2822, and the like): the verdict depends on the bytes and
/// the link alone. `Err(None)` where the bytes do not decode.
#[verifier::external_body]
fn check_channel(bytes: &[u8], link: &str) -> (r: Result<(), Option<rss::validation::ValidationError>>)
    ensures
        r is Ok <==> rss_accepts(bytes@, link@),
{
    match rss::Channel::read_from(bytes) {
        Ok(mut c) => {
            c.set_link(link);
            rss::validation::Validate::validate(&c).map_err(Some)
        },
        Err(_) => Err(None),
    }
}

/// Relies on the `Display` of `rss::Error`: its message.
#[verifier::external_body]
fn decode_error_text(e: &rss::Error) -> String {
    e.to_string()
}

/// Relies on the `Display` of `rss::validation::ValidationError`: its message.
#[verifier::external_body]
fn validation_error_text(e: &rss::validation::ValidationError) -> String {
    e.to_string()
}

/// Relies on `rfc822_sanitizer::parse_from_rfc2822_with_fallback`: reads an
/// RFC 2822 date, retrying once on a repaired form of common mistakes; the
/// instant depends on the text alone. Converted to microseconds since the
/// Unix epoch by chrono's `timestamp_micros`.
#[verifier::external_body]
fn parse_rfc2822(text: &str) -> (r: Option<i64>)
    ensures
        r == rfc2822_instant(text@),
{
    rfc822_sanitizer::parse_from_rfc2822_with_fallback(text).ok().map(|d| d.timestamp_micros())
}

/// The earliest timestamp there is: what an item without a readable date
/// resolves to, so that it never counts as new.
pub const EARLIEST: i64 = i64::MIN;

/// The publish time an item resolves to: its date as read, or `EARLIEST`
/// where it has none or it cannot be read.
pub open spec fn resolved_time(pub_date: Option<Seq<char>>) -> i64 {
    match pub_date {
        Some(text) => match rfc2822_instant(text) {
            Some(t) => t,
            None => EARLIEST,
        },
        None => EARLIEST,
    }
}

/// The resolved publish time of each item, in document order.
pub open spec fn item_times(doc: DocumentView) -> Seq<i64> {
    doc.items.map_values(|i: ItemView| resolved_time(i.pub_date))
}

/// Resolves one item's publish time.
pub fn resolve_time(pub_date: &Option<String>) -> (r: i64)
    ensures
        r == resolved_time(opt_text(*pub_date)),
{
    match pub_date {
        Some(text) => match parse_rfc2822(text.as_str()) {
            Some(t) => t,
            None => EARLIEST,
        },
        None => EARLIEST,
    }
}

/// Resolves the publish time of every item of a document.
pub fn publish_times(doc: &FeedDocument) -> (r: Vec<i64>)
    ensures
        r@ == item_times(doc@),
{
    let mut times: Vec<i64> = Vec::new();
    let mut i: usize = 0;
    while i < doc.items.len()
        invariant
            i <= doc.items.len(),
            times@ == item_times(doc@).subrange(0, i as int),
        decreases doc.items.len() - i,
    {
        let t = resolve_time(&doc.items[i].pub_date);
        times.push(t);
        i = i + 1;
        proof {
            assert(times@ =~= item_times(doc@).subrange(0, i as int));
        }
    }
    proof {
        assert(times@ =~= item_times(doc@));
    }
    times
}

/// Decodes a feed document from bytes.
pub fn decode_feed(bytes: &[u8]) -> (r: Result<FeedDocument, FeedError>)
    ensures
        match rss_document(bytes@) {
            Some(d) => r matches Ok(doc) && doc@ == d,
            None => r matches Err(FeedError::Decode(_)),
        },
{
    match read_channel(bytes) {
        Ok(doc) => Ok(doc),
        Err(e) => Err(FeedError::Decode(decode_error_text(&e))),
    }
}

/// Decodes and validates the document fetched from `link` for a new
/// subscription: `Ok` exactly where the bytes decode and the `rss` crate
/// accepts the channel with its link replaced by `link`. The result's link
/// is `link`; its title and items are the decoded ones.
pub fn decode_subscription(bytes: &[u8], link: &str) -> (r: Result<FeedDocument, FeedError>)
    ensures
        r is Ok <==> (rss_document(bytes@) is Some && rss_accepts(bytes@, link@)),
        rss_document(bytes@) is None <==> r matches Err(FeedError::Decode(_)),
        r matches Ok(doc) ==> (rss_document(bytes@) matches Some(d) && doc@ == (DocumentView {
            link: link@,
            ..d
        })),
{
    match read_channel(bytes) {
        Ok(doc) => match check_channel(bytes, link) {
            Ok(()) => Ok(FeedDocument { title: doc.title, link: link.to_owned(), items: doc.items }),
            Err(Some(e)) => Err(FeedError::Invalid(validation_error_text(&e))),
            Err(None) => Err(FeedError::Invalid("the document could not be read again".to_owned())),
        },
        Err(e) => Err(FeedError::Decode(decode_error_text(&e))),
    }
}

} // verus!
