//! The texts that the bot replies with.

use vstd::prelude::*;
use crate::document::FeedError;
use crate::store::{feed_views, Chat, Feed, FeedView, StoreError};
use crate::text::{decimal, instant_text, push_decimal, push_instant, push_signed_decimal, signed_decimal};

verus! {

pub open spec fn help_spec(registered: bool) -> Seq<char> {
    if registered {
        "These commands are supported:\n\n/help \u{2014} display this text.\n/subscribe \u{2014} <RSS address> subscribe to an RSS feed\n/list \u{2014} list feeds\n/unsubscribe \u{2014} <feed id> - unsubscribe from feed. Take the ids from the list command\n/deleteaccount \u{2014} delete my user account and all associated subscriptions"@
    } else {
        "These commands are supported:\n\n/help \u{2014} display this text.\n/start \u{2014} create an account for your chat with the bot"@
    }
}

/// The commands that a chat in this state may use.
pub fn help_text(registered: bool) -> (r: &'static str)
    ensures
        r@ == help_spec(registered),
{
    if registered {
        "These commands are supported:\n\n/help \u{2014} display this text.\n/subscribe \u{2014} <RSS address> subscribe to an RSS feed\n/list \u{2014} list feeds\n/unsubscribe \u{2014} <feed id> - unsubscribe from feed. Take the ids from the list command\n/deleteaccount \u{2014} delete my user account and all associated subscriptions"
    } else {
        "These commands are supported:\n\n/help \u{2014} display this text.\n/start \u{2014} create an account for your chat with the bot"
    }
}

pub open spec fn prompt_spec() -> Seq<char> {
    "type /start to create an account and chat with the bot. Only this chat id will be stored."@
}

/// The prompt to register, for an unregistered chat.
pub fn prompt_text() -> (r: &'static str)
    ensures
        r@ == prompt_spec(),
{
    "type /start to create an account and chat with the bot. Only this chat id will be stored."
}

pub open spec fn farewell_spec() -> Seq<char> {
    "Bye bye. Your account has been deleted."@
}

/// The reply to a deleted account.
pub fn farewell_text() -> (r: &'static str)
    ensures
        r@ == farewell_spec(),
{
    "Bye bye. Your account has been deleted."
}

pub open spec fn registered_spec(chat: Chat) -> Seq<char> {
    "["@ + instant_text(chat.created_at) + "] Registering your chat with the bot...Done."@
}

/// The reply to a registration, stamped with the chat's creation time.
pub fn registered_reply(chat: &Chat) -> (r: String)
    ensures
        r@ == registered_spec(*chat),
{
    let mut s = String::new();
    s.append("[");
    push_instant(&mut s, chat.created_at);
    s.append("] Registering your chat with the bot...Done.");
    proof {
        assert(s@ =~= registered_spec(*chat));
    }
    s
}

pub open spec fn store_error_spec(e: StoreError) -> Seq<char> {
    match e {
        StoreError::DuplicateChat => "this chat is already registered"@,
        StoreError::NotFound => "this chat is not registered"@,
        StoreError::StorageError(m) => m@,
    }
}

/// What went wrong in the store, in words.
pub fn store_error_text(e: &StoreError) -> (r: String)
    ensures
        r@ == store_error_spec(*e),
{
    match e {
        StoreError::DuplicateChat => "this chat is already registered".to_owned(),
        StoreError::NotFound => "this chat is not registered".to_owned(),
        StoreError::StorageError(m) => m.clone(),
    }
}

pub open spec fn feed_error_spec(e: FeedError) -> Seq<char> {
    match e {
        FeedError::Decode(m) => m@,
        FeedError::Invalid(m) => m@,
    }
}

/// What is wrong with a feed document, in words.
pub fn feed_error_text(e: &FeedError) -> (r: String)
    ensures
        r@ == feed_error_spec(*e),
{
    match e {
        FeedError::Decode(m) => m.clone(),
        FeedError::Invalid(m) => m.clone(),
    }
}

pub open spec fn registration_failed_spec(e: StoreError) -> Seq<char> {
    "["@ + store_error_spec(e) + "] Error in registering new chat"@
}

/// The reply to a failed registration.
pub fn registration_failed_reply(e: &StoreError) -> (r: String)
    ensures
        r@ == registration_failed_spec(*e),
{
    let mut s = String::new();
    s.append("[");
    let detail = store_error_text(e);
    s.append(detail.as_str());
    s.append("] Error in registering new chat");
    proof {
        assert(s@ =~= registration_failed_spec(*e));
    }
    s
}

pub open spec fn error_spec(detail: Seq<char>) -> Seq<char> {
    "Error: "@ + detail
}

/// The reply to a command that failed for the reason `detail`.
pub fn error_reply(detail: &str) -> (r: String)
    ensures
        r@ == error_spec(detail@),
{
    let mut s = String::new();
    s.append("Error: ");
    s.append(detail);
    proof {
        assert(s@ =~= error_spec(detail@));
    }
    s
}

pub open spec fn subscribed_spec(feed: FeedView) -> Seq<char> {
    "Subscribed to feed:\n"@ + feed.title + "\n"@ + feed.url
}

/// The reply to a new subscription: the feed's title and address.
pub fn subscribed_reply(feed: &Feed) -> (r: String)
    ensures
        r@ == subscribed_spec(feed@),
{
    let mut s = String::new();
    s.append("Subscribed to feed:\n");
    s.append(feed.title.as_str());
    s.append("\n");
    s.append(feed.url.as_str());
    proof {
        assert(s@ =~= subscribed_spec(feed@));
    }
    s
}

pub open spec fn unsubscribed_spec(count: u64) -> Seq<char> {
    "Deleted "@ + decimal(count as nat) + " feed"@
}

/// The reply to an unsubscription: how many feeds went.
pub fn unsubscribed_reply(count: u64) -> (r: String)
    ensures
        r@ == unsubscribed_spec(count),
{
    let mut s = String::new();
    s.append("Deleted ");
    push_decimal(&mut s, count);
    s.append(" feed");
    proof {
        assert(s@ =~= unsubscribed_spec(count));
    }
    s
}

/// One line of the feed list: the feed's id and title.
pub open spec fn feed_line(feed: FeedView) -> Seq<char> {
    signed_decimal(feed.id as int) + " - "@ + feed.title
}

/// The lines of `feeds`, in order, one per line.
pub open spec fn feed_lines(feeds: Seq<FeedView>) -> Seq<char>
    decreases feeds.len(),
{
    if feeds.len() == 0 {
        Seq::empty()
    } else if feeds.len() == 1 {
        feed_line(feeds[0])
    } else {
        feed_lines(feeds.drop_last()) + "\n"@ + feed_line(feeds.last())
    }
}

pub open spec fn list_spec(feeds: Seq<FeedView>) -> Seq<char> {
    if feeds.len() == 0 {
        "You have no subscriptions."@
    } else {
        feed_lines(feeds)
    }
}

/// The reply to a listing: one `id - title` line per feed, in the order
/// given, or a note that there are none.
pub fn list_reply(feeds: &Vec<Feed>) -> (r: String)
    ensures
        r@ == list_spec(feed_views(feeds@)),
{
    if feeds.len() == 0 {
        return "You have no subscriptions.".to_owned();
    }
    let ghost all = feed_views(feeds@);
    let mut s = String::new();
    let mut i: usize = 0;
    while i < feeds.len()
        invariant
            i <= feeds.len(),
            all == feed_views(feeds@),
            s@ == feed_lines(all.subrange(0, i as int)),
        decreases feeds.len() - i,
    {
        if i > 0 {
            s.append("\n");
        }
        push_signed_decimal(&mut s, feeds[i].id);
        s.append(" - ");
        s.append(feeds[i].title.as_str());
        i = i + 1;
        proof {
            let sub = all.subrange(0, i as int);
            assert(sub.drop_last() =~= all.subrange(0, i as int - 1));
            assert(sub.last() == feeds@[i as int - 1]@);
            if i == 1 {
                assert(s@ =~= feed_line(sub[0]));
            } else {
                assert(s@ =~= feed_lines(sub.drop_last()) + "\n"@ + feed_line(sub.last()));
            }
        }
    }
    proof {
        assert(all.subrange(0, i as int) =~= all);
    }
    s
}

/// Why a subscription did not go through.
#[derive(Debug)]
pub enum SubscribeError {
    /// The document could not be fetched; the text says why.
    Fetch(String),
    /// The fetched document was not taken.
    Feed(FeedError),
    /// The store did not take the feed.
    Store(StoreError),
}

pub open spec fn subscribe_error_spec(e: SubscribeError) -> Seq<char> {
    match e {
        SubscribeError::Fetch(m) => m@,
        SubscribeError::Feed(f) => feed_error_spec(f),
        SubscribeError::Store(s) => store_error_spec(s),
    }
}

/// What came of carrying out a chat's action.
#[derive(Debug)]
pub enum Outcome {
    ShowHelp { registered: bool },
    PromptRegister,
    Ignored,
    Registration(Result<Chat, StoreError>),
    Subscription(Result<Feed, SubscribeError>),
    Listing(Result<Vec<Feed>, StoreError>),
    Unsubscription(Result<u64, StoreError>),
    AccountDeletion(Result<u64, StoreError>),
}

/// The reply to an outcome, if any.
pub open spec fn reply_spec(o: Outcome) -> Option<Seq<char>> {
    match o {
        Outcome::ShowHelp { registered } => Some(help_spec(registered)),
        Outcome::PromptRegister => Some(prompt_spec()),
        Outcome::Ignored => None,
        Outcome::Registration(Ok(chat)) => Some(registered_spec(chat)),
        Outcome::Registration(Err(e)) => Some(registration_failed_spec(e)),
        Outcome::Subscription(Ok(feed)) => Some(subscribed_spec(feed@)),
        Outcome::Subscription(Err(e)) => Some(error_spec(subscribe_error_spec(e))),
        Outcome::Listing(Ok(feeds)) => Some(list_spec(feed_views(feeds@))),
        Outcome::Listing(Err(e)) => Some(error_spec(store_error_spec(e))),
        Outcome::Unsubscription(Ok(n)) => Some(unsubscribed_spec(n)),
        Outcome::Unsubscription(Err(e)) => Some(error_spec(store_error_spec(e))),
        Outcome::AccountDeletion(Ok(_)) => Some(farewell_spec()),
        Outcome::AccountDeletion(Err(e)) => Some(error_spec(store_error_spec(e))),
    }
}

fn owned(s: &str) -> (r: String)
    ensures
        r@ == s@,
{
    s.to_owned()
}

/// Chooses and writes the reply to an outcome; `None` where no reply is due.
pub fn reply_for(o: &Outcome) -> (r: Option<String>)
    ensures
        match reply_spec(*o) {
            Some(t) => r matches Some(s) && s@ == t,
            None => r is None,
        },
{
    match o {
        Outcome::ShowHelp { registered } => Some(owned(help_text(*registered))),
        Outcome::PromptRegister => Some(owned(prompt_text())),
        Outcome::Ignored => None,
        Outcome::Registration(Ok(chat)) => Some(registered_reply(chat)),
        Outcome::Registration(Err(e)) => Some(registration_failed_reply(e)),
        Outcome::Subscription(Ok(feed)) => Some(subscribed_reply(feed)),
        Outcome::Subscription(Err(e)) => {
            let detail = match e {
                SubscribeError::Fetch(m) => m.clone(),
                SubscribeError::Feed(f) => feed_error_text(f),
                SubscribeError::Store(s) => store_error_text(s),
            };
            Some(error_reply(detail.as_str()))
        },
        Outcome::Listing(Ok(feeds)) => Some(list_reply(feeds)),
        Outcome::Listing(Err(e)) => Some(error_reply(store_error_text(e).as_str())),
        Outcome::Unsubscription(Ok(n)) => Some(unsubscribed_reply(*n)),
        Outcome::Unsubscription(Err(e)) => Some(error_reply(store_error_text(e).as_str())),
        Outcome::AccountDeletion(Ok(_)) => Some(owned(farewell_text())),
        Outcome::AccountDeletion(Err(e)) => Some(error_reply(store_error_text(e).as_str())),
    }
}

} // verus!
