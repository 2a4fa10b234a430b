use rss_bot::dburl::database_url;
use rss_bot::reply::{
    error_reply, farewell_text, help_text, list_reply, prompt_text, registered_reply,
    registration_failed_reply, subscribed_reply, unsubscribed_reply,
};
use rss_bot::store::{Chat, FeedStore, StoreError};
use rss_bot::sweep::announcement;
use rss_bot::document::{FeedError, FeedItem};
use rss_bot::reply::{reply_for, Outcome, SubscribeError};

#[test]
fn unsubscribe_reply_counts() {
    assert_eq!(unsubscribed_reply(0), "Deleted 0 feed");
    assert_eq!(unsubscribed_reply(1), "Deleted 1 feed");
    assert_eq!(unsubscribed_reply(1234567890), "Deleted 1234567890 feed");
}

#[test]
fn list_reply_has_one_line_per_feed() {
    let mut store = FeedStore::new();
    store.create_chat(1, 0).unwrap();
    store.create_feed(1, "u1".to_string(), "First".to_string(), 0).unwrap();
    store.create_feed(1, "u2".to_string(), "Second".to_string(), 0).unwrap();
    assert_eq!(list_reply(&store.list_feeds(1)), "1 - First\n2 - Second");
    assert_eq!(list_reply(&vec![]), "You have no subscriptions.");
}

#[test]
fn registered_reply_shows_creation_time() {
    let chat = Chat { id: 3, created_at: 1699101000_250_000 };
    assert_eq!(registered_reply(&chat), "[2023-11-04 12:30:00.250] Registering your chat with the bot...Done.");
    let whole = Chat { id: 3, created_at: 0 };
    assert_eq!(registered_reply(&whole), "[1970-01-01 00:00:00] Registering your chat with the bot...Done.");
}

#[test]
fn registered_reply_falls_back_to_a_numeral() {
    let chat = Chat { id: 3, created_at: i64::MIN };
    assert_eq!(
        registered_reply(&chat),
        "[-9223372036854775808] Registering your chat with the bot...Done."
    );
}

#[test]
fn error_replies() {
    assert_eq!(
        registration_failed_reply(&StoreError::DuplicateChat),
        "[this chat is already registered] Error in registering new chat"
    );
    assert_eq!(error_reply("boom"), "Error: boom");
}

#[test]
fn subscribed_reply_names_the_feed() {
    let mut store = FeedStore::new();
    store.create_chat(1, 0).unwrap();
    let feed = store.create_feed(1, "https://e.com/rss".to_string(), "E".to_string(), 0).unwrap();
    assert_eq!(subscribed_reply(&feed), "Subscribed to feed:\nE\nhttps://e.com/rss");
}

#[test]
fn help_texts_list_the_commands_of_each_state() {
    assert_eq!(
        help_text(false),
        "These commands are supported:\n\n/help \u{2014} display this text.\n/start \u{2014} create an account for your chat with the bot"
    );
    assert_eq!(
        help_text(true),
        "These commands are supported:\n\n\
         /help \u{2014} display this text.\n\
         /subscribe \u{2014} <RSS address> subscribe to an RSS feed\n\
         /list \u{2014} list feeds\n\
         /unsubscribe \u{2014} <feed id> - unsubscribe from feed. Take the ids from the list command\n\
         /deleteaccount \u{2014} delete my user account and all associated subscriptions"
    );
}

#[test]
fn fixed_texts() {
    assert!(help_text(true).contains("/subscribe"));
    assert!(!help_text(false).contains("/subscribe"));
    assert!(help_text(false).contains("/start"));
    assert!(prompt_text().contains("/start"));
    assert_eq!(farewell_text(), "Bye bye. Your account has been deleted.");
}

#[test]
fn announcement_without_title_or_link() {
    let item = FeedItem { title: None, link: None, pub_date: None };
    assert_eq!(announcement("Blog", &item), "<i>Blog</i>\n<a href=''></a>\n");
}

#[test]
fn database_url_encodes_the_password() {
    assert_eq!(
        database_url("bot", "p@ss word/é~", "db", "feeds"),
        "postgres://bot:p%40ss%20word%2F%C3%A9~@db:5432/feeds"
    );
    assert_eq!(database_url("u", "plain", "h", "n"), "postgres://u:plain@h:5432/n");
}

#[test]
fn reply_for_each_outcome() {
    assert_eq!(reply_for(&Outcome::Ignored), None);
    assert_eq!(reply_for(&Outcome::PromptRegister).as_deref(), Some(prompt_text()));
    assert_eq!(reply_for(&Outcome::ShowHelp { registered: true }).as_deref(), Some(help_text(true)));
    assert_eq!(
        reply_for(&Outcome::Registration(Err(StoreError::DuplicateChat))).unwrap(),
        "[this chat is already registered] Error in registering new chat"
    );
    assert_eq!(
        reply_for(&Outcome::Registration(Ok(Chat { id: 1, created_at: 0 }))).unwrap(),
        "[1970-01-01 00:00:00] Registering your chat with the bot...Done."
    );
    assert_eq!(
        reply_for(&Outcome::Subscription(Err(SubscribeError::Fetch("timed out".to_string())))).unwrap(),
        "Error: timed out"
    );
    assert_eq!(
        reply_for(&Outcome::Subscription(Err(SubscribeError::Feed(FeedError::Invalid("bad link".to_string()))))).unwrap(),
        "Error: bad link"
    );
    assert_eq!(
        reply_for(&Outcome::Subscription(Err(SubscribeError::Store(StoreError::NotFound)))).unwrap(),
        "Error: this chat is not registered"
    );
    assert_eq!(reply_for(&Outcome::Listing(Ok(vec![]))).unwrap(), "You have no subscriptions.");
    assert_eq!(
        reply_for(&Outcome::Listing(Err(StoreError::StorageError("down".to_string())))).unwrap(),
        "Error: down"
    );
    assert_eq!(reply_for(&Outcome::Unsubscription(Ok(0))).unwrap(), "Deleted 0 feed");
    assert_eq!(reply_for(&Outcome::AccountDeletion(Ok(1))).unwrap(), farewell_text());
}
