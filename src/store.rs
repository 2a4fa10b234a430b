//! The chat and feed store: registered chats and the feeds that each one
//! subscribes to. Every operation on a feed is scoped by its owning chat, and
//! removing a chat removes its feeds with it.
//!
//! Timestamps are microseconds since the Unix epoch, UTC, supplied by the
//! caller.

use vstd::prelude::*;

verus! {

/// A registered chat.
#[derive(Clone, Copy, Debug, PartialEq, Eq, Structural)]
pub struct Chat {
    pub id: i64,
    pub created_at: i64,
}

/// One subscription of a chat to a feed. `updated_at` is the feed's
/// high-water mark: the publish time of the newest item already announced.
#[derive(Clone, Debug)]
pub struct Feed {
    pub id: i64,
    pub chat_id: i64,
    pub url: String,
    pub title: String,
    pub created_at: i64,
    pub updated_at: i64,
}

pub struct FeedView {
    pub id: i64,
    pub chat_id: i64,
    pub url: Seq<char>,
    pub title: Seq<char>,
    pub created_at: i64,
    pub updated_at: i64,
}

impl View for Feed {
    type V = FeedView;

    open spec fn view(&self) -> FeedView {
        FeedView {
            id: self.id,
            chat_id: self.chat_id,
            url: self.url@,
            title: self.title@,
            created_at: self.created_at,
            updated_at: self.updated_at,
        }
    }
}

impl Feed {
    /// A copy of this feed.
    pub fn copied(&self) -> (r: Feed)
        ensures
            r@ == self@,
    {
        Feed {
            id: self.id,
            chat_id: self.chat_id,
            url: self.url.clone(),
            title: self.title.clone(),
            created_at: self.created_at,
            updated_at: self.updated_at,
        }
    }
}

pub open spec fn feed_views(feeds: Seq<Feed>) -> Seq<FeedView> {
    feeds.map_values(|f: Feed| f@)
}

/// Why a store operation failed.
#[derive(Debug)]
pub enum StoreError {
    /// A chat with this id is already registered.
    DuplicateChat,
    /// The chat that the operation names is not registered.
    NotFound,
    /// The store could not carry the operation out.
    StorageError(String),
}

/// The contents of a store.
pub struct StoreView {
    pub chats: Seq<Chat>,
    pub feeds: Seq<FeedView>,
    pub next_id: i64,
}

pub open spec fn has_chat(chats: Seq<Chat>, id: i64) -> bool {
    exists|i: int| 0 <= i < chats.len() && #[trigger] chats[i].id == id
}

pub open spec fn owned_by(chat: i64) -> spec_fn(FeedView) -> bool {
    |f: FeedView| f.chat_id == chat
}

pub open spec fn not_owned_by(chat: i64) -> spec_fn(FeedView) -> bool {
    |f: FeedView| f.chat_id != chat
}

pub open spec fn not_feed(chat: i64, id: i64) -> spec_fn(FeedView) -> bool {
    |f: FeedView| !(f.chat_id == chat && f.id == id)
}

pub open spec fn other_chat(id: i64) -> spec_fn(Chat) -> bool {
    |c: Chat| c.id != id
}

impl StoreView {
    /// Chat ids are unique, feed ids ascend in storage order and stay below
    /// the next id to hand out, every feed has an owner, and no feed's mark
    /// lies before its creation.
    pub open spec fn wf(self) -> bool {
        &&& forall|i: int, j: int|
            0 <= i < j < self.chats.len() ==> #[trigger] self.chats[i].id != #[trigger] self.chats[j].id
        &&& forall|i: int, j: int|
            0 <= i < j < self.feeds.len() ==> #[trigger] self.feeds[i].id < #[trigger] self.feeds[j].id
        &&& forall|i: int| 0 <= i < self.feeds.len() ==> #[trigger] self.feeds[i].id < self.next_id
        &&& forall|i: int| 0 <= i < self.feeds.len() ==> has_chat(self.chats, #[trigger] self.feeds[i].chat_id)
        &&& forall|i: int|
            0 <= i < self.feeds.len() ==> #[trigger] self.feeds[i].created_at <= self.feeds[i].updated_at
        &&& 1 <= self.next_id
    }

    /// The feeds of one chat, in ascending id order.
    pub open spec fn feeds_of(self, chat: i64) -> Seq<FeedView> {
        self.feeds.filter(owned_by(chat))
    }

    /// The store once the feed `id` of `chat` is removed.
    pub open spec fn without_feed(self, chat: i64, id: i64) -> StoreView {
        StoreView { feeds: self.feeds.filter(not_feed(chat, id)), ..self }
    }

    /// The store once the mark of feed `id` is `mark`.
    pub open spec fn with_mark(self, id: i64, mark: i64) -> StoreView {
        StoreView {
            feeds: self.feeds.map_values(
                |f: FeedView|
                    if f.id == id {
                        FeedView { updated_at: mark, ..f }
                    } else {
                        f
                    },
            ),
            ..self
        }
    }

    /// The store once `chat` and all its feeds are removed.
    pub open spec fn without_chat(self, chat: i64) -> StoreView {
        StoreView {
            chats: self.chats.filter(other_chat(chat)),
            feeds: self.feeds.filter(not_owned_by(chat)),
            next_id: self.next_id,
        }
    }
}

pub open spec fn has_feed(feeds: Seq<FeedView>, chat: i64, id: i64) -> bool {
    exists|i: int| 0 <= i < feeds.len() && #[trigger] feeds[i].id == id && feeds[i].chat_id == chat
}

pub open spec fn has_feed_id(feeds: Seq<FeedView>, id: i64) -> bool {
    exists|i: int| 0 <= i < feeds.len() && #[trigger] feeds[i].id == id
}

/// What a filter keeps of a well-formed store's feeds keeps the store's
/// per-feed facts.
proof fn lemma_filtered_feeds(v: StoreView, p: spec_fn(FeedView) -> bool)
    requires
        v.wf(),
    ensures
        forall|a: int| 0 <= a < v.feeds.filter(p).len() ==> {
            let f = #[trigger] v.feeds.filter(p)[a];
            &&& f.id < v.next_id
            &&& f.created_at <= f.updated_at
            &&& has_chat(v.chats, f.chat_id)
            &&& p(f)
        },
{
    broadcast use vstd::seq_lib::group_filter_ensures;

    assert forall|a: int| 0 <= a < v.feeds.filter(p).len() implies {
        let f = #[trigger] v.feeds.filter(p)[a];
        &&& f.id < v.next_id
        &&& f.created_at <= f.updated_at
        &&& has_chat(v.chats, f.chat_id)
        &&& p(f)
    } by {
        let f = v.feeds.filter(p)[a];
        assert(v.feeds.filter(p).contains(f));
        v.feeds.lemma_filter_contains_rev(p, f);
        let j = choose|j: int| 0 <= j < v.feeds.len() && v.feeds[j] == f;
        assert(v.feeds[j].id < v.next_id);
    }
}

/// Removing a chat removes every feed it owns: afterwards the chat is not
/// registered, it owns no feed, and no feed of the whole store is its.
pub proof fn lemma_deleted_chat_leaves_no_feeds(v: StoreView, id: i64)
    ensures
        !has_chat(v.without_chat(id).chats, id),
        v.without_chat(id).feeds_of(id).len() == 0,
        forall|i: int|
            0 <= i < v.without_chat(id).feeds.len() ==> #[trigger] v.without_chat(id).feeds[i].chat_id != id,
{
    broadcast use vstd::seq_lib::group_filter_ensures;

    let w = v.without_chat(id);
    assert forall|i: int| 0 <= i < w.feeds.len() implies #[trigger] w.feeds[i].chat_id != id by {
        assert(not_owned_by(id)(v.feeds.filter(not_owned_by(id))[i]));
    }
    if has_chat(w.chats, id) {
        let k = choose|k: int| 0 <= k < w.chats.len() && #[trigger] w.chats[k].id == id;
        assert(other_chat(id)(v.chats.filter(other_chat(id))[k]));
    }
    if w.feeds_of(id).len() > 0 {
        let f = w.feeds.filter(owned_by(id))[0];
        assert(owned_by(id)(f));
        assert(w.feeds.filter(owned_by(id)).contains(f));
        w.feeds.lemma_filter_contains_rev(owned_by(id), f);
        let j = choose|j: int| 0 <= j < w.feeds.len() && w.feeds[j] == f;
        assert(w.feeds[j].chat_id != id);
    }
}

/// The chats and feeds, held in memory.
pub struct FeedStore {
    chats: Vec<Chat>,
    feeds: Vec<Feed>,
    next_id: i64,
}

impl View for FeedStore {
    type V = StoreView;

    closed spec fn view(&self) -> StoreView {
        StoreView { chats: self.chats@, feeds: feed_views(self.feeds@), next_id: self.next_id }
    }
}

proof fn lemma_feed_views(feeds: Seq<Feed>)
    ensures
        feed_views(feeds).len() == feeds.len(),
        forall|i: int| 0 <= i < feeds.len() ==> #[trigger] feed_views(feeds)[i] == feeds[i]@,
{
}

/// Which feeds a pass over the store keeps.
enum Keep {
    OwnedBy(i64),
    NotOwnedBy(i64),
    AllBut(i64, i64),
}

spec fn keep_pred(k: Keep) -> spec_fn(FeedView) -> bool {
    match k {
        Keep::OwnedBy(chat) => owned_by(chat),
        Keep::NotOwnedBy(chat) => not_owned_by(chat),
        Keep::AllBut(chat, id) => not_feed(chat, id),
    }
}

fn keeps(k: &Keep, f: &Feed) -> (r: bool)
    ensures
        r == keep_pred(*k)(f@),
{
    match k {
        Keep::OwnedBy(chat) => f.chat_id == *chat,
        Keep::NotOwnedBy(chat) => f.chat_id != *chat,
        Keep::AllBut(chat, id) => !(f.chat_id == *chat && f.id == *id),
    }
}

/// The feeds that `k` keeps, in their order; ids ascend where they ascended
/// in `feeds`.
fn kept_feeds(feeds: &Vec<Feed>, k: Keep) -> (r: Vec<Feed>)
    requires
        forall|i: int, j: int|
            0 <= i < j < feeds.len() ==> #[trigger] feed_views(feeds@)[i].id < #[trigger] feed_views(
                feeds@,
            )[j].id,
    ensures
        feed_views(r@) == feed_views(feeds@).filter(keep_pred(k)),
        forall|a: int, b: int| 0 <= a < b < r.len() ==> #[trigger] r@[a].id < #[trigger] r@[b].id,
{
    let ghost all = feed_views(feeds@);
    let mut out: Vec<Feed> = Vec::new();
    let mut i: usize = 0;
    while i < feeds.len()
        invariant
            i <= feeds.len(),
            all == feed_views(feeds@),
            forall|x: int, y: int|
                0 <= x < y < feeds.len() ==> #[trigger] all[x].id < #[trigger] all[y].id,
            feed_views(out@) == all.subrange(0, i as int).filter(keep_pred(k)),
            forall|a: int| #![trigger out@[a]] 0 <= a < out.len() ==> exists|j: int| #![trigger feeds@[j]] 0 <= j < i && feeds@[j]@ === out@[a]@,
            forall|a: int, b: int| 0 <= a < b < out.len() ==> #[trigger] out@[a].id < #[trigger] out@[b].id,
        decreases feeds.len() - i,
    {
        let ghost before = out@;
        proof {
            lemma_feed_views(feeds@);
            assert(all.subrange(0, i as int + 1).drop_last() =~= all.subrange(0, i as int));
            assert(all.subrange(0, i as int + 1).last() == feeds@[i as int]@);
        }
        let keep = keeps(&k, &feeds[i]);
        if keep {
            out.push(feeds[i].copied());
            proof {
                assert(feed_views(out@) =~= feed_views(before).push(feeds@[i as int]@));
                assert forall|a: int, b: int| 0 <= a < b < out.len() implies #[trigger] out@[a].id < #[trigger] out@[b].id by {
                    if b == out.len() - 1 {
                        let j = choose|j: int| #![trigger feeds@[j]] 0 <= j < i && feeds@[j]@ === before[a]@;
                        assert(all[j].id < all[i as int].id);
                        assert(feeds@[j].id == out@[a].id);
                    } else {
                        assert(out@[a] == before[a] && out@[b] == before[b]);
                    }
                }
                assert forall|a: int| #![trigger out@[a]] 0 <= a < out.len() implies exists|j: int| #![trigger feeds@[j]] 0 <= j < i + 1 && feeds@[j]@ === out@[a]@ by {
                    if a == out.len() - 1 {
                        assert(feeds@[i as int]@ == out@[a]@);
                    } else {
                        assert(out@[a] == before[a]);
                        let j = choose|j: int| #![trigger feeds@[j]] 0 <= j < i && feeds@[j]@ === before[a]@;
                        assert(feeds@[j]@ === out@[a]@);
                    }
                }
            }
        }
        proof {
            reveal(Seq::filter);
            let sub = all.subrange(0, i as int + 1);
            assert(sub.filter(keep_pred(k)) == if keep_pred(k)(sub.last()) {
                sub.drop_last().filter(keep_pred(k)).push(sub.last())
            } else {
                sub.drop_last().filter(keep_pred(k))
            });
        }
        i = i + 1;
    }
    proof {
        assert(all.subrange(0, i as int) =~= all);
    }
    out
}

/// The chats other than `id`, in their order; ids stay unique.
fn other_chats(chats: &Vec<Chat>, id: i64) -> (r: Vec<Chat>)
    requires
        forall|i: int, j: int|
            0 <= i < j < chats.len() ==> #[trigger] chats@[i].id != #[trigger] chats@[j].id,
    ensures
        r@ == chats@.filter(other_chat(id)),
        forall|a: int, b: int| 0 <= a < b < r.len() ==> #[trigger] r@[a].id != #[trigger] r@[b].id,
{
    let mut out: Vec<Chat> = Vec::new();
    let mut i: usize = 0;
    while i < chats.len()
        invariant
            i <= chats.len(),
            forall|x: int, y: int|
                0 <= x < y < chats.len() ==> #[trigger] chats@[x].id != #[trigger] chats@[y].id,
            out@ == chats@.subrange(0, i as int).filter(other_chat(id)),
            forall|a: int| #![trigger out@[a]] 0 <= a < out.len() ==> exists|j: int| #![trigger chats@[j]] 0 <= j < i && chats@[j] === out@[a],
            forall|a: int, b: int| 0 <= a < b < out.len() ==> #[trigger] out@[a].id != #[trigger] out@[b].id,
        decreases chats.len() - i,
    {
        let ghost before = out@;
        proof {
            assert(chats@.subrange(0, i as int + 1).drop_last() =~= chats@.subrange(0, i as int));
        }
        let c = chats[i];
        if c.id != id {
            out.push(c);
            proof {
                assert forall|a: int, b: int| 0 <= a < b < out.len() implies #[trigger] out@[a].id != #[trigger] out@[b].id by {
                    if b == out.len() - 1 {
                        let j = choose|j: int| #![trigger chats@[j]] 0 <= j < i && chats@[j] === before[a];
                        assert(chats@[j].id != chats@[i as int].id);
                    } else {
                        assert(out@[a] == before[a] && out@[b] == before[b]);
                    }
                }
                assert forall|a: int| #![trigger out@[a]] 0 <= a < out.len() implies exists|j: int| #![trigger chats@[j]] 0 <= j < i + 1 && chats@[j] === out@[a] by {
                    if a == out.len() - 1 {
                        assert(chats@[i as int] == out@[a]);
                    } else {
                        assert(out@[a] == before[a]);
                        let j = choose|j: int| #![trigger chats@[j]] 0 <= j < i && chats@[j] === before[a];
                        assert(chats@[j] === out@[a]);
                    }
                }
            }
        }
        proof {
            reveal(Seq::filter);
            let sub = chats@.subrange(0, i as int + 1);
            assert(sub.filter(other_chat(id)) == if other_chat(id)(sub.last()) {
                sub.drop_last().filter(other_chat(id)).push(sub.last())
            } else {
                sub.drop_last().filter(other_chat(id))
            });
        }
        i = i + 1;
    }
    proof {
        assert(chats@.subrange(0, i as int) =~= chats@);
    }
    out
}

impl FeedStore {
    /// An empty store.
    pub fn new() -> (r: FeedStore)
        ensures
            r@.wf(),
            r@.chats.len() == 0,
            r@.feeds.len() == 0,
    {
        let r = FeedStore { chats: Vec::new(), feeds: Vec::new(), next_id: 1 };
        proof {
            assert(r@.feeds =~= Seq::<FeedView>::empty());
        }
        r
    }

    /// Whether a chat with this id is registered.
    pub fn chat_exists(&self, id: i64) -> (r: bool)
        requires
            self@.wf(),
        ensures
            r == has_chat(self@.chats, id),
    {
        let mut i: usize = 0;
        while i < self.chats.len()
            invariant
                i <= self.chats.len(),
                forall|k: int| 0 <= k < i ==> #[trigger] self.chats@[k].id != id,
            decreases self.chats.len() - i,
        {
            if self.chats[i].id == id {
                return true;
            }
            i = i + 1;
        }
        false
    }

    /// Registers chat `id`, created at `now`; fails where it is registered.
    pub fn create_chat(&mut self, id: i64, now: i64) -> (r: Result<Chat, StoreError>)
        requires
            old(self)@.wf(),
        ensures
            final(self)@.wf(),
            has_chat(old(self)@.chats, id) ==> (r matches Err(StoreError::DuplicateChat))
                && final(self)@ == old(self)@,
            !has_chat(old(self)@.chats, id) ==> r == Ok::<Chat, StoreError>(Chat { id, created_at: now })
                && final(self)@ == (StoreView {
                chats: old(self)@.chats.push(Chat { id, created_at: now }),
                ..old(self)@
            }),
    {
        if self.chat_exists(id) {
            return Err(StoreError::DuplicateChat);
        }
        let chat = Chat { id, created_at: now };
        let ghost before = self@;
        self.chats.push(chat);
        proof {
            assert forall|i: int| 0 <= i < self@.feeds.len() implies has_chat(self@.chats, #[trigger] self@.feeds[i].chat_id) by {
                let k = choose|k: int| 0 <= k < before.chats.len() && #[trigger] before.chats[k].id == before.feeds[i].chat_id;
                assert(self@.chats[k] == before.chats[k]);
            }
        }
        Ok(chat)
    }

    /// Removes chat `id` and every feed it owns; 1 where it was registered,
    /// else 0.
    pub fn delete_chat(&mut self, id: i64) -> (r: u64)
        requires
            old(self)@.wf(),
        ensures
            final(self)@.wf(),
            final(self)@ == old(self)@.without_chat(id),
            r == if has_chat(old(self)@.chats, id) {
                1u64
            } else {
                0u64
            },
    {
        let ghost before = self@;
        let existed = self.chat_exists(id);
        let chats = other_chats(&self.chats, id);
        assert(self@.feeds == feed_views(self.feeds@));
        let feeds = kept_feeds(&self.feeds, Keep::NotOwnedBy(id));
        self.chats = chats;
        self.feeds = feeds;
        proof {
            lemma_feed_views(self.feeds@);
            broadcast use vstd::seq_lib::group_filter_ensures;

            lemma_filtered_feeds(before, not_owned_by(id));
            assert forall|i: int| 0 <= i < self@.feeds.len() implies has_chat(self@.chats, #[trigger] self@.feeds[i].chat_id) by {
                let f = before.feeds.filter(not_owned_by(id))[i];
                assert(has_chat(before.chats, f.chat_id));
                let k = choose|k: int| 0 <= k < before.chats.len() && #[trigger] before.chats[k].id == f.chat_id;
                assert(other_chat(id)(before.chats[k]));
                assert(self@.chats.contains(before.chats[k]));
            }
        }
        if existed {
            1
        } else {
            0
        }
    }

    /// Subscribes chat `chat_id` to the feed at `url` titled `title`, created
    /// at `now`, under the next id; its mark starts at `now`. Fails where the
    /// chat is not registered, or where ids are used up.
    pub fn create_feed(&mut self, chat_id: i64, url: String, title: String, now: i64) -> (r: Result<Feed, StoreError>)
        requires
            old(self)@.wf(),
        ensures
            final(self)@.wf(),
            !has_chat(old(self)@.chats, chat_id) ==> (r matches Err(StoreError::NotFound)) && final(self)@
                == old(self)@,
            has_chat(old(self)@.chats, chat_id) && old(self)@.next_id == i64::MAX ==> (r matches Err(
                StoreError::StorageError(_),
            )) && final(self)@ == old(self)@,
            has_chat(old(self)@.chats, chat_id) && old(self)@.next_id < i64::MAX ==> (r matches Ok(f) && f@
                == (FeedView {
                id: old(self)@.next_id,
                chat_id,
                url: url@,
                title: title@,
                created_at: now,
                updated_at: now,
            }) && final(self)@ == (StoreView {
                feeds: old(self)@.feeds.push(f@),
                next_id: (old(self)@.next_id + 1) as i64,
                ..old(self)@
            })),
    {
        if !self.chat_exists(chat_id) {
            return Err(StoreError::NotFound);
        }
        if self.next_id == i64::MAX {
            return Err(StoreError::StorageError("feed ids are used up".to_owned()));
        }
        let ghost before = self@;
        let feed = Feed { id: self.next_id, chat_id, url, title, created_at: now, updated_at: now };
        self.feeds.push(feed.copied());
        self.next_id = self.next_id + 1;
        proof {
            assert(self@.feeds =~= before.feeds.push(feed@));
        }
        Ok(feed)
    }

    /// The feeds of chat `chat_id`, in ascending id order.
    pub fn list_feeds(&self, chat_id: i64) -> (r: Vec<Feed>)
        requires
            self@.wf(),
        ensures
            feed_views(r@) == self@.feeds_of(chat_id),
            forall|a: int, b: int| 0 <= a < b < r.len() ==> #[trigger] r@[a].id < #[trigger] r@[b].id,
    {
        assert(self@.feeds == feed_views(self.feeds@));
        kept_feeds(&self.feeds, Keep::OwnedBy(chat_id))
    }

    /// Every feed of every chat, in ascending id order.
    pub fn list_all_feeds(&self) -> (r: Vec<Feed>)
        ensures
            feed_views(r@) == self@.feeds,
    {
        let mut out: Vec<Feed> = Vec::new();
        let mut i: usize = 0;
        while i < self.feeds.len()
            invariant
                i <= self.feeds.len(),
                feed_views(out@) == feed_views(self.feeds@).subrange(0, i as int),
            decreases self.feeds.len() - i,
        {
            let ghost before = out@;
            out.push(self.feeds[i].copied());
            proof {
                lemma_feed_views(self.feeds@);
                assert(feed_views(out@) =~= feed_views(before).push(self.feeds@[i as int]@));
            }
            i = i + 1;
            proof {
                assert(feed_views(out@) =~= feed_views(self.feeds@).subrange(0, i as int));
            }
        }
        proof {
            assert(feed_views(self.feeds@).subrange(0, i as int) =~= feed_views(self.feeds@));
        }
        out
    }

    /// Removes the feed `feed_id` where chat `chat_id` owns it; 1 where it
    /// did, else 0.
    pub fn delete_feed(&mut self, chat_id: i64, feed_id: i64) -> (r: u64)
        requires
            old(self)@.wf(),
        ensures
            final(self)@.wf(),
            final(self)@ == old(self)@.without_feed(chat_id, feed_id),
            r == if has_feed(old(self)@.feeds, chat_id, feed_id) {
                1u64
            } else {
                0u64
            },
    {
        let ghost before = self@;
        proof {
            lemma_feed_views(self.feeds@);
        }
        let mut found = false;
        let mut i: usize = 0;
        while i < self.feeds.len()
            invariant
                i <= self.feeds.len(),
                self@ == before,
                found == exists|k: int| 0 <= k < i && #[trigger] self.feeds@[k].id == feed_id && self.feeds@[k].chat_id == chat_id,
            decreases self.feeds.len() - i,
        {
            if self.feeds[i].id == feed_id && self.feeds[i].chat_id == chat_id {
                found = true;
            }
            i = i + 1;
        }
        proof {
            assert(found == has_feed(before.feeds, chat_id, feed_id)) by {
                if found {
                    let k = choose|k: int| 0 <= k < i && #[trigger] self.feeds@[k].id == feed_id && self.feeds@[k].chat_id == chat_id;
                    assert(before.feeds[k].id == feed_id);
                }
                if has_feed(before.feeds, chat_id, feed_id) {
                    let k = choose|k: int| 0 <= k < before.feeds.len() && #[trigger] before.feeds[k].id == feed_id && before.feeds[k].chat_id == chat_id;
                    assert(self.feeds@[k].id == feed_id);
                }
            }
        }
        assert(self@.feeds == feed_views(self.feeds@));
        let feeds = kept_feeds(&self.feeds, Keep::AllBut(chat_id, feed_id));
        self.feeds = feeds;
        proof {
            lemma_feed_views(self.feeds@);
            lemma_filtered_feeds(before, not_feed(chat_id, feed_id));
        }
        if found {
            1
        } else {
            0
        }
    }

    /// Sets the mark of feed `feed_id` to `mark`; 1 where the feed is there,
    /// else 0. The caller moves a mark only forward.
    pub fn advance_watermark(&mut self, feed_id: i64, mark: i64) -> (r: u64)
        requires
            old(self)@.wf(),
            forall|i: int|
                0 <= i < old(self)@.feeds.len() && #[trigger] old(self)@.feeds[i].id == feed_id ==> mark
                    > old(self)@.feeds[i].updated_at,
        ensures
            final(self)@.wf(),
            final(self)@ == old(self)@.with_mark(feed_id, mark),
            r == if has_feed_id(old(self)@.feeds, feed_id) {
                1u64
            } else {
                0u64
            },
    {
        let ghost before = self@;
        proof {
            lemma_feed_views(self.feeds@);
        }
        let mut i: usize = 0;
        while i < self.feeds.len()
            invariant
                i <= self.feeds.len(),
                self@ == before,
                before == old(self)@,
                before.wf(),
                forall|k: int|
                    0 <= k < before.feeds.len() && #[trigger] before.feeds[k].id == feed_id ==> mark
                        > before.feeds[k].updated_at,
                forall|k: int| 0 <= k < self.feeds.len() ==> #[trigger] before.feeds[k] == self.feeds@[k]@,
                forall|k: int| 0 <= k < i ==> #[trigger] self.feeds@[k].id != feed_id,
            decreases self.feeds.len() - i,
        {
            if self.feeds[i].id == feed_id {
                let mut f = self.feeds[i].copied();
                f.updated_at = mark;
                assert(before.feeds[i as int].id == feed_id);
                assert(mark > before.feeds[i as int].updated_at);
                assert(before.feeds[i as int].created_at <= before.feeds[i as int].updated_at);
                assert(f@ == FeedView { updated_at: mark, ..before.feeds[i as int] });
                self.feeds.set(i, f);
                proof {
                    lemma_feed_views(self.feeds@);
                    assert(forall|k: int| 0 <= k < self.feeds.len() && k != i ==> #[trigger] self@.feeds[k] == before.feeds[k]);
                    assert(self@.feeds[i as int] == f@);
                    assert(self@.feeds =~= before.with_mark(feed_id, mark).feeds) by {
                        assert forall|k: int| 0 <= k < before.feeds.len() && k != i implies before.feeds[k].id != feed_id by {
                            if k < i {
                                assert(before.feeds[k].id < before.feeds[i as int].id);
                            } else {
                                assert(before.feeds[i as int].id < before.feeds[k].id);
                            }
                        }
                    }
                    assert(self@ == before.with_mark(feed_id, mark));
                }
                return 1;
            }
            i = i + 1;
        }
        proof {
            assert(self@.feeds =~= before.with_mark(feed_id, mark).feeds);
        }
        0
    }
}

} // verus!
