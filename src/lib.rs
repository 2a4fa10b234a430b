//! Feed subscription engine: update detection over syndication feeds, the
//! watermark commit rule, an in-memory chat and feed store, the poll
//! scheduler and the command router of a chat bot.

pub mod command;
pub mod dburl;
pub mod detect;
pub mod document;
pub mod reply;
pub mod router;
pub mod scheduler;
pub mod store;
pub mod sweep;
pub mod text;
