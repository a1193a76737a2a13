//! YouTube live chat polling: which listed messages are queued, and how the
//! polling and retry intervals are chosen.

use crate::chat::{clone_optional, IncomingChatMessage};
use crate::text::{chars_of, string_from, trimmed};
use vstd::prelude::*;

verus! {

pub const YOUTUBE_CHAT_MESSAGES_URL: &'static str = "https://www.googleapis.com/youtube/v3/liveChat/messages";

/// The API key and the live chat to poll.
#[derive(Debug, Clone)]
pub struct YouTubeChatConfig {
    pub api_key: String,
    pub live_chat_id: String,
}

/// Which YouTube chat to follow: a live chat directly, or the live chat of a
/// video or of a channel's current broadcast.
#[derive(Debug, Clone)]
pub enum YouTubeChatTarget {
    LiveChat(String),
    Video(String),
    Channel(String),
}

/// A configured YouTube chat source.
#[derive(Debug, Clone)]
pub struct YouTubeChatSource {
    pub api_key: String,
    pub target: YouTubeChatTarget,
    /// The shortest wait between two polls, in seconds.
    pub min_poll_interval_secs: u64,
    /// Whether to follow the interval that each page asks for.
    pub adaptive_polling: bool,
}

impl YouTubeChatSource {
    /// The polling configuration when the target is a live chat id; a video or
    /// channel must first be resolved to its live chat.
    pub fn live_chat_config(&self) -> (r: Option<YouTubeChatConfig>)
        ensures
            r is Some <==> self.target is LiveChat,
            r matches Some(c) ==> (c.api_key@ == self.api_key@ && (self.target matches YouTubeChatTarget::LiveChat(
                id,
            ) && c.live_chat_id@ == id@)),
    {
        match &self.target {
            YouTubeChatTarget::LiveChat(id) => Some(
                YouTubeChatConfig { api_key: self.api_key.clone(), live_chat_id: id.clone() },
            ),
            _ => None,
        }
    }
}

/// The wait before the next poll, in milliseconds: the interval the page asked
/// for, kept between one second and one minute, and never below the configured
/// minimum (itself kept between one second and one minute). With adaptive
/// polling, a page that brought no message backs off: the wait doubles from the
/// previous one, up to one minute.
pub open spec fn poll_delay_spec(
    requested: u64,
    min_poll_interval_secs: u64,
    adaptive: bool,
    previous_delay: u64,
    idle: bool,
) -> int {
    let floor = if min_poll_interval_secs >= 60 {
        60_000
    } else if min_poll_interval_secs == 0 {
        1000
    } else {
        min_poll_interval_secs * 1000
    };
    let asked = if requested < 1000 {
        1000
    } else if requested > 60_000 {
        60_000
    } else {
        requested as int
    };
    let base = if asked > floor { asked } else { floor };
    let backed_off = if 2 * previous_delay > 60_000 { 60_000 } else { 2 * previous_delay };
    if adaptive && idle && backed_off > base {
        backed_off
    } else {
        base
    }
}

pub fn poll_delay_millis(
    requested: u64,
    min_poll_interval_secs: u64,
    adaptive: bool,
    previous_delay: u64,
    idle: bool,
) -> (r: u64)
    ensures
        r == poll_delay_spec(requested, min_poll_interval_secs, adaptive, previous_delay, idle),
{
    let floor: u64 = if min_poll_interval_secs >= 60 {
        60_000
    } else if min_poll_interval_secs == 0 {
        1000
    } else {
        min_poll_interval_secs * 1000
    };
    let asked = poll_interval_millis(requested);
    let base = if asked > floor {
        asked
    } else {
        floor
    };
    let backed_off = next_retry_delay_millis(previous_delay);
    if adaptive && idle && backed_off > base {
        backed_off
    } else {
        base
    }
}

/// One page of the `liveChat/messages` listing.
#[derive(Debug, Clone)]
pub struct LiveChatResponse {
    pub next_page_token: Option<String>,
    pub polling_interval_millis: u64,
    pub items: Vec<LiveChatItem>,
}

/// The polling interval the API asks for when a page does not say.
pub fn default_polling_interval() -> (r: u64)
    ensures
        r == 5000,
{
    5000
}

#[derive(Debug, Clone)]
pub struct LiveChatItem {
    pub id: String,
    pub snippet: LiveChatSnippet,
    pub author_details: LiveChatAuthor,
}

#[derive(Debug, Clone)]
pub struct LiveChatSnippet {
    pub display_message: String,
    pub has_display_content: bool,
    pub published_at: Option<String>,
}

#[derive(Debug, Clone)]
pub struct LiveChatAuthor {
    pub display_name: String,
    pub profile_image_url: Option<String>,
}

/// `m` is the chat message that item `item` carries.
pub open spec fn item_message(m: IncomingChatMessage, item: LiveChatItem) -> bool {
    &&& m.source@ == "youtube"@
    &&& m.external_id@ == item.id@
    &&& m.author@ == item.author_details.display_name@
    &&& m.text@ == item.snippet.display_message@
    &&& m.avatar_url == item.author_details.profile_image_url
    &&& m.sent_at == item.snippet.published_at
}

/// An item is queued when it has display content that is not blank.
pub open spec fn displayable(item: LiveChatItem) -> bool {
    item.snippet.has_display_content && crate::text::trim(item.snippet.display_message@).len() > 0
}

/// The chat message of a listed item, unless it has nothing to display.
pub fn chat_message_from_item(item: &LiveChatItem) -> (r: Option<IncomingChatMessage>)
    ensures
        r is Some <==> displayable(*item),
        r matches Some(m) ==> item_message(m, *item),
{
    if !item.snippet.has_display_content {
        return None;
    }
    let t = trimmed(item.snippet.display_message.as_str());
    if t.as_str().is_empty() {
        return None;
    }
    Some(
        IncomingChatMessage {
            source: "youtube".to_owned(),
            external_id: item.id.clone(),
            author: item.author_details.display_name.clone(),
            text: item.snippet.display_message.clone(),
            avatar_url: clone_optional(&item.author_details.profile_image_url),
            sent_at: clone_optional(&item.snippet.published_at),
        },
    )
}

/// How many of the first `n` items are displayable.
pub open spec fn displayable_count(items: Seq<LiveChatItem>, n: int) -> int
    decreases n,
{
    if n <= 0 {
        0
    } else {
        displayable_count(items, n - 1) + if displayable(items[n - 1]) { 1int } else { 0int }
    }
}

proof fn lemma_displayable_count_step(items: Seq<LiveChatItem>, n: int)
    requires
        0 <= n,
    ensures
        displayable_count(items, n + 1) == displayable_count(items, n) + if displayable(items[n]) {
            1int
        } else {
            0int
        },
        0 <= displayable_count(items, n) <= n,
    decreases n,
{
    if n > 0 {
        lemma_displayable_count_step(items, n - 1);
    }
}

/// The messages of a page that are queued: one per displayable item, in the
/// order the page lists them.
pub fn page_messages(items: &Vec<LiveChatItem>) -> (r: Vec<IncomingChatMessage>)
    ensures
        r@.len() == displayable_count(items@, items@.len() as int),
        forall|i: int|
            0 <= i < items@.len() && displayable(#[trigger] items@[i]) ==> {
                let k = displayable_count(items@, i);
                &&& 0 <= k < r@.len()
                &&& item_message(r@[k], items@[i])
            },
{
    let mut r: Vec<IncomingChatMessage> = Vec::new();
    let mut k: usize = 0;
    while k < items.len()
        invariant
            k <= items@.len(),
            r@.len() == displayable_count(items@, k as int),
            forall|i: int|
                0 <= i < k && displayable(#[trigger] items@[i]) ==> {
                    let c = displayable_count(items@, i);
                    &&& 0 <= c < r@.len()
                    &&& item_message(r@[c], items@[i])
                },
        decreases items@.len() - k,
    {
        proof {
            lemma_displayable_count_step(items@, k as int);
        }
        match chat_message_from_item(&items[k]) {
            Some(m) => r.push(m),
            None => {},
        }
        k += 1;
    }
    r
}

/// How long to wait before the next page: the interval the API asked for,
/// kept between one second and one minute.
pub fn poll_interval_millis(requested: u64) -> (r: u64)
    ensures
        r == (if requested < 1000 {
            1000
        } else if requested > 60_000 {
            60_000
        } else {
            requested
        }),
{
    if requested < 1000 {
        1000
    } else if requested > 60_000 {
        60_000
    } else {
        requested
    }
}

/// The first delay after a failed request, in milliseconds.
pub fn initial_retry_delay_millis() -> (r: u64)
    ensures
        r == 2000,
{
    2000
}

/// The delay after another failure: doubled, at most one minute.
pub fn next_retry_delay_millis(delay: u64) -> (r: u64)
    ensures
        r == (if 2 * delay > 60_000 {
            60_000
        } else {
            2 * delay
        }),
{
    if delay > 30_000 {
        60_000
    } else {
        2 * delay
    }
}

/// The query of a `liveChat/messages` request, with the page token when there is one.
pub fn request_query(config: &YouTubeChatConfig, page_token: Option<&str>) -> (r: Vec<(String, String)>)
    ensures
        r@.len() == (if page_token is Some { 5int } else { 4int }),
        r@[0].0@ == "liveChatId"@ && r@[0].1@ == config.live_chat_id@,
        r@[1].0@ == "part"@ && r@[1].1@ == "id,snippet,authorDetails"@,
        r@[2].0@ == "maxResults"@ && r@[2].1@ == "200"@,
        r@[3].0@ == "key"@ && r@[3].1@ == config.api_key@,
        page_token matches Some(t) ==> r@[4].0@ == "pageToken"@ && r@[4].1@ == t@,
{
    let mut r: Vec<(String, String)> = Vec::new();
    r.push(("liveChatId".to_owned(), config.live_chat_id.clone()));
    r.push(("part".to_owned(), "id,snippet,authorDetails".to_owned()));
    r.push(("maxResults".to_owned(), "200".to_owned()));
    r.push(("key".to_owned(), config.api_key.clone()));
    match page_token {
        Some(t) => r.push(("pageToken".to_owned(), t.to_owned())),
        None => {},
    }
    r
}

/// At most the first 500 characters of an error response body.
pub fn error_body_excerpt(body: &str) -> (r: String)
    ensures
        r@ == (if body@.len() <= 500 { body@ } else { body@.take(500) }),
{
    let v = chars_of(body);
    let end: usize = if v.len() <= 500 { v.len() } else { 500 };
    let r = string_from(&v, 0, end);
    assert(v@.subrange(0, end as int) =~= (if body@.len() <= 500 { body@ } else { body@.take(500) }));
    r
}

} // verus!
