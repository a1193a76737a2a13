//! Chat ingest settings and which ingest loops they start.

use crate::chat::youtube::{YouTubeChatSource, YouTubeChatTarget};
use crate::text::{ascii_lowercased, chars_of, string_from, trim_bounds, trimmed};
use vstd::prelude::*;

verus! {

/// Where chat comes from and how much of it waits.
#[derive(Debug, Clone)]
pub struct ChatSettings {
    pub queue_capacity: usize,
    pub ingest_token: Option<String>,
    pub twitch_channel: Option<String>,
    pub twitch_eventsub_secret: Option<String>,
    pub youtube_api_key: Option<String>,
    pub youtube_live_chat_id: Option<String>,
    pub youtube_video_id: Option<String>,
    pub youtube_channel_id: Option<String>,
    pub youtube_min_poll_interval_secs: u64,
    pub youtube_adaptive_polling: bool,
}

/// The ingest loops to run.
#[derive(Debug, Clone)]
pub struct ChatIngestPlan {
    /// The Twitch channel to read over anonymous IRC.
    pub twitch_channel: Option<String>,
    /// The YouTube chat to follow.
    pub youtube: Option<YouTubeChatSource>,
}

/// `s` without its leading `#` characters.
pub open spec fn strip_hashes(s: Seq<char>) -> Seq<char>
    decreases s.len(),
{
    if s.len() > 0 && s[0] == '#' {
        strip_hashes(s.drop_first())
    } else {
        s
    }
}

/// A channel name as IRC wants it: trimmed, without `#`, lower-case.
pub open spec fn irc_channel(s: Seq<char>) -> Seq<char> {
    crate::text::to_ascii_lowercase(strip_hashes(crate::text::trim(s)))
}

/// A setting that is present and not blank.
pub open spec fn present(o: Option<String>) -> bool {
    o matches Some(s) && crate::text::trim(s@).len() > 0
}

fn is_present(o: &Option<String>) -> (r: bool)
    ensures
        r == present(*o),
{
    match o {
        Some(s) => {
            let t = trimmed(s.as_str());
            !t.as_str().is_empty()
        },
        None => false,
    }
}

/// The IRC form of a configured channel name.
pub fn normalize_channel(channel: &str) -> (r: String)
    ensures
        r@ == irc_channel(channel@),
{
    let v = chars_of(channel);
    let (a, b) = trim_bounds(&v, 0, v.len());
    assert(v@.subrange(0, v@.len() as int) =~= channel@);
    let mut i: usize = a;
    while i < b && v[i] == '#'
        invariant
            a <= i <= b <= v@.len(),
            strip_hashes(v@.subrange(a as int, b as int)) == strip_hashes(v@.subrange(i as int, b as int)),
        decreases b - i,
    {
        assert(v@.subrange(i as int, b as int).drop_first() =~= v@.subrange(i + 1, b as int));
        i += 1;
    }
    let stripped = string_from(&v, i, b);
    ascii_lowercased(stripped.as_str())
}

/// `t` selects the first non-blank of the live chat id, the video id and the
/// channel id of `chat`, in that order.
pub open spec fn selects_first_target(t: YouTubeChatTarget, chat: ChatSettings) -> bool {
    if present(chat.youtube_live_chat_id) {
        (t matches YouTubeChatTarget::LiveChat(id) && id@ == chat.youtube_live_chat_id->0@)
    } else if present(chat.youtube_video_id) {
        (t matches YouTubeChatTarget::Video(id) && id@ == chat.youtube_video_id->0@)
    } else {
        (t matches YouTubeChatTarget::Channel(id) && id@ == chat.youtube_channel_id->0@)
    }
}

/// Some YouTube selector is set.
pub open spec fn any_youtube_selector(chat: ChatSettings) -> bool {
    present(chat.youtube_live_chat_id) || present(chat.youtube_video_id) || present(
        chat.youtube_channel_id,
    )
}

fn cloned_value(o: &Option<String>) -> (r: String)
    requires
        o is Some,
    ensures
        r@ == o->0@,
{
    match o {
        Some(s) => s.clone(),
        None => String::new(),
    }
}

/// The ingest loops that `chat` configures: Twitch IRC for a non-blank
/// channel, and YouTube when the API key and at least one selector are
/// non-blank, following the first non-blank of the live chat id, the video id
/// and the channel id.
pub fn chat_ingest_plan(chat: &ChatSettings) -> (r: ChatIngestPlan)
    ensures
        r.twitch_channel is Some <==> present(chat.twitch_channel),
        r.twitch_channel matches Some(c) ==> c@ == irc_channel(chat.twitch_channel->0@),
        r.youtube is Some <==> present(chat.youtube_api_key) && any_youtube_selector(*chat),
        r.youtube matches Some(y) ==> {
            &&& y.api_key@ == chat.youtube_api_key->0@
            &&& selects_first_target(y.target, *chat)
            &&& y.min_poll_interval_secs == chat.youtube_min_poll_interval_secs
            &&& y.adaptive_polling == chat.youtube_adaptive_polling
        },
{
    let twitch_channel = match &chat.twitch_channel {
        Some(c) => if is_present(&chat.twitch_channel) {
            Some(normalize_channel(c.as_str()))
        } else {
            None
        },
        None => None,
    };
    let target = if is_present(&chat.youtube_live_chat_id) {
        Some(YouTubeChatTarget::LiveChat(cloned_value(&chat.youtube_live_chat_id)))
    } else if is_present(&chat.youtube_video_id) {
        Some(YouTubeChatTarget::Video(cloned_value(&chat.youtube_video_id)))
    } else if is_present(&chat.youtube_channel_id) {
        Some(YouTubeChatTarget::Channel(cloned_value(&chat.youtube_channel_id)))
    } else {
        None
    };
    let youtube = if is_present(&chat.youtube_api_key) {
        match target {
            Some(target) => Some(
                YouTubeChatSource {
                    api_key: cloned_value(&chat.youtube_api_key),
                    target,
                    min_poll_interval_secs: chat.youtube_min_poll_interval_secs,
                    adaptive_polling: chat.youtube_adaptive_polling,
                },
            ),
            None => None,
        }
    } else {
        None
    };
    ChatIngestPlan { twitch_channel, youtube }
}

} // verus!
