use stream_infra::chat::ingest::{chat_ingest_plan, normalize_channel, ChatSettings};
use stream_infra::chat::twitch::{anonymous_nick, irc_handshake, irc_line_action, IrcAction};
use stream_infra::chat::youtube::{
    chat_message_from_item, default_polling_interval, error_body_excerpt,
    initial_retry_delay_millis, poll_delay_millis, YouTubeChatTarget, next_retry_delay_millis, page_messages, poll_interval_millis,
    request_query,
    LiveChatAuthor, LiveChatItem, LiveChatSnippet, YouTubeChatConfig,
};

fn settings() -> ChatSettings {
    ChatSettings {
        queue_capacity: 10,
        ingest_token: None,
        twitch_channel: Some("  #MyChannel ".into()),
        twitch_eventsub_secret: None,
        youtube_api_key: Some("key".into()),
        youtube_live_chat_id: Some("chat".into()),
        youtube_video_id: Some("video".into()),
        youtube_channel_id: Some("channel".into()),
        youtube_min_poll_interval_secs: 1,
        youtube_adaptive_polling: true,
    }
}

#[test]
fn ingest_plan_starts_configured_sources() {
    let plan = chat_ingest_plan(&settings());
    assert_eq!(plan.twitch_channel.as_deref(), Some("mychannel"));
    let youtube = plan.youtube.unwrap();
    assert_eq!(youtube.api_key, "key");
    assert!(matches!(youtube.target, YouTubeChatTarget::LiveChat(ref id) if id == "chat"));
    assert_eq!(youtube.live_chat_config().unwrap().live_chat_id, "chat");

    let mut s = settings();
    s.twitch_channel = Some("   ".into());
    s.youtube_live_chat_id = None;
    s.youtube_video_id = None;
    s.youtube_channel_id = None;
    let plan = chat_ingest_plan(&s);
    assert!(plan.twitch_channel.is_none());
    assert!(plan.youtube.is_none());
    assert_eq!(normalize_channel("##Chan"), "chan");
}

#[test]
fn irc_lines_become_actions() {
    let (pong, counter) = irc_line_action("PING :tmi.twitch.tv\r\n", 5, 0);
    assert!(matches!(pong, IrcAction::Pong(ref p) if p == "PONG :tmi.twitch.tv\r\n"));
    assert_eq!(counter, 5);
    let (reconnect, _) = irc_line_action(":tmi.twitch.tv RECONNECT\r\n", 5, 0);
    assert!(matches!(reconnect, IrcAction::Reconnect));
    let (ignore, counter) = irc_line_action(":tmi.twitch.tv 001 nick :Welcome", 5, 0);
    assert!(matches!(ignore, IrcAction::Ignore));
    assert_eq!(counter, 5);
    let (chat, counter) = irc_line_action(":viewer!v@v PRIVMSG #c :hello", 5, 1234);
    assert_eq!(counter, 6);
    match chat {
        IrcAction::Chat(m) => {
            assert_eq!(m.source, "twitch");
            assert_eq!(m.external_id, "irc-1234-6");
            assert_eq!(m.author, "viewer");
            assert_eq!(m.text, "hello");
        }
        other => panic!("unexpected {other:?}"),
    }
    let (tagged, _) = irc_line_action("@id=abc :viewer!v@v PRIVMSG #c :hi", u64::MAX, 1);
    match tagged {
        IrcAction::Chat(m) => assert_eq!(m.external_id, "abc"),
        other => panic!("unexpected {other:?}"),
    }
    assert_eq!(irc_line_action(":v!v@v PRIVMSG #c :x", u64::MAX, 7).1, 0);
}

#[test]
fn anonymous_login() {
    assert_eq!(anonymous_nick(0), "justinfan10000");
    assert_eq!(anonymous_nick(90_001), "justinfan10001");
    assert_eq!(
        irc_handshake("justinfan1", "chan"),
        "CAP REQ :twitch.tv/tags twitch.tv/commands\r\nPASS SCHMOOPIIE\r\nNICK justinfan1\r\nJOIN #chan\r\n"
    );
}

fn item(text: &str, display: bool) -> LiveChatItem {
    LiveChatItem {
        id: "message-id".into(),
        snippet: LiveChatSnippet {
            display_message: text.into(),
            has_display_content: display,
            published_at: Some("2026-07-26T07:30:00Z".into()),
        },
        author_details: LiveChatAuthor {
            display_name: "Viewer".into(),
            profile_image_url: Some("https://example.test/avatar.png".into()),
        },
    }
}

#[test]
fn youtube_items_with_display_content_become_messages() {
    let m = chat_message_from_item(&item("Hello chat", true)).unwrap();
    assert_eq!(m.source, "youtube");
    assert_eq!(m.external_id, "message-id");
    assert_eq!(m.author, "Viewer");
    assert_eq!(m.text, "Hello chat");
    assert_eq!(m.avatar_url.as_deref(), Some("https://example.test/avatar.png"));
    assert_eq!(m.sent_at.as_deref(), Some("2026-07-26T07:30:00Z"));
    assert!(chat_message_from_item(&item("Hello chat", false)).is_none());
    assert!(chat_message_from_item(&item("  ", true)).is_none());
}

#[test]
fn youtube_polling_intervals() {
    assert_eq!(default_polling_interval(), 5000);
    assert_eq!(poll_interval_millis(2500), 2500);
    assert_eq!(poll_interval_millis(10), 1000);
    assert_eq!(poll_interval_millis(600_000), 60_000);
    assert_eq!(initial_retry_delay_millis(), 2000);
    assert_eq!(next_retry_delay_millis(2000), 4000);
    assert_eq!(next_retry_delay_millis(40_000), 60_000);
    assert_eq!(next_retry_delay_millis(60_000), 60_000);
    assert_eq!(next_retry_delay_millis(u64::MAX), 60_000);
    assert_eq!(next_retry_delay_millis(30_000), 60_000);
}

#[test]
fn youtube_request_and_error_text() {
    let config = YouTubeChatConfig { api_key: "k".into(), live_chat_id: "c".into() };
    let query = request_query(&config, Some("next"));
    assert_eq!(query.len(), 5);
    assert_eq!(query[0], ("liveChatId".to_string(), "c".to_string()));
    assert_eq!(query[3], ("key".to_string(), "k".to_string()));
    assert_eq!(query[4], ("pageToken".to_string(), "next".to_string()));
    assert_eq!(request_query(&config, None).len(), 4);
    assert_eq!(error_body_excerpt("short"), "short");
    assert_eq!(error_body_excerpt(&"é".repeat(600)).chars().count(), 500);
}

#[test]
fn a_page_queues_its_displayable_items_in_order() {
    let mut second = item("second", true);
    second.id = "second-id".into();
    let items = vec![item("first", true), item("hidden", false), item(" \t", true), second];
    let messages = page_messages(&items);
    assert_eq!(messages.len(), 2);
    assert_eq!(messages[0].text, "first");
    assert_eq!(messages[1].text, "second");
    assert_eq!(messages[1].external_id, "second-id");
    assert!(page_messages(&Vec::new()).is_empty());
}

#[test]
fn youtube_follows_the_first_non_blank_selector() {
    let mut s = settings();
    s.youtube_live_chat_id = Some("  ".into());
    let youtube = chat_ingest_plan(&s).youtube.unwrap();
    assert!(matches!(youtube.target, YouTubeChatTarget::Video(ref id) if id == "video"));
    assert!(youtube.live_chat_config().is_none());
    s.youtube_video_id = None;
    let youtube = chat_ingest_plan(&s).youtube.unwrap();
    assert!(matches!(youtube.target, YouTubeChatTarget::Channel(ref id) if id == "channel"));
    s.youtube_api_key = Some(" ".into());
    assert!(chat_ingest_plan(&s).youtube.is_none());
}

#[test]
fn youtube_poll_delays_respect_the_minimum() {
    assert_eq!(poll_delay_millis(2500, 1, false, 0, false), 2500);
    assert_eq!(poll_delay_millis(2500, 5, false, 0, false), 5000);
    assert_eq!(poll_delay_millis(30_000, 5, false, 0, true), 30_000);
    assert_eq!(poll_delay_millis(10, 0, false, 0, false), 1000);
    assert_eq!(poll_delay_millis(600_000, 120, false, 0, false), 60_000);
    assert_eq!(poll_delay_millis(2500, 1, true, 4000, true), 8000);
    assert_eq!(poll_delay_millis(2500, 1, true, 4000, false), 2500);
    assert_eq!(poll_delay_millis(2500, 1, true, 50_000, true), 60_000);
    assert_eq!(poll_delay_millis(2500, 1, true, 1000, true), 2500);
}
