use hmac::{Hmac, Mac};
use sha2::Sha256;
use stream_infra::chat::ChatInbox;
use stream_infra::chat::IncomingChatMessage;
use stream_infra::web::auth::{
    authorize, constant_time_eq, credentials_from_decoded, submitted_credentials, WebAuthSettings,
};
use stream_infra::web::components::{
    acknowledge_displayed, current_message_id, parse_message_id, secret_placeholder,
    target_field_name,
};
use stream_infra::web::twitch::{
    authenticate_eventsub_at, decode_sha256, eventsub_reply, hex_digit, recent_at,
    timestamp_is_recent_at, valid_signature, EventSubAuth, EventSubHeader, EventSubRejection,
    EventSubReply, TwitchChatEvent, TwitchChatMessage, TwitchEventSubPayload, TwitchSubscription,
};

#[test]
fn credential_comparison_rejects_different_values_and_lengths() {
    assert!(constant_time_eq(b"same", b"same"));
    assert!(!constant_time_eq(b"same", b"diff"));
    assert!(!constant_time_eq(b"short", b"longer"));
}

fn signature(secret: &str, message_id: &str, timestamp: &str, body: &[u8]) -> String {
    let mut mac = Hmac::<Sha256>::new_from_slice(secret.as_bytes()).unwrap();
    mac.update(message_id.as_bytes());
    mac.update(timestamp.as_bytes());
    mac.update(body);
    let bytes = mac.finalize().into_bytes();
    let hex = bytes.iter().map(|byte| format!("{byte:02x}")).collect::<String>();
    format!("sha256={hex}")
}

#[test]
fn verifies_signed_twitch_payloads_and_rejects_tampering() {
    let body = br#"{"event":{"message_id":"one"}}"#;
    let submitted = signature("0123456789", "message-id", "timestamp", body);

    assert!(valid_signature("0123456789", "message-id", "timestamp", body, &submitted));
    assert!(!valid_signature("0123456789", "message-id", "timestamp", b"tampered", &submitted));
}

#[test]
fn signatures_need_the_prefix_and_exact_hex() {
    let body = b"{}";
    let good = signature("secret", "id", "ts", body);
    assert!(valid_signature("secret", "id", "ts", body, &good));
    assert!(valid_signature("secret", "id", "ts", body, &good.to_uppercase().replacen("SHA256=", "sha256=", 1)));
    assert!(!valid_signature("secret", "id", "ts", body, &good["sha256=".len()..]));
    assert!(!valid_signature("other", "id", "ts", body, &good));
    assert!(!valid_signature("secret", "id2", "ts", body, &good));
    assert!(!valid_signature("secret", "id", "ts", body, &good[..good.len() - 1]));
}

#[test]
fn hex_digits_and_digests_decode() {
    assert_eq!(hex_digit(b'0'), Some(0));
    assert_eq!(hex_digit(b'f'), Some(15));
    assert_eq!(hex_digit(b'A'), Some(10));
    assert_eq!(hex_digit(b'g'), None);
    let hex = "00ff10".repeat(10) + "abcd";
    let bytes = decode_sha256(&hex).unwrap();
    assert_eq!(bytes[0], 0x00);
    assert_eq!(bytes[1], 0xff);
    assert_eq!(bytes[2], 0x10);
    assert_eq!(bytes[31], 0xcd);
    assert!(decode_sha256("00").is_none());
    assert!(decode_sha256(&("zz".repeat(32))).is_none());
}

#[test]
fn freshness_allows_one_minute_ahead_and_ten_minutes_behind() {
    let minute: i128 = 60_000_000_000;
    assert!(recent_at(0, 10 * minute));
    assert!(!recent_at(0, 10 * minute + 1));
    assert!(recent_at(minute, 0));
    assert!(!recent_at(minute + 1, 0));
    assert!(!recent_at(i128::MIN, i128::MAX));
    let sent = 1_700_000_000 * 1_000_000_000i128;
    assert!(timestamp_is_recent_at("2023-11-14T22:13:20Z", sent + minute));
    assert!(!timestamp_is_recent_at("2023-11-14T22:13:20Z", sent + 11 * minute));
    assert!(!timestamp_is_recent_at("not a time", sent));
}

#[test]
fn eventsub_authentication_checks_in_order() {
    let now = 1_700_000_000 * 1_000_000_000i128;
    let ts = "2023-11-14T22:13:20Z";
    let body = b"{}";
    let sig = signature("secret", "id", ts, body);
    let secret = Some("secret".to_string());
    assert_eq!(
        authenticate_eventsub_at(&None, Some("id"), Some(ts), Some(&sig), Some("notification"), body, now),
        EventSubAuth::Disabled
    );
    assert_eq!(
        authenticate_eventsub_at(&Some("  ".into()), Some("id"), Some(ts), Some(&sig), Some("x"), body, now),
        EventSubAuth::Disabled
    );
    assert_eq!(
        authenticate_eventsub_at(&secret, None, Some(ts), Some(&sig), Some("x"), body, now),
        EventSubAuth::MissingHeader(EventSubHeader::MessageId)
    );
    assert_eq!(
        authenticate_eventsub_at(&secret, Some("id"), Some(ts), None, None, body, now),
        EventSubAuth::MissingHeader(EventSubHeader::Signature)
    );
    assert_eq!(
        authenticate_eventsub_at(&secret, Some("id"), Some(ts), Some(&sig), None, body, now),
        EventSubAuth::MissingHeader(EventSubHeader::MessageType)
    );
    assert_eq!(
        authenticate_eventsub_at(&secret, Some("id"), Some(ts), Some(&sig), Some("x"), body, now),
        EventSubAuth::Authenticated
    );
    assert_eq!(
        authenticate_eventsub_at(&secret, Some("id"), Some(ts), Some(&sig), Some("x"), b"[]", now),
        EventSubAuth::Unauthorized
    );
    assert_eq!(
        authenticate_eventsub_at(&secret, Some("id"), Some(ts), Some(&sig), Some("x"), body, now + 3_600_000_000_000),
        EventSubAuth::Unauthorized
    );
    assert_eq!(EventSubHeader::Timestamp.name(), "twitch-eventsub-message-timestamp");
}

fn payload(kind: Option<&str>, with_event: bool) -> TwitchEventSubPayload {
    TwitchEventSubPayload {
        challenge: Some("challenge-text".into()),
        event: if with_event {
            Some(TwitchChatEvent {
                message_id: "m-1".into(),
                chatter_user_name: "viewer".into(),
                message: TwitchChatMessage { text: "hello".into() },
            })
        } else {
            None
        },
        subscription: kind.map(|k| TwitchSubscription { kind: k.into() }),
    }
}

#[test]
fn eventsub_messages_map_to_replies() {
    match eventsub_reply("webhook_callback_verification", "ts", payload(None, false)) {
        EventSubReply::Challenge(c) => assert_eq!(c, "challenge-text"),
        other => panic!("unexpected {other:?}"),
    }
    match eventsub_reply("notification", "2024-01-01T00:00:00Z", payload(Some("channel.chat.message"), true)) {
        EventSubReply::Chat(m) => {
            assert_eq!(m.source, "twitch");
            assert_eq!(m.external_id, "m-1");
            assert_eq!(m.author, "viewer");
            assert_eq!(m.text, "hello");
            assert_eq!(m.sent_at.as_deref(), Some("2024-01-01T00:00:00Z"));
        }
        other => panic!("unexpected {other:?}"),
    }
    assert!(matches!(
        eventsub_reply("notification", "ts", payload(Some("channel.follow"), true)),
        EventSubReply::Rejected(EventSubRejection::UnsupportedSubscription)
    ));
    assert!(matches!(
        eventsub_reply("notification", "ts", payload(None, true)),
        EventSubReply::Rejected(EventSubRejection::UnsupportedSubscription)
    ));
    assert!(matches!(
        eventsub_reply("notification", "ts", payload(Some("channel.chat.message"), false)),
        EventSubReply::Rejected(EventSubRejection::MissingEvent)
    ));
    let mut no_challenge = payload(None, false);
    no_challenge.challenge = None;
    assert!(matches!(
        eventsub_reply("webhook_callback_verification", "ts", no_challenge),
        EventSubReply::Rejected(EventSubRejection::MissingChallenge)
    ));
    assert!(matches!(eventsub_reply("revocation", "ts", payload(None, false)), EventSubReply::Revoked));
    assert!(matches!(
        eventsub_reply("other", "ts", payload(None, false)),
        EventSubReply::Rejected(EventSubRejection::UnsupportedMessageType)
    ));
}

#[test]
fn basic_credentials_are_decoded_and_checked() {
    // "user:pa:ss" in Base64.
    let creds = submitted_credentials("Basic dXNlcjpwYTpzcw==").unwrap();
    assert_eq!(creds, ("user".to_string(), "pa:ss".to_string()));
    assert!(submitted_credentials("Bearer dXNlcjpwYTpzcw==").is_none());
    assert!(submitted_credentials("Basic !!!").is_none());
    // "nocolon"
    assert!(submitted_credentials("Basic bm9jb2xvbg==").is_none());
    assert!(credentials_from_decoded(vec![0xff, b':']).is_none());
    assert_eq!(credentials_from_decoded(b":".to_vec()), Some((String::new(), String::new())));

    let auth = WebAuthSettings { username: "user".into(), password: "pa:ss".into() };
    assert!(authorize("/", &auth, &Some(creds.clone())));
    assert!(!authorize("/", &auth, &Some(("user".into(), "wrong".into()))));
    assert!(!authorize("/", &auth, &None));
    assert!(authorize("/api/chat/ingest", &auth, &None));
    let open = WebAuthSettings { username: String::new(), password: String::new() };
    assert!(authorize("/", &open, &None));
}

fn message(id: &str) -> IncomingChatMessage {
    IncomingChatMessage {
        source: "twitch".into(),
        external_id: id.into(),
        author: "a".into(),
        text: "t".into(),
        avatar_url: None,
        sent_at: None,
    }
}

#[test]
fn acknowledging_the_displayed_message() {
    let mut inbox = ChatInbox::new(5);
    inbox.enqueue(message("1")).unwrap();
    inbox.enqueue(message("2")).unwrap();
    assert_eq!(current_message_id(&inbox.snapshot()), "1");
    assert_eq!(acknowledge_displayed(&mut inbox, "x"), (false, "1".to_string()));
    assert_eq!(acknowledge_displayed(&mut inbox, "2"), (false, "1".to_string()));
    assert_eq!(acknowledge_displayed(&mut inbox, "+1"), (true, "2".to_string()));
    assert_eq!(acknowledge_displayed(&mut inbox, "2"), (true, String::new()));
    assert_eq!(current_message_id(&inbox.snapshot()), "");
}

#[test]
fn message_ids_parse_like_u64_from_str() {
    assert_eq!(parse_message_id("0"), Some(0));
    assert_eq!(parse_message_id("+42"), Some(42));
    assert_eq!(parse_message_id("18446744073709551615"), Some(u64::MAX));
    assert_eq!(parse_message_id("18446744073709551616"), None);
    assert_eq!(parse_message_id(""), None);
    assert_eq!(parse_message_id("+"), None);
    assert_eq!(parse_message_id("-1"), None);
    assert_eq!(parse_message_id(" 1"), None);
    for text in ["7", "007", "+99", "123456789012345"] {
        assert_eq!(parse_message_id(text), text.parse::<u64>().ok());
    }
}

#[test]
fn form_helpers() {
    assert_eq!(target_field_name(3, "url"), "targets[3][url]");
    assert_eq!(secret_placeholder(true, "Not configured"), "Configured — leave blank to keep it");
    assert_eq!(secret_placeholder(false, "Not configured"), "Not configured");
}

#[test]
fn displayed_ids_parse_back_to_the_same_id() {
    for id in [0u64, 7, 10, 12_345, u64::MAX] {
        assert_eq!(parse_message_id(&id.to_string()), Some(id));
    }
}

#[test]
fn lower_case_hex_digests_decode_back() {
    let digest: Vec<u8> = (0u8..32).map(|b| b.wrapping_mul(37).wrapping_add(11)).collect();
    let hex = stream_infra::embedded_assets::to_hex_lower(&digest);
    assert_eq!(decode_sha256(&hex).map(|a| a.to_vec()), Some(digest));
}
