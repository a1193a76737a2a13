use stream_infra::chat::{ChatError, ChatInbox, EnqueueOutcome, IncomingChatMessage};

fn message(source: &str, external_id: &str, text: &str) -> IncomingChatMessage {
    IncomingChatMessage {
        source: source.into(),
        external_id: external_id.into(),
        author: "Viewer".into(),
        text: text.into(),
        avatar_url: None,
        sent_at: None,
    }
}

#[test]
fn acknowledge_advances_one_message_at_a_time() {
    let mut inbox = ChatInbox::new(3);
    inbox.enqueue(message("twitch", "1", "first")).unwrap();
    inbox.enqueue(message("youtube", "2", "second")).unwrap();

    let first = inbox.snapshot();
    assert_eq!(first.current.unwrap().text, "first");
    assert_eq!(first.waiting, 1);
    assert!(inbox.acknowledge(1));

    let second = inbox.snapshot();
    assert_eq!(second.current.unwrap().text, "second");
    assert_eq!(second.waiting, 0);
}

#[test]
fn stale_acknowledgement_cannot_clear_a_newer_message() {
    let mut inbox = ChatInbox::new(3);
    inbox.enqueue(message("twitch", "1", "first")).unwrap();
    inbox.enqueue(message("twitch", "2", "second")).unwrap();
    assert!(inbox.acknowledge(1));
    assert!(!inbox.acknowledge(1));
    assert_eq!(inbox.snapshot().current.unwrap().text, "second");
}

#[test]
fn duplicate_platform_message_is_ignored() {
    let mut inbox = ChatInbox::new(3);
    assert_eq!(
        inbox.enqueue(message("twitch", "same", "first")).unwrap(),
        EnqueueOutcome::Accepted
    );
    assert_eq!(
        inbox.enqueue(message("twitch", "same", "duplicate")).unwrap(),
        EnqueueOutcome::Duplicate
    );
    assert_eq!(inbox.snapshot().waiting, 0);
}

#[test]
fn full_queue_keeps_current_and_most_recent_waiting_messages() {
    let mut inbox = ChatInbox::new(3);
    inbox.enqueue(message("twitch", "1", "current")).unwrap();
    inbox.enqueue(message("twitch", "2", "old waiting")).unwrap();
    inbox.enqueue(message("youtube", "3", "newer waiting")).unwrap();
    inbox.enqueue(message("x", "4", "newest waiting")).unwrap();

    assert_eq!(inbox.snapshot().current.unwrap().text, "current");
    assert_eq!(inbox.snapshot().waiting, 2);
    assert_eq!(inbox.snapshot().dropped, 1);
    assert!(inbox.acknowledge(1));
    assert_eq!(inbox.snapshot().current.unwrap().text, "newer waiting");
}

#[test]
fn normalization_trims_fields_and_lowercases_the_source() {
    let incoming = IncomingChatMessage {
        source: "  TwItCh_1 ".into(),
        external_id: " id-7\n".into(),
        author: "\tSomeone ".into(),
        text: "  hello  ".into(),
        avatar_url: Some("   ".into()),
        sent_at: Some(" 2024-01-01 ".into()),
    };
    let n = incoming.normalized().unwrap();
    assert_eq!(n.source, "twitch_1");
    assert_eq!(n.external_id, "id-7");
    assert_eq!(n.author, "Someone");
    assert_eq!(n.text, "hello");
    assert_eq!(n.avatar_url, None);
    assert_eq!(n.sent_at.as_deref(), Some("2024-01-01"));
}

#[test]
fn each_validation_rule_has_its_error() {
    let bad_source = message("bad source", "1", "x").normalized().unwrap_err();
    assert_eq!(bad_source, ChatError::InvalidSource);
    let long_source = message(&"a".repeat(33), "1", "x").normalized().unwrap_err();
    assert_eq!(long_source, ChatError::InvalidSource);
    assert_eq!(message("twitch", "  ", "x").normalized().unwrap_err(), ChatError::InvalidExternalId);
    assert_eq!(
        message("twitch", &"i".repeat(257), "x").normalized().unwrap_err(),
        ChatError::InvalidExternalId
    );
    let mut no_author = message("twitch", "1", "x");
    no_author.author = " ".into();
    assert_eq!(no_author.normalized().unwrap_err(), ChatError::InvalidAuthor);
    assert_eq!(message("twitch", "1", " ").normalized().unwrap_err(), ChatError::InvalidText);
    assert_eq!(
        message("twitch", "1", &"é".repeat(2501)).normalized().unwrap_err(),
        ChatError::InvalidText
    );
    let mut avatar = message("twitch", "1", "x");
    avatar.avatar_url = Some("u".repeat(2049));
    assert_eq!(avatar.normalized().unwrap_err(), ChatError::AvatarUrlTooLong);
    let mut sent = message("twitch", "1", "x");
    sent.sent_at = Some("t".repeat(101));
    assert_eq!(sent.normalized().unwrap_err(), ChatError::SentAtTooLong);
}

#[test]
fn invalid_message_leaves_the_inbox_unchanged() {
    let mut inbox = ChatInbox::new(2);
    assert_eq!(inbox.enqueue(message("twitch", "1", "  ")), Err(ChatError::InvalidText));
    assert!(inbox.snapshot().current.is_none());
    assert_eq!(inbox.snapshot().waiting, 0);
}

#[test]
fn single_slot_queue_drops_new_messages() {
    let mut inbox = ChatInbox::new(1);
    assert_eq!(inbox.enqueue(message("twitch", "1", "kept")).unwrap(), EnqueueOutcome::Accepted);
    assert_eq!(inbox.enqueue(message("twitch", "2", "lost")).unwrap(), EnqueueOutcome::Dropped);
    let snapshot = inbox.snapshot();
    assert_eq!(snapshot.current.unwrap().text, "kept");
    assert_eq!(snapshot.dropped, 1);
}

#[test]
fn ids_count_up_from_one_and_time_is_recorded() {
    let mut inbox = ChatInbox::new(4);
    inbox.enqueue_at(message("twitch", "a", "one"), 1234).unwrap();
    inbox.enqueue_at(message("twitch", "b", "two"), 5678).unwrap();
    let first = inbox.snapshot().current.unwrap();
    assert_eq!(first.id, 1);
    assert_eq!(first.received_at_unix_ms, 1234);
    assert!(inbox.acknowledge(1));
    let second = inbox.snapshot().current.unwrap();
    assert_eq!(second.id, 2);
    assert_eq!(second.received_at_unix_ms, 5678);
}

#[test]
fn sources_deduplicate_independently_and_forgetting_is_bounded() {
    let mut inbox = ChatInbox::new(1);
    inbox.enqueue(message("twitch", "1", "a")).unwrap();
    assert_eq!(inbox.enqueue(message("youtube", "1", "b")).unwrap(), EnqueueOutcome::Dropped);
    assert_eq!(inbox.enqueue(message("TWITCH ", "1", "c")).unwrap(), EnqueueOutcome::Duplicate);
    for id in 2..10 {
        inbox.enqueue(message("twitch", &id.to_string(), "x")).unwrap();
    }
    // The key of the first message was forgotten after four newer keys.
    assert!(inbox.acknowledge(1));
    assert_eq!(inbox.enqueue(message("twitch", "1", "again")).unwrap(), EnqueueOutcome::Accepted);
}

#[test]
fn default_inbox_holds_five_hundred_messages() {
    let mut inbox = ChatInbox::default();
    for id in 0..600 {
        inbox.enqueue(message("twitch", &id.to_string(), "x")).unwrap();
    }
    let snapshot = inbox.snapshot();
    assert_eq!(snapshot.waiting, 499);
    assert_eq!(snapshot.dropped, 100);
}

#[test]
fn a_repeated_offer_is_a_duplicate_and_errors_read_as_documented() {
    let mut inbox = ChatInbox::new(3);
    let m = message("twitch", "same", "hello");
    assert_eq!(inbox.enqueue_at(m.clone(), 5), Ok(EnqueueOutcome::Accepted));
    assert_eq!(inbox.enqueue_at(m, 6), Ok(EnqueueOutcome::Duplicate));
    assert_eq!(inbox.snapshot().waiting, 0);
    assert_eq!(ChatError::InvalidSource.message(), "source must be 1-32 ASCII letters, numbers, hyphens, or underscores");
    assert_eq!(ChatError::InvalidText.message(), "text must be 1-5000 characters");
    assert_eq!(ChatError::SentAtTooLong.message(), "sent_at must be at most 100 characters");
}

#[test]
fn normalizing_a_normalized_message_changes_nothing() {
    let mut m = message(" Twitch ", " 42 ", "  hi there ");
    m.avatar_url = Some("  https://a.test/x.png ".into());
    m.sent_at = Some("   ".into());
    let n = m.normalized().unwrap();
    let again = n.clone().normalized().unwrap();
    assert_eq!(again.source, n.source);
    assert_eq!(again.external_id, n.external_id);
    assert_eq!(again.author, n.author);
    assert_eq!(again.text, n.text);
    assert_eq!(again.avatar_url, n.avatar_url);
    assert_eq!(again.sent_at, n.sent_at);
    assert_eq!(n.source, "twitch");
    assert!(n.sent_at.is_none());
}
