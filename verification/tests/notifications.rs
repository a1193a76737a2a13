use stream_infra::config::{NotificationSettings, TargetConfig};
use stream_infra::notifications::{
    enabled_notification_targets, DiscordNotifier, GenericWebhookNotifier, NotificationDispatcher,
    NotificationTarget,
};

#[test]
fn webhook_payload_cannot_contain_stream_keys() {
    let config = TargetConfig {
        name: "Twitch".into(),
        url: "rtmp://live.twitch.tv/app".into(),
        stream_key: "super-secret-stream-key".into(),
        public_url: Some("https://example.test/watch".into()),
        enabled: true,
    };
    let notifier = GenericWebhookNotifier::new("https://example.test/hook".into(), "Live".into());
    let payload = notifier.payload(&vec![NotificationTarget::from_target(&config)], 123);

    let mut texts = vec![payload.event.clone(), payload.message.clone()];
    texts.extend(payload.targets.iter().cloned());
    texts.extend(payload.public_urls.iter().cloned());
    assert!(texts.iter().all(|t| !t.contains("super-secret-stream-key")));
    assert_eq!(payload.event, "stream.started");
    assert_eq!(payload.message, "Live");
    assert_eq!(payload.targets, vec!["Twitch".to_string()]);
    assert_eq!(payload.public_urls, vec!["https://example.test/watch".to_string()]);
    assert_eq!(payload.timestamp, 123);
}

fn target(name: &str, url: Option<&str>) -> NotificationTarget {
    NotificationTarget { name: name.into(), public_url: url.map(String::from) }
}

#[test]
fn discord_post_links_targets_with_public_urls() {
    let notifier = DiscordNotifier::new("https://discord/hook".into(), "We're live @everyone".into());
    let payload = notifier
        .payload(&vec![
            target("Twitch", Some(" https://twitch.tv/me ")),
            target("Hidden", None),
            target("Blank", Some("   ")),
            target("YouTube", Some("https://youtube.com/me")),
        ])
        .unwrap();
    assert_eq!(payload.content, "We're live @everyone");
    assert_eq!(payload.title, "🔴 We are LIVE");
    assert_eq!(payload.color, 15258703);
    assert_eq!(payload.allowed_mentions, vec!["everyone".to_string(), "roles".to_string(), "users".to_string()]);
    assert_eq!(
        payload.description,
        "The stream has started.\n\n**Watch live on:**\n[Twitch](https://twitch.tv/me)\n[YouTube](https://youtube.com/me)"
    );
    let bare = notifier.payload(&vec![target("Hidden", None)]).unwrap();
    assert_eq!(bare.description, "The stream has started.");
    let blank = DiscordNotifier::new("  ".into(), "x".into());
    assert!(blank.payload(&vec![]).is_none());
}

#[test]
fn generic_webhook_lists_names_and_present_urls() {
    let notifier = GenericWebhookNotifier::new("https://hook".into(), "msg".into());
    assert!(notifier.is_active());
    assert!(!GenericWebhookNotifier::new(" \t".into(), "msg".into()).is_active());
    let payload = notifier.payload(&vec![target("A", None), target("B", Some("u"))], 9);
    assert_eq!(payload.targets, vec!["A".to_string(), "B".to_string()]);
    assert_eq!(payload.public_urls, vec!["u".to_string()]);
    assert_eq!(notifier.webhook_url(), "https://hook");
}

#[test]
fn dispatcher_has_a_notifier_per_configured_webhook() {
    let none = NotificationDispatcher::new(&NotificationSettings::default());
    assert!(none.discord.is_none() && none.generic.is_none());
    let both = NotificationDispatcher::new(&NotificationSettings {
        discord_webhook: Some("d".into()),
        live_message: "m".into(),
        webhook_url: Some("g".into()),
    });
    assert_eq!(both.discord.unwrap().webhook_url(), "d");
    assert_eq!(both.generic.unwrap().webhook_url(), "g");
}

#[test]
fn only_enabled_targets_are_announced() {
    let configs = vec![
        TargetConfig { name: "on".into(), url: "rtmp://a".into(), stream_key: "k".into(), public_url: None, enabled: true },
        TargetConfig { name: "off".into(), url: "rtmp://b".into(), stream_key: "k".into(), public_url: None, enabled: false },
    ];
    let targets = enabled_notification_targets(&configs);
    assert_eq!(targets.len(), 1);
    assert_eq!(targets[0].name, "on");
}
