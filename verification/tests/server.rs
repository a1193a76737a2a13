use stream_infra::config::{NotificationSettings, TargetConfig};
use stream_infra::server::handler::{
    local_source_url, plan_publish, plan_staged_publish, preview_args, relay_args, test_stream_args, should_dispatch_notifications, target_full_url,
    TEST_STREAM_KEY,
};
use stream_infra::server::state::{
    preview_content_type, valid_preview_file_name, EndAction, PublishError, StreamStage,
};

#[test]
fn test_stream_is_notification_silent() {
    assert!(!should_dispatch_notifications(TEST_STREAM_KEY));
    assert!(should_dispatch_notifications("regular_stream"));
}

#[test]
fn preview_files_are_strictly_allowlisted() {
    assert!(valid_preview_file_name("index.m3u8"));
    assert!(valid_preview_file_name("segment_000123.ts"));
    assert!(!valid_preview_file_name("../config.sqlite3"));
    assert!(!valid_preview_file_name("segment_.ts"));
    assert!(!valid_preview_file_name("segment_1.m3u8"));
}

#[test]
fn preview_names_reject_traversal_and_non_digits() {
    assert!(!valid_preview_file_name("segment_12a.ts"));
    assert!(!valid_preview_file_name("segment_../1.ts"));
    assert!(!valid_preview_file_name("index.m3u8 "));
    assert!(!valid_preview_file_name(""));
    assert!(valid_preview_file_name("segment_0.ts"));
}

#[test]
fn target_urls_join_the_stream_key_with_one_slash() {
    assert_eq!(target_full_url("rtmp://a/app", ""), "rtmp://a/app");
    assert_eq!(target_full_url("rtmp://a/app/", "key"), "rtmp://a/app/key");
    assert_eq!(target_full_url("rtmp://a/app", "key"), "rtmp://a/app/key");
    assert_eq!(target_full_url("", "key"), "/key");
}

#[test]
fn relays_read_the_stream_back_from_the_local_ingest() {
    assert_eq!(local_source_url(1935, "abc"), "rtmp://127.0.0.1:1935/live/abc");
    assert_eq!(local_source_url(0, "k"), "rtmp://127.0.0.1:0/live/k");
    assert_eq!(
        relay_args("in", "out"),
        vec!["-loglevel", "warning", "-i", "in", "-c", "copy", "-f", "flv", "out"]
    );
}

fn target(name: &str, url: &str, key: &str, enabled: bool) -> TargetConfig {
    TargetConfig {
        name: name.into(),
        url: url.into(),
        stream_key: key.into(),
        public_url: Some(format!("https://watch/{name}")),
        enabled,
    }
}

#[test]
fn publish_plan_relays_enabled_targets_and_notifies_except_for_tests() {
    let targets = vec![
        target("One", "rtmp://one/app", "k1", true),
        target("Two", "rtmp://two/app/", "k2", false),
        target("Three", "rtmps://three/app", "", true),
    ];
    let settings = NotificationSettings {
        discord_webhook: Some("https://discord".into()),
        live_message: "Live".into(),
        webhook_url: None,
    };
    let plan = plan_publish("secret", &targets, &settings, 1935);
    let dispatcher = plan.dispatcher.unwrap();
    assert!(dispatcher.discord.is_some());
    assert!(dispatcher.generic.is_none());
    assert_eq!(plan.relays.len(), 2);
    assert_eq!(plan.relays[0].name, "One");
    assert_eq!(plan.relays[0].args[3], "rtmp://127.0.0.1:1935/live/secret");
    assert_eq!(plan.relays[0].args[8], "rtmp://one/app/k1");
    assert_eq!(plan.relays[1].args[8], "rtmps://three/app");
    assert_eq!(plan.notification_targets.len(), 2);
    assert_eq!(plan.notification_targets[1].name, "Three");

    let test_plan = plan_publish(TEST_STREAM_KEY, &targets, &settings, 1935);
    assert!(test_plan.dispatcher.is_none());
    assert_eq!(test_plan.relays.len(), 2);
}

#[test]
fn staged_stream_publishes_once_and_stays_staged_after_stopping() {
    let mut stage = StreamStage::new();
    assert_eq!(stage.begin_publish().unwrap_err(), PublishError::NotStaged);
    assert_eq!(stage.stop_publishing().unwrap_err(), PublishError::NotStaged);
    let first = stage.stage("key-a".into());
    assert_eq!(first, 1);
    let status = stage.status(false);
    assert!(status.active && !status.published && !status.preview_ready);
    assert_eq!(status.session_id, Some(1));

    let (session, key) = stage.begin_publish().unwrap();
    assert_eq!((session, key.as_str()), (1, "key-a"));
    assert!(stage.still_published(1));
    assert!(!stage.still_published(2));
    assert_eq!(stage.begin_publish().unwrap_err(), PublishError::AlreadyPublished);
    assert!(stage.status(true).preview_ready);

    assert_eq!(stage.stop_publishing().unwrap(), "key-a");
    let status = stage.status(true);
    assert!(status.active && !status.published);
    assert!(stage.begin_publish().is_ok());

    stage.preview_stopped();
    let status = stage.status(true);
    assert!(status.preview_failed && !status.preview_ready);

    assert_eq!(stage.end_action("key-a"), EndAction::EndCurrent);
    assert_eq!(stage.end_action("other"), EndAction::StopRelays);
    let ended = stage.end_current().unwrap();
    assert_eq!(ended.session_id, 1);
    assert!(!stage.status(true).active);
    assert_eq!(stage.stage("key-b".into()), 2);
}

#[test]
fn preview_transcodes_the_local_stream_to_hls() {
    let args = preview_args("rtmp://127.0.0.1:1935/live/k", "/tmp/p/segment_%06d.ts", "/tmp/p/index.m3u8");
    assert_eq!(args.len(), 31);
    assert_eq!(args[3], "rtmp://127.0.0.1:1935/live/k");
    assert_eq!(args[21], "hls");
    assert_eq!(args[27], "delete_segments+append_list+omit_endlist+independent_segments");
    assert_eq!(args[29], "/tmp/p/segment_%06d.ts");
    assert_eq!(args[30], "/tmp/p/index.m3u8");
}

#[test]
fn test_stream_goes_to_the_local_ingest_under_the_test_key() {
    let args = test_stream_args(1935);
    assert_eq!(args[0], "-re");
    assert_eq!(args[4], "testsrc=duration=15:size=1280x720:rate=30");
    assert_eq!(args[8], "sine=frequency=1000:duration=15");
    assert_eq!(args.last().unwrap(), "rtmp://127.0.0.1:1935/live/test_stream");
    assert_eq!(args.len(), 22);
}

#[test]
fn a_restaged_stream_invalidates_the_earlier_publish() {
    let mut stage = StreamStage::new();
    let first = stage.stage("key-a".into());
    let (session, _) = stage.begin_publish().unwrap();
    assert_eq!(session, first);
    stage.end_current();
    let second = stage.stage("key-a".into());
    assert_ne!(second, first);
    assert!(!stage.still_published(first));
    assert_eq!(PublishError::NotStaged.message(), "No stream is currently staged");
    assert_eq!(PublishError::AlreadyPublished.message(), "The staged stream is already published");
}

#[test]
fn preview_files_are_served_with_their_content_type() {
    assert_eq!(preview_content_type("index.m3u8"), "application/vnd.apple.mpegurl");
    assert_eq!(preview_content_type("segment_000001.ts"), "video/mp2t");
}

#[test]
fn a_staged_publish_is_always_announced() {
    let targets = vec![target("Twitch", "rtmp://live.twitch.tv/app", "abc", true)];
    let settings = NotificationSettings {
        discord_webhook: Some("https://discord.test/hook".into()),
        live_message: "live".into(),
        webhook_url: None,
    };
    let plan = plan_staged_publish(TEST_STREAM_KEY, &targets, &settings, 1935);
    let dispatcher = plan.dispatcher.unwrap();
    assert!(dispatcher.generic.is_none());
    let discord = dispatcher.discord.unwrap();
    assert_eq!(discord.webhook_url(), "https://discord.test/hook");
    assert_eq!(discord.payload(&plan.notification_targets).unwrap().content, "live");
    assert_eq!(plan.relays.len(), 1);
    assert_eq!(plan.notification_targets.len(), 1);
    assert!(plan_publish(TEST_STREAM_KEY, &targets, &settings, 1935).dispatcher.is_none());
}
