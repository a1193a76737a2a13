//! Decisions of the RTMP handler: whether a publish triggers notifications,
//! the relay URLs, and the `ffmpeg` commands that forward a stream.

use crate::config::{NotificationSettings, TargetConfig};
use crate::notifications::{enabled_notification_targets, NotificationDispatcher, NotificationTarget};
use crate::text::{chars_of, decimal_string, push_char, push_str};
use vstd::prelude::*;

verus! {

/// The stream key of the built-in test stream, which never notifies anyone.
pub const TEST_STREAM_KEY: &'static str = "test_stream";

/// Going-live notifications are sent for every stream but the test stream.
pub fn should_dispatch_notifications(stream_key: &str) -> (r: bool)
    ensures
        r == (stream_key@ != TEST_STREAM_KEY@),
{
    let key = stream_key.to_owned();
    !(key == TEST_STREAM_KEY.to_owned())
}

/// The URL a target receives: its base URL, joined with its stream key by a
/// single `/` when the key is set.
pub open spec fn full_url(url: Seq<char>, stream_key: Seq<char>) -> Seq<char> {
    if stream_key.len() == 0 {
        url
    } else if url.len() > 0 && url.last() == '/' {
        url + stream_key
    } else {
        url + seq!['/'] + stream_key
    }
}

pub fn target_full_url(url: &str, stream_key: &str) -> (r: String)
    ensures
        r@ == full_url(url@, stream_key@),
{
    let mut r = url.to_owned();
    if stream_key.is_empty() {
        return r;
    }
    let v = chars_of(url);
    if !(v.len() > 0 && v[v.len() - 1] == '/') {
        push_char(&mut r, '/');
    }
    push_str(&mut r, stream_key);
    r
}

/// The local RTMP URL at which a published stream can be read back.
pub open spec fn source_url(listen_port: u16, stream_key: Seq<char>) -> Seq<char> {
    "rtmp://127.0.0.1:"@ + crate::text::decimal(listen_port as nat) + "/live/"@ + stream_key
}

pub fn local_source_url(listen_port: u16, stream_key: &str) -> (r: String)
    ensures
        r@ == source_url(listen_port, stream_key@),
{
    let mut r = "rtmp://127.0.0.1:".to_owned();
    let port = decimal_string(listen_port as u64);
    push_str(&mut r, port.as_str());
    push_str(&mut r, "/live/");
    push_str(&mut r, stream_key);
    r
}

pub open spec fn strings_view(v: Seq<String>) -> Seq<Seq<char>> {
    v.map_values(|s: String| s@)
}

/// The `ffmpeg` arguments that copy `source` to the RTMP URL `target` as FLV.
pub open spec fn relay_args_spec(source: Seq<char>, target: Seq<char>) -> Seq<Seq<char>> {
    seq!["-loglevel"@, "warning"@, "-i"@, source, "-c"@, "copy"@, "-f"@, "flv"@, target]
}

pub fn relay_args(source: &str, target: &str) -> (r: Vec<String>)
    ensures
        strings_view(r@) == relay_args_spec(source@, target@),
{
    let r = vec![
        "-loglevel".to_owned(),
        "warning".to_owned(),
        "-i".to_owned(),
        source.to_owned(),
        "-c".to_owned(),
        "copy".to_owned(),
        "-f".to_owned(),
        "flv".to_owned(),
        target.to_owned(),
    ];
    assert(strings_view(r@) =~= relay_args_spec(source@, target@));
    r
}

/// The `ffmpeg` arguments of the local preview: `source` transcoded to a
/// low-latency HLS playlist `playlist` with segments named after `segments`.
pub open spec fn preview_args_spec(source: Seq<char>, segments: Seq<char>, playlist: Seq<char>) -> Seq<Seq<char>> {
    seq![
        "-loglevel"@, "warning"@, "-i"@, source,
        "-c:v"@, "libx264"@, "-preset"@, "veryfast"@, "-tune"@, "zerolatency"@,
        "-g"@, "60"@, "-keyint_min"@, "60"@, "-sc_threshold"@, "0"@,
        "-c:a"@, "aac"@, "-b:a"@, "128k"@,
        "-f"@, "hls"@, "-hls_time"@, "2"@, "-hls_list_size"@, "6"@,
        "-hls_flags"@, "delete_segments+append_list+omit_endlist+independent_segments"@,
        "-hls_segment_filename"@, segments, playlist
    ]
}

pub fn preview_args(source: &str, segments: &str, playlist: &str) -> (r: Vec<String>)
    ensures
        strings_view(r@) == preview_args_spec(source@, segments@, playlist@),
{
    let r = vec![
        "-loglevel".to_owned(),
        "warning".to_owned(),
        "-i".to_owned(),
        source.to_owned(),
        "-c:v".to_owned(),
        "libx264".to_owned(),
        "-preset".to_owned(),
        "veryfast".to_owned(),
        "-tune".to_owned(),
        "zerolatency".to_owned(),
        "-g".to_owned(),
        "60".to_owned(),
        "-keyint_min".to_owned(),
        "60".to_owned(),
        "-sc_threshold".to_owned(),
        "0".to_owned(),
        "-c:a".to_owned(),
        "aac".to_owned(),
        "-b:a".to_owned(),
        "128k".to_owned(),
        "-f".to_owned(),
        "hls".to_owned(),
        "-hls_time".to_owned(),
        "2".to_owned(),
        "-hls_list_size".to_owned(),
        "6".to_owned(),
        "-hls_flags".to_owned(),
        "delete_segments+append_list+omit_endlist+independent_segments".to_owned(),
        "-hls_segment_filename".to_owned(),
        segments.to_owned(),
        playlist.to_owned(),
    ];
    assert(strings_view(r@) =~= preview_args_spec(source@, segments@, playlist@));
    r
}

/// The `ffmpeg` arguments of the built-in test stream: fifteen seconds of a
/// 720p test pattern with a 1 kHz tone, sent as FLV to `target`.
pub open spec fn test_stream_args_spec(target: Seq<char>) -> Seq<Seq<char>> {
    seq![
        "-re"@,
        "-f"@, "lavfi"@, "-i"@, "testsrc=duration=15:size=1280x720:rate=30"@,
        "-f"@, "lavfi"@, "-i"@, "sine=frequency=1000:duration=15"@,
        "-c:v"@, "libx264"@, "-preset"@, "veryfast"@, "-pix_fmt"@, "yuv420p"@,
        "-c:a"@, "aac"@, "-b:a"@, "128k"@,
        "-f"@, "flv"@,
        target
    ]
}

/// The test stream is sent to the local ingest under the test stream key, so
/// that it is relayed like any stream but notifies nobody.
pub fn test_stream_args(listen_port: u16) -> (r: Vec<String>)
    ensures
        strings_view(r@) == test_stream_args_spec(source_url(listen_port, TEST_STREAM_KEY@)),
{
    let target = local_source_url(listen_port, TEST_STREAM_KEY);
    let r = vec![
        "-re".to_owned(),
        "-f".to_owned(),
        "lavfi".to_owned(),
        "-i".to_owned(),
        "testsrc=duration=15:size=1280x720:rate=30".to_owned(),
        "-f".to_owned(),
        "lavfi".to_owned(),
        "-i".to_owned(),
        "sine=frequency=1000:duration=15".to_owned(),
        "-c:v".to_owned(),
        "libx264".to_owned(),
        "-preset".to_owned(),
        "veryfast".to_owned(),
        "-pix_fmt".to_owned(),
        "yuv420p".to_owned(),
        "-c:a".to_owned(),
        "aac".to_owned(),
        "-b:a".to_owned(),
        "128k".to_owned(),
        "-f".to_owned(),
        "flv".to_owned(),
        target,
    ];
    assert(strings_view(r@) =~= test_stream_args_spec(source_url(listen_port, TEST_STREAM_KEY@)));
    r
}

/// One relay process to start: the target's name and the `ffmpeg` arguments.
#[derive(Debug, Clone)]
pub struct RelayCommand {
    pub name: String,
    pub args: Vec<String>,
}

/// What a publish sets in motion.
#[derive(Debug, Clone)]
pub struct PublishPlan {
    /// The notifiers to run, unless this is the test stream.
    pub dispatcher: Option<NotificationDispatcher>,
    /// What the notifications may say about the enabled targets.
    pub notification_targets: Vec<NotificationTarget>,
    /// One relay per enabled target, in configuration order.
    pub relays: Vec<RelayCommand>,
}

/// `c` relays the stream `stream_key` to target `t`.
pub open spec fn relays_to(c: RelayCommand, t: TargetConfig, listen_port: u16, stream_key: Seq<char>) -> bool {
    &&& c.name@ == t.name@
    &&& strings_view(c.args@) == relay_args_spec(
        source_url(listen_port, stream_key),
        full_url(t.url@, t.stream_key@),
    )
}

/// `relays` is one relay of `stream_key` per enabled target, in configuration order.
pub open spec fn relays_enabled_targets(
    relays: Seq<RelayCommand>,
    targets: Seq<TargetConfig>,
    listen_port: u16,
    stream_key: Seq<char>,
) -> bool {
    &&& relays.len() == crate::notifications::enabled_count(targets, targets.len() as int)
    &&& forall|i: int|
        0 <= i < targets.len() && targets[i].enabled ==> {
            let k = crate::notifications::enabled_count(targets, i);
            &&& 0 <= k < relays.len()
            &&& relays_to(relays[k], targets[i], listen_port, stream_key)
        }
}

/// `nts` announces the enabled targets, in configuration order.
pub open spec fn announces_enabled_targets(nts: Seq<NotificationTarget>, targets: Seq<TargetConfig>) -> bool {
    &&& nts.len() == crate::notifications::enabled_count(targets, targets.len() as int)
    &&& forall|i: int|
        0 <= i < targets.len() && targets[i].enabled ==> {
            let k = crate::notifications::enabled_count(targets, i);
            &&& 0 <= k < nts.len()
            &&& nts[k].name@ == targets[i].name@
            &&& crate::chat::opt_view(nts[k].public_url) == crate::chat::opt_view(targets[i].public_url)
        }
}

/// `d` has a notifier for each configured webhook, posting the configured
/// live message to that webhook's URL.
pub open spec fn notifies_configured_webhooks(d: NotificationDispatcher, notifications: NotificationSettings) -> bool {
    &&& (d.discord is Some <==> notifications.discord_webhook is Some)
    &&& (d.discord matches Some(n) ==> n.webhook_url_view() == notifications.discord_webhook->0@
        && n.live_message_view() == notifications.live_message@)
    &&& (d.generic is Some <==> notifications.webhook_url is Some)
    &&& (d.generic matches Some(n) ==> n.webhook_url_view() == notifications.webhook_url->0@
        && n.live_message_view() == notifications.live_message@)
}

fn relay_commands(stream_key: &str, targets: &Vec<TargetConfig>, listen_port: u16) -> (r: Vec<
    RelayCommand,
>)
    ensures
        relays_enabled_targets(r@, targets@, listen_port, stream_key@),
{
    let source = local_source_url(listen_port, stream_key);
    let mut relays: Vec<RelayCommand> = Vec::new();
    let mut k: usize = 0;
    while k < targets.len()
        invariant
            k <= targets@.len(),
            source@ == source_url(listen_port, stream_key@),
            relays@.len() == crate::notifications::enabled_count(targets@, k as int),
            forall|i: int|
                0 <= i < k && targets@[i].enabled ==> {
                    let c = crate::notifications::enabled_count(targets@, i);
                    &&& 0 <= c < relays@.len()
                    &&& relays_to(relays@[c], targets@[i], listen_port, stream_key@)
                },
        decreases targets@.len() - k,
    {
        proof {
            crate::notifications::lemma_enabled_count_step(targets@, k as int);
        }
        let t = &targets[k];
        if t.enabled {
            let url = target_full_url(t.url.as_str(), t.stream_key.as_str());
            let args = relay_args(source.as_str(), url.as_str());
            relays.push(RelayCommand { name: t.name.clone(), args });
        }
        k += 1;
    }
    relays
}

/// Plans what a publish straight from the RTMP ingest sets in motion:
/// notifications (except for the test stream) and a relay for every enabled
/// target.
pub fn plan_publish(
    stream_key: &str,
    targets: &Vec<TargetConfig>,
    notifications: &NotificationSettings,
    listen_port: u16,
) -> (r: PublishPlan)
    ensures
        r.dispatcher is Some <==> stream_key@ != TEST_STREAM_KEY@,
        r.dispatcher matches Some(d) ==> notifies_configured_webhooks(d, *notifications),
        announces_enabled_targets(r.notification_targets@, targets@),
        relays_enabled_targets(r.relays@, targets@, listen_port, stream_key@),
{
    let dispatcher = if should_dispatch_notifications(stream_key) {
        Some(NotificationDispatcher::new(notifications))
    } else {
        None
    };
    let notification_targets = enabled_notification_targets(targets);
    let relays = relay_commands(stream_key, targets, listen_port);
    PublishPlan { dispatcher, notification_targets, relays }
}

/// Plans the publish of a staged stream that the operator previewed and chose
/// to put on air: it is always announced, the test stream too, and relayed to
/// every enabled target.
pub fn plan_staged_publish(
    stream_key: &str,
    targets: &Vec<TargetConfig>,
    notifications: &NotificationSettings,
    listen_port: u16,
) -> (r: PublishPlan)
    ensures
        r.dispatcher matches Some(d) && notifies_configured_webhooks(d, *notifications),
        announces_enabled_targets(r.notification_targets@, targets@),
        relays_enabled_targets(r.relays@, targets@, listen_port, stream_key@),
{
    let dispatcher = Some(NotificationDispatcher::new(notifications));
    let notification_targets = enabled_notification_targets(targets);
    let relays = relay_commands(stream_key, targets, listen_port);
    PublishPlan { dispatcher, notification_targets, relays }
}

} // verus!
