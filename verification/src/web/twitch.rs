//! Twitch EventSub webhooks: signature and freshness checks, and what each
//! authenticated message asks the server to do.

use crate::chat::IncomingChatMessage;
use crate::text::{chars_of, string_from, trimmed};
use hmac::{Hmac, Mac};
use sha2::Sha256;
use vstd::prelude::*;

verus! {

pub const MESSAGE_ID_HEADER: &'static str = "twitch-eventsub-message-id";
pub const MESSAGE_TIMESTAMP_HEADER: &'static str = "twitch-eventsub-message-timestamp";
pub const MESSAGE_SIGNATURE_HEADER: &'static str = "twitch-eventsub-message-signature";
pub const MESSAGE_TYPE_HEADER: &'static str = "twitch-eventsub-message-type";

/// HMAC-SHA256 of `message` under `key`, as the `hmac` and `sha2` crates compute it.
pub uninterp spec fn hmac_sha256(key: Seq<u8>, message: Seq<u8>) -> Seq<u8>;

/// `Hmac::<Sha256>::new_from_slice`, `Mac::update` and `Mac::finalize`: the
/// HMAC-SHA256 of `message` under `key`, named [`hmac_sha256`]. The MAC accepts
/// keys of every length (`new_from_slice` never fails for HMAC), and its output
/// is the 32 bytes of a SHA-256 block.
#[verifier::external_body]
fn hmac_sha256_of(key: &[u8], message: &[u8]) -> (r: Vec<u8>)
    ensures
        r@ == hmac_sha256(key@, message@),
        r@.len() == 32,
{
    match <Hmac<Sha256> as Mac>::new_from_slice(key) {
        Ok(mut mac) => {
            mac.update(message);
            mac.finalize().into_bytes().to_vec()
        },
        Err(_) => Vec::new(),
    }
}

/// The instant that an RFC 3339 timestamp names, in nanoseconds since the Unix
/// epoch, as `time::OffsetDateTime::parse` with the `Rfc3339` format reads it.
pub uninterp spec fn rfc3339_unix_nanos(text: Seq<char>) -> Option<i128>;

/// Parses an RFC 3339 timestamp with `time::OffsetDateTime::parse` and returns
/// `unix_timestamp_nanos` of the result; the contract names that result
/// [`rfc3339_unix_nanos`] and claims nothing more of it.
#[verifier::external_body]
fn parse_rfc3339_nanos(text: &str) -> (r: Option<i128>)
    ensures
        r == rfc3339_unix_nanos(text@),
{
    match time::OffsetDateTime::parse(text, &time::format_description::well_known::Rfc3339) {
        Ok(moment) => Some(moment.unix_timestamp_nanos()),
        Err(_) => None,
    }
}

/// The current time, from `time::OffsetDateTime::now_utc`, in nanoseconds since
/// the Unix epoch. It depends on the clock, so nothing is claimed of it.
#[verifier::external_body]
fn now_unix_nanos() -> i128 {
    time::OffsetDateTime::now_utc().unix_timestamp_nanos()
}

pub open spec fn one_minute_nanos() -> int {
    60_000_000_000
}

/// A message sent at `sent` is fresh at `now`: at most ten minutes old and at
/// most one minute in the future.
pub open spec fn is_recent(sent: int, now: int) -> bool {
    -one_minute_nanos() <= now - sent <= 10 * one_minute_nanos()
}

/// Whether a message sent at `sent_ns` is fresh at `now_ns` (both in nanoseconds).
pub fn recent_at(sent_ns: i128, now_ns: i128) -> (r: bool)
    ensures
        r == is_recent(sent_ns as int, now_ns as int),
{
    match now_ns.checked_sub(sent_ns) {
        Some(age) => -60_000_000_000i128 <= age && age <= 600_000_000_000i128,
        None => false,
    }
}

/// The RFC 3339 `timestamp` parses and is fresh at `now`.
pub open spec fn fresh_at(timestamp: Seq<char>, now: i128) -> bool {
    rfc3339_unix_nanos(timestamp) matches Some(sent) && is_recent(sent as int, now as int)
}

/// Whether an RFC 3339 `timestamp` parses and is fresh at `now_ns`.
pub fn timestamp_is_recent_at(timestamp: &str, now_ns: i128) -> (r: bool)
    ensures
        r == fresh_at(timestamp@, now_ns),
{
    match parse_rfc3339_nanos(timestamp) {
        Some(sent) => recent_at(sent, now_ns),
        None => false,
    }
}

/// Whether an RFC 3339 `timestamp` parses and is fresh now.
pub fn timestamp_is_recent(timestamp: &str) -> (r: bool)
    ensures
        r ==> rfc3339_unix_nanos(timestamp@) is Some,
        exists|now: i128| r == #[trigger] fresh_at(timestamp@, now),
{
    let now = now_unix_nanos();
    timestamp_is_recent_at(timestamp, now)
}

/// The value of one hexadecimal digit.
pub open spec fn hex_value(b: u8) -> Option<u8> {
    if 48 <= b <= 57 {
        Some((b - 48) as u8)
    } else if 97 <= b <= 102 {
        Some((b - 97 + 10) as u8)
    } else if 65 <= b <= 70 {
        Some((b - 65 + 10) as u8)
    } else {
        None
    }
}

pub fn hex_digit(value: u8) -> (r: Option<u8>)
    ensures
        r == hex_value(value),
{
    if 48 <= value && value <= 57 {
        Some(value - 48)
    } else if 97 <= value && value <= 102 {
        Some(value - 97 + 10)
    } else if 65 <= value && value <= 70 {
        Some(value - 65 + 10)
    } else {
        None
    }
}

pub open spec fn all_hex(hex: Seq<u8>) -> bool {
    forall|i: int| 0 <= i < hex.len() ==> (#[trigger] hex_value(hex[i])) is Some
}

/// The 32 bytes that 64 hexadecimal digits spell.
pub open spec fn decode_sha256_spec(hex: Seq<u8>) -> Option<Seq<u8>> {
    if hex.len() == 64 && all_hex(hex) {
        Some(
            Seq::new(
                32,
                |i: int| (hex_value(hex[2 * i])->0 * 16 + hex_value(hex[2 * i + 1])->0) as u8,
            ),
        )
    } else {
        None
    }
}

fn decode_sha256_bytes(hex: &[u8], start: usize) -> (r: Option<[u8; 32]>)
    requires
        start <= hex@.len(),
    ensures
        match decode_sha256_spec(hex@.skip(start as int)) {
            Some(bytes) => r matches Some(a) && a@ == bytes,
            None => r is None,
        },
{
    let ghost h = hex@.skip(start as int);
    if hex.len() - start != 64 {
        return None;
    }
    let mut bytes = [0u8; 32];
    let mut index: usize = 0;
    while index < 32
        invariant
            start + 64 == hex@.len(),
            hex@.len() == hex.len(),
            h == hex@.skip(start as int),
            index <= 32,
            forall|k: int| 0 <= k < 2 * index ==> (#[trigger] hex_value(h[k])) is Some,
            forall|k: int|
                0 <= k < index ==> bytes@[k] == (hex_value(h[2 * k])->0 * 16 + hex_value(
                    h[2 * k + 1],
                )->0) as u8,
        decreases 32 - index,
    {
        let high = match hex_digit(hex[start + index * 2]) {
            Some(d) => d,
            None => {
                assert(hex_value(h[2 * index as int]) is None);
                return None;
            },
        };
        let low = match hex_digit(hex[start + index * 2 + 1]) {
            Some(d) => d,
            None => {
                assert(hex_value(h[2 * index + 1]) is None);
                return None;
            },
        };
        assert((high << 4u8) | low == high * 16 + low) by (bit_vector)
            requires
                high < 16,
                low < 16,
        ;
        bytes[index] = (high << 4u8) | low;
        index += 1;
    }
    assert(all_hex(h));
    assert(bytes@ =~= decode_sha256_spec(h)->0);
    Some(bytes)
}

/// Decodes the 64 hexadecimal digits of a SHA-256 digest.
pub fn decode_sha256(hex: &str) -> (r: Option<[u8; 32]>)
    ensures
        match decode_sha256_spec(vstd::utf8::encode_utf8(hex@)) {
            Some(bytes) => r matches Some(a) && a@ == bytes,
            None => r is None,
        },
{
    let b = hex.as_bytes();
    assert(b@.skip(0) =~= b@);
    decode_sha256_bytes(b, 0)
}

/// Lower-case hex of a 32-byte digest decodes back to the digest.
pub proof fn hex_digests_decode_back(digest: Seq<u8>)
    requires
        digest.len() == 32,
    ensures
        decode_sha256_spec(vstd::utf8::encode_utf8(crate::embedded_assets::hex_lower(digest)))
            == Some(digest),
{
    let h = crate::embedded_assets::hex_lower(digest);
    crate::embedded_assets::lemma_hex_lower_digits(digest);
    assert forall|k: int| 0 <= k < h.len() implies '\0' <= #[trigger] h[k] <= '\u{7f}' && hex_value(
        h[k] as u8,
    ) is Some by {
        let i = k / 2;
        assert(0 <= i < digest.len());
        let v: u8 = if k % 2 == 0 { digest[i] / 16 } else { digest[i] % 16 };
        assert(k == 2 * i || k == 2 * i + 1);
        assert(h[k] == crate::embedded_assets::hex_char(v));
    }
    assert(vstd::utf8::is_ascii_chars(h));
    vstd::utf8::is_ascii_chars_encode_utf8(h);
    let e = vstd::utf8::encode_utf8(h);
    assert(all_hex(e)) by {
        assert forall|k: int| 0 <= k < e.len() implies (#[trigger] hex_value(e[k])) is Some by {
            assert(e[k] == h[k] as u8);
        }
    }
    let d = decode_sha256_spec(e)->0;
    assert forall|i: int| 0 <= i < 32 implies #[trigger] d[i] == digest[i] by {
        let hi = digest[i] / 16;
        let lo = digest[i] % 16;
        assert(e[2 * i] == h[2 * i] as u8);
        assert(e[2 * i + 1] == h[2 * i + 1] as u8);
        assert(h[2 * i] == crate::embedded_assets::hex_char(hi));
        assert(h[2 * i + 1] == crate::embedded_assets::hex_char(lo));
        assert(hex_value(crate::embedded_assets::hex_char(hi) as u8) == Some(hi));
        assert(hex_value(crate::embedded_assets::hex_char(lo) as u8) == Some(lo));
        assert(hi * 16 + lo == digest[i]);
    }
    assert(d =~= digest);
}

pub open spec fn signature_prefix() -> Seq<u8> {
    seq![115u8, 104u8, 97u8, 50u8, 53u8, 54u8, 61u8]
}

/// The digest that a `sha256=<hex>` signature header carries.
pub open spec fn signature_digest(submitted: Seq<u8>) -> Option<Seq<u8>> {
    if submitted.len() >= 7 && submitted.take(7) == signature_prefix() {
        decode_sha256_spec(submitted.skip(7))
    } else {
        None
    }
}

/// The bytes that Twitch signs: message id, timestamp and body, concatenated.
pub open spec fn signed_message(message_id: Seq<char>, timestamp: Seq<char>, body: Seq<u8>) -> Seq<u8> {
    vstd::utf8::encode_utf8(message_id) + vstd::utf8::encode_utf8(timestamp) + body
}

/// `submitted` is `sha256=` and the hex HMAC-SHA256 of the signed message under `secret`.
pub open spec fn signature_valid(
    secret: Seq<char>,
    message_id: Seq<char>,
    timestamp: Seq<char>,
    body: Seq<u8>,
    submitted: Seq<char>,
) -> bool {
    signature_digest(vstd::utf8::encode_utf8(submitted)) matches Some(digest) && digest
        == hmac_sha256(vstd::utf8::encode_utf8(secret), signed_message(message_id, timestamp, body))
}

/// `submitted` is exactly what Twitch sends: `sha256=` and the lower-case hex
/// HMAC-SHA256 of the signed message under `secret`.
pub open spec fn genuine_signature(
    secret: Seq<char>,
    message_id: Seq<char>,
    timestamp: Seq<char>,
    body: Seq<u8>,
    submitted: Seq<char>,
) -> bool {
    vstd::utf8::encode_utf8(submitted) == signature_prefix() + vstd::utf8::encode_utf8(
        crate::embedded_assets::hex_lower(
            hmac_sha256(vstd::utf8::encode_utf8(secret), signed_message(message_id, timestamp, body)),
        ),
    )
}

fn append_bytes(v: &mut Vec<u8>, b: &[u8])
    ensures
        final(v)@ == old(v)@ + b@,
{
    let mut k: usize = 0;
    while k < b.len()
        invariant
            k <= b@.len(),
            v@ == old(v)@ + b@.take(k as int),
        decreases b@.len() - k,
    {
        v.push(b[k]);
        assert(b@.take(k + 1) =~= b@.take(k as int).push(b@[k as int]));
        k += 1;
    }
    assert(b@.take(b@.len() as int) =~= b@);
}

/// Whether `submitted` is `sha256=` followed by the hex HMAC-SHA256, under
/// `secret`, of the message id, the timestamp and the body.
pub fn valid_signature(
    secret: &str,
    message_id: &str,
    timestamp: &str,
    body: &[u8],
    submitted: &str,
) -> (r: bool)
    ensures
        r == signature_valid(secret@, message_id@, timestamp@, body@, submitted@),
        genuine_signature(secret@, message_id@, timestamp@, body@, submitted@) ==> r,
{
    let mut message: Vec<u8> = Vec::new();
    append_bytes(&mut message, message_id.as_bytes());
    append_bytes(&mut message, timestamp.as_bytes());
    append_bytes(&mut message, body);
    let expected = hmac_sha256_of(secret.as_bytes(), message.as_slice());
    proof {
        let h = hmac_sha256(
            vstd::utf8::encode_utf8(secret@),
            signed_message(message_id@, timestamp@, body@),
        );
        assert(message@ == signed_message(message_id@, timestamp@, body@));
        if genuine_signature(secret@, message_id@, timestamp@, body@, submitted@) {
            let e = vstd::utf8::encode_utf8(submitted@);
            hex_digests_decode_back(h);
            assert(e.take(7) =~= signature_prefix());
            assert(e.skip(7) =~= vstd::utf8::encode_utf8(crate::embedded_assets::hex_lower(h)));
        }
    }
    let s = submitted.as_bytes();
    let prefix: [u8; 7] = [115u8, 104u8, 97u8, 50u8, 53u8, 54u8, 61u8];
    if s.len() < 7 {
        return false;
    }
    let mut k: usize = 0;
    while k < 7
        invariant
            s@.len() >= 7,
            s@ == vstd::utf8::encode_utf8(submitted@),
            k <= 7,
            prefix@ == signature_prefix(),
            forall|m: int| 0 <= m < k ==> s@[m] == signature_prefix()[m],
        decreases 7 - k,
    {
        if s[k] != prefix[k] {
            assert(s@.take(7)[k as int] != signature_prefix()[k as int]);
            assert(s@.take(7) != signature_prefix());
            return false;
        }
        k += 1;
    }
    assert(s@.take(7) =~= signature_prefix());
    let digest = match decode_sha256_bytes(s, 7) {
        Some(d) => d,
        None => return false,
    };
    crate::web::auth::constant_time_eq(expected.as_slice(), digest.as_slice())
}

/// A header that an EventSub delivery must carry.
#[derive(Debug, Clone, Copy, PartialEq, Eq, Structural)]
pub enum EventSubHeader {
    MessageId,
    Timestamp,
    Signature,
    MessageType,
}

impl EventSubHeader {
    /// The header's name on the wire.
    pub fn name(&self) -> (r: &'static str)
        ensures
            *self == EventSubHeader::MessageId ==> r@ == MESSAGE_ID_HEADER@,
            *self == EventSubHeader::Timestamp ==> r@ == MESSAGE_TIMESTAMP_HEADER@,
            *self == EventSubHeader::Signature ==> r@ == MESSAGE_SIGNATURE_HEADER@,
            *self == EventSubHeader::MessageType ==> r@ == MESSAGE_TYPE_HEADER@,
    {
        match self {
            EventSubHeader::MessageId => MESSAGE_ID_HEADER,
            EventSubHeader::Timestamp => MESSAGE_TIMESTAMP_HEADER,
            EventSubHeader::Signature => MESSAGE_SIGNATURE_HEADER,
            EventSubHeader::MessageType => MESSAGE_TYPE_HEADER,
        }
    }
}

/// How an EventSub delivery fared before its body is read.
#[derive(Debug, Clone, Copy, PartialEq, Eq, Structural)]
pub enum EventSubAuth {
    /// No webhook secret is configured (503).
    Disabled,
    /// A required header is missing (400).
    MissingHeader(EventSubHeader),
    /// The signature is wrong or the timestamp stale (401).
    Unauthorized,
    /// The delivery is genuine and fresh.
    Authenticated,
}

pub open spec fn str_view(o: Option<&str>) -> Option<Seq<char>> {
    match o {
        Some(s) => Some(s@),
        None => None,
    }
}

/// The configured secret, unless it is absent or blank.
pub open spec fn usable_secret(secret: Option<Seq<char>>) -> Option<Seq<char>> {
    match secret {
        Some(s) => if crate::text::trim(s).len() == 0 { None } else { Some(s) },
        None => None,
    }
}

/// The verdict on a delivery at time `now`.
pub open spec fn eventsub_auth(
    secret: Option<Seq<char>>,
    message_id: Option<Seq<char>>,
    timestamp: Option<Seq<char>>,
    signature: Option<Seq<char>>,
    message_type: Option<Seq<char>>,
    body: Seq<u8>,
    now: i128,
) -> EventSubAuth {
    match usable_secret(secret) {
        None => EventSubAuth::Disabled,
        Some(key) => match (message_id, timestamp, signature, message_type) {
            (None, _, _, _) => EventSubAuth::MissingHeader(EventSubHeader::MessageId),
            (Some(_), None, _, _) => EventSubAuth::MissingHeader(EventSubHeader::Timestamp),
            (Some(_), Some(_), None, _) => EventSubAuth::MissingHeader(EventSubHeader::Signature),
            (Some(_), Some(_), Some(_), None) => EventSubAuth::MissingHeader(EventSubHeader::MessageType),
            (Some(id), Some(ts), Some(sig), Some(_)) => if fresh_at(ts, now) && signature_valid(
                key,
                id,
                ts,
                body,
                sig,
            ) {
                EventSubAuth::Authenticated
            } else {
                EventSubAuth::Unauthorized
            },
        },
    }
}

/// Only genuine, fresh deliveries get through: a delivery is authenticated
/// exactly when a usable secret is configured, all four headers are present,
/// the timestamp is at most ten minutes old and at most one minute ahead, and
/// the signature is the HMAC of the delivery under the secret. A stale
/// delivery is refused whatever its signature.
pub proof fn only_signed_fresh_deliveries_are_authenticated(
    secret: Option<Seq<char>>,
    message_id: Option<Seq<char>>,
    timestamp: Option<Seq<char>>,
    signature: Option<Seq<char>>,
    message_type: Option<Seq<char>>,
    body: Seq<u8>,
    now: i128,
)
    ensures
        eventsub_auth(secret, message_id, timestamp, signature, message_type, body, now)
            == EventSubAuth::Authenticated <==> {
            &&& usable_secret(secret) is Some
            &&& message_id is Some
            &&& timestamp is Some
            &&& signature is Some
            &&& message_type is Some
            &&& fresh_at(timestamp->0, now)
            &&& signature_valid(usable_secret(secret)->0, message_id->0, timestamp->0, body, signature->0)
        },
        (usable_secret(secret) is Some && message_id is Some && signature is Some
            && message_type is Some && timestamp is Some && !fresh_at(timestamp->0, now))
            ==> eventsub_auth(secret, message_id, timestamp, signature, message_type, body, now)
            == EventSubAuth::Unauthorized,
{
}

fn usable_secret_of(secret: &Option<String>) -> (r: Option<&str>)
    ensures
        str_view(r) == usable_secret(crate::chat::opt_view(*secret)),
{
    match secret {
        Some(s) => {
            let t = trimmed(s.as_str());
            if t.as_str().is_empty() {
                None
            } else {
                Some(s.as_str())
            }
        },
        None => None,
    }
}

/// Authenticates an EventSub delivery received at `now_ns`.
pub fn authenticate_eventsub_at(
    secret: &Option<String>,
    message_id: Option<&str>,
    timestamp: Option<&str>,
    signature: Option<&str>,
    message_type: Option<&str>,
    body: &[u8],
    now_ns: i128,
) -> (r: EventSubAuth)
    ensures
        r == eventsub_auth(
            crate::chat::opt_view(*secret),
            str_view(message_id),
            str_view(timestamp),
            str_view(signature),
            str_view(message_type),
            body@,
            now_ns,
        ),
{
    let key = match usable_secret_of(secret) {
        Some(k) => k,
        None => return EventSubAuth::Disabled,
    };
    let id = match message_id {
        Some(v) => v,
        None => return EventSubAuth::MissingHeader(EventSubHeader::MessageId),
    };
    let ts = match timestamp {
        Some(v) => v,
        None => return EventSubAuth::MissingHeader(EventSubHeader::Timestamp),
    };
    let sig = match signature {
        Some(v) => v,
        None => return EventSubAuth::MissingHeader(EventSubHeader::Signature),
    };
    if message_type.is_none() {
        return EventSubAuth::MissingHeader(EventSubHeader::MessageType);
    }
    if !timestamp_is_recent_at(ts, now_ns) || !valid_signature(key, id, ts, body, sig) {
        return EventSubAuth::Unauthorized;
    }
    EventSubAuth::Authenticated
}

/// Authenticates an EventSub delivery received now.
pub fn authenticate_eventsub(
    secret: &Option<String>,
    message_id: Option<&str>,
    timestamp: Option<&str>,
    signature: Option<&str>,
    message_type: Option<&str>,
    body: &[u8],
) -> (r: EventSubAuth)
    ensures
        exists|now: i128|
            r == #[trigger] eventsub_auth(
                crate::chat::opt_view(*secret),
                str_view(message_id),
                str_view(timestamp),
                str_view(signature),
                str_view(message_type),
                body@,
                now,
            ),
{
    let now = now_unix_nanos();
    authenticate_eventsub_at(secret, message_id, timestamp, signature, message_type, body, now)
}

/// The subscription an EventSub message belongs to.
#[derive(Debug, Clone)]
pub struct TwitchSubscription {
    pub kind: String,
}

/// The text of a chat message event.
#[derive(Debug, Clone)]
pub struct TwitchChatMessage {
    pub text: String,
}

/// A `channel.chat.message` event.
#[derive(Debug, Clone)]
pub struct TwitchChatEvent {
    pub message_id: String,
    pub chatter_user_name: String,
    pub message: TwitchChatMessage,
}

/// The body of an EventSub delivery.
#[derive(Debug, Clone)]
pub struct TwitchEventSubPayload {
    pub challenge: Option<String>,
    pub event: Option<TwitchChatEvent>,
    pub subscription: Option<TwitchSubscription>,
}

/// Why an authenticated delivery was refused (400).
#[derive(Debug, Clone, Copy, PartialEq, Eq, Structural)]
pub enum EventSubRejection {
    MissingChallenge,
    UnsupportedSubscription,
    MissingEvent,
    UnsupportedMessageType,
}

impl EventSubRejection {
    pub fn message(&self) -> (r: &'static str)
        ensures
            *self == EventSubRejection::MissingChallenge ==> r@ == "Twitch verification payload omitted its challenge"@,
            *self == EventSubRejection::UnsupportedSubscription ==> r@ == "Unsupported Twitch EventSub subscription type"@,
            *self == EventSubRejection::MissingEvent ==> r@ == "Twitch notification omitted its event"@,
            *self == EventSubRejection::UnsupportedMessageType ==> r@ == "Unsupported Twitch EventSub message type"@,
    {
        match self {
            EventSubRejection::MissingChallenge => "Twitch verification payload omitted its challenge",
            EventSubRejection::UnsupportedSubscription => "Unsupported Twitch EventSub subscription type",
            EventSubRejection::MissingEvent => "Twitch notification omitted its event",
            EventSubRejection::UnsupportedMessageType => "Unsupported Twitch EventSub message type",
        }
    }
}

/// What an authenticated EventSub delivery asks for.
#[derive(Debug)]
pub enum EventSubReply {
    /// Echo the challenge to confirm the subscription.
    Challenge(String),
    /// Queue this chat message.
    Chat(IncomingChatMessage),
    /// The subscription was revoked; acknowledge it.
    Revoked,
    /// Refuse the delivery.
    Rejected(EventSubRejection),
}

pub open spec fn chat_event_message(m: IncomingChatMessage, event: TwitchChatEvent, timestamp: Seq<char>) -> bool {
    &&& m.source@ == "twitch"@
    &&& m.external_id@ == event.message_id@
    &&& m.author@ == event.chatter_user_name@
    &&& m.text@ == event.message.text@
    &&& m.avatar_url is None
    &&& crate::chat::opt_view(m.sent_at) == Some(timestamp)
}

/// What a delivery of `message_type` with `payload` asks for.
pub open spec fn eventsub_reply_spec(
    message_type: Seq<char>,
    timestamp: Seq<char>,
    payload: TwitchEventSubPayload,
    r: EventSubReply,
) -> bool {
    if message_type == "webhook_callback_verification"@ {
        match payload.challenge {
            Some(c) => r matches EventSubReply::Challenge(s) && s@ == c@,
            None => r == EventSubReply::Rejected(EventSubRejection::MissingChallenge),
        }
    } else if message_type == "notification"@ {
        if !(payload.subscription matches Some(sub) && sub.kind@ == "channel.chat.message"@) {
            r == EventSubReply::Rejected(EventSubRejection::UnsupportedSubscription)
        } else {
            match payload.event {
                Some(event) => r matches EventSubReply::Chat(m) && chat_event_message(m, event, timestamp),
                None => r == EventSubReply::Rejected(EventSubRejection::MissingEvent),
            }
        }
    } else if message_type == "revocation"@ {
        r == EventSubReply::Revoked
    } else {
        r == EventSubReply::Rejected(EventSubRejection::UnsupportedMessageType)
    }
}

fn same_text(a: &str, b: &str) -> (r: bool)
    ensures
        r == (a@ == b@),
{
    let x = a.to_owned();
    let y = b.to_owned();
    x == y
}

/// Decides what an authenticated delivery asks for.
pub fn eventsub_reply(message_type: &str, timestamp: &str, payload: TwitchEventSubPayload) -> (r: EventSubReply)
    ensures
        eventsub_reply_spec(message_type@, timestamp@, payload, r),
{
    if same_text(message_type, "webhook_callback_verification") {
        match payload.challenge {
            Some(c) => EventSubReply::Challenge(c),
            None => EventSubReply::Rejected(EventSubRejection::MissingChallenge),
        }
    } else if same_text(message_type, "notification") {
        let supported = match &payload.subscription {
            Some(sub) => same_text(sub.kind.as_str(), "channel.chat.message"),
            None => false,
        };
        if !supported {
            return EventSubReply::Rejected(EventSubRejection::UnsupportedSubscription);
        }
        match payload.event {
            Some(event) => EventSubReply::Chat(
                IncomingChatMessage {
                    source: "twitch".to_owned(),
                    external_id: event.message_id,
                    author: event.chatter_user_name,
                    text: event.message.text,
                    avatar_url: None,
                    sent_at: Some(timestamp.to_owned()),
                },
            ),
            None => EventSubReply::Rejected(EventSubRejection::MissingEvent),
        }
    } else if same_text(message_type, "revocation") {
        EventSubReply::Revoked
    } else {
        EventSubReply::Rejected(EventSubRejection::UnsupportedMessageType)
    }
}

} // verus!
