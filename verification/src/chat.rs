//! The chat inbox: chat messages from every connected platform wait in one
//! bounded queue and are shown one at a time until the operator acknowledges
//! them.

pub mod ingest;
pub mod twitch;
pub mod youtube;

use crate::text::{ascii_lowercased, chars_of, push_char, push_str, trimmed};
use std::collections::VecDeque;
use vstd::prelude::*;

verus! {

pub const DEFAULT_CHAT_QUEUE_CAPACITY: usize = 500;

/// A chat message as a platform delivers it, before validation.
#[derive(Debug, Clone)]
pub struct IncomingChatMessage {
    pub source: String,
    pub external_id: String,
    pub author: String,
    pub text: String,
    pub avatar_url: Option<String>,
    pub sent_at: Option<String>,
}

/// Why an incoming chat message was refused.
#[derive(Debug, Clone, Copy, PartialEq, Eq, Structural)]
pub enum ChatError {
    /// The source is not 1-32 ASCII letters, digits, hyphens or underscores.
    InvalidSource,
    /// The external id is empty or longer than 256 bytes.
    InvalidExternalId,
    /// The author is empty or longer than 200 bytes.
    InvalidAuthor,
    /// The text is empty or longer than 5000 bytes.
    InvalidText,
    /// The avatar URL is longer than 2048 bytes.
    AvatarUrlTooLong,
    /// The send time is longer than 100 bytes.
    SentAtTooLong,
}

impl ChatError {
    /// The human-readable reason.
    pub fn message(&self) -> (r: &'static str)
        ensures
            *self == ChatError::InvalidSource ==> r@ == "source must be 1-32 ASCII letters, numbers, hyphens, or underscores"@,
            *self == ChatError::InvalidExternalId ==> r@ == "external_id must be 1-256 characters"@,
            *self == ChatError::InvalidAuthor ==> r@ == "author must be 1-200 characters"@,
            *self == ChatError::InvalidText ==> r@ == "text must be 1-5000 characters"@,
            *self == ChatError::AvatarUrlTooLong ==> r@ == "avatar_url must be at most 2048 characters"@,
            *self == ChatError::SentAtTooLong ==> r@ == "sent_at must be at most 100 characters"@,
    {
        match self {
            ChatError::InvalidSource => "source must be 1-32 ASCII letters, numbers, hyphens, or underscores",
            ChatError::InvalidExternalId => "external_id must be 1-256 characters",
            ChatError::InvalidAuthor => "author must be 1-200 characters",
            ChatError::InvalidText => "text must be 1-5000 characters",
            ChatError::AvatarUrlTooLong => "avatar_url must be at most 2048 characters",
            ChatError::SentAtTooLong => "sent_at must be at most 100 characters",
        }
    }
}

/// A message accepted into the inbox.
#[derive(Debug, Clone)]
pub struct ChatMessage {
    pub id: u64,
    pub source: String,
    pub external_id: String,
    pub author: String,
    pub text: String,
    pub avatar_url: Option<String>,
    pub sent_at: Option<String>,
    pub received_at_unix_ms: u64,
}

/// What the operator sees: the current message and how many wait behind it.
#[derive(Debug, Clone)]
pub struct ChatInboxSnapshot {
    pub current: Option<ChatMessage>,
    pub waiting: usize,
    pub dropped: u64,
}

/// What became of an enqueued message.
#[derive(Debug, Clone, Copy, PartialEq, Eq, Structural)]
pub enum EnqueueOutcome {
    Accepted,
    Duplicate,
    Dropped,
}

/// The length of `s` in UTF-8 bytes, as `str::len` counts it.
pub open spec fn byte_len(s: Seq<char>) -> nat {
    vstd::utf8::encode_utf8(s).len()
}

pub open spec fn opt_view(o: Option<String>) -> Option<Seq<char>> {
    match o {
        Some(s) => Some(s@),
        None => None,
    }
}

/// An optional field trimmed, and absent when only whitespace is left.
pub open spec fn non_empty_spec(o: Option<Seq<char>>) -> Option<Seq<char>> {
    match o {
        Some(s) => if crate::text::trim(s).len() == 0 { None } else { Some(crate::text::trim(s)) },
        None => None,
    }
}

pub open spec fn is_source_char(c: char) -> bool {
    ||| ('a' <= c && c <= 'z')
    ||| ('A' <= c && c <= 'Z')
    ||| ('0' <= c && c <= '9')
    ||| c == '-'
    ||| c == '_'
}

pub open spec fn normalized_source(s: Seq<char>) -> Seq<char> {
    crate::text::to_ascii_lowercase(crate::text::trim(s))
}

pub open spec fn valid_source(s: Seq<char>) -> bool {
    &&& s.len() > 0
    &&& byte_len(s) <= 32
    &&& forall|i: int| 0 <= i < s.len() ==> is_source_char(#[trigger] s[i])
}

/// The first rule that the normalized message breaks, if any.
pub open spec fn normalization_error(m: IncomingChatMessage) -> Option<ChatError> {
    let source = normalized_source(m.source@);
    let external_id = crate::text::trim(m.external_id@);
    let author = crate::text::trim(m.author@);
    let text = crate::text::trim(m.text@);
    let avatar_url = non_empty_spec(opt_view(m.avatar_url));
    let sent_at = non_empty_spec(opt_view(m.sent_at));
    if !valid_source(source) {
        Some(ChatError::InvalidSource)
    } else if external_id.len() == 0 || byte_len(external_id) > 256 {
        Some(ChatError::InvalidExternalId)
    } else if author.len() == 0 || byte_len(author) > 200 {
        Some(ChatError::InvalidAuthor)
    } else if text.len() == 0 || byte_len(text) > 5000 {
        Some(ChatError::InvalidText)
    } else if avatar_url matches Some(u) && byte_len(u) > 2048 {
        Some(ChatError::AvatarUrlTooLong)
    } else if sent_at matches Some(t) && byte_len(t) > 100 {
        Some(ChatError::SentAtTooLong)
    } else {
        None
    }
}

/// `n` is `m` with every field normalized.
pub open spec fn normalized_as(m: IncomingChatMessage, n: IncomingChatMessage) -> bool {
    &&& n.source@ == normalized_source(m.source@)
    &&& n.external_id@ == crate::text::trim(m.external_id@)
    &&& n.author@ == crate::text::trim(m.author@)
    &&& n.text@ == crate::text::trim(m.text@)
    &&& opt_view(n.avatar_url) == non_empty_spec(opt_view(m.avatar_url))
    &&& opt_view(n.sent_at) == non_empty_spec(opt_view(m.sent_at))
}

/// The key under which a platform message is remembered: `source:external_id`.
pub open spec fn dedup_key(m: IncomingChatMessage) -> Seq<char> {
    normalized_source(m.source@) + seq![':'] + crate::text::trim(m.external_id@)
}

/// `msg` is the inbox entry made from `m` with the given id and arrival time.
pub open spec fn message_from(msg: ChatMessage, m: IncomingChatMessage, id: u64, received_at: u64) -> bool {
    &&& msg.id == id
    &&& msg.received_at_unix_ms == received_at
    &&& msg.source@ == normalized_source(m.source@)
    &&& msg.external_id@ == crate::text::trim(m.external_id@)
    &&& msg.author@ == crate::text::trim(m.author@)
    &&& msg.text@ == crate::text::trim(m.text@)
    &&& opt_view(msg.avatar_url) == non_empty_spec(opt_view(m.avatar_url))
    &&& opt_view(msg.sent_at) == non_empty_spec(opt_view(m.sent_at))
}

fn non_empty(value: Option<String>) -> (r: Option<String>)
    ensures
        opt_view(r) == non_empty_spec(opt_view(value)),
{
    match value {
        Some(value) => {
            let t = trimmed(value.as_str());
            if t.as_str().is_empty() {
                None
            } else {
                Some(t)
            }
        },
        None => None,
    }
}

fn all_source_chars(s: &str) -> (r: bool)
    ensures
        r == (forall|i: int| 0 <= i < s@.len() ==> is_source_char(#[trigger] s@[i])),
{
    let v = chars_of(s);
    let mut k: usize = 0;
    while k < v.len()
        invariant
            k <= v.len(),
            v@ == s@,
            forall|i: int| 0 <= i < k ==> is_source_char(#[trigger] v@[i]),
        decreases v.len() - k,
    {
        let c = v[k];
        let ok = ('a' <= c && c <= 'z') || ('A' <= c && c <= 'Z') || ('0' <= c && c <= '9')
            || c == '-' || c == '_';
        if !ok {
            assert(!is_source_char(v@[k as int]));
            return false;
        }
        k += 1;
    }
    true
}

/// The length of `s` in UTF-8 bytes.
fn byte_count(s: &str) -> (n: usize)
    ensures
        n == byte_len(s@),
{
    s.as_bytes().len()
}

fn optional_longer_than(o: &Option<String>, limit: usize) -> (r: bool)
    ensures
        r == (opt_view(*o) matches Some(s) && byte_len(s) > limit),
{
    match o {
        Some(s) => byte_count(s.as_str()) > limit,
        None => false,
    }
}

impl IncomingChatMessage {
    /// Trims every field, lower-cases the source, and checks the field limits.
    pub fn normalized(self) -> (r: Result<IncomingChatMessage, ChatError>)
        ensures
            match normalization_error(self) {
                Some(e) => r == Err::<IncomingChatMessage, ChatError>(e),
                None => r matches Ok(n) && normalized_as(self, n),
            },
    {
        let source_trimmed = trimmed(self.source.as_str());
        let source = ascii_lowercased(source_trimmed.as_str());
        let external_id = trimmed(self.external_id.as_str());
        let author = trimmed(self.author.as_str());
        let text = trimmed(self.text.as_str());
        let avatar_url = non_empty(self.avatar_url);
        let sent_at = non_empty(self.sent_at);

        if source.as_str().is_empty() || byte_count(source.as_str()) > 32 || !all_source_chars(
            source.as_str(),
        ) {
            return Err(ChatError::InvalidSource);
        }
        if external_id.as_str().is_empty() || byte_count(external_id.as_str()) > 256 {
            return Err(ChatError::InvalidExternalId);
        }
        if author.as_str().is_empty() || byte_count(author.as_str()) > 200 {
            return Err(ChatError::InvalidAuthor);
        }
        if text.as_str().is_empty() || byte_count(text.as_str()) > 5000 {
            return Err(ChatError::InvalidText);
        }
        if optional_longer_than(&avatar_url, 2048) {
            return Err(ChatError::AvatarUrlTooLong);
        }
        if optional_longer_than(&sent_at, 100) {
            return Err(ChatError::SentAtTooLong);
        }
        Ok(IncomingChatMessage { source, external_id, author, text, avatar_url, sent_at })
    }
}

pub(crate) fn clone_optional(o: &Option<String>) -> (r: Option<String>)
    ensures
        r == *o,
{
    match o {
        Some(s) => Some(s.clone()),
        None => None,
    }
}

impl ChatMessage {
    /// A field-by-field copy.
    fn duplicate(&self) -> (r: ChatMessage)
        ensures
            r == *self,
    {
        ChatMessage {
            id: self.id,
            source: self.source.clone(),
            external_id: self.external_id.clone(),
            author: self.author.clone(),
            text: self.text.clone(),
            avatar_url: clone_optional(&self.avatar_url),
            sent_at: clone_optional(&self.sent_at),
            received_at_unix_ms: self.received_at_unix_ms,
        }
    }
}

/// The current time in milliseconds since the Unix epoch; 0 before the epoch.
#[verifier::external_body]
fn now_unix_ms() -> u64 {
    std::time::SystemTime::now().duration_since(std::time::UNIX_EPOCH).unwrap_or_default().as_millis() as u64
}

/// The abstract state of a [`ChatInbox`].
pub struct ChatInboxView {
    pub capacity: nat,
    pub next_id: u64,
    pub messages: Seq<ChatMessage>,
    pub seen: Seq<Seq<char>>,
    pub dropped: u64,
}

/// The fields of a [`ChatInbox`].
#[derive(Debug)]
struct InboxState {
    capacity: usize,
    next_id: u64,
    messages: VecDeque<ChatMessage>,
    seen_order: VecDeque<String>,
    dropped: u64,
}

/// How many deduplication keys an inbox of `capacity` remembers.
pub open spec fn seen_capacity(capacity: nat) -> nat {
    if capacity * 4 > usize::MAX {
        usize::MAX as nat
    } else {
        capacity * 4
    }
}

/// `seen` after remembering `key`: the oldest keys beyond `limit` are forgotten.
pub open spec fn remembered(seen: Seq<Seq<char>>, key: Seq<char>, limit: nat) -> Seq<Seq<char>> {
    let s = seen.push(key);
    if s.len() > limit {
        s.skip(s.len() - limit)
    } else {
        s
    }
}

/// The message ids increase along the queue and stay below the next id, except that
/// once the id counter has saturated every new message gets `u64::MAX`.
pub open spec fn ids_ordered(messages: Seq<ChatMessage>, next_id: u64) -> bool {
    &&& forall|i: int|
        0 <= i < messages.len() ==> (#[trigger] messages[i]).id < next_id || next_id == u64::MAX
    &&& forall|i: int, j: int|
        0 <= i < j < messages.len() ==> (#[trigger] messages[i]).id < (#[trigger] messages[j]).id
            || messages[j].id == u64::MAX
}

impl ChatInboxView {
    /// Offering `incoming` can be counted: the drop counter would only overflow
    /// when a new, valid message meets a full queue whose counter is at `u64::MAX`.
    pub open spec fn offer_is_countable(self, incoming: IncomingChatMessage) -> bool {
        ||| !(self.messages.len() == self.capacity && self.dropped == u64::MAX)
        ||| normalization_error(incoming) is Some
        ||| self.seen.contains(dedup_key(incoming))
    }

    pub open spec fn wf(self) -> bool {
        &&& self.capacity > 0
        &&& self.messages.len() <= self.capacity
        &&& self.seen.no_duplicates()
        &&& self.seen.len() <= seen_capacity(self.capacity)
        &&& ids_ordered(self.messages, self.next_id)
    }

    /// The state after `incoming` arrived at time `now`, and what `enqueue` answered.
    pub open spec fn enqueued(
        self,
        after: ChatInboxView,
        incoming: IncomingChatMessage,
        now: u64,
        r: Result<EnqueueOutcome, ChatError>,
    ) -> bool {
        match normalization_error(incoming) {
            Some(e) => r == Err::<EnqueueOutcome, ChatError>(e) && after == self,
            None => {
                let key = dedup_key(incoming);
                if self.seen.contains(key) {
                    r == Ok::<EnqueueOutcome, ChatError>(EnqueueOutcome::Duplicate) && after == self
                } else {
                    &&& after.capacity == self.capacity
                    &&& after.seen == remembered(self.seen, key, seen_capacity(self.capacity))
                    &&& if self.messages.len() == self.capacity && self.capacity == 1 {
                        &&& r == Ok::<EnqueueOutcome, ChatError>(EnqueueOutcome::Dropped)
                        &&& after.dropped == self.dropped + 1
                        &&& after.messages == self.messages
                        &&& after.next_id == self.next_id
                    } else {
                        &&& r == Ok::<EnqueueOutcome, ChatError>(EnqueueOutcome::Accepted)
                        &&& after.dropped == (if self.messages.len() == self.capacity {
                            self.dropped + 1
                        } else {
                            self.dropped as int
                        })
                        &&& after.messages.len() > 0
                        &&& after.messages.drop_last() == (if self.messages.len() == self.capacity {
                            self.messages.remove(1)
                        } else {
                            self.messages
                        })
                        &&& message_from(after.messages.last(), incoming, self.next_id, now)
                        &&& after.next_id == (if self.next_id == u64::MAX {
                            u64::MAX
                        } else {
                            (self.next_id + 1) as u64
                        })
                    }
                }
            },
        }
    }
}

impl View for InboxState {
    type V = ChatInboxView;

    closed spec fn view(&self) -> ChatInboxView {
        ChatInboxView {
            capacity: self.capacity as nat,
            next_id: self.next_id,
            messages: self.messages@,
            seen: self.seen_order@.map_values(|s: String| s@),
            dropped: self.dropped,
        }
    }
}

impl InboxState {
    /// An empty inbox that holds at most `capacity` messages.
    fn new(capacity: usize) -> (r: InboxState)
        requires
            capacity > 0,
        ensures
            r@.wf(),
            r@.capacity == capacity,
            r@.next_id == 1,
            r@.messages.len() == 0,
            r@.seen.len() == 0,
            r@.dropped == 0,
    {
        let r = InboxState {
            capacity,
            next_id: 1,
            messages: VecDeque::new(),
            seen_order: VecDeque::new(),
            dropped: 0,
        };
        assert(r@.seen =~= Seq::<Seq<char>>::empty());
        r
    }

    fn has_seen(&self, key: &String) -> (r: bool)
        ensures
            r == self@.seen.contains(key@),
    {
        let mut i: usize = 0;
        while i < self.seen_order.len()
            invariant
                i <= self.seen_order@.len(),
                forall|k: int| 0 <= k < i ==> (#[trigger] self.seen_order@[k])@ != key@,
            decreases self.seen_order@.len() - i,
        {
            if self.seen_order[i] == *key {
                assert(self@.seen[i as int] == key@);
                return true;
            }
            i += 1;
        }
        assert forall|k: int| 0 <= k < self@.seen.len() implies self@.seen[k] != key@ by {
            assert(self@.seen[k] == self.seen_order@[k]@);
        }
        false
    }

    fn remember(&mut self, key: String)
        requires
            old(self)@.capacity > 0,
            old(self)@.seen.no_duplicates(),
            old(self)@.seen.len() <= seen_capacity(old(self)@.capacity),
            !old(self)@.seen.contains(key@),
        ensures
            final(self)@ == (ChatInboxView {
                seen: remembered(old(self)@.seen, key@, seen_capacity(old(self)@.capacity)),
                ..old(self)@
            }),
            final(self)@.seen.no_duplicates(),
            final(self)@.seen.len() <= seen_capacity(final(self)@.capacity),
            final(self)@.seen == last_n(old(self)@.seen.push(key@), seen_capacity(old(self)@.capacity)),
    {
        let limit: usize = if self.capacity > usize::MAX / 4 { usize::MAX } else { self.capacity * 4 };
        let ghost target = remembered(self@.seen, key@, seen_capacity(self@.capacity));
        let ghost pushed = self@.seen.push(key@);
        self.seen_order.push_back(key);
        assert(self@.seen =~= pushed);
        assert(pushed.no_duplicates());
        assert(pushed.skip(0) =~= pushed);
        let ghost mut dropped_keys: int = 0;
        while self.seen_order.len() > limit
            invariant
                limit == seen_capacity(self@.capacity),
                limit > 0,
                0 <= dropped_keys <= 1,
                dropped_keys == 1 ==> pushed.len() == limit + 1,
                self@.seen == pushed.skip(dropped_keys),
                self@.capacity == old(self)@.capacity,
                self@.next_id == old(self)@.next_id,
                self@.messages == old(self)@.messages,
                self@.dropped == old(self)@.dropped,
                pushed.len() <= limit + 1,
            decreases self.seen_order@.len(),
        {
            let ghost before = self@.seen;
            let ghost before_order = self.seen_order@;
            assert(before.len() == before_order.len());
            assert(dropped_keys == 0);
            let _ = self.seen_order.pop_front();
            assert(self.seen_order@ == before_order.subrange(1, before_order.len() as int));
            assert(self@.seen =~= before.drop_first());
            proof {
                dropped_keys = dropped_keys + 1;
            }
            assert(self@.seen =~= pushed.skip(dropped_keys));
        }
        assert(self@.seen =~= target);
        proof {
            remembering_keeps_the_newest_keys(old(self)@.seen, key@, seen_capacity(old(self)@.capacity));
        }
        assert(self@.seen.no_duplicates()) by {
            assert forall|i: int, j: int|
                0 <= i < self@.seen.len() && 0 <= j < self@.seen.len() && i != j implies
                self@.seen[i] != self@.seen[j] by {
                assert(self@.seen[i] == pushed[i + dropped_keys]);
                assert(self@.seen[j] == pushed[j + dropped_keys]);
            }
        }
    }

    /// Validates, deduplicates and queues a message received at `received_at_unix_ms`.
    ///
    /// When the queue is full the oldest waiting message (never the current one)
    /// is dropped to make room; a queue of one keeps its current message and
    /// drops the new one.
    fn enqueue_at(&mut self, incoming: IncomingChatMessage, received_at_unix_ms: u64) -> (r:
        Result<EnqueueOutcome, ChatError>)
        requires
            old(self)@.wf(),
            old(self)@.offer_is_countable(incoming),
        ensures
            final(self)@.wf(),
            old(self)@.enqueued(final(self)@, incoming, received_at_unix_ms, r),
    {
        let ghost offered = incoming;
        let incoming = match incoming.normalized() {
            Ok(n) => n,
            Err(e) => return Err(e),
        };
        let mut key = incoming.source.clone();
        push_char(&mut key, ':');
        push_str(&mut key, incoming.external_id.as_str());
        assert(key@ == dedup_key(offered));
        if self.has_seen(&key) {
            return Ok(EnqueueOutcome::Duplicate);
        }
        self.remember(key);

        let ghost before = self@;
        let full = self.messages.len() == self.capacity;
        if full {
            self.dropped = self.dropped + 1;
            if self.capacity == 1 {
                return Ok(EnqueueOutcome::Dropped);
            }
            let _ = self.messages.remove(1);
        }
        let ghost kept = self.messages@;
        let message = ChatMessage {
            id: self.next_id,
            source: incoming.source,
            external_id: incoming.external_id,
            author: incoming.author,
            text: incoming.text,
            avatar_url: incoming.avatar_url,
            sent_at: incoming.sent_at,
            received_at_unix_ms,
        };
        self.next_id = self.next_id.saturating_add(1);
        self.messages.push_back(message);
        assert(self.messages@.drop_last() =~= kept);
        proof {
            let m = self.messages@;
            let old_m = before.messages;
            assert forall|i: int, j: int| 0 <= i < j < kept.len() implies
                (#[trigger] kept[i]).id < (#[trigger] kept[j]).id || kept[j].id == u64::MAX by {
                if full {
                    let i2 = if i < 1 { i } else { i + 1 };
                    let j2 = if j < 1 { j } else { j + 1 };
                    assert(kept[i] == old_m[i2]);
                    assert(kept[j] == old_m[j2]);
                } else {
                    assert(kept[i] == old_m[i]);
                }
            }
            assert forall|i: int| 0 <= i < kept.len() implies
                (#[trigger] kept[i]).id < before.next_id || before.next_id == u64::MAX by {
                if full {
                    let i2 = if i < 1 { i } else { i + 1 };
                    assert(kept[i] == old_m[i2]);
                } else {
                    assert(kept[i] == old_m[i]);
                }
            }
            assert forall|i: int, j: int| 0 <= i < j < m.len() implies
                (#[trigger] m[i]).id < (#[trigger] m[j]).id || m[j].id == u64::MAX by {
                assert(m[i] == kept[i]);
                if j < kept.len() {
                    assert(m[j] == kept[j]);
                }
            }
            assert forall|i: int| 0 <= i < m.len() implies
                (#[trigger] m[i]).id < self.next_id || self.next_id == u64::MAX by {
                if i < kept.len() {
                    assert(m[i] == kept[i]);
                }
            }
        }
        Ok(EnqueueOutcome::Accepted)
    }

    /// Removes the current message if its id is `expected_id`; a stale id changes nothing.
    fn acknowledge(&mut self, expected_id: u64) -> (r: bool)
        requires
            old(self)@.wf(),
        ensures
            final(self)@.wf(),
            r == (old(self)@.messages.len() > 0 && old(self)@.messages[0].id == expected_id),
            final(self)@ == (ChatInboxView {
                messages: if r { old(self)@.messages.drop_first() } else { old(self)@.messages },
                ..old(self)@
            }),
    {
        if self.messages.len() > 0 && self.messages[0].id == expected_id {
            let ghost before = self.messages@;
            let _ = self.messages.pop_front();
            assert(self.messages@ =~= before.drop_first());
            proof {
                let m = self.messages@;
                assert forall|i: int, j: int| 0 <= i < j < m.len() implies
                    (#[trigger] m[i]).id < (#[trigger] m[j]).id || m[j].id == u64::MAX by {
                    assert(m[i] == before[i + 1]);
                    assert(m[j] == before[j + 1]);
                }
                assert forall|i: int| 0 <= i < m.len() implies
                    (#[trigger] m[i]).id < self.next_id || self.next_id == u64::MAX by {
                    assert(m[i] == before[i + 1]);
                }
            }
            true
        } else {
            false
        }
    }

    /// The current message, the number waiting behind it and the number dropped.
    fn snapshot(&self) -> (r: ChatInboxSnapshot)
        ensures
            r.current == (if self@.messages.len() > 0 {
                Some(self@.messages[0])
            } else {
                None
            }),
            r.waiting == (if self@.messages.len() > 0 { self@.messages.len() - 1 } else { 0 }),
            r.dropped == self@.dropped,
    {
        let current = if self.messages.len() > 0 {
            Some(self.messages[0].duplicate())
        } else {
            None
        };
        ChatInboxSnapshot {
            current,
            waiting: self.messages.len().saturating_sub(1),
            dropped: self.dropped,
        }
    }
}

/// A bounded queue of chat messages with platform-level deduplication.
#[derive(Debug)]
pub struct ChatInbox {
    state: InboxState,
}

impl ChatInbox {
    #[verifier::type_invariant]
    spec fn well_formed(self) -> bool {
        self.state@.wf()
    }
}

impl View for ChatInbox {
    type V = ChatInboxView;

    closed spec fn view(&self) -> ChatInboxView {
        self.state@
    }
}

impl ChatInbox {
    /// An empty inbox that holds at most `capacity` messages.
    pub fn new(capacity: usize) -> (r: ChatInbox)
        requires
            capacity > 0,
        ensures
            r@.wf(),
            r@.capacity == capacity,
            r@.next_id == 1,
            r@.messages.len() == 0,
            r@.seen.len() == 0,
            r@.dropped == 0,
    {
        ChatInbox { state: InboxState::new(capacity) }
    }

    /// Validates, deduplicates and queues a message received at `received_at_unix_ms`.
    ///
    /// When the queue is full the oldest waiting message (never the current one)
    /// is dropped to make room; a queue of one keeps its current message and
    /// drops the new one.
    pub fn enqueue_at(&mut self, incoming: IncomingChatMessage, received_at_unix_ms: u64) -> (r:
        Result<EnqueueOutcome, ChatError>)
        requires
            old(self)@.offer_is_countable(incoming),
        ensures
            final(self)@.wf(),
            old(self)@.enqueued(final(self)@, incoming, received_at_unix_ms, r),
    {
        proof {
            use_type_invariant(&*self);
        }
        let mut state = InboxState::new(1);
        std::mem::swap(&mut state, &mut self.state);
        let r = state.enqueue_at(incoming, received_at_unix_ms);
        self.state = state;
        r
    }

    /// Validates, deduplicates and queues a message, stamping it with the current time.
    pub fn enqueue(&mut self, incoming: IncomingChatMessage) -> (r: Result<EnqueueOutcome, ChatError>)
        requires
            old(self)@.offer_is_countable(incoming),
        ensures
            final(self)@.wf(),
            exists|now: u64| old(self)@.enqueued(final(self)@, incoming, now, r),
    {
        let now = now_unix_ms();
        self.enqueue_at(incoming, now)
    }

    /// Whether any message may be offered: dropped messages are counted in a
    /// `u64` that must not overflow, which only matters when the queue is full.
    pub fn can_enqueue(&self) -> (r: bool)
        ensures
            r == !(self@.messages.len() == self@.capacity && self@.dropped == u64::MAX),
            r ==> forall|m: IncomingChatMessage| self@.offer_is_countable(m),
    {
        !(self.state.messages.len() == self.state.capacity && self.state.dropped == u64::MAX)
    }

    /// Removes the current message if its id is `expected_id`; a stale id changes nothing.
    pub fn acknowledge(&mut self, expected_id: u64) -> (r: bool)
        ensures
            final(self)@.wf(),
            r == (old(self)@.messages.len() > 0 && old(self)@.messages[0].id == expected_id),
            final(self)@ == (ChatInboxView {
                messages: if r { old(self)@.messages.drop_first() } else { old(self)@.messages },
                ..old(self)@
            }),
    {
        proof {
            use_type_invariant(&*self);
        }
        let mut state = InboxState::new(1);
        std::mem::swap(&mut state, &mut self.state);
        let r = state.acknowledge(expected_id);
        self.state = state;
        r
    }

    /// The current message, the number waiting behind it and the number dropped.
    pub fn snapshot(&self) -> (r: ChatInboxSnapshot)
        ensures
            r.current == (if self@.messages.len() > 0 {
                Some(self@.messages[0])
            } else {
                None
            }),
            r.waiting == (if self@.messages.len() > 0 { self@.messages.len() - 1 } else { 0 }),
            r.dropped == self@.dropped,
            self@.wf(),
    {
        proof {
            use_type_invariant(self);
        }
        self.state.snapshot()
    }
}

/// Acknowledging the current message twice clears it only once: after the
/// current message with id `id` is acknowledged, the message that takes its
/// place has another id, so a second, stale acknowledgement of `id` is refused.
/// (Ids below `u64::MAX` are meant: once the id counter saturates, later
/// messages share the id `u64::MAX`.)
pub proof fn stale_acknowledgement_is_refused(inbox: ChatInboxView, id: u64)
    requires
        inbox.wf(),
        inbox.messages.len() > 0,
        inbox.messages[0].id == id,
        id < u64::MAX,
    ensures
        !(inbox.messages.drop_first().len() > 0 && inbox.messages.drop_first()[0].id == id),
{
    if inbox.messages.len() > 1 {
        assert(inbox.messages.drop_first()[0] == inbox.messages[1]);
        assert(inbox.messages[0].id < inbox.messages[1].id || inbox.messages[1].id == u64::MAX);
    }
}

/// Offering a message never replaces the message on screen: when the queue is
/// full, the oldest *waiting* message makes room, and the current one stays.
pub proof fn current_message_is_kept(
    before: ChatInboxView,
    after: ChatInboxView,
    incoming: IncomingChatMessage,
    now: u64,
    r: Result<EnqueueOutcome, ChatError>,
)
    requires
        before.wf(),
        before.messages.len() > 0,
        before.enqueued(after, incoming, now, r),
    ensures
        after.messages.len() > 0,
        after.messages[0] == before.messages[0],
{
    if normalization_error(incoming) is None && !before.seen.contains(dedup_key(incoming)) {
        if !(before.messages.len() == before.capacity && before.capacity == 1) {
            let kept = after.messages.drop_last();
            if before.messages.len() == before.capacity {
                assert(kept == before.messages.remove(1));
                assert(kept[0] == before.messages[0]);
            } else {
                assert(kept == before.messages);
            }
            assert(after.messages[0] == kept[0]);
        }
    }
}

/// Every message in the queue, and every message the queue will ever take,
/// was accepted exactly once: a platform message that is remembered is
/// refused as a duplicate, whatever it says.
pub proof fn remembered_messages_are_duplicates(
    before: ChatInboxView,
    after: ChatInboxView,
    incoming: IncomingChatMessage,
    now: u64,
    r: Result<EnqueueOutcome, ChatError>,
)
    requires
        before.wf(),
        normalization_error(incoming) is None,
        before.seen.contains(dedup_key(incoming)),
        before.enqueued(after, incoming, now, r),
    ensures
        r == Ok::<EnqueueOutcome, ChatError>(EnqueueOutcome::Duplicate),
        after == before,
{
}

/// The same platform message offered twice is queued at most once: after a
/// first offer that was not refused as invalid, a second offer of it is a
/// duplicate and leaves the inbox as it was.
pub proof fn repeated_message_is_queued_once(
    s0: ChatInboxView,
    s1: ChatInboxView,
    s2: ChatInboxView,
    incoming: IncomingChatMessage,
    first_at: u64,
    second_at: u64,
    r1: Result<EnqueueOutcome, ChatError>,
    r2: Result<EnqueueOutcome, ChatError>,
)
    requires
        s0.wf(),
        s0.enqueued(s1, incoming, first_at, r1),
        r1 is Ok,
        s1.enqueued(s2, incoming, second_at, r2),
    ensures
        r2 == Ok::<EnqueueOutcome, ChatError>(EnqueueOutcome::Duplicate),
        s2 == s1,
{
    let key = dedup_key(incoming);
    if !s0.seen.contains(key) {
        let limit = seen_capacity(s0.capacity);
        let pushed = s0.seen.push(key);
        assert(pushed[pushed.len() - 1] == key);
        if pushed.len() > limit {
            let kept = pushed.skip(pushed.len() - limit);
            assert(kept[limit - 1] == pushed[pushed.len() - 1]);
            assert(s1.seen.contains(key));
        } else {
            assert(s1.seen.contains(key));
        }
    }
}

/// Normalizing is idempotent: a normalized message passes every rule again and
/// normalizes to itself.
pub proof fn normalizing_twice_changes_nothing(m: IncomingChatMessage, n: IncomingChatMessage)
    requires
        normalization_error(m) is None,
        normalized_as(m, n),
    ensures
        normalization_error(n) is None,
        normalized_as(n, n),
{
    crate::text::lemma_trim_idempotent(m.source@);
    crate::text::lemma_lower_of_trimmed(crate::text::trim(m.source@));
    crate::text::lemma_trim_idempotent(m.external_id@);
    crate::text::lemma_trim_idempotent(m.author@);
    crate::text::lemma_trim_idempotent(m.text@);
    if let Some(a) = m.avatar_url {
        crate::text::lemma_trim_idempotent(a@);
    }
    if let Some(t) = m.sent_at {
        crate::text::lemma_trim_idempotent(t@);
    }
    assert(normalized_source(n.source@) == n.source@);
}

/// The source rule: after trimming and lower-casing, a source of 1 to 32
/// characters drawn from `a`-`z`, `0`-`9`, `-` and `_` is accepted (so
/// `my-bot` and `My_Bot_2` are valid sources), and a source holding any other
/// character, or nothing, is refused as `InvalidSource`.
pub proof fn sources_are_lowercase_slugs(m: IncomingChatMessage)
    ensures
        ({
            let s = crate::text::to_ascii_lowercase(crate::text::trim(m.source@));
            1 <= s.len() <= 32 && (forall|i: int|
                0 <= i < s.len() ==> ('a' <= #[trigger] s[i] <= 'z') || ('0' <= s[i] <= '9') || s[i]
                    == '-' || s[i] == '_')
        }) ==> normalization_error(m) != Some(ChatError::InvalidSource),
        ({
            let s = crate::text::to_ascii_lowercase(crate::text::trim(m.source@));
            s.len() == 0 || (exists|i: int|
                0 <= i < s.len() && !(('a' <= #[trigger] s[i] <= 'z') || ('0' <= s[i] <= '9') || s[i]
                    == '-' || s[i] == '_'))
        }) ==> normalization_error(m) == Some(ChatError::InvalidSource),
{
    let s = crate::text::to_ascii_lowercase(crate::text::trim(m.source@));
    assert(s == normalized_source(m.source@));
    if 1 <= s.len() <= 32 && (forall|i: int|
        0 <= i < s.len() ==> ('a' <= #[trigger] s[i] <= 'z') || ('0' <= s[i] <= '9') || s[i] == '-'
            || s[i] == '_') {
        assert(vstd::utf8::is_ascii_chars(s)) by {
            assert forall|i: int| 0 <= i < s.len() implies '\0' <= #[trigger] s[i] <= '\u{7f}' by {
                assert(('a' <= s[i] <= 'z') || ('0' <= s[i] <= '9') || s[i] == '-' || s[i] == '_');
            }
        }
        vstd::utf8::is_ascii_chars_encode_utf8(s);
        assert(byte_len(s) == s.len());
        assert forall|i: int| 0 <= i < s.len() implies is_source_char(#[trigger] s[i]) by {
            assert(('a' <= s[i] <= 'z') || ('0' <= s[i] <= '9') || s[i] == '-' || s[i] == '_');
        }
        assert(valid_source(s));
    }
    if s.len() > 0 && exists|i: int|
        0 <= i < s.len() && !(('a' <= #[trigger] s[i] <= 'z') || ('0' <= s[i] <= '9') || s[i] == '-'
            || s[i] == '_') {
        let i = choose|i: int|
            0 <= i < s.len() && !(('a' <= #[trigger] s[i] <= 'z') || ('0' <= s[i] <= '9') || s[i]
                == '-' || s[i] == '_');
        let t = crate::text::trim(m.source@);
        assert(s[i] == crate::text::ascii_lower(t[i]));
        assert(!('A' <= s[i] && s[i] <= 'Z')) by {
            if 'A' <= t[i] && t[i] <= 'Z' {
                assert('a' <= crate::text::ascii_lower(t[i]) <= 'z');
            }
        }
        assert(!is_source_char(s[i]));
        assert(!valid_source(s));
    }
}

/// An offer that breaks a rule is refused with the first rule it breaks and
/// leaves the inbox exactly as it was, as if it had never been made; an offer
/// that breaks none is never refused.
pub proof fn invalid_offers_change_nothing(
    before: ChatInboxView,
    after: ChatInboxView,
    incoming: IncomingChatMessage,
    now: u64,
    r: Result<EnqueueOutcome, ChatError>,
)
    requires
        before.enqueued(after, incoming, now, r),
    ensures
        r is Err <==> normalization_error(incoming) is Some,
        r is Err ==> r == Err::<EnqueueOutcome, ChatError>(normalization_error(incoming)->0) && after
            == before,
{
}

/// The newest `limit` entries of `h`.
pub open spec fn last_n(h: Seq<Seq<char>>, limit: nat) -> Seq<Seq<char>> {
    if h.len() > limit {
        h.skip(h.len() - limit)
    } else {
        h
    }
}

/// Remembering a new key keeps the newest `limit` keys, the new one last,
/// forgetting the oldest first, and still no key twice.
pub proof fn remembering_keeps_the_newest_keys(seen: Seq<Seq<char>>, key: Seq<char>, limit: nat)
    requires
        limit > 0,
        seen.no_duplicates(),
        !seen.contains(key),
        seen.len() <= limit,
    ensures
        remembered(seen, key, limit) == last_n(seen.push(key), limit),
        remembered(seen, key, limit).len() == (if seen.len() + 1 > limit { limit } else { seen.len() + 1 }),
        remembered(seen, key, limit).last() == key,
        remembered(seen, key, limit).no_duplicates(),
{
    let p = seen.push(key);
    let r = remembered(seen, key, limit);
    let d: int = if p.len() > limit { p.len() - limit } else { 0 };
    assert(r =~= p.skip(d));
    assert forall|i: int, j: int| 0 <= i < r.len() && 0 <= j < r.len() && i != j implies r[i] != r[j] by {
        assert(r[i] == p[i + d]);
        assert(r[j] == p[j + d]);
        if i + d < seen.len() && j + d < seen.len() {
            assert(p[i + d] == seen[i + d]);
            assert(p[j + d] == seen[j + d]);
        } else if i + d < seen.len() {
            assert(p[i + d] == seen[i + d]);
        } else if j + d < seen.len() {
            assert(p[j + d] == seen[j + d]);
        }
    }
}

/// One call on an inbox, with what it answered.
pub enum InboxEvent {
    /// `enqueue_at(message, received_at)` answered `result`.
    Offer(IncomingChatMessage, u64, Result<EnqueueOutcome, ChatError>),
    /// `acknowledge(id)` answered `removed`.
    Acknowledge(u64, bool),
}

/// `after` is what the call `e` leaves of `before`, as the calls' contracts state it.
pub open spec fn inbox_step(before: ChatInboxView, after: ChatInboxView, e: InboxEvent) -> bool {
    &&& after.wf()
    &&& match e {
        InboxEvent::Offer(m, now, r) => before.offer_is_countable(m) && before.enqueued(after, m, now, r),
        InboxEvent::Acknowledge(id, removed) => {
            &&& removed == (before.messages.len() > 0 && before.messages[0].id == id)
            &&& after == (ChatInboxView {
                messages: if removed { before.messages.drop_first() } else { before.messages },
                ..before
            })
        },
    }
}

/// The event is an offer that the inbox remembered: accepted or dropped.
pub open spec fn remembered_offer(e: InboxEvent) -> bool {
    e matches InboxEvent::Offer(_, _, r) && (r == Ok::<EnqueueOutcome, ChatError>(
        EnqueueOutcome::Accepted,
    ) || r == Ok::<EnqueueOutcome, ChatError>(EnqueueOutcome::Dropped))
}

/// The deduplication keys of the remembered offers among `events`, oldest first.
pub open spec fn kept_keys(events: Seq<InboxEvent>) -> Seq<Seq<char>>
    decreases events.len(),
{
    if events.len() == 0 {
        Seq::empty()
    } else {
        let rest = kept_keys(events.drop_last());
        match events.last() {
            InboxEvent::Offer(m, _, r) => if remembered_offer(events.last()) {
                rest.push(dedup_key(m))
            } else {
                rest
            },
            InboxEvent::Acknowledge(_, _) => rest,
        }
    }
}

proof fn lemma_last_n_push(h: Seq<Seq<char>>, key: Seq<char>, limit: nat)
    requires
        limit > 0,
    ensures
        remembered(last_n(h, limit), key, limit) == last_n(h.push(key), limit),
{
    let a = last_n(h, limit);
    let p = a.push(key);
    let q = h.push(key);
    if h.len() + 1 > limit {
        assert(remembered(a, key, limit) =~= q.skip(q.len() - limit)) by {
            if h.len() > limit {
                assert(p.skip(p.len() - limit) =~= q.skip(q.len() - limit));
            } else {
                assert(a == h);
            }
        }
    } else {
        assert(a == h);
    }
}

/// What an inbox does over any run of calls, starting empty:
/// - it never holds more than its capacity, and its ids increase from front to back;
/// - the drop count never falls, and grows by exactly one when a remembered
///   offer meets a full queue;
/// - it remembers exactly the keys of the newest `4 × capacity` remembered
///   offers, so a valid offer is a duplicate exactly when its key is among them.
pub proof fn inbox_runs_keep_their_promises(states: Seq<ChatInboxView>, events: Seq<InboxEvent>)
    requires
        states.len() == events.len() + 1,
        states[0].wf(),
        states[0].seen.len() == 0,
        forall|i: int| 0 <= i < events.len() ==> inbox_step(states[i], #[trigger] states[i + 1], events[i]),
    ensures
        forall|k: int|
            0 <= k < states.len() ==> {
                &&& (#[trigger] states[k]).wf()
                &&& states[k].capacity == states[0].capacity
                &&& states[k].seen == last_n(kept_keys(events.take(k)), seen_capacity(states[0].capacity))
            },
        forall|k: int|
            0 <= k < events.len() ==> {
                &&& states[k].dropped <= (#[trigger] states[k + 1]).dropped
                &&& states[k + 1].dropped == states[k].dropped + (if remembered_offer(events[k])
                    && states[k].messages.len() == states[k].capacity {
                    1int
                } else {
                    0int
                })
            },
        forall|k: int|
            0 <= k < events.len() ==> (#[trigger] events[k] matches InboxEvent::Offer(m, _, r) && (
            normalization_error(m) is None ==> (r == Ok::<EnqueueOutcome, ChatError>(
                EnqueueOutcome::Duplicate,
            ) <==> last_n(kept_keys(events.take(k)), seen_capacity(states[0].capacity)).contains(
                dedup_key(m),
            )))) || events[k] is Acknowledge,
    decreases events.len(),
{
    let limit = seen_capacity(states[0].capacity);
    if events.len() == 0 {
        assert(events.take(0) =~= Seq::<InboxEvent>::empty());
        assert(states[0].seen =~= last_n(kept_keys(events.take(0)), limit));
    } else {
        let n = events.len() - 1;
        let s2 = states.drop_last();
        let e2 = events.drop_last();
        assert forall|i: int| 0 <= i < e2.len() implies inbox_step(s2[i], #[trigger] s2[i + 1], e2[i]) by {
            assert(s2[i] == states[i]);
            assert(s2[i + 1] == states[i + 1]);
            assert(e2[i] == events[i]);
            assert(inbox_step(states[i], states[i + 1], events[i]));
        }
        inbox_runs_keep_their_promises(s2, e2);
        assert forall|k: int| 0 <= k <= n implies events.take(k) == e2.take(k) by {
            assert(events.take(k) =~= e2.take(k));
        }
        assert(events.take(n + 1) =~= events);
        assert(events.drop_last() =~= e2);
        let before = states[n];
        let after = states[n + 1];
        assert(s2[n] == before);
        assert(inbox_step(before, after, events[n]));
        let h = kept_keys(e2);
        assert(e2.take(n) =~= e2);
        assert(before.seen == last_n(h, limit));
        assert(before.capacity == states[0].capacity);
        assert(limit > 0);
        match events[n] {
            InboxEvent::Offer(m, now, r) => {
                if remembered_offer(events[n]) {
                    assert(kept_keys(events) == h.push(dedup_key(m)));
                    lemma_last_n_push(h, dedup_key(m), limit);
                } else {
                    assert(kept_keys(events) == h);
                }
            },
            InboxEvent::Acknowledge(_, _) => {
                assert(kept_keys(events) == h);
            },
        }
        assert(after.seen == last_n(kept_keys(events.take(n + 1)), limit));
        assert forall|k: int| 0 <= k < states.len() implies {
            &&& (#[trigger] states[k]).wf()
            &&& states[k].capacity == states[0].capacity
            &&& states[k].seen == last_n(kept_keys(events.take(k)), limit)
        } by {
            if k <= n {
                assert(states[k] == s2[k]);
            }
        }
        assert forall|k: int| 0 <= k < events.len() implies {
            &&& states[k].dropped <= (#[trigger] states[k + 1]).dropped
            &&& states[k + 1].dropped == states[k].dropped + (if remembered_offer(events[k])
                && states[k].messages.len() == states[k].capacity {
                1int
            } else {
                0int
            })
        } by {
            if k < n {
                assert(states[k] == s2[k]);
                assert(states[k + 1] == s2[k + 1]);
                assert(events[k] == e2[k]);
            }
        }
        assert forall|k: int| 0 <= k < events.len() implies (#[trigger] events[k] matches InboxEvent::Offer(m, _, r)
            && (normalization_error(m) is None ==> (r == Ok::<EnqueueOutcome, ChatError>(
            EnqueueOutcome::Duplicate,
        ) <==> last_n(kept_keys(events.take(k)), limit).contains(dedup_key(m))))) || events[k] is Acknowledge by {
            if k < n {
                assert(events[k] == e2[k]);
            }
        }
    }
}

impl Default for ChatInbox {
    fn default() -> (r: ChatInbox)
        ensures
            r@.wf(),
            r@.capacity == DEFAULT_CHAT_QUEUE_CAPACITY,
            r@.next_id == 1,
            r@.messages.len() == 0,
            r@.seen.len() == 0,
            r@.dropped == 0,
    {
        ChatInbox::new(DEFAULT_CHAT_QUEUE_CAPACITY)
    }
}

} // verus!
