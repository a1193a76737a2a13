//! The staged stream: an ingested stream is previewed locally first and only
//! relayed to the targets, and announced, once the operator publishes it.

use crate::text::{chars_of, range_eq};
use vstd::prelude::*;

verus! {

/// What the web interface shows about the staged stream.
#[derive(Debug, Clone, Copy, PartialEq, Eq)]
pub struct StreamStatus {
    pub active: bool,
    pub preview_ready: bool,
    pub preview_failed: bool,
    pub published: bool,
    pub session_id: Option<u64>,
}

pub open spec fn is_ascii_digit(c: char) -> bool {
    '0' <= c && c <= '9'
}

/// A file of the HLS preview that may be served: the playlist `index.m3u8`, or
/// a segment `segment_<digits>.ts`.
pub open spec fn preview_file_allowed(name: Seq<char>) -> bool {
    ||| name == "index.m3u8"@
    ||| {
        &&& name.len() > 11
        &&& name.take(8) == "segment_"@
        &&& name.skip(name.len() - 3) == ".ts"@
        &&& forall|i: int| 8 <= i < name.len() - 3 ==> is_ascii_digit(#[trigger] name[i])
    }
}

/// Whether `name` is a preview file that may be served; nothing else in the
/// preview directory, and nothing outside it, is.
pub fn valid_preview_file_name(name: &str) -> (r: bool)
    ensures
        r == preview_file_allowed(name@),
{
    let n = name.to_owned();
    if n == "index.m3u8".to_owned() {
        return true;
    }
    let v = chars_of(name);
    let prefix = chars_of("segment_");
    let suffix = chars_of(".ts");
    proof {
        reveal_strlit("segment_");
        reveal_strlit(".ts");
    }
    if v.len() <= 11 {
        return false;
    }
    if !range_eq(&v, 0, 8, prefix.as_slice()) {
        assert(v@.subrange(0, 8) =~= v@.take(8));
        return false;
    }
    if !range_eq(&v, v.len() - 3, v.len(), suffix.as_slice()) {
        assert(v@.subrange(v.len() - 3, v.len() as int) =~= v@.skip(v.len() - 3));
        return false;
    }
    assert(v@.subrange(0, 8) =~= v@.take(8));
    assert(v@.subrange(v.len() - 3, v.len() as int) =~= v@.skip(v.len() - 3));
    let mut k: usize = 8;
    while k < v.len() - 3
        invariant
            11 < v@.len(),
            v@ == name@,
            name@ != "index.m3u8"@,
            v@.take(8) == "segment_"@,
            v@.skip(v@.len() - 3) == ".ts"@,
            8 <= k <= v@.len() - 3,
            forall|i: int| 8 <= i < k ==> is_ascii_digit(#[trigger] v@[i]),
        decreases v@.len() - k,
    {
        if !('0' <= v[k] && v[k] <= '9') {
            assert(!is_ascii_digit(v@[k as int]));
            return false;
        }
        k += 1;
    }
    true
}

/// The content type a preview file is served with: the playlist as an HLS
/// playlist, anything else as an MPEG transport stream segment.
pub fn preview_content_type(name: &str) -> (r: &'static str)
    ensures
        r@ == (if name@ == "index.m3u8"@ { "application/vnd.apple.mpegurl"@ } else { "video/mp2t"@ }),
{
    let n = name.to_owned();
    if n == "index.m3u8".to_owned() {
        "application/vnd.apple.mpegurl"
    } else {
        "video/mp2t"
    }
}

/// A stream that is being ingested and previewed.
#[derive(Debug, Clone)]
pub struct StagedStream {
    pub session_id: u64,
    pub stream_key: String,
    pub preview_failed: bool,
    pub published: bool,
}

/// Why publishing could not start or stop.
#[derive(Debug, Clone, Copy, PartialEq, Eq, Structural)]
pub enum PublishError {
    /// No stream is currently staged.
    NotStaged,
    /// The staged stream is already published.
    AlreadyPublished,
}

impl PublishError {
    pub fn message(&self) -> (r: &'static str)
        ensures
            *self == PublishError::NotStaged ==> r@ == "No stream is currently staged"@,
            *self == PublishError::AlreadyPublished ==> r@ == "The staged stream is already published"@,
    {
        match self {
            PublishError::NotStaged => "No stream is currently staged",
            PublishError::AlreadyPublished => "The staged stream is already published",
        }
    }
}

/// What ending the stream with a given key involves.
#[derive(Debug, Clone, Copy, PartialEq, Eq, Structural)]
pub enum EndAction {
    /// It is the staged stream: end it, with its preview and relays.
    EndCurrent,
    /// It is another stream: only stop its relays.
    StopRelays,
}

/// The staged stream, if any, and the session id the next staging gets.
#[derive(Debug, Clone)]
pub struct StreamStage {
    pub staged: Option<StagedStream>,
    pub next_session_id: u64,
}

/// `after` and `r` are what beginning to publish from `before` gives.
pub open spec fn publish_step(before: StreamStage, after: StreamStage, r: Result<(u64, String), PublishError>) -> bool {
    &&& after.next_session_id == before.next_session_id
    &&& match before.staged {
        None => r == Err::<(u64, String), PublishError>(PublishError::NotStaged) && after.staged is None,
        Some(s) => if s.published {
            r == Err::<(u64, String), PublishError>(PublishError::AlreadyPublished) && after.staged == before.staged
        } else {
            &&& r matches Ok((id, key)) && id == s.session_id && key@ == s.stream_key@
            &&& after.staged == Some(StagedStream { published: true, ..s })
        },
    }
}

/// `after` and `r` are what stopping publishing from `before` gives.
pub open spec fn stop_step(before: StreamStage, after: StreamStage, r: Result<String, PublishError>) -> bool {
    &&& after.next_session_id == before.next_session_id
    &&& match before.staged {
        None => r == Err::<String, PublishError>(PublishError::NotStaged) && after.staged is None,
        Some(s) => {
            &&& r matches Ok(key) && key@ == s.stream_key@
            &&& after.staged == Some(StagedStream { published: false, ..s })
        },
    }
}

/// `after` and `r` are what staging `stream_key` from `before` gives: a fresh
/// session that is neither published nor failed.
pub open spec fn stage_step(before: StreamStage, after: StreamStage, stream_key: Seq<char>, r: u64) -> bool {
    &&& r == before.next_session_id
    &&& after.next_session_id == (if before.next_session_id == u64::MAX {
        0
    } else {
        (before.next_session_id + 1) as u64
    })
    &&& after.staged matches Some(s) && s.session_id == r && s.stream_key@ == stream_key && !s.preview_failed
        && !s.published
}

/// The staged session never has the id that the next staging will hand out.
pub open spec fn stage_wf(stage: StreamStage) -> bool {
    stage.staged matches Some(s) ==> s.session_id != stage.next_session_id
}

/// What the web interface is told about `stage`.
pub open spec fn status_spec(stage: StreamStage, playlist_exists: bool) -> StreamStatus {
    match stage.staged {
        Some(s) => StreamStatus {
            active: true,
            preview_ready: !s.preview_failed && playlist_exists,
            preview_failed: s.preview_failed,
            published: s.published,
            session_id: Some(s.session_id),
        },
        None => StreamStatus {
            active: false,
            preview_ready: false,
            preview_failed: false,
            published: false,
            session_id: None,
        },
    }
}

impl StreamStage {
    /// Nothing staged; the first session gets id 1.
    pub fn new() -> (r: StreamStage)
        ensures
            r.staged is None,
            r.next_session_id == 1,
            stage_wf(r),
    {
        StreamStage { staged: None, next_session_id: 1 }
    }

    /// Takes the staged stream out, for its relays and preview to be stopped.
    pub fn end_current(&mut self) -> (r: Option<StagedStream>)
        ensures
            r == old(self).staged,
            final(self).staged is None,
            final(self).next_session_id == old(self).next_session_id,
            stage_wf(*final(self)),
    {
        self.staged.take()
    }

    /// Stages `stream_key` as a new, unpublished session and returns its id.
    pub fn stage(&mut self, stream_key: String) -> (r: u64)
        ensures
            stage_step(*old(self), *final(self), stream_key@, r),
            stage_wf(*final(self)),
    {
        let id = self.next_session_id;
        self.next_session_id = if id == u64::MAX {
            0
        } else {
            id + 1
        };
        self.staged = Some(StagedStream { session_id: id, stream_key, preview_failed: false, published: false });
        id
    }

    /// Marks the staged stream published and returns its session and key.
    pub fn begin_publish(&mut self) -> (r: Result<(u64, String), PublishError>)
        ensures
            publish_step(*old(self), *final(self), r),
            stage_wf(*old(self)) ==> stage_wf(*final(self)),
    {
        match &mut self.staged {
            None => Err(PublishError::NotStaged),
            Some(s) => {
                if s.published {
                    Err(PublishError::AlreadyPublished)
                } else {
                    s.published = true;
                    Ok((s.session_id, s.stream_key.clone()))
                }
            },
        }
    }

    /// Whether session `session_id` is still staged and published, so that the
    /// relays started for it may be kept.
    pub fn still_published(&self, session_id: u64) -> (r: bool)
        ensures
            r == (self.staged matches Some(s) && s.session_id == session_id && s.published),
    {
        match &self.staged {
            Some(s) => s.session_id == session_id && s.published,
            None => false,
        }
    }

    /// Stops publishing; the stream stays staged. Returns its key, whose relays
    /// are to be stopped.
    pub fn stop_publishing(&mut self) -> (r: Result<String, PublishError>)
        ensures
            stop_step(*old(self), *final(self), r),
            stage_wf(*old(self)) ==> stage_wf(*final(self)),
    {
        match &mut self.staged {
            None => Err(PublishError::NotStaged),
            Some(s) => {
                s.published = false;
                Ok(s.stream_key.clone())
            },
        }
    }

    /// Whether the stream `stream_key` that ended is the staged one.
    pub fn end_action(&self, stream_key: &str) -> (r: EndAction)
        ensures
            r == (if self.staged matches Some(s) && s.stream_key@ == stream_key@ {
                EndAction::EndCurrent
            } else {
                EndAction::StopRelays
            }),
    {
        match &self.staged {
            Some(s) => {
                if s.stream_key == stream_key.to_owned() {
                    EndAction::EndCurrent
                } else {
                    EndAction::StopRelays
                }
            },
            None => EndAction::StopRelays,
        }
    }

    /// Records that the preview process has exited or could not be inspected.
    pub fn preview_stopped(&mut self)
        ensures
            final(self).next_session_id == old(self).next_session_id,
            match old(self).staged {
                None => final(self).staged is None,
                Some(s) => final(self).staged == Some(StagedStream { preview_failed: true, ..s }),
            },
            stage_wf(*old(self)) ==> stage_wf(*final(self)),
    {
        match &mut self.staged {
            Some(s) => {
                s.preview_failed = true;
            },
            None => {},
        }
    }

    /// The status shown to the operator; `playlist_exists` tells whether the
    /// preview playlist has been written yet.
    pub fn status(&self, playlist_exists: bool) -> (r: StreamStatus)
        ensures
            r == status_spec(*self, playlist_exists),
    {
        match &self.staged {
            Some(s) => StreamStatus {
                active: true,
                preview_ready: !s.preview_failed && playlist_exists,
                preview_failed: s.preview_failed,
                published: s.published,
                session_id: Some(s.session_id),
            },
            None => StreamStatus {
                active: false,
                preview_ready: false,
                preview_failed: false,
                published: false,
                session_id: None,
            },
        }
    }
}


/// A preview file that may be served is a plain file name: it holds no `/`,
/// no `\\` and no `..`, so it cannot name anything outside the preview directory.
pub proof fn allowed_preview_names_stay_in_directory(name: Seq<char>)
    requires
        preview_file_allowed(name),
    ensures
        forall|i: int| 0 <= i < name.len() ==> name[i] != '/' && name[i] != '\\',
        forall|i: int| 0 <= i < name.len() - 1 ==> !(#[trigger] name[i] == '.' && name[i + 1] == '.'),
{
    if name == "index.m3u8"@ {
        reveal_strlit("index.m3u8");
    } else {
        reveal_strlit("segment_");
        reveal_strlit(".ts");
        assert forall|i: int| 0 <= i < name.len() implies name[i] != '/' && name[i] != '\\' by {
            if i < 8 {
                assert(name[i] == name.take(8)[i]);
            } else if i >= name.len() - 3 {
                assert(name[i] == name.skip(name.len() - 3)[i - (name.len() - 3)]);
            }
        }
        assert forall|i: int| 0 <= i < name.len() - 1 implies !(#[trigger] name[i] == '.' && name[i + 1] == '.') by {
            if i < 8 {
                assert(name[i] == name.take(8)[i]);
            } else if i >= name.len() - 3 {
                assert(name[i + 1] == name.skip(name.len() - 3)[i + 1 - (name.len() - 3)]);
            } else if i + 1 < name.len() - 3 {
            } else {
                assert(name[i + 1] == name.skip(name.len() - 3)[0]);
            }
        }
    }
}

/// A staged stream is published at most once: after publishing has begun,
/// a second request is refused and changes nothing, until publishing stops.
pub proof fn publishing_twice_is_refused(
    s0: StreamStage,
    s1: StreamStage,
    r1: Result<(u64, String), PublishError>,
    s2: StreamStage,
    r2: Result<(u64, String), PublishError>,
)
    requires
        publish_step(s0, s1, r1),
        r1 is Ok,
        publish_step(s1, s2, r2),
    ensures
        r2 == Err::<(u64, String), PublishError>(PublishError::AlreadyPublished),
        s2 == s1,
{
}

/// Stopping publishing and publishing again brings the same session back on air.
pub proof fn stop_then_publish_resumes_the_session(
    s0: StreamStage,
    s1: StreamStage,
    stopped: Result<String, PublishError>,
    s2: StreamStage,
    r2: Result<(u64, String), PublishError>,
)
    requires
        s0.staged is Some,
        stop_step(s0, s1, stopped),
        publish_step(s1, s2, r2),
    ensures
        r2 matches Ok((id, key)) && id == s0.staged->0.session_id && key@ == s0.staged->0.stream_key@,
        s2.staged matches Some(s) && s.published,
{
}

/// A stream is reported published only while it is staged, and its preview is
/// reported ready only while it has not failed.
pub proof fn status_is_consistent(stage: StreamStage, playlist_exists: bool)
    ensures
        status_spec(stage, playlist_exists).published ==> status_spec(stage, playlist_exists).active,
        status_spec(stage, playlist_exists).preview_ready ==> status_spec(stage, playlist_exists).active
            && !status_spec(stage, playlist_exists).preview_failed,
        status_spec(stage, playlist_exists).active <==> status_spec(stage, playlist_exists).session_id is Some,
{
}

/// A publish that began for one session is recognised as stale once the stream
/// has been ended and another staged: the new session has a new id, so the
/// relays started for the old one are not kept.
pub proof fn restaging_makes_an_earlier_publish_stale(
    s0: StreamStage,
    s1: StreamStage,
    s2: StreamStage,
    stream_key: Seq<char>,
    new_id: u64,
    id: u64,
)
    requires
        stage_wf(s0),
        s0.staged matches Some(s) && s.session_id == id,
        s1.staged is None,
        s1.next_session_id == s0.next_session_id,
        stage_step(s1, s2, stream_key, new_id),
    ensures
        !(s2.staged matches Some(s) && s.session_id == id && s.published),
        stage_wf(s2),
{
}

} // verus!
