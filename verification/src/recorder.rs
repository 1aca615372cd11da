use vstd::prelude::*;

use crate::errors::RecorderError;
use crate::journal::{
    arrival_ts, expected_sequence, DanmuEntry, DanmuEntryV, LiveSession, LiveSessionV, SegmentV,
};
use crate::platform::PlatformType;

verus! {

/// How many consecutive transient segment-fetch failures the capture loop
/// absorbs before it gives the session up and falls back to polling.
pub const RETRY_LIMIT: u64 = 5;

/// The capture state machine's states.
#[derive(Debug, Clone, Copy, PartialEq, Eq, Structural)]
pub enum RecorderState {
    /// Registered, stream not live.
    Idle,
    /// Live detected, negotiating the stream URL.
    Connecting,
    /// Segments flowing into the current live session.
    Recording,
    /// Shutdown requested; in-flight writes may still complete.
    Stopping,
    /// Terminal: removed from service.
    Stopped,
}

/// Cached room metadata, refreshed at a bounded interval by the capture loop.
pub struct RoomInfo {
    pub room_id: u64,
    pub room_title: String,
    pub room_cover: String,
}

/// Cached user metadata for the room's broadcaster.
pub struct UserInfo {
    pub user_id: String,
    pub user_name: String,
    pub user_avatar: String,
}

/// Mathematical model of [`RoomInfo`].
pub ghost struct RoomInfoV {
    pub room_id: nat,
    pub room_title: Seq<char>,
    pub room_cover: Seq<char>,
}

/// Mathematical model of [`UserInfo`].
pub ghost struct UserInfoV {
    pub user_id: Seq<char>,
    pub user_name: Seq<char>,
    pub user_avatar: Seq<char>,
}

impl View for RoomInfo {
    type V = RoomInfoV;

    open spec fn view(&self) -> RoomInfoV {
        RoomInfoV {
            room_id: self.room_id as nat,
            room_title: self.room_title@,
            room_cover: self.room_cover@,
        }
    }
}

impl View for UserInfo {
    type V = UserInfoV;

    open spec fn view(&self) -> UserInfoV {
        UserInfoV {
            user_id: self.user_id@,
            user_name: self.user_name@,
            user_avatar: self.user_avatar@,
        }
    }
}

impl Clone for RoomInfo {
    /// A field-for-field copy.
    fn clone(&self) -> (r: Self)
        ensures
            r@ == self@,
    {
        RoomInfo {
            room_id: self.room_id,
            room_title: self.room_title.clone(),
            room_cover: self.room_cover.clone(),
        }
    }
}

impl Clone for UserInfo {
    /// A field-for-field copy.
    fn clone(&self) -> (r: Self)
        ensures
            r@ == self@,
    {
        UserInfo {
            user_id: self.user_id.clone(),
            user_name: self.user_name.clone(),
            user_avatar: self.user_avatar.clone(),
        }
    }
}

/// The non-blocking snapshot a recorder reports about itself.
pub struct RecorderInfo {
    pub room_id: u64,
    pub room_info: RoomInfo,
    pub user_info: UserInfo,
    /// Cumulative recorded duration over all sessions, in milliseconds,
    /// saturating at the counter's maximum.
    pub total_length_ms: u64,
    /// The active or most recent live session id; `None` before the first.
    pub current_live_id: Option<u64>,
    pub live_status: bool,
    pub platform: PlatformType,
}

/// An input to the capture state machine: the outcome of one network or
/// disk operation, or an external control request.
pub enum CaptureEvent {
    /// A live-status poll or push notification.
    LiveStatus { live: bool },
    /// The stream URL was negotiated; `now_ms` is the wall clock.
    StreamResolved { now_ms: u64 },
    /// Stream negotiation failed or timed out (transient).
    StreamResolveFailed,
    /// One segment was downloaded and written to disk.
    SegmentFetched {
        sequence: u64,
        byte_length: u64,
        timestamp_ms: u64,
        duration_ms: u64,
        path: String,
    },
    /// A segment fetch failed or timed out (transient, retried).
    SegmentFetchFailed,
    /// A segment write failed on disk (fatal for the current session).
    SegmentWriteFailed,
    /// The media stream ended normally; `now_ms` is the wall clock.
    StreamEnded { now_ms: u64 },
    /// One chat message arrived on the chat subscription.
    DanmuReceived { sender: String, text: String, timestamp_ms: u64, raw: String },
    /// A bounded-interval metadata refresh completed.
    MetadataFetched { room_info: RoomInfo, user_info: UserInfo },
    /// Graceful shutdown was requested.
    StopRequested,
}

/// Mathematical model of a [`CaptureEvent`].
pub ghost enum CaptureEventV {
    LiveStatus { live: bool },
    StreamResolved { now_ms: nat },
    StreamResolveFailed,
    SegmentFetched {
        sequence: nat,
        byte_length: nat,
        timestamp_ms: nat,
        duration_ms: nat,
        path: Seq<char>,
    },
    SegmentFetchFailed,
    SegmentWriteFailed,
    StreamEnded { now_ms: nat },
    DanmuReceived { sender: Seq<char>, text: Seq<char>, timestamp_ms: nat, raw: Seq<char> },
    MetadataFetched { room_info: RoomInfoV, user_info: UserInfoV },
    StopRequested,
}

impl View for CaptureEvent {
    type V = CaptureEventV;

    open spec fn view(&self) -> CaptureEventV {
        match self {
            CaptureEvent::LiveStatus { live } => CaptureEventV::LiveStatus { live: *live },
            CaptureEvent::StreamResolved { now_ms } => CaptureEventV::StreamResolved {
                now_ms: *now_ms as nat,
            },
            CaptureEvent::StreamResolveFailed => CaptureEventV::StreamResolveFailed,
            CaptureEvent::SegmentFetched { sequence, byte_length, timestamp_ms, duration_ms, path } =>
                CaptureEventV::SegmentFetched {
                    sequence: *sequence as nat,
                    byte_length: *byte_length as nat,
                    timestamp_ms: *timestamp_ms as nat,
                    duration_ms: *duration_ms as nat,
                    path: path@,
                },
            CaptureEvent::SegmentFetchFailed => CaptureEventV::SegmentFetchFailed,
            CaptureEvent::SegmentWriteFailed => CaptureEventV::SegmentWriteFailed,
            CaptureEvent::StreamEnded { now_ms } => CaptureEventV::StreamEnded {
                now_ms: *now_ms as nat,
            },
            CaptureEvent::DanmuReceived { sender, text, timestamp_ms, raw } =>
                CaptureEventV::DanmuReceived {
                    sender: sender@,
                    text: text@,
                    timestamp_ms: *timestamp_ms as nat,
                    raw: raw@,
                },
            CaptureEvent::MetadataFetched { room_info, user_info } =>
                CaptureEventV::MetadataFetched { room_info: room_info@, user_info: user_info@ },
            CaptureEvent::StopRequested => CaptureEventV::StopRequested,
        }
    }
}

/// What the capture loop must do next, as decided by the state machine.
#[derive(Debug, Clone, Copy, PartialEq, Eq, Structural)]
pub enum CaptureAction {
    /// Await the next live-status poll or external event.
    Wait,
    /// Negotiate the stream URL with the platform adapter.
    ResolveStream,
    /// Fetch the next segment after sleeping `backoff_ms`.
    FetchSegment { backoff_ms: u64 },
    /// Signal the segment and chat subtasks to finish, then call `stop`.
    StopSubtasks,
}

/// The backoff before fetch attempt number `retry` (exponential, capped).
pub open spec fn spec_backoff(retry: nat) -> u64 {
    if retry == 0 {
        0
    } else if retry == 1 {
        1000
    } else if retry == 2 {
        2000
    } else if retry == 3 {
        4000
    } else {
        8000
    }
}

/// The end time recorded when a session dies on a write or retry-exhaust
/// failure: the last successfully written segment's timestamp, or the
/// session start when nothing was written.
pub open spec fn failure_end(s: LiveSessionV) -> nat {
    if s.segments.len() > 0 {
        s.segments.last().timestamp_ms
    } else {
        s.start_ts_ms
    }
}

/// The session model after `close`.
pub open spec fn close_model(s: LiveSessionV, t: nat) -> LiveSessionV {
    LiveSessionV {
        end_ts_ms: Some(
            if t >= s.start_ts_ms {
                t
            } else {
                s.start_ts_ms
            },
        ),
        ..s
    }
}

/// The session model after a successful segment append.
pub open spec fn append_segment_model(
    s: LiveSessionV,
    sequence: nat,
    byte_length: nat,
    timestamp_ms: nat,
    duration_ms: nat,
    path: Seq<char>,
) -> LiveSessionV {
    LiveSessionV {
        segments: s.segments.push(
            SegmentV {
                sequence,
                byte_length,
                timestamp_ms,
                duration_ms,
                path,
                discontinuity: sequence != expected_sequence(s.segments),
            },
        ),
        ..s
    }
}

/// Whether a segment append succeeds: the sequence number does not step
/// backwards and the total duration still fits the counter.
pub open spec fn segment_append_ok(s: LiveSessionV, sequence: nat, duration_ms: nat) -> bool {
    &&& sequence >= expected_sequence(s.segments)
    &&& s.total_duration() + duration_ms <= u64::MAX
}

/// The session model after a chat append.
pub open spec fn append_danmu_model(
    s: LiveSessionV,
    sender: Seq<char>,
    text: Seq<char>,
    timestamp_ms: nat,
    raw: Seq<char>,
) -> LiveSessionV {
    LiveSessionV {
        danmu: s.danmu.push(
            DanmuEntryV {
                sender,
                text,
                timestamp_ms: arrival_ts(s.danmu, timestamp_ms),
                raw,
            },
        ),
        ..s
    }
}

/// The live id assigned to a session opened at wall clock `now`: derived
/// from the timestamp, bumped past the previous id so ids stay unique.
pub open spec fn next_live_id(ss: Seq<LiveSessionV>, now: nat) -> nat {
    if ss.len() > 0 && ss.last().live_id >= now {
        ss.last().live_id + 1
    } else {
        now
    }
}

/// A fresh, empty session model.
pub open spec fn new_session_model(live_id: nat, room_id: nat, start: nat) -> LiveSessionV {
    LiveSessionV {
        live_id,
        room_id,
        start_ts_ms: start,
        end_ts_ms: None,
        segments: Seq::<SegmentV>::empty(),
        danmu: Seq::<DanmuEntryV>::empty(),
    }
}

/// The archive half of a recorder's well-formedness: every session is
/// well-formed and belongs to room `room`, only the last session can be
/// open, and live ids strictly increase.
pub open spec fn sessions_wf(ss: Seq<LiveSessionV>, room: nat) -> bool {
    &&& forall|i: int|
        #![trigger ss[i]]
        0 <= i < ss.len() ==> {
            &&& ss[i].wf()
            &&& ss[i].room_id == room
            &&& (i < ss.len() - 1 ==> ss[i].closed())
        }
    &&& forall|i: int, j: int|
        #![trigger ss[i].live_id, ss[j].live_id]
        0 <= i < j < ss.len() ==> ss[i].live_id < ss[j].live_id
}

/// Replacing the last session preserves the archive invariant when the
/// replacement is well-formed and keeps its room and live id.
pub proof fn lemma_sessions_wf_update_last(ss: Seq<LiveSessionV>, room: nat, s: LiveSessionV)
    requires
        sessions_wf(ss, room),
        ss.len() > 0,
        s.wf(),
        s.room_id == room,
        s.live_id == ss.last().live_id,
    ensures
        sessions_wf(ss.update(ss.len() - 1, s), room),
{
    let ss2 = ss.update(ss.len() - 1, s);
    assert(forall|i: int| 0 <= i < ss.len() - 1 ==> ss2[i] == ss[i]);
    assert(ss2.last() == s);
}

/// Opening a fresh well-formed session after the last one closed
/// preserves the archive invariant.
#[verifier::rlimit(60)]
pub proof fn lemma_sessions_wf_push(ss: Seq<LiveSessionV>, room: nat, s: LiveSessionV)
    requires
        sessions_wf(ss, room),
        ss.len() > 0 ==> ss.last().closed(),
        s.wf(),
        s.room_id == room,
        ss.len() > 0 ==> s.live_id > ss.last().live_id,
    ensures
        sessions_wf(ss.push(s), room),
{
    let ss2 = ss.push(s);
    assert(forall|i: int| 0 <= i < ss.len() ==> ss2[i] == ss[i]);
    assert(ss2.last() == s);
    assert forall|i: int, j: int|
        0 <= i < j < ss2.len() implies ss2[i].live_id < ss2[j].live_id by {
        if j < ss.len() {
            assert(ss2[i] == ss[i]);
            assert(ss2[j] == ss[j]);
        } else {
            assert(ss2[j] == s);
            assert(ss2[i] == ss[i]);
            if i < ss.len() - 1 {
                assert(ss[i].live_id < ss[ss.len() - 1].live_id);
            }
        }
    }
}

/// Mathematical model of a [`Recorder`].
pub ghost struct RecorderV {
    pub platform: PlatformType,
    pub room_id: nat,
    pub state: RecorderState,
    pub sessions: Seq<LiveSessionV>,
    pub retry_count: nat,
    pub live_status: bool,
    pub room_info: RoomInfoV,
    pub user_info: UserInfoV,
}

impl RecorderV {
    /// The last session exists and is still accepting appends.
    pub open spec fn has_open(self) -> bool {
        self.sessions.len() > 0 && !self.sessions.last().closed()
    }

    /// Well-formedness: every session is well-formed and belongs to this
    /// room, only the last session can be open, live ids strictly
    /// increase, a session is open exactly while recording (or possibly
    /// while stopping), and the retry counter stays under its budget.
    pub open spec fn wf(self) -> bool {
        &&& sessions_wf(self.sessions, self.room_id)
        &&& (self.state == RecorderState::Recording ==> self.has_open())
        &&& (self.state != RecorderState::Recording && self.state != RecorderState::Stopping
            ==> !self.has_open())
        &&& self.retry_count < RETRY_LIMIT
    }

    /// The action that keeps the current state's work going.
    pub open spec fn continue_action(self) -> CaptureAction {
        match self.state {
            RecorderState::Idle => CaptureAction::Wait,
            RecorderState::Connecting => CaptureAction::ResolveStream,
            RecorderState::Recording => CaptureAction::FetchSegment {
                backoff_ms: spec_backoff(self.retry_count),
            },
            RecorderState::Stopping => CaptureAction::StopSubtasks,
            RecorderState::Stopped => CaptureAction::Wait,
        }
    }

    /// This recorder with its last session replaced.
    pub open spec fn with_last_session(self, s: LiveSessionV) -> Self {
        RecorderV { sessions: self.sessions.update(self.sessions.len() - 1, s), ..self }
    }

    /// The capture state machine: one transition per observed event.
    ///
    /// Returns the successor model and the action the loop must perform.
    pub open spec fn step(self, ev: CaptureEventV) -> (RecorderV, CaptureAction) {
        if self.state == RecorderState::Stopped {
            (self, CaptureAction::Wait)
        } else {
            match ev {
                CaptureEventV::StopRequested => (
                    RecorderV { state: RecorderState::Stopping, ..self },
                    CaptureAction::StopSubtasks,
                ),
                CaptureEventV::LiveStatus { live } => self.step_live_status(live),
                CaptureEventV::StreamResolved { now_ms } => self.step_stream_resolved(now_ms),
                CaptureEventV::StreamResolveFailed => {
                    if self.state == RecorderState::Connecting {
                        (RecorderV { state: RecorderState::Idle, ..self }, CaptureAction::Wait)
                    } else {
                        (self, self.continue_action())
                    }
                },
                CaptureEventV::SegmentFetched {
                    sequence,
                    byte_length,
                    timestamp_ms,
                    duration_ms,
                    path,
                } => self.step_segment_fetched(sequence, byte_length, timestamp_ms, duration_ms, path),
                CaptureEventV::SegmentFetchFailed => self.step_fetch_failed(),
                CaptureEventV::SegmentWriteFailed => self.step_session_fatal_at(
                    if self.has_open() {
                        failure_end(self.sessions.last())
                    } else {
                        0
                    },
                ),
                CaptureEventV::StreamEnded { now_ms } => self.step_session_fatal_at(now_ms),
                CaptureEventV::DanmuReceived { sender, text, timestamp_ms, raw } => {
                    if (self.state == RecorderState::Recording
                        || self.state == RecorderState::Stopping) && self.has_open() {
                        (
                            self.with_last_session(
                                append_danmu_model(
                                    self.sessions.last(),
                                    sender,
                                    text,
                                    timestamp_ms,
                                    raw,
                                ),
                            ),
                            self.continue_action(),
                        )
                    } else {
                        (self, self.continue_action())
                    }
                },
                CaptureEventV::MetadataFetched { room_info, user_info } => (
                    RecorderV { room_info, user_info, ..self },
                    self.continue_action(),
                ),
            }
        }
    }

    /// Live-status transitions: Idle to Connecting on live, Recording to
    /// Idle (closing the session) on not-live.
    pub open spec fn step_live_status(self, live: bool) -> (RecorderV, CaptureAction) {
        match self.state {
            RecorderState::Idle => {
                if live {
                    (
                        RecorderV {
                            live_status: true,
                            state: RecorderState::Connecting,
                            ..self
                        },
                        CaptureAction::ResolveStream,
                    )
                } else {
                    (RecorderV { live_status: false, ..self }, CaptureAction::Wait)
                }
            },
            RecorderState::Connecting => {
                if live {
                    (RecorderV { live_status: true, ..self }, CaptureAction::ResolveStream)
                } else {
                    (
                        RecorderV { live_status: false, state: RecorderState::Idle, ..self },
                        CaptureAction::Wait,
                    )
                }
            },
            RecorderState::Recording => {
                if live {
                    (RecorderV { live_status: true, ..self }, self.continue_action())
                } else {
                    (
                        RecorderV {
                            live_status: false,
                            state: RecorderState::Idle,
                            retry_count: 0,
                            ..self.with_last_session(
                                close_model(
                                    self.sessions.last(),
                                    failure_end(self.sessions.last()),
                                ),
                            )
                        },
                        CaptureAction::Wait,
                    )
                }
            },
            _ => (RecorderV { live_status: live, ..self }, self.continue_action()),
        }
    }

    /// Stream negotiation succeeded: open a fresh session and start
    /// fetching, unless the live-id space is exhausted.
    pub open spec fn step_stream_resolved(self, now_ms: nat) -> (RecorderV, CaptureAction) {
        if self.state == RecorderState::Connecting {
            if self.sessions.len() > 0 && self.sessions.last().live_id >= u64::MAX {
                (RecorderV { state: RecorderState::Idle, ..self }, CaptureAction::Wait)
            } else {
                (
                    RecorderV {
                        state: RecorderState::Recording,
                        retry_count: 0,
                        sessions: self.sessions.push(
                            new_session_model(
                                next_live_id(self.sessions, now_ms),
                                self.room_id,
                                now_ms,
                            ),
                        ),
                        ..self
                    },
                    CaptureAction::FetchSegment { backoff_ms: 0 },
                )
            }
        } else {
            (self, self.continue_action())
        }
    }

    /// A fetched segment is appended while recording or while finishing
    /// in-flight work during shutdown; a journal refusal is fatal for the
    /// session only.
    pub open spec fn step_segment_fetched(
        self,
        sequence: nat,
        byte_length: nat,
        timestamp_ms: nat,
        duration_ms: nat,
        path: Seq<char>,
    ) -> (RecorderV, CaptureAction) {
        if (self.state == RecorderState::Recording || self.state == RecorderState::Stopping)
            && self.has_open() {
            let cur = self.sessions.last();
            if segment_append_ok(cur, sequence, duration_ms) {
                let next = RecorderV {
                    retry_count: 0,
                    ..self.with_last_session(
                        append_segment_model(
                            cur,
                            sequence,
                            byte_length,
                            timestamp_ms,
                            duration_ms,
                            path,
                        ),
                    )
                };
                (next, next.continue_action())
            } else {
                self.close_open_session(failure_end(cur))
            }
        } else {
            (self, self.continue_action())
        }
    }

    /// A transient fetch failure: retry with backoff while the budget
    /// lasts, then give the session up and fall back to polling.
    pub open spec fn step_fetch_failed(self) -> (RecorderV, CaptureAction) {
        if self.state == RecorderState::Recording {
            if self.retry_count + 1 < RETRY_LIMIT {
                (
                    RecorderV { retry_count: self.retry_count + 1, ..self },
                    CaptureAction::FetchSegment {
                        backoff_ms: spec_backoff(self.retry_count + 1),
                    },
                )
            } else {
                self.close_open_session(failure_end(self.sessions.last()))
            }
        } else {
            (self, self.continue_action())
        }
    }

    /// Ends the current session at time `t` if one is open: Recording
    /// falls back to Idle, Stopping stays Stopping.
    pub open spec fn step_session_fatal_at(self, t: nat) -> (RecorderV, CaptureAction) {
        if (self.state == RecorderState::Recording || self.state == RecorderState::Stopping)
            && self.has_open() {
            self.close_open_session(t)
        } else {
            (self, self.continue_action())
        }
    }

    /// Closes the open last session at time `t` and leaves Recording.
    pub open spec fn close_open_session(self, t: nat) -> (RecorderV, CaptureAction) {
        let closed = self.with_last_session(close_model(self.sessions.last(), t));
        if self.state == RecorderState::Stopping {
            (
                RecorderV { retry_count: 0, ..closed },
                CaptureAction::StopSubtasks,
            )
        } else {
            (
                RecorderV { state: RecorderState::Idle, retry_count: 0, ..closed },
                CaptureAction::Wait,
            )
        }
    }

    /// The model after `stop`: terminal state, open session closed at `t`.
    pub open spec fn stop_model(self, t: nat) -> RecorderV {
        RecorderV {
            state: RecorderState::Stopped,
            retry_count: 0,
            sessions: if self.has_open() {
                self.sessions.update(
                    self.sessions.len() - 1,
                    close_model(self.sessions.last(), t),
                )
            } else {
                self.sessions
            },
            ..self
        }
    }
}

/// The cumulative recorded duration of the first `i` sessions, in
/// milliseconds, saturating at the counter's maximum.
pub open spec fn spec_total_length(ss: Seq<LiveSessionV>, i: int) -> nat
    decreases i,
{
    if i <= 0 {
        0
    } else {
        let t = spec_total_length(ss, i - 1) + ss[i - 1].total_duration();
        if t > u64::MAX {
            u64::MAX as nat
        } else {
            t
        }
    }
}

/// What a reported snapshot promises about the recorder it describes.
pub open spec fn info_matches(r: RecorderInfo, v: RecorderV) -> bool {
    &&& r.room_id as nat == v.room_id
    &&& r.platform == v.platform
    &&& r.live_status == v.live_status
    &&& r.room_info@ == v.room_info
    &&& r.user_info@ == v.user_info
    &&& r.total_length_ms as nat == spec_total_length(v.sessions, v.sessions.len() as int)
    &&& (if v.sessions.len() > 0 {
        r.current_live_id matches Some(id) && id as nat == v.sessions.last().live_id
    } else {
        r.current_live_id is None
    })
}

/// One recorder bound to one room: the capture state machine together
/// with the archive of this room's live sessions.
pub struct Recorder {
    pub platform: PlatformType,
    pub room_id: u64,
    pub state: RecorderState,
    pub sessions: Vec<LiveSession>,
    pub retry_count: u64,
    pub live_status: bool,
    pub room_info: RoomInfo,
    pub user_info: UserInfo,
}

impl View for Recorder {
    type V = RecorderV;

    open spec fn view(&self) -> RecorderV {
        RecorderV {
            platform: self.platform,
            room_id: self.room_id as nat,
            state: self.state,
            sessions: self.sessions@.map_values(|s: LiveSession| s@),
            retry_count: self.retry_count as nat,
            live_status: self.live_status,
            room_info: self.room_info@,
            user_info: self.user_info@,
        }
    }
}

/// The backoff before fetch attempt number `retry`.
pub fn backoff_ms(retry: u64) -> (r: u64)
    ensures
        r == spec_backoff(retry as nat),
{
    if retry == 0 {
        0
    } else if retry == 1 {
        1000
    } else if retry == 2 {
        2000
    } else if retry == 3 {
        4000
    } else {
        8000
    }
}

impl Recorder {
    /// The exec-level invariant: the model is well-formed and every
    /// session's cached total matches its model.
    pub open spec fn inv(self) -> bool {
        &&& self@.wf()
        &&& forall|i: int|
            #![trigger self.sessions@[i]]
            0 <= i < self.sessions@.len() ==> self.sessions@[i].inv()
    }

    /// Registers a recorder for one room, idle until the room goes live.
    pub fn new(platform: PlatformType, room_id: u64, room_info: RoomInfo, user_info: UserInfo) -> (r: Self)
        ensures
            r.inv(),
            r@ == (RecorderV {
                platform,
                room_id: room_id as nat,
                state: RecorderState::Idle,
                sessions: Seq::<LiveSessionV>::empty(),
                retry_count: 0,
                live_status: false,
                room_info: room_info@,
                user_info: user_info@,
            }),
    {
        let r = Recorder {
            platform,
            room_id,
            state: RecorderState::Idle,
            sessions: Vec::new(),
            retry_count: 0,
            live_status: false,
            room_info,
            user_info,
        };
        proof {
            assert(r@.sessions =~= Seq::<LiveSessionV>::empty());
        }
        r
    }

    /// Whether the last session exists and still accepts appends.
    fn has_open_exec(&self) -> (r: bool)
        ensures
            r == self@.has_open(),
    {
        if self.sessions.len() == 0 {
            return false;
        }
        let last = self.sessions.len() - 1;
        proof {
            assert(self@.sessions.last() == self.sessions@[last as int]@);
        }
        !self.sessions[last].end_ts_ms.is_some()
    }

    /// The action that keeps the current state's work going.
    fn continue_action_exec(&self) -> (r: CaptureAction)
        ensures
            r == self@.continue_action(),
    {
        match self.state {
            RecorderState::Idle => CaptureAction::Wait,
            RecorderState::Connecting => CaptureAction::ResolveStream,
            RecorderState::Recording => CaptureAction::FetchSegment {
                backoff_ms: backoff_ms(self.retry_count),
            },
            RecorderState::Stopping => CaptureAction::StopSubtasks,
            RecorderState::Stopped => CaptureAction::Wait,
        }
    }

    /// The wall-clock end used when the open session dies on a failure.
    fn failure_end_exec(&self) -> (r: u64)
        requires
            self@.has_open(),
        ensures
            r as nat == failure_end(self@.sessions.last()),
    {
        let last = self.sessions.len() - 1;
        proof {
            assert(self@.sessions.last() == self.sessions@[last as int]@);
        }
        let s = &self.sessions[last];
        if s.segments.len() > 0 {
            proof {
                assert(s@.segments.last() == s.segments@[s.segments@.len() - 1]@);
            }
            s.segments[s.segments.len() - 1].timestamp_ms
        } else {
            s.start_ts_ms
        }
    }

    /// Closes the open last session at `t` and leaves Recording.
    fn close_last(&mut self, t: u64) -> (r: CaptureAction)
        requires
            old(self).inv(),
            old(self)@.has_open(),
            old(self)@.state == RecorderState::Recording
                || old(self)@.state == RecorderState::Stopping,
        ensures
            final(self).inv(),
            (final(self)@, r) == old(self)@.close_open_session(t as nat),
    {
        let ghost oldv = self@;
        let mut s = self.sessions.pop().unwrap();
        proof {
            assert(s@ == oldv.sessions.last());
            assert(s.inv());
        }
        s.close(t);
        let ghost sv = s@;
        self.sessions.push(s);
        proof {
            assert(sv == close_model(oldv.sessions.last(), t as nat));
            assert(self@.sessions =~= oldv.sessions.update(oldv.sessions.len() - 1, sv));
            lemma_sessions_wf_update_last(oldv.sessions, oldv.room_id, sv);
            assert(forall|i: int|
                0 <= i < old(self).sessions@.len() - 1
                    ==> self.sessions@[i] == old(self).sessions@[i]);
        }
        if self.state == RecorderState::Stopping {
            self.retry_count = 0;
            CaptureAction::StopSubtasks
        } else {
            self.state = RecorderState::Idle;
            self.retry_count = 0;
            CaptureAction::Wait
        }
    }

    /// Applies a live-status observation.
    fn handle_live_status(&mut self, live: bool) -> (r: CaptureAction)
        requires
            old(self).inv(),
        ensures
            final(self).inv(),
            (final(self)@, r) == old(self)@.step_live_status(live),
    {
        match self.state {
            RecorderState::Idle => {
                self.live_status = live;
                if live {
                    self.state = RecorderState::Connecting;
                    CaptureAction::ResolveStream
                } else {
                    CaptureAction::Wait
                }
            },
            RecorderState::Connecting => {
                self.live_status = live;
                if live {
                    CaptureAction::ResolveStream
                } else {
                    self.state = RecorderState::Idle;
                    CaptureAction::Wait
                }
            },
            RecorderState::Recording => {
                if live {
                    self.live_status = true;
                    self.continue_action_exec()
                } else {
                    self.live_status = false;
                    let t = self.failure_end_exec();
                    self.close_last(t)
                }
            },
            _ => {
                self.live_status = live;
                self.continue_action_exec()
            },
        }
    }

    /// Applies a successful stream negotiation: opens a fresh session.
    fn handle_stream_resolved(&mut self, now_ms: u64) -> (r: CaptureAction)
        requires
            old(self).inv(),
        ensures
            final(self).inv(),
            (final(self)@, r) == old(self)@.step_stream_resolved(now_ms as nat),
    {
        if !(self.state == RecorderState::Connecting) {
            return self.continue_action_exec();
        }
        let ghost oldv = self@;
        let len = self.sessions.len();
        proof {
            if len > 0 {
                assert(self@.sessions.last() == self.sessions@[len - 1]@);
            }
        }
        if len > 0 && self.sessions[len - 1].live_id == u64::MAX {
            self.state = RecorderState::Idle;
            return CaptureAction::Wait;
        }
        let id = if len > 0 {
            let lid = self.sessions[len - 1].live_id;
            if lid >= now_ms {
                lid + 1
            } else {
                now_ms
            }
        } else {
            now_ms
        };
        let s = LiveSession::new(id, self.room_id, now_ms);
        let ghost sv = s@;
        self.sessions.push(s);
        self.state = RecorderState::Recording;
        self.retry_count = 0;
        proof {
            assert(sv == new_session_model(next_live_id(oldv.sessions, now_ms as nat), oldv.room_id, now_ms as nat));
            assert(self@.sessions =~= oldv.sessions.push(sv));
            lemma_sessions_wf_push(oldv.sessions, oldv.room_id, sv);
            assert(forall|i: int|
                0 <= i < old(self).sessions@.len()
                    ==> self.sessions@[i] == old(self).sessions@[i]);
        }
        CaptureAction::FetchSegment { backoff_ms: 0 }
    }

    /// Applies a fetched segment: appends it, or ends the session on a
    /// journal refusal.
    #[verifier::rlimit(60)]
    fn handle_segment_fetched(
        &mut self,
        sequence: u64,
        byte_length: u64,
        timestamp_ms: u64,
        duration_ms: u64,
        path: String,
    ) -> (r: CaptureAction)
        requires
            old(self).inv(),
        ensures
            final(self).inv(),
            (final(self)@, r) == old(self)@.step_segment_fetched(
                sequence as nat,
                byte_length as nat,
                timestamp_ms as nat,
                duration_ms as nat,
                path@,
            ),
    {
        let active = (self.state == RecorderState::Recording
            || self.state == RecorderState::Stopping) && self.has_open_exec();
        if !active {
            return self.continue_action_exec();
        }
        let ghost oldv = self@;
        let mut s = self.sessions.pop().unwrap();
        proof {
            assert(s@ == oldv.sessions.last());
            assert(s.inv());
        }
        match s.append_segment(sequence, byte_length, timestamp_ms, duration_ms, path) {
            Ok(()) => {
                let ghost sv = s@;
                self.sessions.push(s);
                self.retry_count = 0;
                proof {
                    assert(self@.sessions =~= oldv.sessions.update(
                        oldv.sessions.len() - 1,
                        sv,
                    ));
                    lemma_sessions_wf_update_last(oldv.sessions, oldv.room_id, sv);
                    assert(forall|i: int|
                        0 <= i < old(self).sessions@.len() - 1
                            ==> self.sessions@[i] == old(self).sessions@[i]);
                }
                self.continue_action_exec()
            },
            Err(_) => {
                // The journal refused the segment: fatal for this session only.
                let end = if s.segments.len() > 0 {
                    proof {
                        assert(s@.segments.last() == s.segments@[s.segments@.len() - 1]@);
                    }
                    s.segments[s.segments.len() - 1].timestamp_ms
                } else {
                    s.start_ts_ms
                };
                let ghost oldsv = s@;
                s.close(end);
                let ghost sv = s@;
                self.sessions.push(s);
                proof {
                    assert(sv == close_model(oldv.sessions.last(), failure_end(oldv.sessions.last())));
                    assert(self@.sessions =~= oldv.sessions.update(
                        oldv.sessions.len() - 1,
                        sv,
                    ));
                    lemma_sessions_wf_update_last(oldv.sessions, oldv.room_id, sv);
                    assert(forall|i: int|
                        0 <= i < old(self).sessions@.len() - 1
                            ==> self.sessions@[i] == old(self).sessions@[i]);
                }
                if self.state == RecorderState::Stopping {
                    self.retry_count = 0;
                    CaptureAction::StopSubtasks
                } else {
                    self.state = RecorderState::Idle;
                    self.retry_count = 0;
                    CaptureAction::Wait
                }
            },
        }
    }

    /// Applies a transient fetch failure: retry with backoff while the
    /// budget lasts, then give the session up.
    fn handle_fetch_failed(&mut self) -> (r: CaptureAction)
        requires
            old(self).inv(),
        ensures
            final(self).inv(),
            (final(self)@, r) == old(self)@.step_fetch_failed(),
    {
        if !(self.state == RecorderState::Recording) {
            return self.continue_action_exec();
        }
        if self.retry_count + 1 < RETRY_LIMIT {
            self.retry_count = self.retry_count + 1;
            CaptureAction::FetchSegment { backoff_ms: backoff_ms(self.retry_count) }
        } else {
            let t = self.failure_end_exec();
            self.close_last(t)
        }
    }

    /// Ends the current session at time `t` if one is open.
    fn handle_session_fatal(&mut self, t: u64) -> (r: CaptureAction)
        requires
            old(self).inv(),
        ensures
            final(self).inv(),
            (final(self)@, r) == old(self)@.step_session_fatal_at(t as nat),
    {
        let active = (self.state == RecorderState::Recording
            || self.state == RecorderState::Stopping) && self.has_open_exec();
        if active {
            self.close_last(t)
        } else {
            self.continue_action_exec()
        }
    }

    /// Applies an arriving chat message: journals it while a session is
    /// open, drops it otherwise.
    fn handle_danmu(
        &mut self,
        sender: String,
        text: String,
        timestamp_ms: u64,
        raw: String,
    ) -> (r: CaptureAction)
        requires
            old(self).inv(),
            old(self)@.state != RecorderState::Stopped,
        ensures
            final(self).inv(),
            (final(self)@, r) == old(self)@.step(
                CaptureEventV::DanmuReceived {
                    sender: sender@,
                    text: text@,
                    timestamp_ms: timestamp_ms as nat,
                    raw: raw@,
                },
            ),
    {
        let active = (self.state == RecorderState::Recording
            || self.state == RecorderState::Stopping) && self.has_open_exec();
        if !active {
            return self.continue_action_exec();
        }
        let ghost oldv = self@;
        let mut s = self.sessions.pop().unwrap();
        proof {
            assert(s@ == oldv.sessions.last());
            assert(s.inv());
        }
        s.append_danmu(sender, text, timestamp_ms, raw);
        let ghost sv = s@;
        self.sessions.push(s);
        proof {
            assert(self@.sessions =~= oldv.sessions.update(oldv.sessions.len() - 1, sv));
            lemma_sessions_wf_update_last(oldv.sessions, oldv.room_id, sv);
            assert(forall|i: int|
                0 <= i < old(self).sessions@.len() - 1
                    ==> self.sessions@[i] == old(self).sessions@[i]);
        }
        self.continue_action_exec()
    }

    /// Feeds one observed event to the state machine and returns the
    /// action the capture loop must perform next.
    pub fn step(&mut self, ev: CaptureEvent) -> (r: CaptureAction)
        requires
            old(self).inv(),
        ensures
            final(self).inv(),
            (final(self)@, r) == old(self)@.step(ev@),
    {
        if self.state == RecorderState::Stopped {
            return CaptureAction::Wait;
        }
        match ev {
            CaptureEvent::LiveStatus { live } => self.handle_live_status(live),
            CaptureEvent::StreamResolved { now_ms } => self.handle_stream_resolved(now_ms),
            CaptureEvent::StreamResolveFailed => {
                if self.state == RecorderState::Connecting {
                    self.state = RecorderState::Idle;
                    CaptureAction::Wait
                } else {
                    self.continue_action_exec()
                }
            },
            CaptureEvent::SegmentFetched {
                sequence,
                byte_length,
                timestamp_ms,
                duration_ms,
                path,
            } => self.handle_segment_fetched(sequence, byte_length, timestamp_ms, duration_ms, path),
            CaptureEvent::SegmentFetchFailed => self.handle_fetch_failed(),
            CaptureEvent::SegmentWriteFailed => {
                let t = if self.has_open_exec() {
                    self.failure_end_exec()
                } else {
                    0
                };
                self.handle_session_fatal(t)
            },
            CaptureEvent::StreamEnded { now_ms } => self.handle_session_fatal(now_ms),
            CaptureEvent::DanmuReceived { sender, text, timestamp_ms, raw } => self.handle_danmu(
                sender,
                text,
                timestamp_ms,
                raw,
            ),
            CaptureEvent::MetadataFetched { room_info, user_info } => {
                self.room_info = room_info;
                self.user_info = user_info;
                self.continue_action_exec()
            },
            CaptureEvent::StopRequested => {
                self.state = RecorderState::Stopping;
                CaptureAction::StopSubtasks
            },
        }
    }

    /// Graceful shutdown: closes the open session (if any) at `now_ms`
    /// and enters the terminal state. Once this returns, no further
    /// segment or chat entry can be appended to any of this recorder's
    /// sessions.
    pub fn stop(&mut self, now_ms: u64)
        requires
            old(self).inv(),
        ensures
            final(self).inv(),
            final(self)@ == old(self)@.stop_model(now_ms as nat),
    {
        let ghost oldv = self@;
        if self.has_open_exec() {
            let mut s = self.sessions.pop().unwrap();
            proof {
                assert(s@ == oldv.sessions.last());
                assert(s.inv());
            }
            s.close(now_ms);
            let ghost sv = s@;
            self.sessions.push(s);
            proof {
                assert(self@.sessions =~= oldv.sessions.update(oldv.sessions.len() - 1, sv));
                lemma_sessions_wf_update_last(oldv.sessions, oldv.room_id, sv);
                assert(forall|i: int|
                    0 <= i < old(self).sessions@.len() - 1
                        ==> self.sessions@[i] == old(self).sessions@[i]);
            }
        }
        self.state = RecorderState::Stopped;
        self.retry_count = 0;
    }

    /// The cached, non-blocking snapshot of this recorder.
    #[verifier::rlimit(60)]
    pub fn info(&self) -> (r: RecorderInfo)
        requires
            self.inv(),
        ensures
            info_matches(r, self@),
    {
        let mut total: u64 = 0;
        let mut i: usize = 0;
        while i < self.sessions.len()
            invariant
                self.inv(),
                i <= self.sessions.len(),
                total as nat == spec_total_length(self@.sessions, i as int),
            decreases self.sessions.len() - i,
        {
            proof {
                assert(self.sessions@[i as int].inv());
                assert(self@.sessions[i as int] == self.sessions@[i as int]@);
            }
            total = match total.checked_add(self.sessions[i].total_duration_ms) {
                Some(t) => t,
                None => u64::MAX,
            };
            i = i + 1;
        }
        let current_live_id = if self.sessions.len() > 0 {
            let last = self.sessions.len() - 1;
            proof {
                assert(self@.sessions.last() == self.sessions@[last as int]@);
            }
            Some(self.sessions[last].live_id)
        } else {
            None
        };
        RecorderInfo {
            room_id: self.room_id,
            room_info: self.room_info.clone(),
            user_info: self.user_info.clone(),
            total_length_ms: total,
            current_live_id,
            live_status: self.live_status,
            platform: self.platform,
        }
    }

    /// The index of the session with the given live id, if any.
    fn find_session(&self, live_id: u64) -> (r: Option<usize>)
        ensures
            match r {
                Some(i) => i < self.sessions@.len() && self@.sessions[i as int].live_id
                    == live_id as nat,
                None => forall|i: int|
                    0 <= i < self@.sessions.len() ==> self@.sessions[i].live_id != live_id as nat,
            },
    {
        let mut i: usize = 0;
        while i < self.sessions.len()
            invariant
                i <= self.sessions.len(),
                forall|j: int| 0 <= j < i ==> self@.sessions[j].live_id != live_id as nat,
            decreases self.sessions.len() - i,
        {
            proof {
                assert(self@.sessions[i as int] == self.sessions@[i as int]@);
            }
            if self.sessions[i].live_id == live_id {
                return Some(i);
            }
            i = i + 1;
        }
        None
    }

    /// All chat entries of the named session in arrival order, or
    /// `SessionNotFound` exactly when no session carries that live id.
    pub fn comments(&self, live_id: u64) -> (r: Result<Vec<DanmuEntry>, RecorderError>)
        requires
            self.inv(),
        ensures
            (r == Result::<Vec<DanmuEntry>, RecorderError>::Err(RecorderError::SessionNotFound))
                <==> (forall|i: int|
                0 <= i < self@.sessions.len() ==> self@.sessions[i].live_id != live_id as nat),
            forall|i: int|
                0 <= i < self@.sessions.len() && self@.sessions[i].live_id == live_id as nat
                    ==> (r matches Ok(v) && v@.map_values(|d: DanmuEntry| d@)
                    == self@.sessions[i].danmu),
    {
        match self.find_session(live_id) {
            Some(i) => {
                proof {
                    assert(self@.sessions[i as int] == self.sessions@[i as int]@);
                    assert forall|j: int|
                        0 <= j < self@.sessions.len()
                            && self@.sessions[j].live_id == live_id as nat implies j == i as int by {
                        if j != i as int {
                            if j < i as int {
                                assert(self@.sessions[j].live_id < self@.sessions[i as int].live_id);
                            } else {
                                assert(self@.sessions[i as int].live_id < self@.sessions[j].live_id);
                            }
                        }
                    }
                }
                Ok(self.sessions[i].comments())
            },
            None => Err(RecorderError::SessionNotFound),
        }
    }

    /// The playlist text of the named session; empty when no session
    /// carries that live id.
    pub fn m3u8_content(&self, live_id: u64) -> (r: String)
        requires
            self.inv(),
        ensures
            (forall|i: int|
                0 <= i < self@.sessions.len() ==> self@.sessions[i].live_id != live_id as nat)
                ==> r@ == Seq::<char>::empty(),
            forall|i: int|
                0 <= i < self@.sessions.len() && self@.sessions[i].live_id == live_id as nat
                    ==> r@ == crate::journal::spec_playlist(self@.sessions[i]),
    {
        match self.find_session(live_id) {
            Some(i) => {
                proof {
                    assert(self@.sessions[i as int] == self.sessions@[i as int]@);
                    assert forall|j: int|
                        0 <= j < self@.sessions.len()
                            && self@.sessions[j].live_id == live_id as nat implies j == i as int by {
                        if j != i as int {
                            if j < i as int {
                                assert(self@.sessions[j].live_id < self@.sessions[i as int].live_id);
                            } else {
                                assert(self@.sessions[i as int].live_id < self@.sessions[j].live_id);
                            }
                        }
                    }
                }
                self.sessions[i].build_playlist()
            },
            None => {
                let r = String::new();
                r
            },
        }
    }

    /// Plans the extraction of `[start_ms, end_ms)` of the named session
    /// as a standalone clip written to `output_path`;
    /// `SessionNotFound` exactly when no session carries that live id.
    pub fn clip_range(
        &self,
        live_id: u64,
        start_ms: u64,
        end_ms: u64,
        output_path: &str,
        output_exists: bool,
    ) -> (r: Result<crate::clip::ClipPlan, RecorderError>)
        requires
            self.inv(),
        ensures
            (r matches Err(e) && e == RecorderError::SessionNotFound) <==> (forall|i: int|
                0 <= i < self@.sessions.len() ==> self@.sessions[i].live_id != live_id as nat),
            forall|i: int|
                0 <= i < self@.sessions.len() && self@.sessions[i].live_id == live_id as nat
                    ==> crate::clip::plan_matches(
                    r,
                    self@.sessions[i],
                    start_ms as nat,
                    end_ms as nat,
                    output_exists,
                    output_path@,
                ),
    {
        match self.find_session(live_id) {
            Some(i) => {
                proof {
                    assert(self@.sessions[i as int] == self.sessions@[i as int]@);
                    assert forall|j: int|
                        0 <= j < self@.sessions.len()
                            && self@.sessions[j].live_id == live_id as nat implies j == i as int by {
                        if j != i as int {
                            if j < i as int {
                                assert(self@.sessions[j].live_id < self@.sessions[i as int].live_id);
                            } else {
                                assert(self@.sessions[i as int].live_id < self@.sessions[j].live_id);
                            }
                        }
                    }
                    assert(self.sessions@[i as int].inv());
                }
                crate::clip::plan_clip(&self.sessions[i], start_ms, end_ms, output_path, output_exists)
            },
            None => Err(RecorderError::SessionNotFound),
        }
    }
}

/// A lightweight summary of one archived (or still running) session.
#[derive(Debug)]
pub struct ArchiveInfo {
    pub live_id: u64,
    pub start_ts_ms: u64,
    /// Absent while the session is still recording.
    pub end_ts_ms: Option<u64>,
    pub duration_ms: u64,
    pub segment_count: u64,
    pub danmu_count: u64,
}

/// What an archive summary promises about the session it describes.
pub open spec fn archive_matches(a: ArchiveInfo, s: LiveSessionV) -> bool {
    &&& a.live_id as nat == s.live_id
    &&& a.start_ts_ms as nat == s.start_ts_ms
    &&& (match (a.end_ts_ms, s.end_ts_ms) {
        (Some(x), Some(y)) => x as nat == y,
        (None, None) => true,
        _ => false,
    })
    &&& a.duration_ms as nat == s.total_duration()
    &&& a.segment_count as nat == s.segments.len()
    &&& a.danmu_count as nat == s.danmu.len()
}

impl Recorder {
    /// The summary of the named session; `SessionNotFound` exactly when
    /// no session carries that live id.
    pub fn archive(&self, live_id: u64) -> (r: Result<ArchiveInfo, RecorderError>)
        requires
            self.inv(),
        ensures
            (r is Err) <==> (forall|i: int|
                0 <= i < self@.sessions.len() ==> self@.sessions[i].live_id != live_id as nat),
            r is Err ==> r == Result::<ArchiveInfo, RecorderError>::Err(
                RecorderError::SessionNotFound,
            ),
            forall|i: int|
                0 <= i < self@.sessions.len() && self@.sessions[i].live_id == live_id as nat
                    ==> (r matches Ok(a) && archive_matches(a, self@.sessions[i])),
    {
        match self.find_session(live_id) {
            Some(i) => {
                proof {
                    assert(self.sessions@[i as int].inv());
                    assert(self@.sessions[i as int] == self.sessions@[i as int]@);
                    assert forall|j: int|
                        0 <= j < self@.sessions.len()
                            && self@.sessions[j].live_id == live_id as nat implies j == i as int by {
                        if j != i as int {
                            if j < i as int {
                                assert(self@.sessions[j].live_id < self@.sessions[i as int].live_id);
                            } else {
                                assert(self@.sessions[i as int].live_id < self@.sessions[j].live_id);
                            }
                        }
                    }
                }
                let s = &self.sessions[i];
                let seg_n = s.segments.len();
                let dan_n = s.danmu.len();
                Ok(
                    ArchiveInfo {
                        live_id: s.live_id,
                        start_ts_ms: s.start_ts_ms,
                        end_ts_ms: s.end_ts_ms,
                        duration_ms: s.total_duration_ms,
                        segment_count: seg_n as u64,
                        danmu_count: dan_n as u64,
                    },
                )
            },
            None => Err(RecorderError::SessionNotFound),
        }
    }

    /// Summaries of all of this room's sessions, oldest first.
    pub fn archives(&self) -> (r: Vec<ArchiveInfo>)
        requires
            self.inv(),
        ensures
            r@.len() == self@.sessions.len(),
            forall|i: int|
                0 <= i < self@.sessions.len() ==> archive_matches(r@[i], self@.sessions[i]),
    {
        let mut out: Vec<ArchiveInfo> = Vec::new();
        let mut i: usize = 0;
        while i < self.sessions.len()
            invariant
                self.inv(),
                i <= self.sessions.len(),
                out@.len() == i,
                forall|j: int| 0 <= j < i ==> archive_matches(out@[j], self@.sessions[j]),
            decreases self.sessions.len() - i,
        {
            proof {
                assert(self.sessions@[i as int].inv());
                assert(self@.sessions[i as int] == self.sessions@[i as int]@);
            }
            let s = &self.sessions[i];
            let seg_n = s.segments.len();
            let dan_n = s.danmu.len();
            out.push(
                ArchiveInfo {
                    live_id: s.live_id,
                    start_ts_ms: s.start_ts_ms,
                    end_ts_ms: s.end_ts_ms,
                    duration_ms: s.total_duration_ms,
                    segment_count: seg_n as u64,
                    danmu_count: dan_n as u64,
                },
            );
            i = i + 1;
        }
        out
    }
}

/// Applies `k` consecutive transient fetch-failure events to the model.
pub open spec fn apply_fetch_failures(v: RecorderV, k: nat) -> RecorderV
    decreases k,
{
    if k == 0 {
        v
    } else {
        apply_fetch_failures(v.step(CaptureEventV::SegmentFetchFailed).0, (k - 1) as nat)
    }
}

/// A stopped recorder is final: every further event leaves it unchanged,
/// so no segment or chat entry is ever appended after `stop` returns.
pub proof fn lemma_stopped_is_final(v: RecorderV, ev: CaptureEventV)
    requires
        v.state == RecorderState::Stopped,
    ensures
        v.step(ev) == (v, CaptureAction::Wait),
{
}

/// Applies a whole sequence of events to the model, first to last.
pub open spec fn apply_events(v: RecorderV, evs: Seq<CaptureEventV>) -> RecorderV
    decreases evs.len(),
{
    if evs.len() == 0 {
        v
    } else {
        apply_events(v.step(evs[0]).0, evs.subrange(1, evs.len() as int))
    }
}

/// After `stop`, no event sequence of any length changes the recorder:
/// in particular no segment and no chat entry is ever appended to any
/// of its sessions again.
pub proof fn lemma_stop_is_permanent(v: RecorderV, t: nat, evs: Seq<CaptureEventV>)
    ensures
        apply_events(v.stop_model(t), evs) == v.stop_model(t),
    decreases evs.len(),
{
    let s = v.stop_model(t);
    if evs.len() > 0 {
        lemma_stopped_is_final(s, evs[0]);
        lemma_stop_is_permanent(v, t, evs.subrange(1, evs.len() as int));
        assert(apply_events(s, evs) == apply_events(
            s.step(evs[0]).0,
            evs.subrange(1, evs.len() as int),
        ));
    }
}

/// Once a session is closed it is immutable: no transition of the state
/// machine ever changes it again.
pub proof fn lemma_closed_sessions_immutable(v: RecorderV, ev: CaptureEventV, i: int)
    requires
        v.wf(),
        0 <= i < v.sessions.len(),
        v.sessions[i].closed(),
    ensures
        v.step(ev).0.sessions.len() >= v.sessions.len(),
        v.step(ev).0.sessions[i] == v.sessions[i],
{
    let ss2 = v.step(ev).0.sessions;
    if v.has_open() {
        assert(i < v.sessions.len() - 1 || !v.sessions[v.sessions.len() - 1].closed());
        assert(i != v.sessions.len() - 1);
    }
}

/// Transient fetch failures within the retry budget are absorbed: the
/// recorder keeps recording, no session is touched, and only the retry
/// counter advances. In particular 3 consecutive failures never end the
/// session.
pub proof fn lemma_retries_within_budget(v: RecorderV, k: nat)
    requires
        v.wf(),
        v.state == RecorderState::Recording,
        v.retry_count + k < RETRY_LIMIT,
    ensures
        apply_fetch_failures(v, k) == (RecorderV {
            retry_count: v.retry_count + k,
            ..v
        }),
        apply_fetch_failures(v, k).wf(),
    decreases k,
{
    if k == 0 {
        assert(apply_fetch_failures(v, 0) == v);
        assert(v == (RecorderV { retry_count: v.retry_count + 0, ..v }));
    } else {
        let v1 = v.step(CaptureEventV::SegmentFetchFailed).0;
        assert(v1 == (RecorderV { retry_count: v.retry_count + 1, ..v }));
        lemma_retries_within_budget(v1, (k - 1) as nat);
        assert(apply_fetch_failures(v, k) == apply_fetch_failures(v1, (k - 1) as nat));
    }
}

/// After failures within the budget, a successful fetch that carries the
/// expected sequence number is appended without any discontinuity
/// marker: the session contains no gap.
pub proof fn lemma_retry_then_success_no_gap(
    v: RecorderV,
    k: nat,
    byte_length: nat,
    timestamp_ms: nat,
    duration_ms: nat,
    path: Seq<char>,
)
    requires
        v.wf(),
        v.state == RecorderState::Recording,
        v.retry_count + k < RETRY_LIMIT,
        v.sessions.last().total_duration() + duration_ms <= u64::MAX,
    ensures
        ({
            let v2 = apply_fetch_failures(v, k);
            let seq = expected_sequence(v2.sessions.last().segments);
            let v3 = v2.step(
                CaptureEventV::SegmentFetched {
                    sequence: seq,
                    byte_length,
                    timestamp_ms,
                    duration_ms,
                    path,
                },
            ).0;
            &&& v3.state == RecorderState::Recording
            &&& v3.sessions.last().segments == v.sessions.last().segments.push(
                SegmentV {
                    sequence: seq,
                    byte_length,
                    timestamp_ms,
                    duration_ms,
                    path,
                    discontinuity: false,
                },
            )
        }),
{
    lemma_retries_within_budget(v, k);
    let v2 = apply_fetch_failures(v, k);
    assert(v2.sessions == v.sessions);
    let seq = expected_sequence(v2.sessions.last().segments);
    assert(segment_append_ok(v2.sessions.last(), seq, duration_ms));
    let v3 = v2.step(
        CaptureEventV::SegmentFetched { sequence: seq, byte_length, timestamp_ms, duration_ms, path },
    ).0;
    assert(v3.sessions.last() == append_segment_model(
        v2.sessions.last(),
        seq,
        byte_length,
        timestamp_ms,
        duration_ms,
        path,
    ));
}

} // verus!
