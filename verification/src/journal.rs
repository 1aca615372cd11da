use vstd::prelude::*;
use vstd::string::*;

use crate::errors::RecorderError;
use crate::strutil::{frac3, spec_dec, spec_frac3, u64_to_dec};

verus! {

/// One downloaded chunk of the live media stream.
///
/// `discontinuity` marks that the upstream sequence numbering jumped just
/// before this segment: a detected loss is recorded, never silently skipped.
pub struct Segment {
    pub sequence: u64,
    pub byte_length: u64,
    pub timestamp_ms: u64,
    pub duration_ms: u64,
    pub path: String,
    pub discontinuity: bool,
}

/// One chat message, appended in arrival order and never mutated.
pub struct DanmuEntry {
    pub sender: String,
    pub text: String,
    pub timestamp_ms: u64,
    pub raw: String,
}

/// Mathematical model of a [`Segment`].
pub ghost struct SegmentV {
    pub sequence: nat,
    pub byte_length: nat,
    pub timestamp_ms: nat,
    pub duration_ms: nat,
    pub path: Seq<char>,
    pub discontinuity: bool,
}

/// Mathematical model of a [`DanmuEntry`].
pub ghost struct DanmuEntryV {
    pub sender: Seq<char>,
    pub text: Seq<char>,
    pub timestamp_ms: nat,
    pub raw: Seq<char>,
}

impl View for Segment {
    type V = SegmentV;

    open spec fn view(&self) -> SegmentV {
        SegmentV {
            sequence: self.sequence as nat,
            byte_length: self.byte_length as nat,
            timestamp_ms: self.timestamp_ms as nat,
            duration_ms: self.duration_ms as nat,
            path: self.path@,
            discontinuity: self.discontinuity,
        }
    }
}

impl View for DanmuEntry {
    type V = DanmuEntryV;

    open spec fn view(&self) -> DanmuEntryV {
        DanmuEntryV {
            sender: self.sender@,
            text: self.text@,
            timestamp_ms: self.timestamp_ms as nat,
            raw: self.raw@,
        }
    }
}

impl Clone for DanmuEntry {
    /// A field-for-field copy.
    fn clone(&self) -> (r: Self)
        ensures
            r@ == self@,
    {
        DanmuEntry {
            sender: self.sender.clone(),
            text: self.text.clone(),
            timestamp_ms: self.timestamp_ms,
            raw: self.raw.clone(),
        }
    }
}

/// The sequence number the next appended segment is expected to carry.
pub open spec fn expected_sequence(segs: Seq<SegmentV>) -> nat {
    if segs.len() == 0 {
        0
    } else {
        segs.last().sequence + 1
    }
}

/// Segment sequence numbers count up contiguously from 0, and every jump
/// is recorded as a discontinuity marker on the segment after the gap:
/// a marker stands exactly where the numbering is not contiguous.
pub open spec fn seg_seq_wf(segs: Seq<SegmentV>) -> bool {
    forall|i: int|
        #![trigger segs[i]]
        0 <= i < segs.len() ==> {
            let expected: nat = if i == 0 {
                0
            } else {
                (segs[i - 1].sequence + 1) as nat
            };
            &&& segs[i].sequence >= expected
            &&& (segs[i].discontinuity <==> segs[i].sequence != expected)
        }
}

/// Chat entries carry non-decreasing arrival timestamps.
pub open spec fn danmu_wf(danmu: Seq<DanmuEntryV>) -> bool {
    forall|i: int|
        #![trigger danmu[i]]
        0 < i < danmu.len() ==> danmu[i - 1].timestamp_ms <= danmu[i].timestamp_ms
}

/// The sum of the durations of the first `i` segments, in milliseconds.
pub open spec fn cum_dur(segs: Seq<SegmentV>, i: int) -> nat
    decreases i,
{
    if i <= 0 {
        0
    } else {
        cum_dur(segs, i - 1) + segs[i - 1].duration_ms
    }
}

/// The arrival timestamp recorded for a new chat entry: never behind the
/// previous entry, so the journal keeps arrival order even when sender
/// clocks disagree.
pub open spec fn arrival_ts(danmu: Seq<DanmuEntryV>, ts: nat) -> nat {
    if danmu.len() > 0 && danmu.last().timestamp_ms > ts {
        danmu.last().timestamp_ms
    } else {
        ts
    }
}

/// Mathematical model of a [`LiveSession`].
pub ghost struct LiveSessionV {
    pub live_id: nat,
    pub room_id: nat,
    pub start_ts_ms: nat,
    pub end_ts_ms: Option<nat>,
    pub segments: Seq<SegmentV>,
    pub danmu: Seq<DanmuEntryV>,
}

impl LiveSessionV {
    /// The session has ended: its end time is recorded and it accepts no
    /// further segments or chat entries.
    pub open spec fn closed(self) -> bool {
        self.end_ts_ms is Some
    }

    /// Well-formedness: contiguous sequence numbers except at markers,
    /// ordered chat timestamps, a representable total duration, and an end
    /// time no earlier than the start.
    pub open spec fn wf(self) -> bool {
        &&& seg_seq_wf(self.segments)
        &&& danmu_wf(self.danmu)
        &&& cum_dur(self.segments, self.segments.len() as int) <= u64::MAX
        &&& (self.end_ts_ms matches Some(e) ==> e >= self.start_ts_ms)
    }

    /// Total recorded duration in milliseconds.
    pub open spec fn total_duration(self) -> nat {
        cum_dur(self.segments, self.segments.len() as int)
    }
}

/// One continuous recording attempt: an append-only journal of media
/// segments and chat entries, identified by a timestamp-derived live id.
pub struct LiveSession {
    pub live_id: u64,
    pub room_id: u64,
    pub start_ts_ms: u64,
    pub end_ts_ms: Option<u64>,
    pub segments: Vec<Segment>,
    pub danmu: Vec<DanmuEntry>,
    /// Cached sum of segment durations, kept equal to the model's total.
    pub total_duration_ms: u64,
}

impl View for LiveSession {
    type V = LiveSessionV;

    open spec fn view(&self) -> LiveSessionV {
        LiveSessionV {
            live_id: self.live_id as nat,
            room_id: self.room_id as nat,
            start_ts_ms: self.start_ts_ms as nat,
            end_ts_ms: match self.end_ts_ms {
                Some(e) => Some(e as nat),
                None => None,
            },
            segments: self.segments@.map_values(|s: Segment| s@),
            danmu: self.danmu@.map_values(|d: DanmuEntry| d@),
        }
    }
}

/// `cum_dur` depends only on the first `i` segments.
pub proof fn lemma_cum_dur_push(segs: Seq<SegmentV>, x: SegmentV, i: int)
    requires
        0 <= i <= segs.len(),
    ensures
        cum_dur(segs.push(x), i) == cum_dur(segs, i),
    decreases i,
{
    if i > 0 {
        lemma_cum_dur_push(segs, x, i - 1);
    }
}

impl LiveSession {
    /// The exec-level invariant: the model is well-formed and the cached
    /// total matches the model's total duration.
    pub open spec fn inv(self) -> bool {
        &&& self@.wf()
        &&& self.total_duration_ms as nat == self@.total_duration()
    }

    /// Opens a fresh, empty, active session.
    pub fn new(live_id: u64, room_id: u64, start_ts_ms: u64) -> (r: Self)
        ensures
            r.inv(),
            r@ == (LiveSessionV {
                live_id: live_id as nat,
                room_id: room_id as nat,
                start_ts_ms: start_ts_ms as nat,
                end_ts_ms: None,
                segments: Seq::<SegmentV>::empty(),
                danmu: Seq::<DanmuEntryV>::empty(),
            }),
    {
        let r = LiveSession {
            live_id,
            room_id,
            start_ts_ms,
            end_ts_ms: None,
            segments: Vec::new(),
            danmu: Vec::new(),
            total_duration_ms: 0,
        };
        proof {
            assert(r@.segments =~= Seq::<SegmentV>::empty());
            assert(r@.danmu =~= Seq::<DanmuEntryV>::empty());
        }
        r
    }

    /// Appends a downloaded segment under the upstream sequence number.
    ///
    /// A sequence number below the expected one would overwrite an existing
    /// segment and is rejected as a write error, as is a total duration
    /// that no longer fits the counter. A sequence number above the
    /// expected one is recorded with a discontinuity marker.
    pub fn append_segment(
        &mut self,
        sequence: u64,
        byte_length: u64,
        timestamp_ms: u64,
        duration_ms: u64,
        path: String,
    ) -> (r: Result<(), RecorderError>)
        requires
            old(self).inv(),
            !old(self)@.closed(),
        ensures
            final(self).inv(),
            !final(self)@.closed(),
            sequence < expected_sequence(old(self)@.segments) ==> {
                &&& r == Result::<(), RecorderError>::Err(RecorderError::SegmentWriteError)
                &&& final(self)@ == old(self)@
            },
            sequence >= expected_sequence(old(self)@.segments)
                && old(self)@.total_duration() + duration_ms > u64::MAX ==> {
                &&& r == Result::<(), RecorderError>::Err(RecorderError::SegmentWriteError)
                &&& final(self)@ == old(self)@
            },
            sequence >= expected_sequence(old(self)@.segments)
                && old(self)@.total_duration() + duration_ms <= u64::MAX ==> {
                &&& r == Result::<(), RecorderError>::Ok(())
                &&& final(self)@ == (LiveSessionV {
                    segments: old(self)@.segments.push(
                        SegmentV {
                            sequence: sequence as nat,
                            byte_length: byte_length as nat,
                            timestamp_ms: timestamp_ms as nat,
                            duration_ms: duration_ms as nat,
                            path: path@,
                            discontinuity: sequence as nat != expected_sequence(old(self)@.segments),
                        },
                    ),
                    ..old(self)@
                })
            },
    {
        let expected: u64 = if self.segments.len() == 0 {
            0
        } else {
            let last = self.segments.len() - 1;
            proof {
                assert(self@.segments.last() == self.segments@[last as int]@);
            }
            if self.segments[last].sequence == u64::MAX {
                // The counter is exhausted; any further append would overwrite.
                return Err(RecorderError::SegmentWriteError);
            }
            self.segments[last].sequence + 1
        };
        if sequence < expected {
            return Err(RecorderError::SegmentWriteError);
        }
        let new_total = match self.total_duration_ms.checked_add(duration_ms) {
            Some(t) => t,
            None => {
                return Err(RecorderError::SegmentWriteError);
            },
        };
        let ghost old_segs = self@.segments;
        let seg = Segment {
            sequence,
            byte_length,
            timestamp_ms,
            duration_ms,
            path,
            discontinuity: sequence != expected,
        };
        let ghost segv = seg@;
        self.segments.push(seg);
        self.total_duration_ms = new_total;
        proof {
            assert(self@.segments =~= old_segs.push(segv));
            lemma_cum_dur_push(old_segs, segv, old_segs.len() as int);
            assert(cum_dur(self@.segments, self@.segments.len() as int)
                == cum_dur(old_segs, old_segs.len() as int) + segv.duration_ms);
            assert(seg_seq_wf(self@.segments)) by {
                assert(forall|i: int| 0 <= i < old_segs.len() ==> self@.segments[i] == old_segs[i]);
            }
            assert(self@.danmu =~= old(self)@.danmu);
            assert(self@ == (LiveSessionV {
                segments: old(self)@.segments.push(segv),
                ..old(self)@
            }));
        }
        Ok(())
    }

    /// Appends a chat entry in arrival order; the recorded timestamp is
    /// clamped forward so the journal's order never runs backwards.
    pub fn append_danmu(&mut self, sender: String, text: String, timestamp_ms: u64, raw: String)
        requires
            old(self).inv(),
            !old(self)@.closed(),
        ensures
            final(self).inv(),
            !final(self)@.closed(),
            final(self)@ == (LiveSessionV {
                danmu: old(self)@.danmu.push(
                    DanmuEntryV {
                        sender: sender@,
                        text: text@,
                        timestamp_ms: arrival_ts(old(self)@.danmu, timestamp_ms as nat),
                        raw: raw@,
                    },
                ),
                ..old(self)@
            }),
    {
        let ts = if self.danmu.len() > 0 {
            let last = self.danmu.len() - 1;
            proof {
                assert(self@.danmu.last() == self.danmu@[last as int]@);
            }
            if self.danmu[last].timestamp_ms > timestamp_ms {
                self.danmu[last].timestamp_ms
            } else {
                timestamp_ms
            }
        } else {
            timestamp_ms
        };
        let ghost old_danmu = self@.danmu;
        let entry = DanmuEntry { sender, text, timestamp_ms: ts, raw };
        let ghost entryv = entry@;
        self.danmu.push(entry);
        proof {
            assert(self@.danmu =~= old_danmu.push(entryv));
            assert(self@.segments =~= old(self)@.segments);
            assert(danmu_wf(self@.danmu)) by {
                assert(forall|i: int| 0 <= i < old_danmu.len() ==> self@.danmu[i] == old_danmu[i]);
            }
            assert(self@ == (LiveSessionV {
                danmu: old(self)@.danmu.push(entryv),
                ..old(self)@
            }));
        }
    }

    /// Closes the session: records the end time (never before the start)
    /// and freezes the journal.
    pub fn close(&mut self, end_ts_ms: u64)
        requires
            old(self).inv(),
            !old(self)@.closed(),
        ensures
            final(self).inv(),
            final(self)@.closed(),
            final(self)@ == (LiveSessionV {
                end_ts_ms: Some(
                    if end_ts_ms as nat >= old(self)@.start_ts_ms {
                        end_ts_ms as nat
                    } else {
                        old(self)@.start_ts_ms
                    },
                ),
                ..old(self)@
            }),
    {
        let e = if end_ts_ms >= self.start_ts_ms {
            end_ts_ms
        } else {
            self.start_ts_ms
        };
        self.end_ts_ms = Some(e);
        proof {
            assert(self@.segments =~= old(self)@.segments);
            assert(self@.danmu =~= old(self)@.danmu);
        }
    }

    /// All chat entries of the session, in arrival order.
    pub fn comments(&self) -> (r: Vec<DanmuEntry>)
        ensures
            r@.map_values(|d: DanmuEntry| d@) == self@.danmu,
    {
        let mut out: Vec<DanmuEntry> = Vec::new();
        let mut i: usize = 0;
        while i < self.danmu.len()
            invariant
                i <= self.danmu.len(),
                out@.len() == i,
                forall|j: int| 0 <= j < i ==> out@[j]@ == self.danmu@[j]@,
            decreases self.danmu.len() - i,
        {
            out.push(self.danmu[i].clone());
            i = i + 1;
        }
        proof {
            assert(out@.map_values(|d: DanmuEntry| d@) =~= self@.danmu);
        }
        out
    }

    /// Builds the HLS-style playlist text for the session: the committed
    /// segments in sequence order, each with its duration and path, a
    /// discontinuity tag wherever a loss was recorded, and an end tag once
    /// the session is closed.
    pub fn build_playlist(&self) -> (r: String)
        ensures
            r@ == spec_playlist(self@),
    {
        proof {
            reveal_strlit("#EXTM3U\n#EXT-X-VERSION:3\n");
            reveal_strlit("#EXT-X-DISCONTINUITY\n");
            reveal_strlit("#EXTINF:");
            reveal_strlit(".");
            reveal_strlit(",\n");
            reveal_strlit("\n");
            reveal_strlit("#EXT-X-ENDLIST\n");
        }
        let mut out: String = "#EXTM3U\n#EXT-X-VERSION:3\n".to_owned();
        let mut i: usize = 0;
        while i < self.segments.len()
            invariant
                i <= self.segments.len(),
                out@ == spec_playlist_header().add(spec_playlist_body(self@.segments, i as int)),
            decreases self.segments.len() - i,
        {
            proof {
                reveal_strlit("#EXT-X-DISCONTINUITY\n");
                reveal_strlit("#EXTINF:");
                reveal_strlit(".");
                reveal_strlit(",\n");
                reveal_strlit("\n");
            }
            let seg = &self.segments[i];
            proof {
                assert(seg@ == self@.segments[i as int]);
            }
            if seg.discontinuity {
                out.append("#EXT-X-DISCONTINUITY\n");
            }
            out.append("#EXTINF:");
            let whole = u64_to_dec(seg.duration_ms / 1000);
            out.append(whole.as_str());
            out.append(".");
            let frac = frac3(seg.duration_ms % 1000);
            out.append(frac.as_str());
            out.append(",\n");
            out.append(seg.path.as_str());
            out.append("\n");
            proof {
                assert(out@ =~= spec_playlist_header().add(
                    spec_playlist_body(self@.segments, i + 1 as int),
                ));
            }
            i = i + 1;
        }
        if self.end_ts_ms.is_some() {
            out.append("#EXT-X-ENDLIST\n");
        }
        proof {
            assert(out@ =~= spec_playlist(self@));
        }
        out
    }
}

/// The fixed first lines of every playlist.
pub open spec fn spec_playlist_header() -> Seq<char> {
    "#EXTM3U\n#EXT-X-VERSION:3\n"@
}

/// The playlist lines for one segment: an optional discontinuity tag, the
/// duration in seconds with a three-digit millisecond fraction, and the
/// segment's on-disk path.
pub open spec fn spec_segment_lines(s: SegmentV) -> Seq<char> {
    let tag: Seq<char> = if s.discontinuity {
        "#EXT-X-DISCONTINUITY\n"@
    } else {
        Seq::<char>::empty()
    };
    tag + "#EXTINF:"@ + spec_dec(s.duration_ms / 1000) + "."@ + spec_frac3(s.duration_ms % 1000)
        + ",\n"@ + s.path + "\n"@
}

/// The concatenated lines of the first `i` segments, in index order.
pub open spec fn spec_playlist_body(segs: Seq<SegmentV>, i: int) -> Seq<char>
    decreases i,
{
    if i <= 0 {
        Seq::<char>::empty()
    } else {
        spec_playlist_body(segs, i - 1) + spec_segment_lines(segs[i - 1])
    }
}

/// The full playlist text of a session.
pub open spec fn spec_playlist(s: LiveSessionV) -> Seq<char> {
    spec_playlist_header() + spec_playlist_body(s.segments, s.segments.len() as int) + (
    if s.closed() {
        "#EXT-X-ENDLIST\n"@
    } else {
        Seq::<char>::empty()
    })
}

/// Sequence numbers listed by the playlist strictly increase: later
/// segments always carry larger numbers.
pub proof fn lemma_sequences_strictly_increase(segs: Seq<SegmentV>, i: int, j: int)
    requires
        seg_seq_wf(segs),
        0 <= i < j < segs.len(),
    ensures
        segs[i].sequence < segs[j].sequence,
    decreases j - i,
{
    if i + 1 < j {
        lemma_sequences_strictly_increase(segs, i + 1, j);
    }
}

/// Absent any discontinuity marker up to index `k`, the sequence numbers
/// form the contiguous range `0..=k`: `segs[k].sequence == k`.
pub proof fn lemma_contiguous_without_markers(segs: Seq<SegmentV>, k: int)
    requires
        seg_seq_wf(segs),
        0 <= k < segs.len(),
        forall|j: int| #![trigger segs[j]] 0 <= j <= k ==> !segs[j].discontinuity,
    ensures
        segs[k].sequence == k,
    decreases k,
{
    if k > 0 {
        lemma_contiguous_without_markers(segs, k - 1);
    }
}

/// Chat entries preserve arrival order: any earlier entry's timestamp is
/// no later than any later entry's, however segment appends interleave.
pub proof fn lemma_comments_arrival_order(danmu: Seq<DanmuEntryV>, i: int, j: int)
    requires
        danmu_wf(danmu),
        0 <= i <= j < danmu.len(),
    ensures
        danmu[i].timestamp_ms <= danmu[j].timestamp_ms,
    decreases j - i,
{
    if i < j {
        lemma_comments_arrival_order(danmu, i + 1, j);
    }
}

} // verus!
