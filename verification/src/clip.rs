use vstd::prelude::*;
use vstd::string::*;

use crate::errors::RecorderError;
use crate::journal::{cum_dur, LiveSession, LiveSessionV, SegmentV};

verus! {

/// The resolved inputs for one clip extraction: everything the external
/// transcoding tool needs to produce `[start, end)` of a session.
pub struct ClipPlan {
    /// Paths of the covering segments, in sequence order.
    pub input_paths: Vec<String>,
    /// Offset of the clip start inside the first covering segment.
    pub start_offset_ms: u64,
    /// Length of the requested range.
    pub duration_ms: u64,
    /// Where the tool must write the clip.
    pub output_path: String,
}

/// Mathematical model of a [`ClipPlan`].
pub ghost struct ClipPlanV {
    pub input_paths: Seq<Seq<char>>,
    pub start_offset_ms: nat,
    pub duration_ms: nat,
    pub output_path: Seq<char>,
}

impl View for ClipPlan {
    type V = ClipPlanV;

    open spec fn view(&self) -> ClipPlanV {
        ClipPlanV {
            input_paths: self.input_paths@.map_values(|p: String| p@),
            start_offset_ms: self.start_offset_ms as nat,
            duration_ms: self.duration_ms as nat,
            output_path: self.output_path@,
        }
    }
}

/// Segment `i` occupies `[cum_dur(i), cum_dur(i) + duration)` on the
/// session's timeline; it covers the range `[a, b)` when the two
/// intervals intersect.
pub open spec fn covers(segs: Seq<SegmentV>, i: int, a: nat, b: nat) -> bool {
    &&& cum_dur(segs, i) < b
    &&& cum_dur(segs, i) + segs[i].duration_ms > a
}

/// The paths of the covering segments among the first `i`, in order.
pub open spec fn covering_paths(segs: Seq<SegmentV>, i: int, a: nat, b: nat) -> Seq<Seq<char>>
    decreases i,
{
    if i <= 0 {
        Seq::<Seq<char>>::empty()
    } else {
        covering_paths(segs, i - 1, a, b) + (if covers(segs, i - 1, a, b) {
            seq![segs[i - 1].path]
        } else {
            Seq::<Seq<char>>::empty()
        })
    }
}

/// The timeline position of the first covering segment at index `i` or
/// later, if any.
pub open spec fn first_cover_from(segs: Seq<SegmentV>, i: int, a: nat, b: nat) -> Option<nat>
    decreases segs.len() - i,
{
    if i < 0 || i >= segs.len() {
        None
    } else if covers(segs, i, a, b) {
        Some(cum_dur(segs, i))
    } else {
        first_cover_from(segs, i + 1, a, b)
    }
}

/// The clip's offset inside the first covering segment.
pub open spec fn spec_clip_offset(segs: Seq<SegmentV>, a: nat, b: nat) -> nat {
    match first_cover_from(segs, 0, a, b) {
        Some(p) => if a >= p {
            (a - p) as nat
        } else {
            0
        },
        None => 0,
    }
}

/// A recorded discontinuity marker falls strictly inside `[a, b)`: the
/// marker at segment `i` stands at timeline position `cum_dur(i)`.
pub open spec fn has_gap_inside(segs: Seq<SegmentV>, a: nat, b: nat) -> bool {
    exists|i: int|
        0 <= i < segs.len() && segs[i].discontinuity && a < cum_dur(segs, i) < b
}

/// The outcome of planning a clip of `[a, b)` milliseconds of session
/// `s`, writing to `out` which does (not) already exist.
///
/// An empty or backwards range, or one reaching past the recorded span,
/// is invalid; a range crossing a discontinuity marker cannot be cut; an
/// existing output file is refused before any work happens.
pub open spec fn spec_clip(
    s: LiveSessionV,
    a: nat,
    b: nat,
    output_exists: bool,
    out: Seq<char>,
) -> Result<ClipPlanV, RecorderError> {
    if a >= b {
        Err(RecorderError::InvalidRange)
    } else if b > s.total_duration() {
        Err(RecorderError::InvalidRange)
    } else if has_gap_inside(s.segments, a, b) {
        Err(RecorderError::DiscontinuousRange)
    } else if output_exists {
        Err(RecorderError::OutputExists)
    } else {
        Ok(
            ClipPlanV {
                input_paths: covering_paths(s.segments, s.segments.len() as int, a, b),
                start_offset_ms: spec_clip_offset(s.segments, a, b),
                duration_ms: (b - a) as nat,
                output_path: out,
            },
        )
    }
}

/// What a returned plan (or refusal) promises: it is exactly the
/// outcome `spec_clip` gives for the session and range.
pub open spec fn plan_matches(
    r: Result<ClipPlan, RecorderError>,
    s: LiveSessionV,
    a: nat,
    b: nat,
    output_exists: bool,
    out: Seq<char>,
) -> bool {
    match r {
        Ok(p) => spec_clip(s, a, b, output_exists, out) == Result::<
            ClipPlanV,
            RecorderError,
        >::Ok(p@),
        Err(e) => spec_clip(s, a, b, output_exists, out) == Result::<
            ClipPlanV,
            RecorderError,
        >::Err(e),
    }
}

/// `cum_dur` never decreases with the index.
pub proof fn lemma_cum_dur_monotone(segs: Seq<SegmentV>, i: int, j: int)
    requires
        0 <= i <= j <= segs.len(),
    ensures
        cum_dur(segs, i) <= cum_dur(segs, j),
    decreases j - i,
{
    if i < j {
        lemma_cum_dur_monotone(segs, i + 1, j);
    }
}

/// While no segment before `i` covers the range, the first covering
/// segment from the start is the first one from `i`.
proof fn lemma_first_cover_skip(segs: Seq<SegmentV>, i: int, a: nat, b: nat)
    requires
        0 <= i <= segs.len(),
        forall|j: int| 0 <= j < i ==> !covers(segs, j, a, b),
    ensures
        first_cover_from(segs, 0, a, b) == first_cover_from(segs, i, a, b),
    decreases i,
{
    if i > 0 {
        lemma_first_cover_skip(segs, i - 1, a, b);
    }
}

/// Plans the extraction of `[start_ms, end_ms)` from a session: locates
/// the covering segments and the trim offset, or says exactly why the
/// clip cannot be made.
#[verifier::rlimit(100)]
#[verifier::spinoff_prover]
pub fn plan_clip(
    session: &LiveSession,
    start_ms: u64,
    end_ms: u64,
    output_path: &str,
    output_exists: bool,
) -> (r: Result<ClipPlan, RecorderError>)
    requires
        session.inv(),
    ensures
        match r {
            Ok(p) => spec_clip(session@, start_ms as nat, end_ms as nat, output_exists, output_path@)
                == Result::<ClipPlanV, RecorderError>::Ok(p@),
            Err(e) => spec_clip(
                session@,
                start_ms as nat,
                end_ms as nat,
                output_exists,
                output_path@,
            ) == Result::<ClipPlanV, RecorderError>::Err(e),
        },
{
    let ghost segs = session@.segments;
    let ghost a = start_ms as nat;
    let ghost b = end_ms as nat;
    if start_ms >= end_ms {
        return Err(RecorderError::InvalidRange);
    }
    if end_ms > session.total_duration_ms {
        return Err(RecorderError::InvalidRange);
    }
    // One pass over the segments: detect a marker strictly inside the
    // range, collect covering paths, and find the trim offset.
    let n = session.segments.len();
    let mut i: usize = 0;
    let mut acc: u64 = 0;
    let mut paths: Vec<String> = Vec::new();
    let mut offset: u64 = 0;
    let mut found: bool = false;
    let mut gap: bool = false;
    while i < n
        invariant
            session.inv(),
            segs == session@.segments,
            a == start_ms as nat,
            b == end_ms as nat,
            a < b <= session@.total_duration(),
            n == session.segments@.len(),
            i <= n,
            acc as nat == cum_dur(segs, i as int),
            paths@.map_values(|p: String| p@) == covering_paths(segs, i as int, a, b),
            gap == exists|k: int|
                0 <= k < i && segs[k].discontinuity && a < cum_dur(segs, k) < b,
            !found ==> (forall|k: int| 0 <= k < i ==> !covers(segs, k, a, b)) && offset == 0,
            found ==> (first_cover_from(segs, 0, a, b) matches Some(p) && offset as nat == (
            if a >= p {
                (a - p) as nat
            } else {
                0
            })),
        decreases n - i,
    {
        proof {
            assert(segs[i as int] == session.segments@[i as int]@);
            lemma_cum_dur_monotone(segs, i as int, i + 1 as int);
            lemma_cum_dur_monotone(segs, i + 1 as int, segs.len() as int);
        }
        let seg = &session.segments[i];
        if seg.discontinuity && start_ms < acc && acc < end_ms {
            gap = true;
        }
        let covering = acc < end_ms && acc + seg.duration_ms > start_ms;
        if covering {
            paths.push(seg.path.clone());
            if !found {
                found = true;
                proof {
                    lemma_first_cover_skip(segs, i as int, a, b);
                }
                offset = if start_ms >= acc {
                    start_ms - acc
                } else {
                    0
                };
            }
        }
        proof {
            assert(paths@.map_values(|p: String| p@) =~= covering_paths(segs, i + 1 as int, a, b));
        }
        acc = acc + seg.duration_ms;
        i = i + 1;
    }
    if gap {
        proof {
            assert(has_gap_inside(segs, a, b));
        }
        return Err(RecorderError::DiscontinuousRange);
    }
    proof {
        assert(!has_gap_inside(segs, a, b)) by {
            if exists|k: int|
                0 <= k < segs.len() && segs[k].discontinuity && a < cum_dur(segs, k) < b {
                let k = choose|k: int|
                    0 <= k < segs.len() && segs[k].discontinuity && a < cum_dur(segs, k) < b;
                assert(0 <= k < i);
            }
        }
    }
    if output_exists {
        return Err(RecorderError::OutputExists);
    }
    proof {
        if !found {
            lemma_first_cover_skip(segs, segs.len() as int, a, b);
        }
    }
    Ok(
        ClipPlan {
            input_paths: paths,
            start_offset_ms: offset,
            duration_ms: end_ms - start_ms,
            output_path: output_path.to_owned(),
        },
    )
}

} // verus!
