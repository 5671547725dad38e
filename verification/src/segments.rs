//! The sponsor-segment reducer: retained skip segments of one video, sorted
//! by start time, are folded into a sorted, disjoint list of uncut intervals
//! over the video's working duration, together with the canonical duration
//! and outro flag.

use vstd::prelude::*;

verus! {

use crate::csv_data::{SponsorTime, TrimmedSponsorTime, VideoDuration};
use crate::records::{UncutSegment, VideoInfo, uncut_segments_wf};
use crate::merge::spec_row_hash_prefix;
use crate::text::str_eq;
use crate::sort::{SortKey, sort_by_key, sorted_by_key};
use crate::hashing::{parse_hashprefix, compute_hashprefix};
use crate::string_pool::InternedString;

impl SortKey for TrimmedSponsorTime {
    open spec fn spec_key(&self) -> int {
        self.start_time as int
    }

    fn key(&self) -> (r: i128)
        ensures
            r as int == self.spec_key(),
    {
        self.start_time as i128
    }
}

/// Exactly which rows contribute, and what each contributes: a row passes the
/// visibility filter when it is not downvoted away, not hidden, and describes
/// a skip segment; it then feeds a duration candidate and a trimmed segment,
/// both under the row's bucket index.
pub open spec fn spec_filter_and_split(row: SponsorTime) -> Option<
    (u16, VideoDuration, TrimmedSponsorTime),
> {
    if row.votes > -2 && row.shadow_hidden == 0 && row.hidden == 0 && row.action_type@ == "skip"@ {
        Some(
            (
                spec_row_hash_prefix(row.hashed_video_id@, row.video_id@) as u16,
                VideoDuration {
                    video_id: row.video_id,
                    time_submitted: row.time_submitted,
                    video_duration: row.video_duration,
                    has_outro: row.category@ == "outro"@,
                },
                TrimmedSponsorTime {
                    video_id: row.video_id,
                    start_time: row.start_time,
                    end_time: row.end_time,
                },
            ),
        )
    } else {
        None
    }
}

impl SponsorTime {
    /// Split a raw sponsor row into what the reducer keeps of it.
    pub fn filter_and_split(self) -> (r: Option<(u16, VideoDuration, TrimmedSponsorTime)>)
        ensures
            r == spec_filter_and_split(self),
    {
        let hash_prefix = match parse_hashprefix(self.hashed_video_id.as_str()) {
            Some(p) => p,
            None => compute_hashprefix(self.video_id.as_str()),
        };
        if self.votes > -2 && self.shadow_hidden == 0 && self.hidden == 0 && str_eq(
            self.action_type.as_str(),
            "skip",
        ) {
            let has_outro = str_eq(self.category.as_str(), "outro");
            Some(
                (
                    hash_prefix,
                    VideoDuration {
                        video_id: self.video_id.clone(),
                        time_submitted: self.time_submitted,
                        video_duration: self.video_duration,
                        has_outro,
                    },
                    TrimmedSponsorTime {
                        video_id: self.video_id,
                        start_time: self.start_time,
                        end_time: self.end_time,
                    },
                ),
            )
        } else {
            None
        }
    }
}

/// A segment's start, clipped into `[0, d)`; callers only apply this to
/// segments that start before `d`.
pub open spec fn clip_start(t: TrimmedSponsorTime) -> int {
    if t.start_time < 0 {
        0
    } else {
        t.start_time as int
    }
}

/// A segment's end, clipped into `[start, d]`.
pub open spec fn clip_end(t: TrimmedSponsorTime, d: int) -> int {
    let s = clip_start(t);
    if t.end_time as int > d {
        if s > d {
            s
        } else {
            d
        }
    } else if (t.end_time as int) < s {
        s
    } else {
        t.end_time as int
    }
}

/// One step of the uncut walk: fold the clipped segment `[s, e]` into the
/// running uncut list. `raw_end` is the segment's unclipped end, which decides
/// whether a first segment leaves a trailing uncut piece.
pub open spec fn reduce_step(
    acc: Seq<UncutSegment>,
    s: int,
    e: int,
    raw_end: int,
    d: int,
) -> Seq<UncutSegment> {
    if acc.len() == 0 {
        let lead: Seq<UncutSegment> = if s != 0 {
            seq![UncutSegment { offset: 0, length: s as i64 }]
        } else {
            Seq::empty()
        };
        if raw_end != d {
            lead.push(UncutSegment { offset: e as i64, length: (d - e) as i64 })
        } else {
            lead
        }
    } else {
        let last = acc.last();
        if last.offset > e {
            acc
        } else if last.offset > s {
            acc.update(
                acc.len() - 1,
                UncutSegment { offset: e as i64, length: (d - e) as i64 },
            )
        } else {
            acc.update(
                acc.len() - 1,
                UncutSegment { offset: last.offset, length: (s - last.offset) as i64 },
            ).push(UncutSegment { offset: e as i64, length: (d - e) as i64 })
        }
    }
}

/// The uncut walk over a whole segment list, left to right; segments starting
/// at or past the duration are ignored.
pub open spec fn reduce_fold(segs: Seq<TrimmedSponsorTime>, d: int) -> Seq<UncutSegment>
    decreases segs.len(),
{
    if segs.len() == 0 {
        Seq::empty()
    } else {
        let acc = reduce_fold(segs.drop_last(), d);
        let t = segs.last();
        if t.start_time as int >= d {
            acc
        } else {
            reduce_step(acc, clip_start(t), clip_end(t, d), t.end_time as int, d)
        }
    }
}

/// Whether any segment contributes to the walk.
pub open spec fn any_contributing(segs: Seq<TrimmedSponsorTime>, d: int) -> bool {
    exists|k: int| 0 <= k < segs.len() && (segs[k].start_time as int) < d
}

/// What the reducer returns for a segment list over duration `d`: the walk's
/// result, with a trailing zero-width piece at `d` dropped; an empty walk
/// means the whole video is uncut when nothing contributed, and entirely cut
/// when segments covered all of it.
pub open spec fn spec_reduce(segs: Seq<TrimmedSponsorTime>, d: int) -> Seq<UncutSegment> {
    let folded = reduce_fold(segs, d);
    if folded.len() == 0 {
        if any_contributing(segs, d) {
            Seq::empty()
        } else {
            seq![UncutSegment { offset: 0, length: d as i64 }]
        }
    } else if folded.last().offset as int == d {
        folded.drop_last()
    } else {
        folded
    }
}

/// Reduce a video's retained segments to its uncut intervals.
///
/// The result is exactly `spec_reduce`, and is always a sorted, disjoint list
/// inside `[0, duration]` — whatever order or values the inputs have.
pub fn reduce_segments(segments: &Vec<TrimmedSponsorTime>, duration: i64) -> (r: Vec<
    UncutSegment,
>)
    requires
        duration > 0,
    ensures
        r@ == spec_reduce(segments@, duration as int),
        uncut_segments_wf(r@, duration as int),
{
    let d = duration;
    let mut acc: Vec<UncutSegment> = Vec::new();
    let mut contributing = false;
    let mut i: usize = 0;
    while i < segments.len()
        invariant
            i <= segments@.len(),
            duration == d > 0,
            acc@ == reduce_fold(segments@.take(i as int), d as int),
            uncut_segments_wf(acc@, d as int),
            contributing == any_contributing(segments@.take(i as int), d as int),
        decreases segments@.len() - i,
    {
        let t = &segments[i];
        proof {
            assert(segments@.take(i + 1).drop_last() =~= segments@.take(i as int));
            assert(segments@.take(i + 1).last() == segments@[i as int]);
            assert forall|k: int| 0 <= k < i + 1 implies (segments@.take(i + 1)[k]
                == segments@.take(i as int).push(segments@[i as int])[k]) by {}
        }
        if t.start_time < d {
            contributing = true;
            let s: i64 = if t.start_time < 0 {
                0
            } else {
                t.start_time
            };
            let e0: i64 = if t.end_time > d {
                d
            } else {
                t.end_time
            };
            let e: i64 = if e0 < s {
                s
            } else {
                e0
            };
            proof {
                assert(s as int == clip_start(segments@[i as int]));
                assert(e as int == clip_end(segments@[i as int], d as int));
            }
            if acc.len() == 0 {
                if s != 0 {
                    acc.push(UncutSegment { offset: 0, length: s });
                }
                if t.end_time != d {
                    acc.push(UncutSegment { offset: e, length: d - e });
                }
            } else {
                let last = acc[acc.len() - 1];
                if last.offset > e {
                    // fully inside the already-cut region
                } else if last.offset > s {
                    let n = acc.len() - 1;
                    acc.set(n, UncutSegment { offset: e, length: d - e });
                } else {
                    let n = acc.len() - 1;
                    acc.set(n, UncutSegment { offset: last.offset, length: s - last.offset });
                    acc.push(UncutSegment { offset: e, length: d - e });
                }
            }
        }
        proof {
            assert(any_contributing(segments@.take(i + 1), d as int) == (contributing));
        }
        i = i + 1;
    }
    proof {
        assert(segments@.take(segments@.len() as int) =~= segments@);
    }
    if acc.len() == 0 {
        if contributing {
            return acc;
        }
        acc.push(UncutSegment { offset: 0, length: d });
        return acc;
    }
    if acc[acc.len() - 1].offset == d {
        acc.pop();
    }
    acc
}

/// The largest end time among a video's segments, the fallback working
/// duration when no submission reported one.
pub open spec fn max_end_time(segs: Seq<TrimmedSponsorTime>) -> int
    decreases segs.len(),
{
    if segs.len() == 0 {
        0
    } else {
        let rest = max_end_time(segs.drop_last());
        if segs.last().end_time as int > rest {
            segs.last().end_time as int
        } else {
            rest
        }
    }
}

fn compute_max_end_time(segs: &Vec<TrimmedSponsorTime>) -> (r: i64)
    ensures
        r as int == max_end_time(segs@),
        r >= 0,
{
    let mut r: i64 = 0;
    let mut i: usize = 0;
    while i < segs.len()
        invariant
            i <= segs@.len(),
            r as int == max_end_time(segs@.take(i as int)),
            r >= 0,
        decreases segs@.len() - i,
    {
        proof {
            assert(segs@.take(i + 1).drop_last() =~= segs@.take(i as int));
            assert(segs@.take(i + 1).last() == segs@[i as int]);
        }
        if segs[i].end_time > r {
            r = segs[i].end_time;
        }
        i = i + 1;
    }
    proof {
        assert(segs@.take(segs@.len() as int) =~= segs@);
    }
    r
}

/// The duration the uncut walk runs against: the reported one when positive,
/// otherwise the largest segment end; `None` when neither gives a positive
/// length, in which case the video has no derivable info.
pub open spec fn working_duration(dur: VideoDuration, segs: Seq<TrimmedSponsorTime>) -> Option<
    int,
> {
    if dur.video_duration > 0 {
        Some(dur.video_duration as int)
    } else if max_end_time(segs) > 0 {
        Some(max_end_time(segs))
    } else {
        None
    }
}

/// Assemble one video's info: sort its segments by start time and reduce
/// them. The reported duration is carried through as reported, even when the
/// walk had to fall back to the largest end time.
pub fn video_info_for(dur: &VideoDuration, segments: &mut Vec<TrimmedSponsorTime>) -> (r: Option<
    VideoInfo,
>)
    ensures
        final(segments)@.to_multiset() == old(segments)@.to_multiset(),
        sorted_by_key(final(segments)@),
        match r {
            Some(v) => {
                &&& working_duration(*dur, final(segments)@) is Some
                &&& v.uncut_duration as int == working_duration(*dur, final(segments)@).unwrap()
                &&& v.video_id == dur.video_id
                &&& v.video_duration == dur.video_duration
                &&& v.has_outro == dur.has_outro
                &&& v.uncut_segments@ == spec_reduce(final(segments)@, v.uncut_duration as int)
                &&& uncut_segments_wf(v.uncut_segments@, v.uncut_duration as int)
                &&& v.uncut_duration > 0
            },
            None => working_duration(*dur, final(segments)@) is None,
        },
{
    sort_by_key(segments);
    let duration: i64 = if dur.video_duration > 0 {
        dur.video_duration
    } else {
        let m = compute_max_end_time(segments);
        if m <= 0 {
            return None;
        }
        m
    };
    let uncut_segments = reduce_segments(segments, duration);
    Some(
        VideoInfo {
            video_id: dur.video_id.clone(),
            video_duration: dur.video_duration,
            uncut_duration: duration,
            uncut_segments,
            has_outro: dur.has_outro,
        },
    )
}

} // verus!
