//! The merged records a snapshot holds, their flag sets, their well-formedness
//! with respect to the interning pool, and the error taxonomy of the
//! ingestion pipeline.

use vstd::prelude::*;

verus! {

use crate::string_pool::{InternedString, StringSet, Dedupe};

#[derive(Clone, Copy, Debug, PartialEq, Eq, Structural)]
pub struct TitleFlags {
    pub original: bool,
    pub locked: bool,
    pub shadow_hidden: bool,
    pub unverified: bool,
    pub removed: bool,
}

#[derive(Clone, Copy, Debug, PartialEq, Eq, Structural)]
pub struct ThumbnailFlags {
    pub original: bool,
    pub locked: bool,
    pub shadow_hidden: bool,
    pub removed: bool,
}

/// A merged title submission.
pub struct Title {
    pub uuid: InternedString,
    pub video_id: InternedString,
    pub title: InternedString,
    pub user_id: InternedString,
    pub time_submitted: i64,
    pub votes: i8,
    pub downvotes: i8,
    pub flags: TitleFlags,
    pub hash_prefix: u16,
}

impl Title {
    /// Every shared string is backed by the pool.
    pub open spec fn interned(self, pool: StringSet) -> bool {
        &&& pool.is_interned(self.uuid)
        &&& pool.is_interned(self.video_id)
        &&& pool.is_interned(self.title)
        &&& pool.is_interned(self.user_id)
    }
}

impl Clone for Title {
    fn clone(&self) -> (r: Self)
        ensures
            r == *self,
    {
        Title {
            uuid: self.uuid.clone(),
            video_id: self.video_id.clone(),
            title: self.title.clone(),
            user_id: self.user_id.clone(),
            time_submitted: self.time_submitted,
            votes: self.votes,
            downvotes: self.downvotes,
            flags: self.flags,
            hash_prefix: self.hash_prefix,
        }
    }
}

impl Dedupe for Title {
    open spec fn deduped(self, updated: Self, set: StringSet) -> bool {
        &&& updated.uuid@ == self.uuid@
        &&& updated.video_id@ == self.video_id@
        &&& updated.title@ == self.title@
        &&& updated.user_id@ == self.user_id@
        &&& updated.time_submitted == self.time_submitted
        &&& updated.votes == self.votes
        &&& updated.downvotes == self.downvotes
        &&& updated.flags == self.flags
        &&& updated.hash_prefix == self.hash_prefix
        &&& updated.interned(set)
    }

    fn dedupe(&mut self, set: &mut StringSet) {
        set.dedupe_arc(&mut self.uuid);
        set.dedupe_arc(&mut self.title);
        set.dedupe_arc(&mut self.video_id);
        set.dedupe_arc(&mut self.user_id);
    }
}

/// A merged thumbnail submission; the timestamp is in microseconds and is
/// present whenever the thumbnail is not the video's original one.
pub struct Thumbnail {
    pub uuid: InternedString,
    pub video_id: InternedString,
    pub user_id: InternedString,
    pub time_submitted: i64,
    pub timestamp: Option<i64>,
    pub votes: i8,
    pub downvotes: i8,
    pub flags: ThumbnailFlags,
    pub hash_prefix: u16,
}

impl Thumbnail {
    pub open spec fn interned(self, pool: StringSet) -> bool {
        &&& pool.is_interned(self.uuid)
        &&& pool.is_interned(self.video_id)
        &&& pool.is_interned(self.user_id)
    }
}

impl Clone for Thumbnail {
    fn clone(&self) -> (r: Self)
        ensures
            r == *self,
    {
        Thumbnail {
            uuid: self.uuid.clone(),
            video_id: self.video_id.clone(),
            user_id: self.user_id.clone(),
            time_submitted: self.time_submitted,
            timestamp: self.timestamp,
            votes: self.votes,
            downvotes: self.downvotes,
            flags: self.flags,
            hash_prefix: self.hash_prefix,
        }
    }
}

impl Dedupe for Thumbnail {
    open spec fn deduped(self, updated: Self, set: StringSet) -> bool {
        &&& updated.uuid@ == self.uuid@
        &&& updated.video_id@ == self.video_id@
        &&& updated.user_id@ == self.user_id@
        &&& updated.time_submitted == self.time_submitted
        &&& updated.timestamp == self.timestamp
        &&& updated.votes == self.votes
        &&& updated.downvotes == self.downvotes
        &&& updated.flags == self.flags
        &&& updated.hash_prefix == self.hash_prefix
        &&& updated.interned(set)
    }

    fn dedupe(&mut self, set: &mut StringSet) {
        set.dedupe_arc(&mut self.uuid);
        set.dedupe_arc(&mut self.video_id);
        set.dedupe_arc(&mut self.user_id);
    }
}

/// A user's chosen display name.
pub struct Username {
    pub user_id: InternedString,
    pub username: InternedString,
    pub locked: bool,
}

impl Username {
    pub open spec fn interned(self, pool: StringSet) -> bool {
        &&& pool.is_interned(self.user_id)
        &&& pool.is_interned(self.username)
    }
}

impl Clone for Username {
    fn clone(&self) -> (r: Self)
        ensures
            r == *self,
    {
        Username {
            user_id: self.user_id.clone(),
            username: self.username.clone(),
            locked: self.locked,
        }
    }
}

impl Dedupe for Username {
    open spec fn deduped(self, updated: Self, set: StringSet) -> bool {
        &&& updated.user_id@ == self.user_id@
        &&& updated.username@ == self.username@
        &&& updated.locked == self.locked
        &&& updated.interned(set)
    }

    fn dedupe(&mut self, set: &mut StringSet) {
        set.dedupe_arc(&mut self.user_id);
        set.dedupe_arc(&mut self.username);
    }
}

/// A stretch of a video not covered by any skip segment. Both fields are in
/// microseconds of the video's working duration, so `offset / duration` and
/// `length / duration` are the fractions the dataset speaks of.
#[derive(Clone, Copy, Debug, PartialEq, Eq, Structural)]
pub struct UncutSegment {
    pub offset: i64,
    pub length: i64,
}

/// The segments lie inside `[0, duration]`, are sorted by offset, and are
/// pairwise disjoint (each ends no later than the next begins).
pub open spec fn uncut_segments_wf(s: Seq<UncutSegment>, duration: int) -> bool {
    &&& forall|k: int|
        0 <= k < s.len() ==> 0 <= #[trigger] s[k].offset && 0 <= s[k].length && s[k].offset
            + s[k].length <= duration
    &&& forall|k: int|
        0 <= k < s.len() - 1 ==> #[trigger] s[k].offset + s[k].length <= s[k + 1].offset
}

/// Total uncut length, in microseconds.
pub open spec fn uncut_length_sum(s: Seq<UncutSegment>) -> int
    decreases s.len(),
{
    if s.len() == 0 {
        0
    } else {
        uncut_length_sum(s.drop_last()) + s.last().length
    }
}

/// Disjoint sorted segments inside `[0, duration]` cover at most `duration`:
/// the sum of their lengths never exceeds the duration itself.
pub proof fn lemma_uncut_length_sum_bounded(s: Seq<UncutSegment>, duration: int)
    requires
        uncut_segments_wf(s, duration),
        duration >= 0,
    ensures
        0 <= uncut_length_sum(s) <= duration,
        s.len() > 0 ==> uncut_length_sum(s) <= duration - s[0].offset,
    decreases s.len(),
{
    if s.len() > 0 {
        let prefix = s.drop_last();
        assert(uncut_segments_wf(prefix, s.last().offset as int)) by {
            lemma_uncut_prefix_wf(s, duration);
        }
        lemma_uncut_length_sum_bounded(prefix, s.last().offset as int);
    }
}

/// A well-formed segment list, cut before its last element, is well formed
/// against that element's offset as the duration.
proof fn lemma_uncut_prefix_wf(s: Seq<UncutSegment>, duration: int)
    requires
        uncut_segments_wf(s, duration),
        s.len() > 0,
    ensures
        uncut_segments_wf(s.drop_last(), s.last().offset as int),
    decreases s.len(),
{
    let prefix = s.drop_last();
    if prefix.len() > 0 {
        assert forall|k: int| 0 <= k < prefix.len() implies 0 <= #[trigger] prefix[k].offset && 0
            <= prefix[k].length && prefix[k].offset + prefix[k].length <= s.last().offset by {
            lemma_uncut_chain(s, k, s.len() - 1);
        }
    }
}

/// Chained disjointness: an earlier segment ends no later than any later one
/// begins.
proof fn lemma_uncut_chain(s: Seq<UncutSegment>, k: int, l: int)
    requires
        forall|m: int|
            0 <= m < s.len() - 1 ==> #[trigger] s[m].offset + s[m].length <= s[m + 1].offset,
        forall|m: int|
            0 <= m < s.len() ==> 0 <= #[trigger] s[m].offset && 0 <= s[m].length,
        0 <= k < l < s.len(),
    ensures
        s[k].offset + s[k].length <= s[l].offset,
    decreases l - k,
{
    if k + 1 < l {
        lemma_uncut_chain(s, k + 1, l);
    }
}

/// What one video's sponsor segments reduce to.
pub struct VideoInfo {
    pub video_id: InternedString,
    /// The duration reported by the latest submission, in microseconds; kept
    /// as reported, even when it is zero and the working duration had to fall
    /// back to the largest end time.
    pub video_duration: i64,
    /// The duration the uncut segments are expressed against, in microseconds.
    pub uncut_duration: i64,
    pub uncut_segments: Vec<UncutSegment>,
    pub has_outro: bool,
}

impl VideoInfo {
    pub open spec fn wf(self, pool: StringSet) -> bool {
        &&& pool.is_interned(self.video_id)
        &&& self.uncut_duration > 0
        &&& uncut_segments_wf(self.uncut_segments@, self.uncut_duration as int)
    }
}

impl Clone for VideoInfo {
    fn clone(&self) -> (r: Self)
        ensures
            r.video_id == self.video_id,
            r.video_duration == self.video_duration,
            r.uncut_duration == self.uncut_duration,
            r.uncut_segments@ == self.uncut_segments@,
            r.has_outro == self.has_outro,
    {
        let mut segments: Vec<UncutSegment> = Vec::new();
        let mut i: usize = 0;
        while i < self.uncut_segments.len()
            invariant
                i <= self.uncut_segments@.len(),
                segments@ == self.uncut_segments@.take(i as int),
            decreases self.uncut_segments@.len() - i,
        {
            segments.push(self.uncut_segments[i]);
            proof {
                assert(segments@ =~= self.uncut_segments@.take(i + 1));
            }
            i = i + 1;
        }
        proof {
            assert(self.uncut_segments@.take(self.uncut_segments@.len() as int)
                =~= self.uncut_segments@);
        }
        VideoInfo {
            video_id: self.video_id.clone(),
            video_duration: self.video_duration,
            uncut_duration: self.uncut_duration,
            uncut_segments: segments,
            has_outro: self.has_outro,
        }
    }
}

/// Which object a row-level error is about.
#[derive(Clone, Copy, Debug, PartialEq, Eq, Structural)]
pub enum ObjectKind {
    Title,
    Thumbnail,
    Username,
}

/// The integer-coded boolean field that held an invalid value.
#[derive(Clone, Copy, Debug, PartialEq, Eq, Structural)]
pub enum FieldName {
    Original,
    Locked,
    ShadowHidden,
    Verification,
    Removed,
}

/// The auxiliary table a join failure is about.
#[derive(Clone, Copy, Debug, PartialEq, Eq, Structural)]
pub enum SubobjectKind {
    TitleVotes,
    ThumbnailVotes,
    ThumbnailTimestamps,
}

/// Why a row was dropped during merging.
pub enum ParseErrorKind {
    /// An integer-coded boolean was outside its permitted set.
    InvalidValue { uuid: InternedString, field: FieldName, value: i8 },
    /// A joined row carried a different UUID than the main row.
    MismatchedUUIDs {
        struct_name: SubobjectKind,
        uuid_main: InternedString,
        uuid_struct: InternedString,
    },
    /// The required auxiliary row was absent.
    MissingSubobject { struct_name: SubobjectKind, uuid: InternedString },
}

pub struct ParseError(pub ObjectKind, pub ParseErrorKind);

/// The table a load error came from.
#[derive(Clone, Copy, Debug, PartialEq, Eq, Structural)]
pub enum TableKind {
    Thumbnails,
    ThumbnailTimestamps,
    ThumbnailVotes,
    Titles,
    TitleVotes,
    Usernames,
    VipUsers,
    SponsorTimes,
}

/// A non-fatal error recorded while loading; the reload that produced it
/// still publishes a snapshot.
pub enum LoadError {
    /// The table's header lacks a required column, so none of its rows could
    /// be read.
    BadHeader { table: TableKind },
    /// One record could not be deserialized.
    Row { table: TableKind, record: usize },
    /// A row was dropped while merging.
    Parse(ParseError),
}

} // verus!
