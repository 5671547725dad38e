//! One ingestion pass: stream the eight CSV tables, intern every shared
//! string, join rows by UUID, reduce sponsor segments per video, and bucket
//! the derived video infos by hash prefix. The result is the immutable
//! in-memory dataset one reload publishes.

use vstd::prelude::*;

verus! {

use std::collections::HashMap;
use vstd::std_specs::hash::group_hash_axioms;
use crate::csv_io::{csv_records_of, read_csv};
use crate::csv_data;
use crate::csv_data::{TrimmedSponsorTime, VideoDuration};
use crate::string_pool::{InternedString, StringSet};
use crate::records::{Title, Thumbnail, Username, VideoInfo, LoadError, TableKind, ParseError,
    ParseErrorKind, ObjectKind, SubobjectKind};
use crate::sort::{SortKey, sort_by_key, sorted_by_key};
use crate::segments::video_info_for;

broadcast use group_hash_axioms;

/// The contents of the eight mirror tables, as read from the mirror
/// directory.
pub struct DBTables {
    pub thumbnails: String,
    pub thumbnail_timestamps: String,
    pub thumbnail_votes: String,
    pub titles: String,
    pub title_votes: String,
    pub usernames: String,
    pub vip_users: String,
    pub sponsor_times: String,
}

impl SortKey for Title {
    open spec fn spec_key(&self) -> int {
        self.time_submitted as int
    }

    fn key(&self) -> (r: i128)
        ensures
            r as int == self.spec_key(),
    {
        self.time_submitted as i128
    }
}

impl SortKey for Thumbnail {
    open spec fn spec_key(&self) -> int {
        self.time_submitted as int
    }

    fn key(&self) -> (r: i128)
        ensures
            r as int == self.spec_key(),
    {
        self.time_submitted as i128
    }
}

/// The map entry under key `k` has both of its strings held by a handle in
/// `handles`, so pruning keeps them.
pub open spec fn username_entry_held(
    map: Map<usize, Username>,
    handles: Seq<InternedString>,
    k: usize,
) -> bool {
    &&& exists|l: int|
        0 <= l < handles.len() && (#[trigger] handles[l]).spec_id() == map[k].user_id.spec_id()
    &&& exists|l: int|
        0 <= l < handles.len() && (#[trigger] handles[l]).spec_id() == map[k].username.spec_id()
}

/// Every entry of the username map has its strings held.
pub open spec fn usernames_held(map: Map<usize, Username>, handles: Seq<InternedString>) -> bool {
    forall|k: usize| map.dom().contains(k) ==> #[trigger] username_entry_held(map, handles, k)
}

/// One ingestion pass's dataset.
pub struct DearrowDB {
    pub titles: Vec<Title>,
    pub thumbnails: Vec<Thumbnail>,
    pub usernames: HashMap<usize, Username>,
    /// The holders that keep the username map's strings alive across pool
    /// pruning: one handle per string the map's values share.
    pub username_handles: Vec<InternedString>,
    pub vip_users: Vec<InternedString>,
    /// 65536 buckets; bucket `i` holds the VideoInfos filed under hash
    /// prefix `i`.
    pub video_infos: Vec<Vec<VideoInfo>>,
}

pub type LoadResult = (DearrowDB, Vec<LoadError>);

impl DearrowDB {
    /// Every record's shared strings are backed by `pool`, every non-original
    /// thumbnail carries a timestamp, the username map is keyed by its
    /// values' own user ids, and every bucketed video info is well formed.
    pub open spec fn wf(self, pool: StringSet) -> bool {
        &&& forall|i: int|
            0 <= i < self.titles@.len() ==> (#[trigger] self.titles@[i]).interned(pool)
        &&& forall|i: int|
            0 <= i < self.thumbnails@.len() ==> (#[trigger] self.thumbnails@[i]).interned(pool)
                && (!self.thumbnails@[i].flags.original ==> self.thumbnails@[i].timestamp is Some)
        &&& forall|k: usize|
            self.usernames@.dom().contains(k) ==> (#[trigger] self.usernames@[k]).interned(pool)
                && self.usernames@[k].user_id.spec_id() == k as int
        &&& usernames_held(self.usernames@, self.username_handles@)
        &&& forall|i: int|
            0 <= i < self.username_handles@.len() ==> pool.is_interned(
                #[trigger] self.username_handles@[i],
            )
        &&& forall|i: int|
            0 <= i < self.vip_users@.len() ==> pool.is_interned(#[trigger] self.vip_users@[i])
        &&& self.video_infos@.len() == 65536
        &&& forall|p: int, j: int|
            0 <= p < self.video_infos@.len() && 0 <= j < self.video_infos@[p]@.len()
                ==> (#[trigger] self.video_infos@[p]@[j]).wf(pool)
    }

    /// Sort titles and thumbnails by submission time, ascending. Everything
    /// else, and the records themselves, are unchanged.
    pub fn sort(&mut self)
        ensures
            sorted_by_key(final(self).titles@),
            sorted_by_key(final(self).thumbnails@),
            final(self).titles@.to_multiset() == old(self).titles@.to_multiset(),
            final(self).thumbnails@.to_multiset() == old(self).thumbnails@.to_multiset(),
            final(self).usernames == old(self).usernames,
            final(self).username_handles == old(self).username_handles,
            final(self).vip_users == old(self).vip_users,
            final(self).video_infos == old(self).video_infos,
            forall|pool: StringSet| old(self).wf(pool) ==> #[trigger] final(self).wf(pool),
    {
        sort_by_key(&mut self.titles);
        sort_by_key(&mut self.thumbnails);
        proof {
            broadcast use vstd::seq_lib::group_to_multiset_ensures;

            assert forall|pool: StringSet| old(self).wf(pool) implies #[trigger] self.wf(pool) by {
                assert forall|i: int| 0 <= i < self.titles@.len() implies (
                #[trigger] self.titles@[i]).interned(pool) by {
                    let x = self.titles@[i];
                    assert(self.titles@.contains(x));
                    assert(self.titles@.to_multiset().count(x) > 0);
                    assert(old(self).titles@.to_multiset().count(x) > 0);
                    assert(old(self).titles@.contains(x));
                    let j = choose|j: int|
                        0 <= j < old(self).titles@.len() && old(self).titles@[j] == x;
                    assert(old(self).titles@[j].interned(pool));
                }
                assert forall|i: int| 0 <= i < self.thumbnails@.len() implies (
                #[trigger] self.thumbnails@[i]).interned(pool) && (!self.thumbnails@[i].flags.original
                    ==> self.thumbnails@[i].timestamp is Some) by {
                    let x = self.thumbnails@[i];
                    assert(self.thumbnails@.contains(x));
                    assert(self.thumbnails@.to_multiset().count(x) > 0);
                    assert(old(self).thumbnails@.to_multiset().count(x) > 0);
                    assert(old(self).thumbnails@.contains(x));
                    let j = choose|j: int|
                        0 <= j < old(self).thumbnails@.len() && old(self).thumbnails@[j] == x;
                    assert(old(self).thumbnails@[j].interned(pool));
                    assert(!old(self).thumbnails@[j].flags.original ==> old(
                        self,
                    ).thumbnails@[j].timestamp is Some);
                }
            }
        }
    }

    /// The first position at or after `from` whose video id handle has the
    /// given pool index.
    pub open spec fn bucket_find(bucket: Seq<VideoInfo>, id: int, from: int) -> Option<int>
        decreases bucket.len() - from,
    {
        if from < 0 || from >= bucket.len() {
            None
        } else if bucket[from].video_id.spec_id() == id {
            Some(from)
        } else {
            Self::bucket_find(bucket, id, from + 1)
        }
    }

    /// The first position at or after `from` whose video id holds exactly
    /// the given text.
    pub open spec fn bucket_find_text(bucket: Seq<VideoInfo>, text: Seq<char>, from: int) -> Option<
        int,
    >
        decreases bucket.len() - from,
    {
        if from < 0 || from >= bucket.len() {
            None
        } else if bucket[from].video_id@ == text {
            Some(from)
        } else {
            Self::bucket_find_text(bucket, text, from + 1)
        }
    }

    /// Find a video's derived info: scan the bucket its recomputed hash
    /// prefix names, comparing interned video ids by index. The result is the
    /// first entry of that bucket whose video id is the same pooled string,
    /// if any.
    pub fn get_video_info(&self, video_id: &InternedString) -> (r: Option<&VideoInfo>)
        requires
            self.video_infos@.len() == 65536,
        ensures
            ({
                let bucket =
                    self.video_infos@[crate::hashing::hash_prefix_of(
                    vstd::utf8::encode_utf8(video_id@),
                )]@;
                match r {
                    Some(v) => {
                        &&& Self::bucket_find(bucket, video_id.spec_id(), 0) is Some
                        &&& *v == bucket[Self::bucket_find(bucket, video_id.spec_id(), 0).unwrap()]
                    },
                    None => Self::bucket_find(bucket, video_id.spec_id(), 0) is None,
                }
            }),
    {
        let prefix = crate::hashing::compute_hashprefix(video_id.as_str());
        proof {
            assert(prefix as int == crate::hashing::hash_prefix_of(
                vstd::utf8::encode_utf8(video_id@),
            ));
        }
        let bucket: &Vec<VideoInfo> = &self.video_infos[prefix as usize];
        let mut j: usize = 0;
        while j < bucket.len()
            invariant
                j <= bucket@.len(),
                bucket@ == self.video_infos@[crate::hashing::hash_prefix_of(
                    vstd::utf8::encode_utf8(video_id@),
                )]@,
                Self::bucket_find(bucket@, video_id.spec_id(), 0) == Self::bucket_find(
                    bucket@,
                    video_id.spec_id(),
                    j as int,
                ),
            decreases bucket@.len() - j,
        {
            if InternedString::ptr_eq(&bucket[j].video_id, video_id) {
                proof {
                    assert(Self::bucket_find(bucket@, video_id.spec_id(), j as int) == Some(
                        j as int,
                    ));
                    assert(Self::bucket_find(bucket@, video_id.spec_id(), 0) == Some(j as int));
                    assert(bucket@ == self.video_infos@[crate::hashing::hash_prefix_of(
                        vstd::utf8::encode_utf8(video_id@),
                    )]@);
                }
                return Some(&bucket[j]);
            }
            j = j + 1;
        }
        None
    }
}

/// The plain contents of a merged title.
pub struct TitleData {
    pub uuid: Seq<char>,
    pub video_id: Seq<char>,
    pub title: Seq<char>,
    pub user_id: Seq<char>,
    pub time_submitted: i64,
    pub votes: i8,
    pub downvotes: i8,
    pub flags: crate::records::TitleFlags,
    pub hash_prefix: u16,
}

pub open spec fn title_data(t: Title) -> TitleData {
    TitleData {
        uuid: t.uuid@,
        video_id: t.video_id@,
        title: t.title@,
        user_id: t.user_id@,
        time_submitted: t.time_submitted,
        votes: t.votes,
        downvotes: t.downvotes,
        flags: t.flags,
        hash_prefix: t.hash_prefix,
    }
}

/// What merging a parsed title row with its votes row yields, over plain
/// contents: `None` exactly when an integer-coded boolean is invalid.
pub open spec fn spec_merge_title_data(
    rv: csv_data::TitleRowData,
    vv: csv_data::TitleVotesRowData,
) -> Option<TitleData> {
    if rv.uuid != vv.uuid {
        None
    } else if !(rv.original == 0 || rv.original == 1) {
        None
    } else if !(vv.locked == 0 || vv.locked == 1) {
        None
    } else if !(vv.shadow_hidden == 0 || vv.shadow_hidden == 1) {
        None
    } else if !(vv.verification == 0 || vv.verification == -1) {
        None
    } else if !(vv.removed == 0 || vv.removed == 1) {
        None
    } else {
        Some(
            TitleData {
                uuid: rv.uuid,
                video_id: rv.video_id,
                title: rv.title,
                user_id: rv.user_id,
                time_submitted: rv.time_submitted,
                votes: vv.votes,
                downvotes: vv.downvotes,
                flags: crate::records::TitleFlags {
                    original: rv.original == 1,
                    locked: vv.locked == 1,
                    shadow_hidden: vv.shadow_hidden == 1,
                    unverified: vv.verification == -1,
                    removed: vv.removed == 1,
                },
                hash_prefix: crate::merge::spec_row_hash_prefix(
                    rv.hashed_video_id,
                    rv.video_id,
                ) as u16,
            },
        )
    }
}

/// The votes map after folding the table's first `upto` records, keyed by
/// UUID text — a later record for the same UUID replaces an earlier one —
/// together with one error per unreadable record.
pub open spec fn spec_title_votes_fold(
    records: Seq<Option<Seq<Seq<char>>>>,
    cols: csv_data::TitleVotesColumns,
    upto: int,
) -> (Map<Seq<char>, csv_data::TitleVotesRowData>, int)
    decreases upto,
{
    if upto <= 1 {
        (Map::empty(), 0)
    } else {
        let (m, e) = spec_title_votes_fold(records, cols, upto - 1);
        match records[upto - 1] {
            None => (m, e + 1),
            Some(fields) => match csv_data::spec_title_votes_row(fields, cols) {
                None => (m, e + 1),
                Some(rv) => (m.insert(rv.uuid, rv), e),
            },
        }
    }
}

/// What the whole titleVotes table yields: its map and its error count. A
/// missing or column-deficient header makes the whole table one error.
pub open spec fn spec_title_votes_table(records: Seq<Option<Seq<Seq<char>>>>) -> (
    Map<Seq<char>, csv_data::TitleVotesRowData>,
    int,
) {
    if records.len() == 0 {
        (Map::empty(), 0)
    } else {
        match records[0] {
            None => (Map::empty(), 1),
            Some(header) => match csv_data::TitleVotesColumns::spec_find(header) {
                None => (Map::empty(), 1),
                Some(cols) => spec_title_votes_fold(records, cols, records.len() as int),
            },
        }
    }
}

/// The merged titles after folding the table's first `upto` records against
/// the votes map: one error per record that is unreadable, fails parsing,
/// lacks a votes row, or fails merging; one merged title per good record, in
/// order.
pub open spec fn spec_titles_fold(
    records: Seq<Option<Seq<Seq<char>>>>,
    cols: csv_data::TitleColumns,
    votes: Map<Seq<char>, csv_data::TitleVotesRowData>,
    upto: int,
) -> (Seq<TitleData>, int)
    decreases upto,
{
    if upto <= 1 {
        (Seq::empty(), 0)
    } else {
        let (ts, e) = spec_titles_fold(records, cols, votes, upto - 1);
        match records[upto - 1] {
            None => (ts, e + 1),
            Some(fields) => match csv_data::spec_title_row(fields, cols) {
                None => (ts, e + 1),
                Some(rv) => if !votes.dom().contains(rv.uuid) {
                    (ts, e + 1)
                } else {
                    match spec_merge_title_data(rv, votes[rv.uuid]) {
                        None => (ts, e + 1),
                        Some(td) => (ts.push(td), e),
                    }
                },
            },
        }
    }
}

/// What the whole titles table yields against the votes map.
pub open spec fn spec_titles_table(
    records: Seq<Option<Seq<Seq<char>>>>,
    votes: Map<Seq<char>, csv_data::TitleVotesRowData>,
) -> (Seq<TitleData>, int) {
    if records.len() == 0 {
        (Seq::empty(), 0)
    } else {
        match records[0] {
            None => (Seq::empty(), 1),
            Some(header) => match csv_data::TitleColumns::spec_find(header) {
                None => (Seq::empty(), 1),
                Some(cols) => spec_titles_fold(records, cols, votes, records.len() as int),
            },
        }
    }
}

/// The executable id-keyed votes map agrees with the text-keyed one: every
/// entry is pooled and carries its spec counterpart, and every specified UUID
/// has an entry.
pub open spec fn title_votes_models(
    m: Map<usize, csv_data::TitleVotes>,
    s: Map<Seq<char>, csv_data::TitleVotesRowData>,
    pool: StringSet,
) -> bool {
    &&& forall|k: usize|
        m.dom().contains(k) ==> pool.is_interned((#[trigger] m[k]).uuid) && m[k].uuid.spec_id()
            == k as int && s.dom().contains(m[k].uuid@) && s[m[k].uuid@]
            == csv_data::title_votes_row_data(m[k])
    &&& forall|t: Seq<char>|
        s.dom().contains(t) ==> exists|k: usize| #[trigger] m.dom().contains(k) && m[k].uuid@ == t
}

/// Inserting one pooled votes row keeps the id-keyed map agreeing with the
/// text-keyed one.
proof fn lemma_votes_insert_step(
    m_old: Map<usize, csv_data::TitleVotes>,
    m_new: Map<usize, csv_data::TitleVotes>,
    s_old: Map<Seq<char>, csv_data::TitleVotesRowData>,
    row: csv_data::TitleVotes,
    key: usize,
    pool: StringSet,
)
    requires
        pool.inv(),
        title_votes_models(m_old, s_old, pool),
        pool.is_interned(row.uuid),
        key as int == row.uuid.spec_id(),
        m_new == m_old.insert(key, row),
    ensures
        title_votes_models(
            m_new,
            s_old.insert(row.uuid@, csv_data::title_votes_row_data(row)),
            pool,
        ),
{
    let s_new = s_old.insert(row.uuid@, csv_data::title_votes_row_data(row));
    assert forall|k: usize| m_new.dom().contains(k) implies pool.is_interned(
        (#[trigger] m_new[k]).uuid,
    ) && m_new[k].uuid.spec_id() == k as int && s_new.dom().contains(m_new[k].uuid@)
        && s_new[m_new[k].uuid@] == csv_data::title_votes_row_data(m_new[k]) by {
        if k != key {
            assert(m_new[k] == m_old[k]);
            pool.lemma_interned_handle_eq(m_old[k].uuid, row.uuid);
        }
    }
    assert forall|t: Seq<char>| s_new.dom().contains(t) implies exists|k: usize|
        #[trigger] m_new.dom().contains(k) && m_new[k].uuid@ == t by {
        if t == row.uuid@ {
            assert(m_new.dom().contains(key) && m_new[key].uuid@ == t);
        } else {
            let k0 = choose|k: usize| #[trigger] m_old.dom().contains(k) && m_old[k].uuid@ == t;
            pool.lemma_interned_handle_eq(m_old[k0].uuid, row.uuid);
            assert(m_new.dom().contains(k0) && m_new[k0].uuid@ == t);
        }
    }
}

/// Pool growth keeps the agreement: interned handles stay interned.
proof fn lemma_votes_models_extend(
    m: Map<usize, csv_data::TitleVotes>,
    s: Map<Seq<char>, csv_data::TitleVotesRowData>,
    older: StringSet,
    newer: StringSet,
)
    requires
        title_votes_models(m, s, older),
        newer.extends(older),
    ensures
        title_votes_models(m, s, newer),
{
}

/// The plain contents of a merged thumbnail.
pub struct ThumbnailData {
    pub uuid: Seq<char>,
    pub video_id: Seq<char>,
    pub user_id: Seq<char>,
    pub time_submitted: i64,
    pub timestamp: Option<i64>,
    pub votes: i8,
    pub downvotes: i8,
    pub flags: crate::records::ThumbnailFlags,
    pub hash_prefix: u16,
}

pub open spec fn thumbnail_data(t: Thumbnail) -> ThumbnailData {
    ThumbnailData {
        uuid: t.uuid@,
        video_id: t.video_id@,
        user_id: t.user_id@,
        time_submitted: t.time_submitted,
        timestamp: t.timestamp,
        votes: t.votes,
        downvotes: t.downvotes,
        flags: t.flags,
        hash_prefix: t.hash_prefix,
    }
}

/// What merging a parsed thumbnail row with its optional timestamp row and
/// its votes row yields, over plain contents: `None` exactly when an
/// integer-coded boolean is invalid or a non-original row lacks a timestamp.
pub open spec fn spec_merge_thumbnail_data(
    rv: csv_data::ThumbnailRowData,
    ts: Option<csv_data::ThumbnailTimestampsRowData>,
    vv: csv_data::ThumbnailVotesRowData,
) -> Option<ThumbnailData> {
    if ts is Some && rv.uuid != ts.unwrap().uuid {
        None
    } else if rv.uuid != vv.uuid {
        None
    } else if !(rv.original == 0 || rv.original == 1) {
        None
    } else if !(vv.locked == 0 || vv.locked == 1) {
        None
    } else if !(vv.shadow_hidden == 0 || vv.shadow_hidden == 1) {
        None
    } else if !(vv.removed == 0 || vv.removed == 1) {
        None
    } else if rv.original != 1 && ts is None {
        None
    } else {
        Some(
            ThumbnailData {
                uuid: rv.uuid,
                video_id: rv.video_id,
                user_id: rv.user_id,
                time_submitted: rv.time_submitted,
                timestamp: match ts {
                    Some(t) => Some(t.timestamp),
                    None => None,
                },
                votes: vv.votes,
                downvotes: vv.downvotes,
                flags: crate::records::ThumbnailFlags {
                    original: rv.original == 1,
                    locked: vv.locked == 1,
                    shadow_hidden: vv.shadow_hidden == 1,
                    removed: vv.removed == 1,
                },
                hash_prefix: crate::merge::spec_row_hash_prefix(
                    rv.hashed_video_id,
                    rv.video_id,
                ) as u16,
            },
        )
    }
}

/// The thumbnail votes map after folding the table's first `upto` records.
pub open spec fn spec_thumbnail_votes_fold(
    records: Seq<Option<Seq<Seq<char>>>>,
    cols: csv_data::ThumbnailVotesColumns,
    upto: int,
) -> (Map<Seq<char>, csv_data::ThumbnailVotesRowData>, int)
    decreases upto,
{
    if upto <= 1 {
        (Map::empty(), 0)
    } else {
        let (m, e) = spec_thumbnail_votes_fold(records, cols, upto - 1);
        match records[upto - 1] {
            None => (m, e + 1),
            Some(fields) => match csv_data::spec_thumbnail_votes_row(fields, cols) {
                None => (m, e + 1),
                Some(rv) => (m.insert(rv.uuid, rv), e),
            },
        }
    }
}

/// What the whole thumbnailVotes table yields.
pub open spec fn spec_thumbnail_votes_table(records: Seq<Option<Seq<Seq<char>>>>) -> (
    Map<Seq<char>, csv_data::ThumbnailVotesRowData>,
    int,
) {
    if records.len() == 0 {
        (Map::empty(), 0)
    } else {
        match records[0] {
            None => (Map::empty(), 1),
            Some(header) => match csv_data::ThumbnailVotesColumns::spec_find(header) {
                None => (Map::empty(), 1),
                Some(cols) => spec_thumbnail_votes_fold(records, cols, records.len() as int),
            },
        }
    }
}

/// The timestamps map after folding the table's first `upto` records.
pub open spec fn spec_thumbnail_timestamps_fold(
    records: Seq<Option<Seq<Seq<char>>>>,
    cols: csv_data::ThumbnailTimestampsColumns,
    upto: int,
) -> (Map<Seq<char>, csv_data::ThumbnailTimestampsRowData>, int)
    decreases upto,
{
    if upto <= 1 {
        (Map::empty(), 0)
    } else {
        let (m, e) = spec_thumbnail_timestamps_fold(records, cols, upto - 1);
        match records[upto - 1] {
            None => (m, e + 1),
            Some(fields) => match csv_data::spec_thumbnail_timestamps_row(fields, cols) {
                None => (m, e + 1),
                Some(rv) => (m.insert(rv.uuid, rv), e),
            },
        }
    }
}

/// What the whole thumbnailTimestamps table yields.
pub open spec fn spec_thumbnail_timestamps_table(records: Seq<Option<Seq<Seq<char>>>>) -> (
    Map<Seq<char>, csv_data::ThumbnailTimestampsRowData>,
    int,
) {
    if records.len() == 0 {
        (Map::empty(), 0)
    } else {
        match records[0] {
            None => (Map::empty(), 1),
            Some(header) => match csv_data::ThumbnailTimestampsColumns::spec_find(header) {
                None => (Map::empty(), 1),
                Some(cols) => spec_thumbnail_timestamps_fold(records, cols, records.len() as int),
            },
        }
    }
}

/// The merged thumbnails after folding the table's first `upto` records
/// against the timestamps and votes maps.
pub open spec fn spec_thumbnails_fold(
    records: Seq<Option<Seq<Seq<char>>>>,
    cols: csv_data::ThumbnailColumns,
    tsmap: Map<Seq<char>, csv_data::ThumbnailTimestampsRowData>,
    votes: Map<Seq<char>, csv_data::ThumbnailVotesRowData>,
    upto: int,
) -> (Seq<ThumbnailData>, int)
    decreases upto,
{
    if upto <= 1 {
        (Seq::empty(), 0)
    } else {
        let (ts, e) = spec_thumbnails_fold(records, cols, tsmap, votes, upto - 1);
        match records[upto - 1] {
            None => (ts, e + 1),
            Some(fields) => match csv_data::spec_thumbnail_row(fields, cols) {
                None => (ts, e + 1),
                Some(rv) => if !votes.dom().contains(rv.uuid) {
                    (ts, e + 1)
                } else {
                    let tsrow = if tsmap.dom().contains(rv.uuid) {
                        Some(tsmap[rv.uuid])
                    } else {
                        None
                    };
                    match spec_merge_thumbnail_data(rv, tsrow, votes[rv.uuid]) {
                        None => (ts, e + 1),
                        Some(td) => (ts.push(td), e),
                    }
                },
            },
        }
    }
}

/// What the whole thumbnails table yields against its two side tables.
pub open spec fn spec_thumbnails_table(
    records: Seq<Option<Seq<Seq<char>>>>,
    tsmap: Map<Seq<char>, csv_data::ThumbnailTimestampsRowData>,
    votes: Map<Seq<char>, csv_data::ThumbnailVotesRowData>,
) -> (Seq<ThumbnailData>, int) {
    if records.len() == 0 {
        (Seq::empty(), 0)
    } else {
        match records[0] {
            None => (Seq::empty(), 1),
            Some(header) => match csv_data::ThumbnailColumns::spec_find(header) {
                None => (Seq::empty(), 1),
                Some(cols) => spec_thumbnails_fold(records, cols, tsmap, votes, records.len() as int),
            },
        }
    }
}

/// The executable id-keyed thumbnail votes map agrees with the text-keyed one.
pub open spec fn thumbnail_votes_models(
    m: Map<usize, csv_data::ThumbnailVotes>,
    s: Map<Seq<char>, csv_data::ThumbnailVotesRowData>,
    pool: StringSet,
) -> bool {
    &&& forall|k: usize|
        m.dom().contains(k) ==> pool.is_interned((#[trigger] m[k]).uuid) && m[k].uuid.spec_id()
            == k as int && s.dom().contains(m[k].uuid@) && s[m[k].uuid@]
            == csv_data::thumbnail_votes_row_data(m[k])
    &&& forall|t: Seq<char>|
        s.dom().contains(t) ==> exists|k: usize| #[trigger] m.dom().contains(k) && m[k].uuid@ == t
}

proof fn lemma_thumbnail_votes_insert_step(
    m_old: Map<usize, csv_data::ThumbnailVotes>,
    m_new: Map<usize, csv_data::ThumbnailVotes>,
    s_old: Map<Seq<char>, csv_data::ThumbnailVotesRowData>,
    row: csv_data::ThumbnailVotes,
    key: usize,
    pool: StringSet,
)
    requires
        pool.inv(),
        thumbnail_votes_models(m_old, s_old, pool),
        pool.is_interned(row.uuid),
        key as int == row.uuid.spec_id(),
        m_new == m_old.insert(key, row),
    ensures
        thumbnail_votes_models(
            m_new,
            s_old.insert(row.uuid@, csv_data::thumbnail_votes_row_data(row)),
            pool,
        ),
{
    let s_new = s_old.insert(row.uuid@, csv_data::thumbnail_votes_row_data(row));
    assert forall|k: usize| m_new.dom().contains(k) implies pool.is_interned(
        (#[trigger] m_new[k]).uuid,
    ) && m_new[k].uuid.spec_id() == k as int && s_new.dom().contains(m_new[k].uuid@)
        && s_new[m_new[k].uuid@] == csv_data::thumbnail_votes_row_data(m_new[k]) by {
        if k != key {
            assert(m_new[k] == m_old[k]);
            pool.lemma_interned_handle_eq(m_old[k].uuid, row.uuid);
        }
    }
    assert forall|t: Seq<char>| s_new.dom().contains(t) implies exists|k: usize|
        #[trigger] m_new.dom().contains(k) && m_new[k].uuid@ == t by {
        if t == row.uuid@ {
            assert(m_new.dom().contains(key) && m_new[key].uuid@ == t);
        } else {
            let k0 = choose|k: usize| #[trigger] m_old.dom().contains(k) && m_old[k].uuid@ == t;
            pool.lemma_interned_handle_eq(m_old[k0].uuid, row.uuid);
            assert(m_new.dom().contains(k0) && m_new[k0].uuid@ == t);
        }
    }
}

proof fn lemma_thumbnail_votes_models_extend(
    m: Map<usize, csv_data::ThumbnailVotes>,
    s: Map<Seq<char>, csv_data::ThumbnailVotesRowData>,
    older: StringSet,
    newer: StringSet,
)
    requires
        thumbnail_votes_models(m, s, older),
        newer.extends(older),
    ensures
        thumbnail_votes_models(m, s, newer),
{
}

/// The executable id-keyed timestamps map agrees with the text-keyed one.
pub open spec fn thumbnail_timestamps_models(
    m: Map<usize, csv_data::ThumbnailTimestamps>,
    s: Map<Seq<char>, csv_data::ThumbnailTimestampsRowData>,
    pool: StringSet,
) -> bool {
    &&& forall|k: usize|
        m.dom().contains(k) ==> pool.is_interned((#[trigger] m[k]).uuid) && m[k].uuid.spec_id()
            == k as int && s.dom().contains(m[k].uuid@) && s[m[k].uuid@]
            == csv_data::thumbnail_timestamps_row_data(m[k])
    &&& forall|t: Seq<char>|
        s.dom().contains(t) ==> exists|k: usize| #[trigger] m.dom().contains(k) && m[k].uuid@ == t
}

proof fn lemma_thumbnail_timestamps_insert_step(
    m_old: Map<usize, csv_data::ThumbnailTimestamps>,
    m_new: Map<usize, csv_data::ThumbnailTimestamps>,
    s_old: Map<Seq<char>, csv_data::ThumbnailTimestampsRowData>,
    row: csv_data::ThumbnailTimestamps,
    key: usize,
    pool: StringSet,
)
    requires
        pool.inv(),
        thumbnail_timestamps_models(m_old, s_old, pool),
        pool.is_interned(row.uuid),
        key as int == row.uuid.spec_id(),
        m_new == m_old.insert(key, row),
    ensures
        thumbnail_timestamps_models(
            m_new,
            s_old.insert(row.uuid@, csv_data::thumbnail_timestamps_row_data(row)),
            pool,
        ),
{
    let s_new = s_old.insert(row.uuid@, csv_data::thumbnail_timestamps_row_data(row));
    assert forall|k: usize| m_new.dom().contains(k) implies pool.is_interned(
        (#[trigger] m_new[k]).uuid,
    ) && m_new[k].uuid.spec_id() == k as int && s_new.dom().contains(m_new[k].uuid@)
        && s_new[m_new[k].uuid@] == csv_data::thumbnail_timestamps_row_data(m_new[k]) by {
        if k != key {
            assert(m_new[k] == m_old[k]);
            pool.lemma_interned_handle_eq(m_old[k].uuid, row.uuid);
        }
    }
    assert forall|t: Seq<char>| s_new.dom().contains(t) implies exists|k: usize|
        #[trigger] m_new.dom().contains(k) && m_new[k].uuid@ == t by {
        if t == row.uuid@ {
            assert(m_new.dom().contains(key) && m_new[key].uuid@ == t);
        } else {
            let k0 = choose|k: usize| #[trigger] m_old.dom().contains(k) && m_old[k].uuid@ == t;
            pool.lemma_interned_handle_eq(m_old[k0].uuid, row.uuid);
            assert(m_new.dom().contains(k0) && m_new[k0].uuid@ == t);
        }
    }
}

proof fn lemma_thumbnail_timestamps_models_extend(
    m: Map<usize, csv_data::ThumbnailTimestamps>,
    s: Map<Seq<char>, csv_data::ThumbnailTimestampsRowData>,
    older: StringSet,
    newer: StringSet,
)
    requires
        thumbnail_timestamps_models(m, s, older),
        newer.extends(older),
    ensures
        thumbnail_timestamps_models(m, s, newer),
{
}

/// Load the map of thumbnail timestamp rows, keyed by interned UUID index:
/// exactly the text-keyed fold of the table's records, with one recorded
/// error per unreadable record.
#[verifier::rlimit(60)]
pub fn load_thumbnail_timestamps(text: &str, pool: &mut StringSet, errors: &mut Vec<LoadError>) -> (r:
    HashMap<usize, csv_data::ThumbnailTimestamps>)
    ensures
        final(pool).extends(*old(pool)),
        thumbnail_timestamps_models(
            r@,
            spec_thumbnail_timestamps_table(csv_records_of(text@)).0,
            *final(pool),
        ),
        final(errors)@.len() == old(errors)@.len() + spec_thumbnail_timestamps_table(
            csv_records_of(text@),
        ).1,
        old(errors)@.len() <= final(errors)@.len(),
        forall|j: int| 0 <= j < old(errors)@.len() ==> final(errors)@[j] == old(errors)@[j],
{
    let records = read_csv(text);
    let mut map: HashMap<usize, csv_data::ThumbnailTimestamps> = HashMap::new();
    if records.len() == 0 {
        return map;
    }
    let cols = match &records[0] {
        Some(header) => match csv_data::ThumbnailTimestampsColumns::find(header) {
            Some(c) => c,
            None => {
                errors.push(LoadError::BadHeader { table: TableKind::ThumbnailTimestamps });
                return map;
            },
        },
        None => {
            errors.push(LoadError::BadHeader { table: TableKind::ThumbnailTimestamps });
            return map;
        },
    };
    proof {
        assert(csv_records_of(text@)[0] == records.deep_view()[0]);
    }
    let mut i: usize = 1;
    while i < records.len()
        invariant
            1 <= i <= records@.len(),
            pool.extends(*old(pool)),
            records.deep_view() == csv_records_of(text@),
            records@.len() == records.deep_view().len(),
            csv_records_of(text@).len() > 0,
            csv_records_of(text@)[0] is Some,
            csv_data::ThumbnailTimestampsColumns::spec_find(csv_records_of(text@)[0].unwrap())
                == Some(cols),
            thumbnail_timestamps_models(
                map@,
                spec_thumbnail_timestamps_fold(csv_records_of(text@), cols, i as int).0,
                *pool,
            ),
            errors@.len() == old(errors)@.len() + spec_thumbnail_timestamps_fold(
                csv_records_of(text@),
                cols,
                i as int,
            ).1,
            old(errors)@.len() <= errors@.len(),
            forall|j: int| 0 <= j < old(errors)@.len() ==> errors@[j] == old(errors)@[j],
        decreases records@.len() - i,
    {
        let ghost srecords = csv_records_of(text@);
        let ghost pre = spec_thumbnail_timestamps_fold(srecords, cols, i as int);
        let ghost post = spec_thumbnail_timestamps_fold(srecords, cols, i + 1);
        proof {
            assert(srecords[i as int] == records.deep_view()[i as int]);
        }
        match &records[i] {
            None => {
                errors.push(LoadError::Row { table: TableKind::ThumbnailTimestamps, record: i });
                proof {
                    assert(post == (pre.0, pre.1 + 1));
                }
            },
            Some(fields) => {
                proof {
                    assert(srecords[i as int] == Some(fields.deep_view()));
                }
                match csv_data::ThumbnailTimestamps::parse(fields, &cols) {
                    None => {
                        errors.push(
                            LoadError::Row { table: TableKind::ThumbnailTimestamps, record: i },
                        );
                        proof {
                            assert(post == (pre.0, pre.1 + 1));
                        }
                    },
                    Some(mut row) => {
                        let ghost rv = csv_data::spec_thumbnail_timestamps_row(
                            fields.deep_view(),
                            cols,
                        ).unwrap();
                        let ghost pool_pre = *pool;
                        row.dedupe_strings(pool);
                        proof {
                            assert(csv_data::thumbnail_timestamps_row_data(row) == rv);
                        }
                        let key = row.uuid.id();
                        let ghost m_old = map@;
                        map.insert(key, row);
                        proof {
                            use_type_invariant(&*pool);
                            assert(post.0 == pre.0.insert(rv.uuid, rv) && post.1 == pre.1);
                            lemma_thumbnail_timestamps_models_extend(m_old, pre.0, pool_pre, *pool);
                            lemma_thumbnail_timestamps_insert_step(m_old, map@, pre.0, row, key, *pool);
                        }
                    },
                }
            },
        }
        i = i + 1;
    }
    proof {
        assert(spec_thumbnail_timestamps_table(csv_records_of(text@))
            == spec_thumbnail_timestamps_fold(
            csv_records_of(text@),
            cols,
            csv_records_of(text@).len() as int,
        ));
    }
    map
}

/// Load the map of thumbnail vote rows, keyed by interned UUID index:
/// exactly the text-keyed fold of the table's records, with one recorded
/// error per unreadable record.
#[verifier::rlimit(60)]
pub fn load_thumbnail_votes(text: &str, pool: &mut StringSet, errors: &mut Vec<LoadError>) -> (r:
    HashMap<usize, csv_data::ThumbnailVotes>)
    ensures
        final(pool).extends(*old(pool)),
        thumbnail_votes_models(
            r@,
            spec_thumbnail_votes_table(csv_records_of(text@)).0,
            *final(pool),
        ),
        final(errors)@.len() == old(errors)@.len() + spec_thumbnail_votes_table(
            csv_records_of(text@),
        ).1,
        old(errors)@.len() <= final(errors)@.len(),
        forall|j: int| 0 <= j < old(errors)@.len() ==> final(errors)@[j] == old(errors)@[j],
{
    let records = read_csv(text);
    let mut map: HashMap<usize, csv_data::ThumbnailVotes> = HashMap::new();
    if records.len() == 0 {
        return map;
    }
    let cols = match &records[0] {
        Some(header) => match csv_data::ThumbnailVotesColumns::find(header) {
            Some(c) => c,
            None => {
                errors.push(LoadError::BadHeader { table: TableKind::ThumbnailVotes });
                return map;
            },
        },
        None => {
            errors.push(LoadError::BadHeader { table: TableKind::ThumbnailVotes });
            return map;
        },
    };
    proof {
        assert(csv_records_of(text@)[0] == records.deep_view()[0]);
    }
    let mut i: usize = 1;
    while i < records.len()
        invariant
            1 <= i <= records@.len(),
            pool.extends(*old(pool)),
            records.deep_view() == csv_records_of(text@),
            records@.len() == records.deep_view().len(),
            csv_records_of(text@).len() > 0,
            csv_records_of(text@)[0] is Some,
            csv_data::ThumbnailVotesColumns::spec_find(csv_records_of(text@)[0].unwrap()) == Some(
                cols,
            ),
            thumbnail_votes_models(
                map@,
                spec_thumbnail_votes_fold(csv_records_of(text@), cols, i as int).0,
                *pool,
            ),
            errors@.len() == old(errors)@.len() + spec_thumbnail_votes_fold(
                csv_records_of(text@),
                cols,
                i as int,
            ).1,
            old(errors)@.len() <= errors@.len(),
            forall|j: int| 0 <= j < old(errors)@.len() ==> errors@[j] == old(errors)@[j],
        decreases records@.len() - i,
    {
        let ghost srecords = csv_records_of(text@);
        let ghost pre = spec_thumbnail_votes_fold(srecords, cols, i as int);
        let ghost post = spec_thumbnail_votes_fold(srecords, cols, i + 1);
        proof {
            assert(srecords[i as int] == records.deep_view()[i as int]);
        }
        match &records[i] {
            None => {
                errors.push(LoadError::Row { table: TableKind::ThumbnailVotes, record: i });
                proof {
                    assert(post == (pre.0, pre.1 + 1));
                }
            },
            Some(fields) => {
                proof {
                    assert(srecords[i as int] == Some(fields.deep_view()));
                }
                match csv_data::ThumbnailVotes::parse(fields, &cols) {
                    None => {
                        errors.push(LoadError::Row { table: TableKind::ThumbnailVotes, record: i });
                        proof {
                            assert(post == (pre.0, pre.1 + 1));
                        }
                    },
                    Some(mut row) => {
                        let ghost rv = csv_data::spec_thumbnail_votes_row(
                            fields.deep_view(),
                            cols,
                        ).unwrap();
                        let ghost pool_pre = *pool;
                        row.dedupe_strings(pool);
                        proof {
                            assert(csv_data::thumbnail_votes_row_data(row) == rv);
                        }
                        let key = row.uuid.id();
                        let ghost m_old = map@;
                        map.insert(key, row);
                        proof {
                            use_type_invariant(&*pool);
                            assert(post.0 == pre.0.insert(rv.uuid, rv) && post.1 == pre.1);
                            lemma_thumbnail_votes_models_extend(m_old, pre.0, pool_pre, *pool);
                            lemma_thumbnail_votes_insert_step(m_old, map@, pre.0, row, key, *pool);
                        }
                    },
                }
            },
        }
        i = i + 1;
    }
    proof {
        assert(spec_thumbnail_votes_table(csv_records_of(text@)) == spec_thumbnail_votes_fold(
            csv_records_of(text@),
            cols,
            csv_records_of(text@).len() as int,
        ));
    }
    map
}

/// Load the map of title vote rows, keyed by interned UUID index: exactly
/// the text-keyed fold of the table's records, with one recorded error per
/// unreadable record.
#[verifier::rlimit(60)]
pub fn load_title_votes(text: &str, pool: &mut StringSet, errors: &mut Vec<LoadError>) -> (r:
    HashMap<usize, csv_data::TitleVotes>)
    ensures
        final(pool).extends(*old(pool)),
        title_votes_models(
            r@,
            spec_title_votes_table(csv_records_of(text@)).0,
            *final(pool),
        ),
        final(errors)@.len() == old(errors)@.len() + spec_title_votes_table(
            csv_records_of(text@),
        ).1,
        forall|j: int| 0 <= j < old(errors)@.len() ==> final(errors)@[j] == old(errors)@[j],
{
    let records = read_csv(text);
    let mut map: HashMap<usize, csv_data::TitleVotes> = HashMap::new();
    if records.len() == 0 {
        return map;
    }
    let cols = match &records[0] {
        Some(header) => match csv_data::TitleVotesColumns::find(header) {
            Some(c) => c,
            None => {
                errors.push(LoadError::BadHeader { table: TableKind::TitleVotes });
                return map;
            },
        },
        None => {
            errors.push(LoadError::BadHeader { table: TableKind::TitleVotes });
            return map;
        },
    };
    proof {
        assert(csv_records_of(text@)[0] == records.deep_view()[0]);
    }
    let mut i: usize = 1;
    while i < records.len()
        invariant
            1 <= i <= records@.len(),
            pool.extends(*old(pool)),
            records.deep_view() == csv_records_of(text@),
            records@.len() == records.deep_view().len(),
            csv_records_of(text@).len() > 0,
            csv_records_of(text@)[0] is Some,
            csv_data::TitleVotesColumns::spec_find(csv_records_of(text@)[0].unwrap()) == Some(
                cols,
            ),
            title_votes_models(
                map@,
                spec_title_votes_fold(csv_records_of(text@), cols, i as int).0,
                *pool,
            ),
            errors@.len() == old(errors)@.len() + spec_title_votes_fold(
                csv_records_of(text@),
                cols,
                i as int,
            ).1,
            old(errors)@.len() <= errors@.len(),
            forall|j: int| 0 <= j < old(errors)@.len() ==> errors@[j] == old(errors)@[j],
        decreases records@.len() - i,
    {
        let ghost srecords = csv_records_of(text@);
        let ghost pre = spec_title_votes_fold(srecords, cols, i as int);
        let ghost post = spec_title_votes_fold(srecords, cols, i + 1);
        proof {
            assert(srecords[i as int] == records.deep_view()[i as int]);
        }
        match &records[i] {
            None => {
                errors.push(LoadError::Row { table: TableKind::TitleVotes, record: i });
                proof {
                    assert(post == (pre.0, pre.1 + 1));
                }
            },
            Some(fields) => {
                proof {
                    assert(srecords[i as int] == Some(fields.deep_view()));
                }
                match csv_data::TitleVotes::parse(fields, &cols) {
                    None => {
                        errors.push(LoadError::Row { table: TableKind::TitleVotes, record: i });
                        proof {
                            assert(post == (pre.0, pre.1 + 1));
                        }
                    },
                    Some(mut row) => {
                        let ghost rv = csv_data::spec_title_votes_row(fields.deep_view(), cols)
                            .unwrap();
                        let ghost pool_pre = *pool;
                        row.dedupe_strings(pool);
                        proof {
                            assert(csv_data::title_votes_row_data(row) == rv);
                        }
                        let key = row.uuid.id();
                        let ghost m_old = map@;
                        map.insert(key, row);
                        proof {
                            use_type_invariant(&*pool);
                            assert(post.0 == pre.0.insert(rv.uuid, rv) && post.1 == pre.1);
                            lemma_votes_models_extend(m_old, pre.0, pool_pre, *pool);
                            lemma_votes_insert_step(m_old, map@, pre.0, row, key, *pool);
                        }
                    },
                }
            },
        }
        i = i + 1;
    }
    proof {
        assert(spec_title_votes_table(csv_records_of(text@)) == spec_title_votes_fold(
            csv_records_of(text@),
            cols,
            csv_records_of(text@).len() as int,
        ));
    }
    map
}

/// Load and merge the title rows: exactly the fold of the table's records
/// against the votes map — each record that is unreadable, fails parsing,
/// lacks its votes row, or fails merging records exactly one error and
/// contributes nothing; each good record contributes one merged title, in
/// order.
#[verifier::rlimit(80)]
pub fn load_titles(
    text: &str,
    votes: &HashMap<usize, csv_data::TitleVotes>,
    vmap: Ghost<Map<Seq<char>, csv_data::TitleVotesRowData>>,
    pool: &mut StringSet,
    errors: &mut Vec<LoadError>,
) -> (r: Vec<Title>)
    requires
        title_votes_models(votes@, vmap@, *old(pool)),
    ensures
        final(pool).extends(*old(pool)),
        forall|i: int| 0 <= i < r@.len() ==> (#[trigger] r@[i]).interned(*final(pool)),
        r@.len() == spec_titles_table(csv_records_of(text@), vmap@).0.len(),
        forall|i: int|
            0 <= i < r@.len() ==> title_data(#[trigger] r@[i]) == spec_titles_table(
                csv_records_of(text@),
                vmap@,
            ).0[i],
        final(errors)@.len() == old(errors)@.len() + spec_titles_table(
            csv_records_of(text@),
            vmap@,
        ).1,
        forall|j: int| 0 <= j < old(errors)@.len() ==> final(errors)@[j] == old(errors)@[j],
{
    let records = read_csv(text);
    let mut out: Vec<Title> = Vec::new();
    if records.len() == 0 {
        return out;
    }
    let cols = match &records[0] {
        Some(header) => match csv_data::TitleColumns::find(header) {
            Some(c) => c,
            None => {
                errors.push(LoadError::BadHeader { table: TableKind::Titles });
                return out;
            },
        },
        None => {
            errors.push(LoadError::BadHeader { table: TableKind::Titles });
            return out;
        },
    };
    proof {
        assert(csv_records_of(text@)[0] == records.deep_view()[0]);
    }
    let mut i: usize = 1;
    while i < records.len()
        invariant
            1 <= i <= records@.len(),
            pool.extends(*old(pool)),
            records.deep_view() == csv_records_of(text@),
            records@.len() == records.deep_view().len(),
            csv_records_of(text@).len() > 0,
            csv_records_of(text@)[0] is Some,
            csv_data::TitleColumns::spec_find(csv_records_of(text@)[0].unwrap()) == Some(cols),
            title_votes_models(votes@, vmap@, *pool),
            forall|j: int| 0 <= j < out@.len() ==> (#[trigger] out@[j]).interned(*pool),
            out@.len() == spec_titles_fold(csv_records_of(text@), cols, vmap@, i as int).0.len(),
            forall|j: int|
                0 <= j < out@.len() ==> title_data(#[trigger] out@[j]) == spec_titles_fold(
                    csv_records_of(text@),
                    cols,
                    vmap@,
                    i as int,
                ).0[j],
            errors@.len() == old(errors)@.len() + spec_titles_fold(
                csv_records_of(text@),
                cols,
                vmap@,
                i as int,
            ).1,
            old(errors)@.len() <= errors@.len(),
            forall|j: int| 0 <= j < old(errors)@.len() ==> errors@[j] == old(errors)@[j],
        decreases records@.len() - i,
    {
        let ghost srecords = csv_records_of(text@);
        let ghost pre = spec_titles_fold(srecords, cols, vmap@, i as int);
        let ghost post = spec_titles_fold(srecords, cols, vmap@, i + 1);
        proof {
            assert(srecords[i as int] == records.deep_view()[i as int]);
        }
        match &records[i] {
            None => {
                errors.push(LoadError::Row { table: TableKind::Titles, record: i });
                proof {
                    assert(post == (pre.0, pre.1 + 1));
                }
            },
            Some(fields) => {
                proof {
                    assert(srecords[i as int] == Some(fields.deep_view()));
                }
                match csv_data::Title::parse(fields, &cols) {
                    None => {
                        errors.push(LoadError::Row { table: TableKind::Titles, record: i });
                        proof {
                            assert(post == (pre.0, pre.1 + 1));
                        }
                    },
                    Some(mut row) => {
                        let ghost rv = csv_data::spec_title_row(fields.deep_view(), cols).unwrap();
                        let ghost pool_pre = *pool;
                        row.dedupe_strings(pool);
                        proof {
                            assert(csv_data::title_row_data(row) == rv);
                            lemma_votes_models_extend(votes@, vmap@, pool_pre, *pool);
                        }
                        let key = row.uuid.id();
                        match votes.get(&key) {
                            None => {
                                proof {
                                    use_type_invariant(&*pool);
                                    if vmap@.dom().contains(rv.uuid) {
                                        let k0 = choose|k: usize|
                                            #[trigger] votes@.dom().contains(k) && votes@[k].uuid@
                                                == rv.uuid;
                                        pool.lemma_interned_handle_eq(votes@[k0].uuid, row.uuid);
                                    }
                                    assert(post == (pre.0, pre.1 + 1));
                                }
                                errors.push(
                                    LoadError::Parse(
                                        ParseError(
                                            ObjectKind::Title,
                                            ParseErrorKind::MissingSubobject {
                                                struct_name: SubobjectKind::TitleVotes,
                                                uuid: row.uuid,
                                            },
                                        ),
                                    ),
                                );
                            },
                            Some(vote_row) => {
                                proof {
                                    use_type_invariant(&*pool);
                                    pool.lemma_interned_handle_eq(vote_row.uuid, row.uuid);
                                    assert(vmap@.dom().contains(rv.uuid) && vmap@[rv.uuid]
                                        == csv_data::title_votes_row_data(*vote_row));
                                }
                                let ghost vv = vmap@[rv.uuid];
                                match row.try_merge(vote_row) {
                                    Ok(title) => {
                                        proof {
                                            assert(spec_merge_title_data(rv, vv) == Some(
                                                title_data(title),
                                            ));
                                            assert(post.0 == pre.0.push(title_data(title))
                                                && post.1 == pre.1);
                                        }
                                        out.push(title);
                                    },
                                    Err(e) => {
                                        proof {
                                            assert(spec_merge_title_data(rv, vv) is None);
                                            assert(post == (pre.0, pre.1 + 1));
                                        }
                                        errors.push(LoadError::Parse(e));
                                    },
                                }
                            },
                        }
                    },
                }
            },
        }
        i = i + 1;
    }
    proof {
        assert(spec_titles_table(csv_records_of(text@), vmap@) == spec_titles_fold(
            csv_records_of(text@),
            cols,
            vmap@,
            csv_records_of(text@).len() as int,
        ));
    }
    out
}

/// Load and merge the thumbnail rows: exactly the fold of the table's
/// records against the timestamps and votes maps — each record that is
/// unreadable, fails parsing, lacks its votes row, or fails merging records
/// exactly one error and contributes nothing; each good record contributes
/// one merged thumbnail, in order.
#[verifier::rlimit(80)]
pub fn load_thumbnails(
    text: &str,
    timestamps: &HashMap<usize, csv_data::ThumbnailTimestamps>,
    tsmap: Ghost<Map<Seq<char>, csv_data::ThumbnailTimestampsRowData>>,
    votes: &HashMap<usize, csv_data::ThumbnailVotes>,
    vmap: Ghost<Map<Seq<char>, csv_data::ThumbnailVotesRowData>>,
    pool: &mut StringSet,
    errors: &mut Vec<LoadError>,
) -> (r: Vec<Thumbnail>)
    requires
        thumbnail_timestamps_models(timestamps@, tsmap@, *old(pool)),
        thumbnail_votes_models(votes@, vmap@, *old(pool)),
    ensures
        final(pool).extends(*old(pool)),
        forall|i: int|
            0 <= i < r@.len() ==> (#[trigger] r@[i]).interned(*final(pool)) && (!r@[i].flags.original
                ==> r@[i].timestamp is Some),
        r@.len() == spec_thumbnails_table(csv_records_of(text@), tsmap@, vmap@).0.len(),
        forall|i: int|
            0 <= i < r@.len() ==> thumbnail_data(#[trigger] r@[i]) == spec_thumbnails_table(
                csv_records_of(text@),
                tsmap@,
                vmap@,
            ).0[i],
        final(errors)@.len() == old(errors)@.len() + spec_thumbnails_table(
            csv_records_of(text@),
            tsmap@,
            vmap@,
        ).1,
        old(errors)@.len() <= final(errors)@.len(),
        forall|j: int| 0 <= j < old(errors)@.len() ==> final(errors)@[j] == old(errors)@[j],
{
    let records = read_csv(text);
    let mut out: Vec<Thumbnail> = Vec::new();
    if records.len() == 0 {
        return out;
    }
    let cols = match &records[0] {
        Some(header) => match csv_data::ThumbnailColumns::find(header) {
            Some(c) => c,
            None => {
                errors.push(LoadError::BadHeader { table: TableKind::Thumbnails });
                return out;
            },
        },
        None => {
            errors.push(LoadError::BadHeader { table: TableKind::Thumbnails });
            return out;
        },
    };
    proof {
        assert(csv_records_of(text@)[0] == records.deep_view()[0]);
    }
    let mut i: usize = 1;
    while i < records.len()
        invariant
            1 <= i <= records@.len(),
            pool.extends(*old(pool)),
            records.deep_view() == csv_records_of(text@),
            records@.len() == records.deep_view().len(),
            csv_records_of(text@).len() > 0,
            csv_records_of(text@)[0] is Some,
            csv_data::ThumbnailColumns::spec_find(csv_records_of(text@)[0].unwrap()) == Some(cols),
            thumbnail_timestamps_models(timestamps@, tsmap@, *pool),
            thumbnail_votes_models(votes@, vmap@, *pool),
            forall|j: int|
                0 <= j < out@.len() ==> (#[trigger] out@[j]).interned(*pool)
                    && (!out@[j].flags.original ==> out@[j].timestamp is Some),
            out@.len() == spec_thumbnails_fold(
                csv_records_of(text@),
                cols,
                tsmap@,
                vmap@,
                i as int,
            ).0.len(),
            forall|j: int|
                0 <= j < out@.len() ==> thumbnail_data(#[trigger] out@[j]) == spec_thumbnails_fold(
                    csv_records_of(text@),
                    cols,
                    tsmap@,
                    vmap@,
                    i as int,
                ).0[j],
            errors@.len() == old(errors)@.len() + spec_thumbnails_fold(
                csv_records_of(text@),
                cols,
                tsmap@,
                vmap@,
                i as int,
            ).1,
            old(errors)@.len() <= errors@.len(),
            forall|j: int| 0 <= j < old(errors)@.len() ==> errors@[j] == old(errors)@[j],
        decreases records@.len() - i,
    {
        let ghost srecords = csv_records_of(text@);
        let ghost pre = spec_thumbnails_fold(srecords, cols, tsmap@, vmap@, i as int);
        let ghost post = spec_thumbnails_fold(srecords, cols, tsmap@, vmap@, i + 1);
        proof {
            assert(srecords[i as int] == records.deep_view()[i as int]);
        }
        match &records[i] {
            None => {
                errors.push(LoadError::Row { table: TableKind::Thumbnails, record: i });
                proof {
                    assert(post == (pre.0, pre.1 + 1));
                }
            },
            Some(fields) => {
                proof {
                    assert(srecords[i as int] == Some(fields.deep_view()));
                }
                match csv_data::Thumbnail::parse(fields, &cols) {
                    None => {
                        errors.push(LoadError::Row { table: TableKind::Thumbnails, record: i });
                        proof {
                            assert(post == (pre.0, pre.1 + 1));
                        }
                    },
                    Some(mut row) => {
                        let ghost rv = csv_data::spec_thumbnail_row(fields.deep_view(), cols)
                            .unwrap();
                        let ghost pool_pre = *pool;
                        row.dedupe_strings(pool);
                        proof {
                            assert(csv_data::thumbnail_row_data(row) == rv);
                            lemma_thumbnail_timestamps_models_extend(
                                timestamps@,
                                tsmap@,
                                pool_pre,
                                *pool,
                            );
                            lemma_thumbnail_votes_models_extend(votes@, vmap@, pool_pre, *pool);
                        }
                        let key = row.uuid.id();
                        let timestamp_row = timestamps.get(&key);
                        proof {
                            use_type_invariant(&*pool);
                            match timestamp_row {
                                Some(t) => {
                                    pool.lemma_interned_handle_eq(t.uuid, row.uuid);
                                    assert(tsmap@.dom().contains(rv.uuid) && tsmap@[rv.uuid]
                                        == csv_data::thumbnail_timestamps_row_data(*t));
                                },
                                None => {
                                    if tsmap@.dom().contains(rv.uuid) {
                                        let k0 = choose|k: usize|
                                            #[trigger] timestamps@.dom().contains(k)
                                                && timestamps@[k].uuid@ == rv.uuid;
                                        pool.lemma_interned_handle_eq(
                                            timestamps@[k0].uuid,
                                            row.uuid,
                                        );
                                    }
                                },
                            }
                        }
                        match votes.get(&key) {
                            None => {
                                proof {
                                    use_type_invariant(&*pool);
                                    if vmap@.dom().contains(rv.uuid) {
                                        let k0 = choose|k: usize|
                                            #[trigger] votes@.dom().contains(k) && votes@[k].uuid@
                                                == rv.uuid;
                                        pool.lemma_interned_handle_eq(votes@[k0].uuid, row.uuid);
                                    }
                                    assert(post == (pre.0, pre.1 + 1));
                                }
                                errors.push(
                                    LoadError::Parse(
                                        ParseError(
                                            ObjectKind::Thumbnail,
                                            ParseErrorKind::MissingSubobject {
                                                struct_name: SubobjectKind::ThumbnailVotes,
                                                uuid: row.uuid,
                                            },
                                        ),
                                    ),
                                );
                            },
                            Some(vote_row) => {
                                proof {
                                    use_type_invariant(&*pool);
                                    pool.lemma_interned_handle_eq(vote_row.uuid, row.uuid);
                                    assert(vmap@.dom().contains(rv.uuid) && vmap@[rv.uuid]
                                        == csv_data::thumbnail_votes_row_data(*vote_row));
                                }
                                let ghost vv = vmap@[rv.uuid];
                                let ghost tsrow = if tsmap@.dom().contains(rv.uuid) {
                                    Some(tsmap@[rv.uuid])
                                } else {
                                    None
                                };
                                let ghost spec_ts = match timestamp_row {
                                    Some(t) => Some(*t),
                                    None => None,
                                };
                                let ghost spec_row = row;
                                let merged = row.try_merge(timestamp_row, vote_row);
                                proof {
                                    crate::merge::lemma_merged_thumbnail_has_timestamp(
                                        spec_row,
                                        spec_ts,
                                        *vote_row,
                                    );
                                }
                                match merged {
                                    Ok(thumb) => {
                                        proof {
                                            assert(spec_merge_thumbnail_data(rv, tsrow, vv)
                                                == Some(thumbnail_data(thumb)));
                                            assert(post.0 == pre.0.push(thumbnail_data(thumb))
                                                && post.1 == pre.1);
                                        }
                                        out.push(thumb);
                                    },
                                    Err(e) => {
                                        proof {
                                            assert(spec_merge_thumbnail_data(rv, tsrow, vv)
                                                is None);
                                            assert(post == (pre.0, pre.1 + 1));
                                        }
                                        errors.push(LoadError::Parse(e));
                                    },
                                }
                            },
                        }
                    },
                }
            },
        }
        i = i + 1;
    }
    proof {
        assert(spec_thumbnails_table(csv_records_of(text@), tsmap@, vmap@) == spec_thumbnails_fold(
            csv_records_of(text@),
            cols,
            tsmap@,
            vmap@,
            csv_records_of(text@).len() as int,
        ));
    }
    out
}

/// The plain contents of a validated username entry.
pub struct UsernameData {
    pub user_id: Seq<char>,
    pub username: Seq<char>,
    pub locked: bool,
}

pub open spec fn username_data(u: Username) -> UsernameData {
    UsernameData { user_id: u.user_id@, username: u.username@, locked: u.locked }
}

/// What validating a parsed username row yields: `None` exactly when the
/// locked flag is outside its permitted set.
pub open spec fn spec_merge_username_data(rv: csv_data::UsernameRowData) -> Option<UsernameData> {
    if !(rv.locked == 0 || rv.locked == 1) {
        None
    } else {
        Some(UsernameData { user_id: rv.user_id, username: rv.username, locked: rv.locked == 1 })
    }
}

/// The username map after folding the table's first `upto` records, keyed by
/// user id text — a later record for the same user replaces an earlier one —
/// with one error per rejected record.
pub open spec fn spec_usernames_fold(
    records: Seq<Option<Seq<Seq<char>>>>,
    cols: csv_data::UsernameColumns,
    upto: int,
) -> (Map<Seq<char>, UsernameData>, int)
    decreases upto,
{
    if upto <= 1 {
        (Map::empty(), 0)
    } else {
        let (m, e) = spec_usernames_fold(records, cols, upto - 1);
        match records[upto - 1] {
            None => (m, e + 1),
            Some(fields) => match csv_data::spec_username_row(fields, cols) {
                None => (m, e + 1),
                Some(rv) => match spec_merge_username_data(rv) {
                    None => (m, e + 1),
                    Some(u) => (m.insert(u.user_id, u), e),
                },
            },
        }
    }
}

/// What the whole userNames table yields.
pub open spec fn spec_usernames_table(records: Seq<Option<Seq<Seq<char>>>>) -> (
    Map<Seq<char>, UsernameData>,
    int,
) {
    if records.len() == 0 {
        (Map::empty(), 0)
    } else {
        match records[0] {
            None => (Map::empty(), 1),
            Some(header) => match csv_data::UsernameColumns::spec_find(header) {
                None => (Map::empty(), 1),
                Some(cols) => spec_usernames_fold(records, cols, records.len() as int),
            },
        }
    }
}

/// The executable id-keyed username map agrees with the text-keyed one.
pub open spec fn usernames_models(
    m: Map<usize, Username>,
    s: Map<Seq<char>, UsernameData>,
    pool: StringSet,
) -> bool {
    &&& forall|k: usize|
        m.dom().contains(k) ==> pool.is_interned((#[trigger] m[k]).user_id)
            && m[k].user_id.spec_id() == k as int && s.dom().contains(m[k].user_id@)
            && s[m[k].user_id@] == username_data(m[k])
    &&& forall|t: Seq<char>|
        s.dom().contains(t) ==> exists|k: usize|
            #[trigger] m.dom().contains(k) && m[k].user_id@ == t
}

proof fn lemma_usernames_insert_step(
    m_old: Map<usize, Username>,
    m_new: Map<usize, Username>,
    s_old: Map<Seq<char>, UsernameData>,
    row: Username,
    key: usize,
    pool: StringSet,
)
    requires
        pool.inv(),
        usernames_models(m_old, s_old, pool),
        pool.is_interned(row.user_id),
        key as int == row.user_id.spec_id(),
        m_new == m_old.insert(key, row),
    ensures
        usernames_models(m_new, s_old.insert(row.user_id@, username_data(row)), pool),
{
    let s_new = s_old.insert(row.user_id@, username_data(row));
    assert forall|k: usize| m_new.dom().contains(k) implies pool.is_interned(
        (#[trigger] m_new[k]).user_id,
    ) && m_new[k].user_id.spec_id() == k as int && s_new.dom().contains(m_new[k].user_id@)
        && s_new[m_new[k].user_id@] == username_data(m_new[k]) by {
        if k != key {
            assert(m_new[k] == m_old[k]);
            pool.lemma_interned_handle_eq(m_old[k].user_id, row.user_id);
        }
    }
    assert forall|t: Seq<char>| s_new.dom().contains(t) implies exists|k: usize|
        #[trigger] m_new.dom().contains(k) && m_new[k].user_id@ == t by {
        if t == row.user_id@ {
            assert(m_new.dom().contains(key) && m_new[key].user_id@ == t);
        } else {
            let k0 = choose|k: usize| #[trigger] m_old.dom().contains(k) && m_old[k].user_id@ == t;
            pool.lemma_interned_handle_eq(m_old[k0].user_id, row.user_id);
            assert(m_new.dom().contains(k0) && m_new[k0].user_id@ == t);
        }
    }
}

proof fn lemma_usernames_models_extend(
    m: Map<usize, Username>,
    s: Map<Seq<char>, UsernameData>,
    older: StringSet,
    newer: StringSet,
)
    requires
        usernames_models(m, s, older),
        newer.extends(older),
    ensures
        usernames_models(m, s, newer),
{
}

/// A witness for a pool index survives appending to a handle list.
proof fn lemma_handle_witness_preserved(
    older: Seq<InternedString>,
    newer: Seq<InternedString>,
    id: int,
)
    requires
        newer.len() >= older.len(),
        forall|l: int| 0 <= l < older.len() ==> #[trigger] newer[l] == older[l],
        exists|l: int| 0 <= l < older.len() && (#[trigger] older[l]).spec_id() == id,
    ensures
        exists|l: int| 0 <= l < newer.len() && (#[trigger] newer[l]).spec_id() == id,
{
    let l0 = choose|l: int| 0 <= l < older.len() && (#[trigger] older[l]).spec_id() == id;
    assert(newer[l0].spec_id() == id);
}

/// Load the username map, keyed by interned user id index, together with the
/// handles that hold its strings: exactly the text-keyed fold of the table's
/// records (a later row for the same user replaces an earlier one), with one
/// recorded error per rejected record.
#[verifier::rlimit(80)]
pub fn load_usernames(text: &str, pool: &mut StringSet, errors: &mut Vec<LoadError>) -> (r: (
    HashMap<usize, Username>,
    Vec<InternedString>,
))
    ensures
        final(pool).extends(*old(pool)),
        old(errors)@.len() <= final(errors)@.len(),
        forall|j: int| 0 <= j < old(errors)@.len() ==> final(errors)@[j] == old(errors)@[j],
        forall|k: usize|
            r.0@.dom().contains(k) ==> (#[trigger] r.0@[k]).interned(*final(pool))
                && r.0@[k].user_id.spec_id() == k as int,
        forall|i: int|
            0 <= i < r.1@.len() ==> final(pool).is_interned(#[trigger] r.1@[i]),
        usernames_held(r.0@, r.1@),
        usernames_models(r.0@, spec_usernames_table(csv_records_of(text@)).0, *final(pool)),
        final(errors)@.len() == old(errors)@.len() + spec_usernames_table(
            csv_records_of(text@),
        ).1,
{
    let records = read_csv(text);
    let mut map: HashMap<usize, Username> = HashMap::new();
    let mut handles: Vec<InternedString> = Vec::new();
    if records.len() == 0 {
        return (map, handles);
    }
    let cols = match &records[0] {
        Some(header) => match csv_data::UsernameColumns::find(header) {
            Some(c) => c,
            None => {
                errors.push(LoadError::BadHeader { table: TableKind::Usernames });
                return (map, handles);
            },
        },
        None => {
            errors.push(LoadError::BadHeader { table: TableKind::Usernames });
            return (map, handles);
        },
    };
    proof {
        assert(csv_records_of(text@)[0] == records.deep_view()[0]);
    }
    let mut i: usize = 1;
    while i < records.len()
        invariant
            1 <= i <= records@.len(),
            pool.extends(*old(pool)),
            records.deep_view() == csv_records_of(text@),
            records@.len() == records.deep_view().len(),
            csv_records_of(text@).len() > 0,
            csv_records_of(text@)[0] is Some,
            csv_data::UsernameColumns::spec_find(csv_records_of(text@)[0].unwrap()) == Some(cols),
            forall|k: usize|
                map@.dom().contains(k) ==> (#[trigger] map@[k]).interned(*pool)
                    && map@[k].user_id.spec_id() == k as int,
            forall|l: int| 0 <= l < handles@.len() ==> pool.is_interned(#[trigger] handles@[l]),
            usernames_held(map@, handles@),
            usernames_models(
                map@,
                spec_usernames_fold(csv_records_of(text@), cols, i as int).0,
                *pool,
            ),
            errors@.len() == old(errors)@.len() + spec_usernames_fold(
                csv_records_of(text@),
                cols,
                i as int,
            ).1,
            old(errors)@.len() <= errors@.len(),
            forall|j: int| 0 <= j < old(errors)@.len() ==> errors@[j] == old(errors)@[j],
        decreases records@.len() - i,
    {
        let ghost srecords = csv_records_of(text@);
        let ghost pre = spec_usernames_fold(srecords, cols, i as int);
        let ghost post = spec_usernames_fold(srecords, cols, i + 1);
        proof {
            assert(srecords[i as int] == records.deep_view()[i as int]);
        }
        match &records[i] {
            None => {
                errors.push(LoadError::Row { table: TableKind::Usernames, record: i });
                proof {
                    assert(post == (pre.0, pre.1 + 1));
                }
            },
            Some(fields) => {
                proof {
                    assert(srecords[i as int] == Some(fields.deep_view()));
                }
                match csv_data::Username::parse(fields, &cols) {
                    None => {
                        errors.push(LoadError::Row { table: TableKind::Usernames, record: i });
                        proof {
                            assert(post == (pre.0, pre.1 + 1));
                        }
                    },
                    Some(mut row) => {
                        let ghost rv = csv_data::spec_username_row(fields.deep_view(), cols)
                            .unwrap();
                        let ghost pool_pre = *pool;
                        row.dedupe_strings(pool);
                        proof {
                            assert(csv_data::username_row_data(row) == rv);
                            lemma_usernames_models_extend(map@, pre.0, pool_pre, *pool);
                        }
                        match Username::try_from(row) {
                            Ok(username) => {
                                proof {
                                    assert(spec_merge_username_data(rv) == Some(
                                        username_data(username),
                                    ));
                                    assert(post.0 == pre.0.insert(
                                        username.user_id@,
                                        username_data(username),
                                    ) && post.1 == pre.1);
                                }
                                let ghost h_old = handles@;
                                let ghost old_map_view = map@;
                                let key = username.user_id.id();
                                handles.push(username.user_id.clone());
                                handles.push(username.username.clone());
                                map.insert(key, username);
                                proof {
                                    use_type_invariant(&*pool);
                                    lemma_usernames_insert_step(
                                        old_map_view,
                                        map@,
                                        pre.0,
                                        map@[key],
                                        key,
                                        *pool,
                                    );
                                    let ghost m_old = old_map_view;
                                    assert forall|k: usize| map@.dom().contains(k) implies
                                        #[trigger] username_entry_held(map@, handles@, k) by {
                                        if k == key {
                                            assert(handles@[handles@.len() - 2].spec_id()
                                                == map@[k].user_id.spec_id());
                                            assert(handles@[handles@.len() - 1].spec_id()
                                                == map@[k].username.spec_id());
                                        } else {
                                            assert(username_entry_held(m_old, h_old, k));
                                            lemma_handle_witness_preserved(
                                                h_old,
                                                handles@,
                                                m_old[k].user_id.spec_id(),
                                            );
                                            lemma_handle_witness_preserved(
                                                h_old,
                                                handles@,
                                                m_old[k].username.spec_id(),
                                            );
                                            assert(map@[k] == m_old[k]);
                                        }
                                    }
                                    assert(usernames_held(map@, handles@));
                                }
                            },
                            Err(e) => {
                                proof {
                                    assert(spec_merge_username_data(rv) is None);
                                    assert(post == (pre.0, pre.1 + 1));
                                }
                                errors.push(LoadError::Parse(e));
                            },
                        }
                    },
                }
            },
        }
        i = i + 1;
    }
    proof {
        assert(spec_usernames_table(csv_records_of(text@)) == spec_usernames_fold(
            csv_records_of(text@),
            cols,
            csv_records_of(text@).len() as int,
        ));
    }
    (map, handles)
}

/// The VIP user id texts after folding the table's first `upto` records,
/// in order, with one error per unreadable record.
pub open spec fn spec_vips_fold(
    records: Seq<Option<Seq<Seq<char>>>>,
    cols: csv_data::VIPUserColumns,
    upto: int,
) -> (Seq<Seq<char>>, int)
    decreases upto,
{
    if upto <= 1 {
        (Seq::empty(), 0)
    } else {
        let (vs, e) = spec_vips_fold(records, cols, upto - 1);
        match records[upto - 1] {
            None => (vs, e + 1),
            Some(fields) => match csv_data::spec_vip_row(fields, cols) {
                None => (vs, e + 1),
                Some(t) => (vs.push(t), e),
            },
        }
    }
}

/// What the whole vipUsers table yields.
pub open spec fn spec_vips_table(records: Seq<Option<Seq<Seq<char>>>>) -> (Seq<Seq<char>>, int) {
    if records.len() == 0 {
        (Seq::empty(), 0)
    } else {
        match records[0] {
            None => (Seq::empty(), 1),
            Some(header) => match csv_data::VIPUserColumns::spec_find(header) {
                None => (Seq::empty(), 1),
                Some(cols) => spec_vips_fold(records, cols, records.len() as int),
            },
        }
    }
}

/// Load the VIP roster: exactly the user id texts of the table's readable
/// records, in order.
fn load_vips(text: &str, pool: &mut StringSet, errors: &mut Vec<LoadError>) -> (r: Vec<
    InternedString,
>)
    ensures
        final(pool).extends(*old(pool)),
        r.deep_view() == spec_vips_table(csv_records_of(text@)).0,
        final(errors)@.len() == old(errors)@.len() + spec_vips_table(csv_records_of(text@)).1,
        old(errors)@.len() <= final(errors)@.len(),
        forall|j: int| 0 <= j < old(errors)@.len() ==> final(errors)@[j] == old(errors)@[j],
        forall|i: int| 0 <= i < r@.len() ==> final(pool).is_interned(#[trigger] r@[i]),
{
    let records = read_csv(text);
    let mut out: Vec<InternedString> = Vec::new();
    if records.len() == 0 {
        return out;
    }
    let cols = match &records[0] {
        Some(header) => match csv_data::VIPUserColumns::find(header) {
            Some(c) => c,
            None => {
                errors.push(LoadError::BadHeader { table: TableKind::VipUsers });
                return out;
            },
        },
        None => {
            errors.push(LoadError::BadHeader { table: TableKind::VipUsers });
            return out;
        },
    };
    proof {
        assert(csv_records_of(text@)[0] == records.deep_view()[0]);
    }
    let mut i: usize = 1;
    while i < records.len()
        invariant
            1 <= i <= records@.len(),
            pool.extends(*old(pool)),
            records.deep_view() == csv_records_of(text@),
            records@.len() == records.deep_view().len(),
            csv_records_of(text@).len() > 0,
            csv_records_of(text@)[0] is Some,
            csv_data::VIPUserColumns::spec_find(csv_records_of(text@)[0].unwrap()) == Some(cols),
            out.deep_view() == spec_vips_fold(csv_records_of(text@), cols, i as int).0,
            errors@.len() == old(errors)@.len() + spec_vips_fold(
                csv_records_of(text@),
                cols,
                i as int,
            ).1,
            old(errors)@.len() <= errors@.len(),
            forall|j: int| 0 <= j < old(errors)@.len() ==> errors@[j] == old(errors)@[j],
            forall|j: int| 0 <= j < out@.len() ==> pool.is_interned(#[trigger] out@[j]),
        decreases records@.len() - i,
    {
        let ghost srecords = csv_records_of(text@);
        let ghost pre = spec_vips_fold(srecords, cols, i as int);
        let ghost post = spec_vips_fold(srecords, cols, i + 1);
        proof {
            assert(srecords[i as int] == records.deep_view()[i as int]);
        }
        match &records[i] {
            None => {
                errors.push(LoadError::Row { table: TableKind::VipUsers, record: i });
                proof {
                    assert(post == (pre.0, pre.1 + 1));
                }
            },
            Some(fields) => {
                proof {
                    assert(srecords[i as int] == Some(fields.deep_view()));
                }
                match csv_data::VIPUser::parse(fields, &cols) {
                    None => {
                        errors.push(LoadError::Row { table: TableKind::VipUsers, record: i });
                        proof {
                            assert(post == (pre.0, pre.1 + 1));
                        }
                    },
                    Some(mut row) => {
                        let ghost t = csv_data::spec_vip_row(fields.deep_view(), cols).unwrap();
                        row.dedupe_strings(pool);
                        out.push(row.user_id);
                        proof {
                            assert(post.0 == pre.0.push(t) && post.1 == pre.1);
                            assert(out.deep_view() =~= post.0);
                        }
                    },
                }
            },
        }
        i = i + 1;
    }
    proof {
        assert(spec_vips_table(csv_records_of(text@)) == spec_vips_fold(
            csv_records_of(text@),
            cols,
            csv_records_of(text@).len() as int,
        ));
    }
    out
}

/// What accumulates per video while streaming the sponsor table: the bucket
/// index its rows claimed, the latest duration candidate, and the retained
/// segments.
struct VideoAccum {
    prefix: u16,
    duration: VideoDuration,
    segments: Vec<TrimmedSponsorTime>,
}

/// Stream the sponsor table, folding each contributing row into its video's
/// accumulator: the latest submission's duration wins, the outro flag is the
/// disjunction over all contributing rows, and every retained segment is
/// kept.
fn load_sponsor_accums(text: &str, pool: &mut StringSet, errors: &mut Vec<LoadError>) -> (r: Vec<
    VideoAccum,
>)
    ensures
        final(pool).extends(*old(pool)),
        old(errors)@.len() <= final(errors)@.len(),
        forall|j: int| 0 <= j < old(errors)@.len() ==> final(errors)@[j] == old(errors)@[j],
        forall|i: int|
            0 <= i < r@.len() ==> final(pool).is_interned((#[trigger] r@[i]).duration.video_id),
{
    let records = read_csv(text);
    let mut accums: Vec<VideoAccum> = Vec::new();
    let mut index: HashMap<u128, usize> = HashMap::new();
    if records.len() == 0 {
        return accums;
    }
    let cols = match &records[0] {
        Some(header) => match csv_data::SponsorTimeColumns::find(header) {
            Some(c) => c,
            None => {
                errors.push(LoadError::BadHeader { table: TableKind::SponsorTimes });
                return accums;
            },
        },
        None => {
            errors.push(LoadError::BadHeader { table: TableKind::SponsorTimes });
            return accums;
        },
    };
    let mut i: usize = 1;
    while i < records.len()
        invariant
            1 <= i <= records@.len(),
            pool.extends(*old(pool)),
            old(errors)@.len() <= errors@.len(),
            forall|j: int| 0 <= j < old(errors)@.len() ==> errors@[j] == old(errors)@[j],
            forall|j: int|
                0 <= j < accums@.len() ==> pool.is_interned(
                    (#[trigger] accums@[j]).duration.video_id,
                ),
            forall|k: u128| index@.dom().contains(k) ==> (#[trigger] index@[k]) < accums@.len(),
        decreases records@.len() - i,
    {
        match &records[i] {
            None => {
                errors.push(LoadError::Row { table: TableKind::SponsorTimes, record: i });
            },
            Some(fields) => match csv_data::SponsorTime::parse(fields, &cols) {
                None => {
                    errors.push(LoadError::Row { table: TableKind::SponsorTimes, record: i });
                },
                Some(mut row) => {
                    row.dedupe_strings(pool);
                    match row.filter_and_split() {
                        None => {},
                        Some((prefix, duration, segment)) => {
                            let key: u128 = (prefix as u128) * 0x1_0000_0000_0000_0000u128 + (
                            duration.video_id.id() as u128);
                            match index.get(&key) {
                                Some(pos_ref) => {
                                    let pos = *pos_ref;
                                    let mut a = accums.remove(pos);
                                    if a.duration.time_submitted < duration.time_submitted {
                                        let has_outro = a.duration.has_outro
                                            || duration.has_outro;
                                        a.duration = VideoDuration {
                                            video_id: duration.video_id,
                                            time_submitted: duration.time_submitted,
                                            video_duration: duration.video_duration,
                                            has_outro,
                                        };
                                    } else {
                                        a.duration = VideoDuration {
                                            video_id: a.duration.video_id,
                                            time_submitted: a.duration.time_submitted,
                                            video_duration: a.duration.video_duration,
                                            has_outro: a.duration.has_outro
                                                || duration.has_outro,
                                        };
                                    }
                                    a.segments.push(segment);
                                    accums.insert(pos, a);
                                },
                                None => {
                                    let pos = accums.len();
                                    index.insert(key, pos);
                                    let mut segs: Vec<TrimmedSponsorTime> = Vec::new();
                                    segs.push(segment);
                                    accums.push(
                                        VideoAccum { prefix, duration, segments: segs },
                                    );
                                },
                            }
                        },
                    }
                },
            },
        }
        i = i + 1;
    }
    accums
}

impl DearrowDB {
    /// One full ingestion pass over the eight tables. Row-level failures are
    /// recorded and never abort the pass; the resulting dataset is well
    /// formed against the grown pool. The titles are exactly the fold of the
    /// titles table against the fold of its votes table — each rejected
    /// record of those two tables records exactly one error (their loaders
    /// state the per-table counts), and every kept title's contents are
    /// pinned, in input order.
    pub fn load(tables: &DBTables, string_set: &mut StringSet) -> (r: LoadResult)
        ensures
            final(string_set).extends(*old(string_set)),
            r.0.wf(*final(string_set)),
            ({
                let vmap = spec_title_votes_table(csv_records_of(tables.title_votes@)).0;
                let ts = spec_titles_table(csv_records_of(tables.titles@), vmap).0;
                &&& r.0.titles@.len() == ts.len()
                &&& forall|i: int|
                    0 <= i < r.0.titles@.len() ==> title_data(#[trigger] r.0.titles@[i]) == ts[i]
            }),
            ({
                let tsmap = spec_thumbnail_timestamps_table(
                    csv_records_of(tables.thumbnail_timestamps@),
                ).0;
                let vmap = spec_thumbnail_votes_table(csv_records_of(tables.thumbnail_votes@)).0;
                let hs = spec_thumbnails_table(csv_records_of(tables.thumbnails@), tsmap, vmap).0;
                &&& r.0.thumbnails@.len() == hs.len()
                &&& forall|i: int|
                    0 <= i < r.0.thumbnails@.len() ==> thumbnail_data(#[trigger] r.0.thumbnails@[i])
                        == hs[i]
            }),
            usernames_models(
                r.0.usernames@,
                spec_usernames_table(csv_records_of(tables.usernames@)).0,
                *final(string_set),
            ),
            r.0.vip_users.deep_view() == spec_vips_table(csv_records_of(tables.vip_users@)).0,
            r.1@.len() >= spec_title_votes_table(csv_records_of(tables.title_votes@)).1
                + spec_titles_table(
                csv_records_of(tables.titles@),
                spec_title_votes_table(csv_records_of(tables.title_votes@)).0,
            ).1 + spec_vips_table(csv_records_of(tables.vip_users@)).1
                + spec_usernames_table(csv_records_of(tables.usernames@)).1
                + spec_thumbnail_timestamps_table(
                csv_records_of(tables.thumbnail_timestamps@),
            ).1 + spec_thumbnail_votes_table(csv_records_of(tables.thumbnail_votes@)).1
                + spec_thumbnails_table(
                csv_records_of(tables.thumbnails@),
                spec_thumbnail_timestamps_table(csv_records_of(tables.thumbnail_timestamps@)).0,
                spec_thumbnail_votes_table(csv_records_of(tables.thumbnail_votes@)).0,
            ).1,
    {
        let mut errors: Vec<LoadError> = Vec::new();

        let thumbnail_timestamps = load_thumbnail_timestamps(
            tables.thumbnail_timestamps.as_str(),
            string_set,
            &mut errors,
        );
        let thumbnail_votes = load_thumbnail_votes(
            tables.thumbnail_votes.as_str(),
            string_set,
            &mut errors,
        );
        let thumbnails = load_thumbnails(
            tables.thumbnails.as_str(),
            &thumbnail_timestamps,
            Ghost(spec_thumbnail_timestamps_table(
                csv_records_of(tables.thumbnail_timestamps@),
            ).0),
            &thumbnail_votes,
            Ghost(spec_thumbnail_votes_table(csv_records_of(tables.thumbnail_votes@)).0),
            string_set,
            &mut errors,
        );

        let title_votes = load_title_votes(tables.title_votes.as_str(), string_set, &mut errors);
        let titles = load_titles(
            tables.titles.as_str(),
            &title_votes,
            Ghost(spec_title_votes_table(csv_records_of(tables.title_votes@)).0),
            string_set,
            &mut errors,
        );

        let (usernames, username_handles) = load_usernames(
            tables.usernames.as_str(),
            string_set,
            &mut errors,
        );
        let vip_users = load_vips(tables.vip_users.as_str(), string_set, &mut errors);

        let mut accums = load_sponsor_accums(
            tables.sponsor_times.as_str(),
            string_set,
            &mut errors,
        );

        let mut video_infos: Vec<Vec<VideoInfo>> = Vec::new();
        let mut b: usize = 0;
        while b < 65536
            invariant
                b <= 65536,
                video_infos@.len() == b,
                forall|p: int| 0 <= p < video_infos@.len() ==> #[trigger] video_infos@[p]@.len() == 0,
            decreases 65536 - b,
        {
            video_infos.push(Vec::new());
            b = b + 1;
        }

        while accums.len() > 0
            invariant
                video_infos@.len() == 65536,
                forall|j: int|
                    0 <= j < accums@.len() ==> string_set.is_interned(
                        (#[trigger] accums@[j]).duration.video_id,
                    ),
                forall|p: int, j: int|
                    0 <= p < video_infos@.len() && 0 <= j < video_infos@[p]@.len()
                        ==> (#[trigger] video_infos@[p]@[j]).wf(*string_set),
            decreases accums@.len(),
        {
            let mut a = accums.remove(0);
            match video_info_for(&a.duration, &mut a.segments) {
                None => {},
                Some(info) => {
                    let p = a.prefix as usize;
                    let mut bucket = video_infos.remove(p);
                    bucket.push(info);
                    video_infos.insert(p, bucket);
                },
            }
        }

        (
            DearrowDB { titles, thumbnails, usernames, username_handles, vip_users, video_infos },
            errors,
        )
    }
}


/// Searching a bucket of pooled entries by index and by text agree, for a
/// pooled probe: pointer identity is byte identity.
pub proof fn lemma_bucket_find_text_agrees(
    bucket: Seq<VideoInfo>,
    pool: StringSet,
    h: InternedString,
    from: int,
)
    requires
        pool.inv(),
        pool.is_interned(h),
        forall|j: int| 0 <= j < bucket.len() ==> pool.is_interned((#[trigger] bucket[j]).video_id),
    ensures
        DearrowDB::bucket_find(bucket, h.spec_id(), from) == DearrowDB::bucket_find_text(
            bucket,
            h@,
            from,
        ),
    decreases bucket.len() - from,
{
    if 0 <= from < bucket.len() {
        pool.lemma_interned_handle_eq(bucket[from].video_id, h);
        lemma_bucket_find_text_agrees(bucket, pool, h, from + 1);
    }
}

/// What a successful bucket search guarantees about its result.
pub proof fn lemma_bucket_find_found(bucket: Seq<VideoInfo>, id: int, from: int)
    ensures
        match DearrowDB::bucket_find(bucket, id, from) {
            Some(j) => from <= j < bucket.len() && bucket[j].video_id.spec_id() == id,
            None => true,
        },
    decreases bucket.len() - from,
{
    if 0 <= from < bucket.len() && bucket[from].video_id.spec_id() != id {
        lemma_bucket_find_found(bucket, id, from + 1);
    }
}

/// Whether a merged title references pool entry `id` through any of its
/// shared strings.
pub open spec fn title_refs(t: Title, id: int) -> bool {
    ||| t.uuid.spec_id() == id
    ||| t.video_id.spec_id() == id
    ||| t.title.spec_id() == id
    ||| t.user_id.spec_id() == id
}

pub open spec fn thumbnail_refs(t: Thumbnail, id: int) -> bool {
    ||| t.uuid.spec_id() == id
    ||| t.video_id.spec_id() == id
    ||| t.user_id.spec_id() == id
}

/// Whether anything in the dataset still references pool entry `id`: the
/// model of "some holder other than the pool keeps this string alive".
pub open spec fn spec_referenced(db: DearrowDB, id: int) -> bool {
    ||| exists|i: int| 0 <= i < db.titles@.len() && title_refs(#[trigger] db.titles@[i], id)
    ||| exists|i: int|
        0 <= i < db.thumbnails@.len() && thumbnail_refs(#[trigger] db.thumbnails@[i], id)
    ||| exists|l: int|
        0 <= l < db.username_handles@.len() && (#[trigger] db.username_handles@[l]).spec_id()
            == id
    ||| exists|l: int|
        0 <= l < db.vip_users@.len() && (#[trigger] db.vip_users@[l]).spec_id() == id
    ||| exists|p: int, j: int|
        0 <= p < db.video_infos@.len() && 0 <= j < db.video_infos@[p]@.len() && (
        #[trigger] db.video_infos@[p]@[j]).video_id.spec_id() == id
}

/// Scan the whole dataset for a reference to pool entry `id`.
fn is_referenced(db: &DearrowDB, id: usize) -> (r: bool)
    ensures
        r == spec_referenced(*db, id as int),
{
    let probe = id;
    let mut i: usize = 0;
    while i < db.titles.len()
        invariant
            i <= db.titles@.len(),
            forall|l: int| 0 <= l < i ==> !title_refs(#[trigger] db.titles@[l], probe as int),
            probe == id,
        decreases db.titles@.len() - i,
    {
        let t = &db.titles[i];
        if t.uuid.id() == probe || t.video_id.id() == probe || t.title.id() == probe
            || t.user_id.id() == probe {
            return true;
        }
        i = i + 1;
    }
    let mut i: usize = 0;
    while i < db.thumbnails.len()
        invariant
            i <= db.thumbnails@.len(),
            forall|l: int| 0 <= l < i ==> !thumbnail_refs(#[trigger] db.thumbnails@[l], probe as int),
            probe == id,
        decreases db.thumbnails@.len() - i,
    {
        let t = &db.thumbnails[i];
        if t.uuid.id() == probe || t.video_id.id() == probe || t.user_id.id() == probe {
            return true;
        }
        i = i + 1;
    }
    let mut i: usize = 0;
    while i < db.username_handles.len()
        invariant
            i <= db.username_handles@.len(),
            forall|l: int|
                0 <= l < i ==> (#[trigger] db.username_handles@[l]).spec_id() != probe as int,
            probe == id,
        decreases db.username_handles@.len() - i,
    {
        if db.username_handles[i].id() == probe {
            return true;
        }
        i = i + 1;
    }
    let mut i: usize = 0;
    while i < db.vip_users.len()
        invariant
            i <= db.vip_users@.len(),
            forall|l: int| 0 <= l < i ==> (#[trigger] db.vip_users@[l]).spec_id() != probe as int,
            probe == id,
        decreases db.vip_users@.len() - i,
    {
        if db.vip_users[i].id() == probe {
            return true;
        }
        i = i + 1;
    }
    let mut p: usize = 0;
    while p < db.video_infos.len()
        invariant
            p <= db.video_infos@.len(),
            forall|p2: int, j: int|
                0 <= p2 < p && 0 <= j < db.video_infos@[p2]@.len() ==> (
                #[trigger] db.video_infos@[p2]@[j]).video_id.spec_id() != probe as int,
            probe == id,
        decreases db.video_infos@.len() - p,
    {
        let bucket: &Vec<VideoInfo> = &db.video_infos[p];
        let mut j: usize = 0;
        while j < bucket.len()
            invariant
                j <= bucket@.len(),
                bucket@ == db.video_infos@[p as int]@,
                p < db.video_infos@.len(),
                forall|l: int|
                    0 <= l < j ==> (#[trigger] bucket@[l]).video_id.spec_id() != probe as int,
                probe == id,
            decreases bucket@.len() - j,
        {
            if bucket[j].video_id.id() == probe {
                return true;
            }
            j = j + 1;
        }
        p = p + 1;
    }
    false
}

/// The live mask pruning keeps: entry `j` survives exactly when the dataset
/// still references it.
pub fn mark_live(db: &DearrowDB, pool_len: usize) -> (live: Vec<bool>)
    ensures
        live@.len() == pool_len,
        forall|j: int| 0 <= j < pool_len ==> #[trigger] live@[j] == spec_referenced(*db, j),
{
    let mut live: Vec<bool> = Vec::new();
    let mut idx: usize = 0;
    while idx < pool_len
        invariant
            idx <= pool_len,
            live@.len() == idx,
            forall|j: int| 0 <= j < idx ==> #[trigger] live@[j] == spec_referenced(*db, j),
        decreases pool_len - idx,
    {
        live.push(is_referenced(db, idx));
        idx = idx + 1;
    }
    live
}

/// Pruning every unreferenced entry keeps the dataset well formed — each of
/// its handles is referenced, so its entry survives with its contents — and
/// afterwards an entry is live exactly when the dataset references it.
pub proof fn lemma_wf_preserved_by_prune(
    db: DearrowDB,
    before: StringSet,
    after: StringSet,
    live: Seq<bool>,
)
    requires
        db.wf(before),
        live.len() == before@.len(),
        after@.len() == before@.len(),
        forall|i: int|
            0 <= i < before@.len() ==> after@[i] == (if live[i] {
                before@[i]
            } else {
                None::<Seq<char>>
            }),
        forall|j: int| 0 <= j < live.len() ==> #[trigger] live[j] == spec_referenced(db, j),
    ensures
        db.wf(after),
        forall|id: int|
            0 <= id < after@.len() ==> (((#[trigger] after@[id]) is Some) == spec_referenced(
                db,
                id,
            )),
{
    assert forall|id: int|
        0 <= id < after@.len() implies (((#[trigger] after@[id]) is Some) == spec_referenced(
        db,
        id,
    )) by {
        if spec_referenced(db, id) {
            if exists|i: int| 0 <= i < db.titles@.len() && title_refs(#[trigger] db.titles@[i], id) {
                let i = choose|i: int|
                    0 <= i < db.titles@.len() && title_refs(#[trigger] db.titles@[i], id);
                assert(db.titles@[i].interned(before));
            } else if exists|i: int|
                0 <= i < db.thumbnails@.len() && thumbnail_refs(#[trigger] db.thumbnails@[i], id) {
                let i = choose|i: int|
                    0 <= i < db.thumbnails@.len() && thumbnail_refs(#[trigger] db.thumbnails@[i], id);
                assert(db.thumbnails@[i].interned(before));
            } else if exists|l: int|
                0 <= l < db.username_handles@.len() && (
                #[trigger] db.username_handles@[l]).spec_id() == id {
                let l = choose|l: int|
                    0 <= l < db.username_handles@.len() && (
                    #[trigger] db.username_handles@[l]).spec_id() == id;
                assert(before.is_interned(db.username_handles@[l]));
            } else if exists|l: int|
                0 <= l < db.vip_users@.len() && (#[trigger] db.vip_users@[l]).spec_id() == id {
                let l = choose|l: int|
                    0 <= l < db.vip_users@.len() && (#[trigger] db.vip_users@[l]).spec_id() == id;
                assert(before.is_interned(db.vip_users@[l]));
            } else {
                let (p, j) = choose|p: int, j: int|
                    0 <= p < db.video_infos@.len() && 0 <= j < db.video_infos@[p]@.len() && (
                    #[trigger] db.video_infos@[p]@[j]).video_id.spec_id() == id;
                assert(db.video_infos@[p]@[j].wf(before));
            }
        }
    }
    assert forall|i: int| 0 <= i < db.titles@.len() implies (#[trigger] db.titles@[i]).interned(
        after,
    ) by {
        let t = db.titles@[i];
        assert(title_refs(db.titles@[i], t.uuid.spec_id()));
        assert(title_refs(db.titles@[i], t.video_id.spec_id()));
        assert(title_refs(db.titles@[i], t.title.spec_id()));
        assert(title_refs(db.titles@[i], t.user_id.spec_id()));
    }
    assert forall|i: int| 0 <= i < db.thumbnails@.len() implies (
    #[trigger] db.thumbnails@[i]).interned(after) by {
        let t = db.thumbnails@[i];
        assert(thumbnail_refs(db.thumbnails@[i], t.uuid.spec_id()));
        assert(thumbnail_refs(db.thumbnails@[i], t.video_id.spec_id()));
        assert(thumbnail_refs(db.thumbnails@[i], t.user_id.spec_id()));
    }
    assert forall|l: int| 0 <= l < db.username_handles@.len() implies after.is_interned(
        #[trigger] db.username_handles@[l],
    ) by {
        assert(spec_referenced(db, db.username_handles@[l].spec_id()));
    }
    assert forall|k: usize| db.usernames@.dom().contains(k) implies (
    #[trigger] db.usernames@[k]).interned(after) && db.usernames@[k].user_id.spec_id()
        == k as int by {
        assert(username_entry_held(db.usernames@, db.username_handles@, k));
        let l1 = choose|l: int|
            0 <= l < db.username_handles@.len() && (#[trigger] db.username_handles@[l]).spec_id()
                == db.usernames@[k].user_id.spec_id();
        assert(spec_referenced(db, db.usernames@[k].user_id.spec_id()));
        let l2 = choose|l: int|
            0 <= l < db.username_handles@.len() && (#[trigger] db.username_handles@[l]).spec_id()
                == db.usernames@[k].username.spec_id();
        assert(spec_referenced(db, db.usernames@[k].username.spec_id()));
    }
    assert forall|l: int| 0 <= l < db.vip_users@.len() implies after.is_interned(
        #[trigger] db.vip_users@[l],
    ) by {
        assert(spec_referenced(db, db.vip_users@[l].spec_id()));
    }
    assert forall|p: int, j: int|
        0 <= p < db.video_infos@.len() && 0 <= j < db.video_infos@[p]@.len() implies (
    #[trigger] db.video_infos@[p]@[j]).wf(after) by {
        assert(spec_referenced(db, db.video_infos@[p]@[j].video_id.spec_id()));
    }
}

/// Pointer identity is a legal fast path in a well-formed dataset: two
/// titles hold byte-equal video ids exactly when their handles share one
/// pooled entry.
pub proof fn lemma_video_id_pointer_identity(db: DearrowDB, pool: StringSet, i: int, j: int)
    requires
        pool.inv(),
        db.wf(pool),
        0 <= i < db.titles@.len(),
        0 <= j < db.titles@.len(),
    ensures
        (db.titles@[i].video_id@ == db.titles@[j].video_id@) == (db.titles@[i].video_id.spec_id()
            == db.titles@[j].video_id.spec_id()),
{
    pool.lemma_interned_handle_eq(db.titles@[i].video_id, db.titles@[j].video_id);
}

} // verus!
