//! The published state: one immutable snapshot (pool and dataset pair) served
//! to readers, and the reload controller's state machine — at most one
//! rebuild in flight, atomic publication, and a strictly growing version
//! counter.

use vstd::prelude::*;

verus! {

use crate::string_pool::StringSet;
use crate::db::{DearrowDB, DBTables};
use vstd::std_specs::hash::group_hash_axioms;
use crate::records::LoadError;
use crate::sort::sorted_by_key;
use crate::query::{ApiTitle, ApiThumbnail};
use crate::sbserver::{SBApiVideo, UserInfo, chunk_ok};
use crate::records::{Title, Thumbnail};

broadcast use group_hash_axioms;

/// One immutable dataset as published: the interning pool and the records
/// built against it. Constructed only by a full load, so it is always well
/// formed and sorted, and its readers need no side conditions.
pub struct Snapshot {
    string_set: StringSet,
    db: DearrowDB,
}

impl Snapshot {
    /// The dataset, for specification purposes.
    pub closed spec fn spec_db(self) -> DearrowDB {
        self.db
    }

    /// The pool, for specification purposes.
    pub closed spec fn spec_pool(self) -> StringSet {
        self.string_set
    }

    #[verifier::type_invariant]
    spec fn inv(self) -> bool {
        &&& self.db.wf(self.string_set)
        &&& sorted_by_key(self.db.titles@)
        &&& sorted_by_key(self.db.thumbnails@)
    }

    /// One full rebuild: grow a copy of the given pool over the eight tables,
    /// sort, and prune the pool of entries nothing in the new dataset holds.
    /// Row-level failures come back beside the snapshot and never abort the
    /// build. Afterwards a pool entry is live exactly when the new dataset
    /// references it.
    pub fn build(tables: &DBTables, base: &StringSet) -> (r: (Snapshot, Vec<LoadError>))
        ensures
            r.0.spec_db().wf(r.0.spec_pool()),
            sorted_by_key(r.0.spec_db().titles@),
            sorted_by_key(r.0.spec_db().thumbnails@),
            forall|id: int|
                0 <= id < r.0.spec_pool()@.len() ==> (((#[trigger] r.0.spec_pool()@[id]) is Some)
                    == crate::db::spec_referenced(r.0.spec_db(), id)),
    {
        let mut pool = base.clone();
        let (mut db, errors) = DearrowDB::load(tables, &mut pool);
        db.sort();
        let ghost before = pool;
        let live = crate::db::mark_live(&db, pool.slot_count());
        pool.clean(&live);
        proof {
            crate::db::lemma_wf_preserved_by_prune(db, before, pool, live@);
        }
        (Snapshot { string_set: pool, db }, errors)
    }

    /// One full rebuild seeded from this snapshot's own pool, as the reload
    /// controller runs it off the request thread.
    pub fn rebuild(&self, tables: &DBTables) -> (r: (Snapshot, Vec<LoadError>))
        ensures
            r.0.spec_db().wf(r.0.spec_pool()),
            sorted_by_key(r.0.spec_db().titles@),
            sorted_by_key(r.0.spec_db().thumbnails@),
            forall|id: int|
                0 <= id < r.0.spec_pool()@.len() ==> (((#[trigger] r.0.spec_pool()@[id]) is Some)
                    == crate::db::spec_referenced(r.0.spec_db(), id)),
    {
        Snapshot::build(tables, &self.string_set)
    }

    /// The snapshot before any load: no records, no pooled strings.
    pub fn empty() -> (r: Snapshot)
        ensures
            r.spec_db().titles@.len() == 0,
            r.spec_db().thumbnails@.len() == 0,
            r.spec_db().usernames@.dom() =~= Set::<usize>::empty(),
            r.spec_db().vip_users@.len() == 0,
            r.spec_pool()@.len() == 0,
    {
        let mut video_infos: Vec<Vec<crate::records::VideoInfo>> = Vec::new();
        let mut b: usize = 0;
        while b < 65536
            invariant
                b <= 65536,
                video_infos@.len() == b,
                forall|p: int|
                    0 <= p < video_infos@.len() ==> #[trigger] video_infos@[p]@.len() == 0,
            decreases 65536 - b,
        {
            video_infos.push(Vec::new());
            b = b + 1;
        }
        let db = DearrowDB {
            titles: Vec::new(),
            thumbnails: Vec::new(),
            usernames: std::collections::HashMap::new(),
            username_handles: Vec::new(),
            vip_users: Vec::new(),
            video_infos,
        };
        Snapshot { string_set: StringSet::with_capacity(0), db }
    }

    pub fn titles_len(&self) -> (r: usize)
        ensures
            r == self.spec_db().titles@.len(),
    {
        self.db.titles.len()
    }

    pub fn thumbnails_len(&self) -> (r: usize)
        ensures
            r == self.spec_db().thumbnails@.len(),
    {
        self.db.thumbnails.len()
    }

    pub fn usernames_len(&self) -> (r: usize)
        ensures
            r == self.spec_db().usernames@.dom().len(),
    {
        self.db.usernames.len()
    }

    pub fn vip_users_len(&self) -> (r: usize)
        ensures
            r == self.spec_db().vip_users@.len(),
    {
        self.db.vip_users.len()
    }

    /// How many distinct strings the pool holds.
    pub fn interned_count(&self) -> (r: usize)
        ensures
            r == self.spec_pool().spec_live_count(),
    {
        self.string_set.live_count()
    }

    /// The 50 newest titles, newest first.
    pub fn newest_titles(&self, limit: usize) -> (r: Vec<ApiTitle>)
        ensures
            r@.len() == (if self.spec_db().titles@.len() <= limit {
                self.spec_db().titles@.len() as int
            } else {
                limit as int
            }),
            forall|i: int|
                0 <= i < r@.len() ==> r@[i] == crate::query::spec_api_title(
                    self.spec_db(),
                    self.spec_db().titles@[self.spec_db().titles@.len() - 1 - i],
                ),
    {
        proof {
            use_type_invariant(&*self);
        }
        crate::query::titles_newest(&self.db, limit)
    }

    /// The 50 newest thumbnails, newest first.
    pub fn newest_thumbnails(&self, limit: usize) -> (r: Vec<ApiThumbnail>)
        ensures
            r@.len() == (if self.spec_db().thumbnails@.len() <= limit {
                self.spec_db().thumbnails@.len() as int
            } else {
                limit as int
            }),
            forall|i: int|
                0 <= i < r@.len() ==> r@[i] == crate::query::spec_api_thumbnail(
                    self.spec_db(),
                    self.spec_db().thumbnails@[self.spec_db().thumbnails@.len() - 1 - i],
                ),
    {
        proof {
            use_type_invariant(&*self);
        }
        crate::query::thumbnails_newest(&self.db, limit)
    }

    /// All unverified, unlocked, unhidden titles, in dataset order.
    pub fn unverified_titles(&self) -> (r: Vec<ApiTitle>)
        ensures
            r@ == self.spec_db().titles@.filter(
                |t: Title| crate::query::spec_unverified_shown(t),
            ).map_values(|t: Title| crate::query::spec_api_title(self.spec_db(), t)),
    {
        proof {
            use_type_invariant(&*self);
        }
        crate::query::titles_unverified(&self.db)
    }

    /// The title with this UUID, if one exists.
    pub fn title_by_uuid(&self, uuid: &str) -> (r: Option<ApiTitle>)
        ensures
            match r {
                Some(t) => exists|i: int|
                    0 <= i < self.spec_db().titles@.len() && t == crate::query::spec_api_title(
                        self.spec_db(),
                        #[trigger] self.spec_db().titles@[i],
                    ) && self.spec_db().titles@[i].uuid@ == uuid@,
                None => forall|i: int|
                    0 <= i < self.spec_db().titles@.len() ==> (
                    #[trigger] self.spec_db().titles@[i]).uuid@ != uuid@,
            },
    {
        proof {
            use_type_invariant(&*self);
        }
        let r = crate::query::title_by_uuid(&self.db, &self.string_set, uuid);
        proof {
            match r {
                Some(ref t) => {
                    let i = choose|i: int|
                        0 <= i < self.db.titles@.len() && *t == crate::query::spec_api_title(
                            self.db,
                            #[trigger] self.db.titles@[i],
                        ) && self.db.titles@[i].uuid@ == uuid@;
                    assert(0 <= i < self.spec_db().titles@.len() && *t
                        == crate::query::spec_api_title(
                        self.spec_db(),
                        self.spec_db().titles@[i],
                    ) && self.spec_db().titles@[i].uuid@ == uuid@);
                },
                None => {},
            }
        }
        r
    }

    /// The thumbnail with this UUID, if one exists.
    pub fn thumbnail_by_uuid(&self, uuid: &str) -> (r: Option<ApiThumbnail>)
        ensures
            match r {
                Some(t) => exists|i: int|
                    0 <= i < self.spec_db().thumbnails@.len() && t
                        == crate::query::spec_api_thumbnail(
                        self.spec_db(),
                        #[trigger] self.spec_db().thumbnails@[i],
                    ) && self.spec_db().thumbnails@[i].uuid@ == uuid@,
                None => forall|i: int|
                    0 <= i < self.spec_db().thumbnails@.len() ==> (
                    #[trigger] self.spec_db().thumbnails@[i]).uuid@ != uuid@,
            },
    {
        proof {
            use_type_invariant(&*self);
        }
        let r = crate::query::thumbnail_by_uuid(&self.db, &self.string_set, uuid);
        proof {
            match r {
                Some(ref t) => {
                    let i = choose|i: int|
                        0 <= i < self.db.thumbnails@.len() && *t
                            == crate::query::spec_api_thumbnail(
                            self.db,
                            #[trigger] self.db.thumbnails@[i],
                        ) && self.db.thumbnails@[i].uuid@ == uuid@;
                    assert(0 <= i < self.spec_db().thumbnails@.len() && *t
                        == crate::query::spec_api_thumbnail(
                        self.spec_db(),
                        self.spec_db().thumbnails@[i],
                    ) && self.spec_db().thumbnails@[i].uuid@ == uuid@);
                },
                None => {},
            }
        }
        r
    }

    /// Every title of one video, newest first: exactly those whose video id
    /// holds the given text.
    pub fn titles_by_video_id(&self, video_id: &str) -> (r: Vec<ApiTitle>)
        ensures
            r@.to_multiset() == self.spec_db().titles@.filter(
                |t: Title| t.video_id@ == video_id@,
            ).map_values(|t: Title| crate::query::spec_api_title(self.spec_db(), t)).to_multiset(),
            forall|k: int, l: int|
                0 <= k < l < r@.len() ==> #[trigger] r@[k].time_submitted
                    >= #[trigger] r@[l].time_submitted,
    {
        proof {
            use_type_invariant(&*self);
        }
        crate::query::titles_by_video_id(&self.db, &self.string_set, video_id)
    }

    /// Every title by one user, newest first.
    pub fn titles_by_user_id(&self, user_id: &str) -> (r: Vec<ApiTitle>)
        ensures
            r@.to_multiset() == self.spec_db().titles@.filter(
                |t: Title| t.user_id@ == user_id@,
            ).map_values(|t: Title| crate::query::spec_api_title(self.spec_db(), t)).to_multiset(),
            forall|k: int, l: int|
                0 <= k < l < r@.len() ==> #[trigger] r@[k].time_submitted
                    >= #[trigger] r@[l].time_submitted,
    {
        proof {
            use_type_invariant(&*self);
        }
        crate::query::titles_by_user_id(&self.db, &self.string_set, user_id)
    }

    /// Every thumbnail of one video, newest first.
    pub fn thumbnails_by_video_id(&self, video_id: &str) -> (r: Vec<ApiThumbnail>)
        ensures
            r@.to_multiset() == self.spec_db().thumbnails@.filter(
                |t: Thumbnail| t.video_id@ == video_id@,
            ).map_values(|t: Thumbnail| crate::query::spec_api_thumbnail(self.spec_db(), t))
                .to_multiset(),
            forall|k: int, l: int|
                0 <= k < l < r@.len() ==> #[trigger] r@[k].time_submitted
                    >= #[trigger] r@[l].time_submitted,
    {
        proof {
            use_type_invariant(&*self);
        }
        crate::query::thumbnails_by_video_id(&self.db, &self.string_set, video_id)
    }

    /// Every thumbnail by one user, newest first.
    pub fn thumbnails_by_user_id(&self, user_id: &str) -> (r: Vec<ApiThumbnail>)
        ensures
            r@.to_multiset() == self.spec_db().thumbnails@.filter(
                |t: Thumbnail| t.user_id@ == user_id@,
            ).map_values(|t: Thumbnail| crate::query::spec_api_thumbnail(self.spec_db(), t))
                .to_multiset(),
            forall|k: int, l: int|
                0 <= k < l < r@.len() ==> #[trigger] r@[k].time_submitted
                    >= #[trigger] r@[l].time_submitted,
    {
        proof {
            use_type_invariant(&*self);
        }
        crate::query::thumbnails_by_user_id(&self.db, &self.string_set, user_id)
    }

    /// One video's compat branding; the second component says whether the
    /// video id was known. For a known video the lists are exactly its shown
    /// titles and thumbnails, ordered by votes and locks.
    pub fn video_branding(&self, video_id: &str, return_userid: bool, fetch_all: bool) -> (r: (
        SBApiVideo,
        bool,
    ))
        ensures
            r.1 == self.spec_pool().contains_text(video_id@),
            !r.1 ==> r.0.titles@.len() == 0 && r.0.thumbnails@.len() == 0 && r.0.video_info
                is None,
            r.1 ==> {
                &&& (exists|pre: Seq<crate::sbserver::SBApiTitle>|
                    #[trigger] crate::sbserver::strip_sb_titles(pre) == self.spec_db().titles@
                        .filter(crate::sbserver::title_pred(video_id@, fetch_all, None))
                        .map_values(crate::sbserver::sb_title_render(return_userid))
                        && r.0.titles@.to_multiset() == pre.to_multiset())
                &&& crate::sort::sorted_by_key(r.0.titles@)
                &&& (exists|pre: Seq<crate::sbserver::SBApiThumbnail>|
                    #[trigger] crate::sbserver::strip_sb_thumbnails(pre) == self.spec_db()
                        .thumbnails@.filter(
                        crate::sbserver::thumbnail_pred(video_id@, fetch_all, None),
                    ).map_values(crate::sbserver::sb_thumbnail_render(return_userid))
                        && r.0.thumbnails@.to_multiset() == pre.to_multiset())
                &&& crate::sort::sorted_by_key(r.0.thumbnails@)
            },
            r.1 ==> ({
                let bucket =
                    self.spec_db().video_infos@[crate::hashing::hash_prefix_of(
                    vstd::utf8::encode_utf8(video_id@),
                )]@;
                match crate::db::DearrowDB::bucket_find_text(bucket, video_id@, 0) {
                    Some(j) => r.0.video_info is Some && crate::sbserver::video_info_view_eq(
                        r.0.video_info.unwrap(),
                        bucket[j],
                    ),
                    None => r.0.video_info is None,
                }
            }),
            match r.0.video_info {
                Some(v) => v.video_id@ == video_id@ && v.uncut_duration > 0
                    && crate::records::uncut_segments_wf(
                    v.uncut_segments@,
                    v.uncut_duration as int,
                ),
                None => true,
            },
    {
        proof {
            use_type_invariant(&*self);
        }
        crate::sbserver::video_branding(
            &self.db,
            &self.string_set,
            video_id,
            return_userid,
            fetch_all,
        )
    }

    /// Branding for every video of one bucket; `None` for a malformed prefix.
    pub fn chunk_branding(
        &self,
        prefix_str: &str,
        return_userid: bool,
        fetch_all: bool,
    ) -> (r: Option<Vec<(crate::string_pool::InternedString, SBApiVideo)>>)
        ensures
            (r is None) == !(prefix_str.spec_bytes().len() == 4
                && crate::hashing::prefix16_value(prefix_str.spec_bytes()) is Some),
            match r {
                None => true,
                Some(out) => chunk_ok(
                    self.spec_db(),
                    self.spec_pool(),
                    out@,
                    (crate::hashing::prefix16_value(prefix_str.spec_bytes()).unwrap() as u16),
                    return_userid,
                    fetch_all,
                ),
            },
    {
        proof {
            use_type_invariant(&*self);
        }
        crate::sbserver::chunk_branding(
            &self.db,
            &self.string_set,
            prefix_str,
            return_userid,
            fetch_all,
        )
    }

    /// The compat per-user summary: counts, VIP standing, and the chosen
    /// username — the stored name when one entry matches, the id itself
    /// otherwise.
    pub fn user_info(&self, public_user_id: &str) -> (r: UserInfo)
        ensures
            r.user_id@ == public_user_id@,
            r.title_submission_count == self.spec_db().titles@.filter(
                |t: Title| t.user_id@ == public_user_id@ && t.votes >= 0,
            ).len(),
            r.thumbnail_submission_count == self.spec_db().thumbnails@.filter(
                |t: Thumbnail| t.user_id@ == public_user_id@ && t.votes >= 0,
            ).len(),
            r.vip == (exists|i: int|
                0 <= i < self.spec_db().vip_users@.len() && (
                #[trigger] self.spec_db().vip_users@[i])@ == public_user_id@),
            (forall|k: usize|
                self.spec_db().usernames@.dom().contains(k) ==> (
                #[trigger] self.spec_db().usernames@[k]).user_id@ != public_user_id@)
                ==> r.username@ == public_user_id@,
            forall|k: usize|
                self.spec_db().usernames@.dom().contains(k) && (
                #[trigger] self.spec_db().usernames@[k]).user_id@ == public_user_id@
                    ==> r.username@ == self.spec_db().usernames@[k].username@,
    {
        proof {
            use_type_invariant(&*self);
        }
        let info = crate::sbserver::user_info(&self.db, &self.string_set, public_user_id);
        proof {
            if forall|k: usize|
                self.spec_db().usernames@.dom().contains(k) ==> (
                #[trigger] self.spec_db().usernames@[k]).user_id@ != public_user_id@ {
                assert forall|k: usize| self.db.usernames@.dom().contains(k) implies (
                #[trigger] self.db.usernames@[k]).user_id@ != public_user_id@ by {
                    assert(self.spec_db().usernames@[k].user_id@ != public_user_id@);
                }
                assert(info.username@ == public_user_id@);
            }
            assert forall|k: usize|
                self.spec_db().usernames@.dom().contains(k) && (
                #[trigger] self.spec_db().usernames@[k]).user_id@ == public_user_id@ implies
                info.username@ == self.spec_db().usernames@[k].username@ by {
                assert(self.db.usernames@.dom().contains(k) && self.db.usernames@[k].user_id@
                    == public_user_id@);
            }
            if info.vip {
                let w = choose|i: int|
                    0 <= i < self.db.vip_users@.len() && (#[trigger] self.db.vip_users@[i])@
                        == public_user_id@;
                assert(0 <= w < self.spec_db().vip_users@.len() && self.spec_db().vip_users@[w]@
                    == public_user_id@);
            } else {
                assert forall|i: int| 0 <= i < self.spec_db().vip_users@.len() implies (
                #[trigger] self.spec_db().vip_users@[i])@ != public_user_id@ by {
                    assert(self.db.vip_users@[i]@ != public_user_id@);
                }
            }
        }
        info
    }
}

use vstd::string::StringSliceAdditionalSpecFns;

/// What a reload attempt decides.
pub enum ReloadDecision {
    /// Proceed: the flag was clear and is now set.
    Started,
    /// Rejected: a reload is already running.
    AlreadyUpdating,
}

/// The version counter after a successful publish: the clock reading when it
/// moved forward, and one past the old counter otherwise, so that the counter
/// strictly increases across publishes either way.
pub open spec fn spec_next_updated(old_value: int, now_ms: int) -> int {
    if now_ms > old_value {
        now_ms
    } else {
        old_value + 1
    }
}

/// The lock-guarded pair the server publishes from, with the reload
/// controller's bookkeeping.
pub struct DatabaseState {
    pub snapshot: Snapshot,
    pub errors: Vec<LoadError>,
    pub last_updated: i64,
    pub last_modified: i64,
    pub updating_now: bool,
}

impl DatabaseState {
    pub fn new(now_ms: i64, mtime_ms: i64) -> (r: DatabaseState)
        ensures
            r.last_updated == now_ms,
            r.last_modified == mtime_ms,
            !r.updating_now,
            r.errors@.len() == 0,
    {
        DatabaseState {
            snapshot: Snapshot::empty(),
            errors: Vec::new(),
            last_updated: now_ms,
            last_modified: mtime_ms,
            updating_now: false,
        }
    }

    /// The first critical section of a reload: fail fast when one is already
    /// running, otherwise claim the flag. Nothing else changes.
    pub fn begin_reload(&mut self) -> (r: ReloadDecision)
        ensures
            (r, *final(self)) == spec_begin_reload(*old(self)),
            old(self).updating_now ==> r is AlreadyUpdating && *final(self) == *old(self),
            !old(self).updating_now ==> {
                &&& r is Started
                &&& final(self).updating_now
                &&& final(self).snapshot == old(self).snapshot
                &&& final(self).errors == old(self).errors
                &&& final(self).last_updated == old(self).last_updated
                &&& final(self).last_modified == old(self).last_modified
            },
    {
        if self.updating_now {
            ReloadDecision::AlreadyUpdating
        } else {
            self.updating_now = true;
            ReloadDecision::Started
        }
    }

    /// The second critical section: publish a finished snapshot atomically,
    /// advance the version counter strictly, record the mirror's modification
    /// time, and clear the flag.
    pub fn publish(&mut self, snapshot: Snapshot, errors: Vec<LoadError>, now_ms: i64, mtime_ms: i64)
        requires
            old(self).last_updated < i64::MAX,
        ensures
            final(self).snapshot == snapshot,
            final(self).errors == errors,
            final(self).last_updated as int == spec_next_updated(
                old(self).last_updated as int,
                now_ms as int,
            ),
            final(self).last_updated > old(self).last_updated,
            final(self).last_modified == mtime_ms,
            !final(self).updating_now,
    {
        self.snapshot = snapshot;
        self.errors = errors;
        self.last_updated = if now_ms > self.last_updated {
            now_ms
        } else {
            self.last_updated + 1
        };
        self.last_modified = mtime_ms;
        self.updating_now = false;
    }

    /// A failed rebuild: clear the flag and keep everything published as it
    /// was.
    pub fn abort_reload(&mut self)
        ensures
            !final(self).updating_now,
            final(self).snapshot == old(self).snapshot,
            final(self).errors == old(self).errors,
            final(self).last_updated == old(self).last_updated,
            final(self).last_modified == old(self).last_modified,
    {
        self.updating_now = false;
    }
}

/// What `begin_reload` does, as a transition on the state value.
pub open spec fn spec_begin_reload(s: DatabaseState) -> (ReloadDecision, DatabaseState) {
    if s.updating_now {
        (ReloadDecision::AlreadyUpdating, s)
    } else {
        (
            ReloadDecision::Started,
            DatabaseState {
                snapshot: s.snapshot,
                errors: s.errors,
                last_updated: s.last_updated,
                last_modified: s.last_modified,
                updating_now: true,
            },
        )
    }
}

/// At most one reload runs at a time: after one `begin_reload` succeeds, a
/// second attempt on the resulting state is rejected and changes nothing,
/// until a publish or an abort clears the flag.
pub proof fn lemma_reload_exclusion(s: DatabaseState)
    ensures
        spec_begin_reload(s).0 is Started ==> {
            let after = spec_begin_reload(s).1;
            &&& spec_begin_reload(after).0 is AlreadyUpdating
            &&& spec_begin_reload(after).1 == after
        },
{
}

/// The version counter strictly increases across successive publishes,
/// whatever the clock reads.
pub proof fn lemma_last_updated_increases(v0: int, now1: int, now2: int)
    ensures
        spec_next_updated(v0, now1) > v0,
        spec_next_updated(spec_next_updated(v0, now1), now2) > spec_next_updated(v0, now1),
{
}


/// What the reload route decides about the caller's shared secret.
pub enum AuthOutcome {
    /// No secret was offered: the route answers as if it did not exist.
    Missing,
    /// A secret was offered and its digest differs: forbidden.
    Wrong,
    /// The offered secret's digest equals the configured one.
    Granted,
}

/// Compare an offered secret against the configured one, both through their
/// SHA-256 digests, as the reload route does.
pub fn check_auth(provided: Option<&str>, secret: &str) -> (r: AuthOutcome)
    ensures
        (r is Missing) == (provided is None),
        (r is Granted) == (provided is Some && crate::hashing::sha256_of(
            vstd::utf8::encode_utf8(provided.unwrap()@),
        ) == crate::hashing::sha256_of(vstd::utf8::encode_utf8(secret@))),
{
    match provided {
        None => AuthOutcome::Missing,
        Some(s) => {
            let provided_hash = crate::hashing::sha256(s);
            let actual_hash = crate::hashing::sha256(secret);
            if crate::text::bytes_eq(provided_hash.as_slice(), actual_hash.as_slice()) {
                AuthOutcome::Granted
            } else {
                AuthOutcome::Wrong
            }
        },
    }
}

} // verus!
