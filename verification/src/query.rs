//! The read side of the browse API: materialize titles and thumbnails from a
//! dataset, joined with usernames and the VIP roster, filtered by the
//! caller's key and ordered by submission time.

use vstd::prelude::*;

verus! {

use vstd::std_specs::hash::group_hash_axioms;
use crate::string_pool::{InternedString, StringSet};
use crate::records::{Title, Thumbnail};
use crate::db::DearrowDB;
use crate::sort::{SortKey, sort_by_key, sorted_by_key};

broadcast use group_hash_axioms;

/// A title as the browse API reports it.
pub struct ApiTitle {
    pub uuid: InternedString,
    pub video_id: InternedString,
    pub title: InternedString,
    pub user_id: InternedString,
    pub time_submitted: i64,
    pub votes: i8,
    pub downvotes: i8,
    pub original: bool,
    pub locked: bool,
    pub shadow_hidden: bool,
    pub unverified: bool,
    pub removed: bool,
    /// votes, plus one when the title is unverified.
    pub score: i16,
    pub username: Option<InternedString>,
    pub vip: bool,
}

/// A thumbnail as the browse API reports it.
pub struct ApiThumbnail {
    pub uuid: InternedString,
    pub video_id: InternedString,
    pub user_id: InternedString,
    pub time_submitted: i64,
    pub timestamp: Option<i64>,
    pub votes: i8,
    pub downvotes: i8,
    pub original: bool,
    pub locked: bool,
    pub shadow_hidden: bool,
    pub removed: bool,
    pub username: Option<InternedString>,
    pub vip: bool,
}

/// Whether the VIP roster holds this user.
pub open spec fn spec_is_vip(db: DearrowDB, user_id: InternedString) -> bool {
    exists|i: int|
        0 <= i < db.vip_users@.len() && (#[trigger] db.vip_users@[i]).spec_id()
            == user_id.spec_id()
}

/// The username entry for this user, if any.
pub open spec fn spec_username_of(db: DearrowDB, user_id: InternedString) -> Option<
    InternedString,
> {
    if db.usernames@.dom().contains(user_id.spec_id() as usize) {
        Some(db.usernames@[user_id.spec_id() as usize].username)
    } else {
        None
    }
}

/// Exactly the API view of a merged title: fields copied, the score equation,
/// and the username/VIP joins.
pub open spec fn spec_api_title(db: DearrowDB, t: Title) -> ApiTitle {
    ApiTitle {
        uuid: t.uuid,
        video_id: t.video_id,
        title: t.title,
        user_id: t.user_id,
        time_submitted: t.time_submitted,
        votes: t.votes,
        downvotes: t.downvotes,
        original: t.flags.original,
        locked: t.flags.locked,
        shadow_hidden: t.flags.shadow_hidden,
        unverified: t.flags.unverified,
        removed: t.flags.removed,
        score: (t.votes + (if t.flags.unverified {
            1int
        } else {
            0int
        })) as i16,
        username: spec_username_of(db, t.user_id),
        vip: spec_is_vip(db, t.user_id),
    }
}

pub open spec fn spec_api_thumbnail(db: DearrowDB, t: Thumbnail) -> ApiThumbnail {
    ApiThumbnail {
        uuid: t.uuid,
        video_id: t.video_id,
        user_id: t.user_id,
        time_submitted: t.time_submitted,
        timestamp: t.timestamp,
        votes: t.votes,
        downvotes: t.downvotes,
        original: t.flags.original,
        locked: t.flags.locked,
        shadow_hidden: t.flags.shadow_hidden,
        removed: t.flags.removed,
        username: spec_username_of(db, t.user_id),
        vip: spec_is_vip(db, t.user_id),
    }
}

impl SortKey for ApiTitle {
    open spec fn spec_key(&self) -> int {
        -(self.time_submitted as int)
    }

    fn key(&self) -> (r: i128)
        ensures
            r as int == self.spec_key(),
    {
        -(self.time_submitted as i128)
    }
}

impl SortKey for ApiThumbnail {
    open spec fn spec_key(&self) -> int {
        -(self.time_submitted as int)
    }

    fn key(&self) -> (r: i128)
        ensures
            r as int == self.spec_key(),
    {
        -(self.time_submitted as i128)
    }
}

/// Scan the VIP roster for this user, comparing pooled indices.
pub fn is_vip(db: &DearrowDB, user_id: &InternedString) -> (r: bool)
    ensures
        r == spec_is_vip(*db, *user_id),
{
    let mut i: usize = 0;
    while i < db.vip_users.len()
        invariant
            i <= db.vip_users@.len(),
            forall|l: int|
                0 <= l < i ==> (#[trigger] db.vip_users@[l]).spec_id() != user_id.spec_id(),
        decreases db.vip_users@.len() - i,
    {
        if InternedString::ptr_eq(&db.vip_users[i], user_id) {
            return true;
        }
        i = i + 1;
    }
    false
}

/// Look this user's chosen name up, keyed by pooled index.
pub fn username_of(db: &DearrowDB, user_id: &InternedString) -> (r: Option<InternedString>)
    ensures
        r == spec_username_of(*db, *user_id),
{
    match db.usernames.get(&user_id.id()) {
        Some(entry) => Some(entry.username.clone()),
        None => None,
    }
}

impl Title {
    /// The API view of this title against a dataset: score equation and
    /// username/VIP joins included.
    pub fn into_with_db(&self, db: &DearrowDB) -> (r: ApiTitle)
        ensures
            r == spec_api_title(*db, *self),
    {
        let score: i16 = self.votes as i16 + (if self.flags.unverified {
            1
        } else {
            0
        });
        ApiTitle {
            uuid: self.uuid.clone(),
            video_id: self.video_id.clone(),
            title: self.title.clone(),
            user_id: self.user_id.clone(),
            time_submitted: self.time_submitted,
            votes: self.votes,
            downvotes: self.downvotes,
            original: self.flags.original,
            locked: self.flags.locked,
            shadow_hidden: self.flags.shadow_hidden,
            unverified: self.flags.unverified,
            removed: self.flags.removed,
            score,
            username: username_of(db, &self.user_id),
            vip: is_vip(db, &self.user_id),
        }
    }
}

impl Thumbnail {
    pub fn into_with_db(&self, db: &DearrowDB) -> (r: ApiThumbnail)
        ensures
            r == spec_api_thumbnail(*db, *self),
    {
        ApiThumbnail {
            uuid: self.uuid.clone(),
            video_id: self.video_id.clone(),
            user_id: self.user_id.clone(),
            time_submitted: self.time_submitted,
            timestamp: self.timestamp,
            votes: self.votes,
            downvotes: self.downvotes,
            original: self.flags.original,
            locked: self.flags.locked,
            shadow_hidden: self.flags.shadow_hidden,
            removed: self.flags.removed,
            username: username_of(db, &self.user_id),
            vip: is_vip(db, &self.user_id),
        }
    }
}

/// Pooled handles compare equal by index exactly when their contents are
/// equal; and a string absent from the pool equals no pooled handle's
/// contents.
proof fn lemma_ptr_eq_text(pool: StringSet, a: InternedString, b: InternedString)
    requires
        pool.inv(),
        pool.is_interned(a),
        pool.is_interned(b),
    ensures
        (a.spec_id() == b.spec_id()) <==> (a@ == b@),
{
    pool.lemma_interned_handle_eq(a, b);
}

/// The newest `limit` titles: the tail of the time-sorted sequence, newest
/// first.
pub fn titles_newest(db: &DearrowDB, limit: usize) -> (r: Vec<ApiTitle>)
    requires
        sorted_by_key(db.titles@),
    ensures
        r@.len() == (if db.titles@.len() <= limit {
            db.titles@.len() as int
        } else {
            limit as int
        }),
        forall|i: int|
            0 <= i < r@.len() ==> r@[i] == spec_api_title(
                *db,
                db.titles@[db.titles@.len() - 1 - i],
            ),
{
    let mut r: Vec<ApiTitle> = Vec::new();
    let n = db.titles.len();
    let count = if n <= limit {
        n
    } else {
        limit
    };
    let mut i: usize = 0;
    while i < count
        invariant
            i <= count,
            count == (if db.titles@.len() <= limit {
                db.titles@.len() as int
            } else {
                limit as int
            }),
            count <= db.titles@.len(),
            r@.len() == i,
            forall|j: int|
                0 <= j < i ==> r@[j] == spec_api_title(*db, db.titles@[db.titles@.len() - 1 - j]),
        decreases count - i,
    {
        let t = &db.titles[db.titles.len() - 1 - i];
        r.push(t.into_with_db(db));
        i = i + 1;
    }
    r
}

/// The newest `limit` thumbnails.
pub fn thumbnails_newest(db: &DearrowDB, limit: usize) -> (r: Vec<ApiThumbnail>)
    requires
        sorted_by_key(db.thumbnails@),
    ensures
        r@.len() == (if db.thumbnails@.len() <= limit {
            db.thumbnails@.len() as int
        } else {
            limit as int
        }),
        forall|i: int|
            0 <= i < r@.len() ==> r@[i] == spec_api_thumbnail(
                *db,
                db.thumbnails@[db.thumbnails@.len() - 1 - i],
            ),
{
    let mut r: Vec<ApiThumbnail> = Vec::new();
    let n = db.thumbnails.len();
    let count = if n <= limit {
        n
    } else {
        limit
    };
    let mut i: usize = 0;
    while i < count
        invariant
            i <= count,
            count == (if db.thumbnails@.len() <= limit {
                db.thumbnails@.len() as int
            } else {
                limit as int
            }),
            count <= db.thumbnails@.len(),
            r@.len() == i,
            forall|j: int|
                0 <= j < i ==> r@[j] == spec_api_thumbnail(
                    *db,
                    db.thumbnails@[db.thumbnails@.len() - 1 - j],
                ),
        decreases count - i,
    {
        let t = &db.thumbnails[db.thumbnails.len() - 1 - i];
        r.push(t.into_with_db(db));
        i = i + 1;
    }
    r
}

/// Unverified and neither locked nor shadow-hidden.
pub open spec fn spec_unverified_shown(t: Title) -> bool {
    t.flags.unverified && !t.flags.locked && !t.flags.shadow_hidden
}

/// All unverified titles that are neither locked nor shadow hidden, in
/// dataset order.
pub fn titles_unverified(db: &DearrowDB) -> (r: Vec<ApiTitle>)
    ensures
        r@ == db.titles@.filter(|t: Title| spec_unverified_shown(t)).map_values(
            |t: Title| spec_api_title(*db, t),
        ),
{
    broadcast use vstd::seq_lib::group_filter_ensures, vstd::prelude::Seq::lemma_filter_push;

    let mut r: Vec<ApiTitle> = Vec::new();
    let mut i: usize = 0;
    while i < db.titles.len()
        invariant
            i <= db.titles@.len(),
            r@ == db.titles@.take(i as int).filter(|t: Title| spec_unverified_shown(t)).map_values(
                |t: Title| spec_api_title(*db, t),
            ),
        decreases db.titles@.len() - i,
    {
        let t = &db.titles[i];
        proof {
            assert(db.titles@.take(i + 1) =~= db.titles@.take(i as int).push(
                db.titles@[i as int],
            ));
        }
        if t.flags.unverified && !t.flags.locked && !t.flags.shadow_hidden {
            r.push(t.into_with_db(db));
        }
        proof {
            let p = |t: Title| spec_unverified_shown(t);
            let f = |t: Title| spec_api_title(*db, t);
            db.titles@.take(i as int).lemma_filter_push(db.titles@[i as int], p);
            assert(db.titles@.take(i as int).push(db.titles@[i as int]).filter(p) == (if p(
                db.titles@[i as int],
            ) {
                db.titles@.take(i as int).filter(p).push(db.titles@[i as int])
            } else {
                db.titles@.take(i as int).filter(p)
            }));
            assert(db.titles@.take(i + 1).filter(p).map_values(f) =~= r@);
        }
        i = i + 1;
    }
    proof {
        assert(db.titles@.take(db.titles@.len() as int) =~= db.titles@);
    }
    r
}

/// The first title whose UUID holds exactly the given text; pooled handles
/// make the scan an index comparison.
pub fn title_by_uuid(db: &DearrowDB, pool: &StringSet, uuid: &str) -> (r: Option<ApiTitle>)
    requires
        forall|i: int| 0 <= i < db.titles@.len() ==> (#[trigger] db.titles@[i]).interned(*pool),
    ensures
        match r {
            Some(t) => exists|i: int|
                0 <= i < db.titles@.len() && t == spec_api_title(*db, #[trigger] db.titles@[i])
                    && db.titles@[i].uuid@ == uuid@,
            None => forall|i: int|
                0 <= i < db.titles@.len() ==> (#[trigger] db.titles@[i]).uuid@ != uuid@,
        },
{
    proof {
        use_type_invariant(pool);
    }
    let handle = match pool.get(uuid) {
        Some(h) => h,
        None => {
            proof {
                assert forall|i: int| 0 <= i < db.titles@.len() implies (
                #[trigger] db.titles@[i]).uuid@ != uuid@ by {
                    assert(pool.is_interned(db.titles@[i].uuid));
                }
            }
            return None;
        },
    };
    let mut i: usize = 0;
    while i < db.titles.len()
        invariant
            i <= db.titles@.len(),
            pool.inv(),
            pool.is_interned(handle),
            handle@ == uuid@,
            forall|l: int| 0 <= l < db.titles@.len() ==> (#[trigger] db.titles@[l]).interned(*pool),
            forall|l: int| 0 <= l < i ==> (#[trigger] db.titles@[l]).uuid@ != uuid@,
        decreases db.titles@.len() - i,
    {
        let t = &db.titles[i];
        let hit = InternedString::ptr_eq(&t.uuid, &handle);
        proof {
            lemma_ptr_eq_text(*pool, db.titles@[i as int].uuid, handle);
        }
        if hit {
            return Some(t.into_with_db(db));
        }
        i = i + 1;
    }
    None
}

/// The first thumbnail whose UUID holds exactly the given text; pooled handles
/// make the scan an index comparison.
pub fn thumbnail_by_uuid(db: &DearrowDB, pool: &StringSet, uuid: &str) -> (r: Option<ApiThumbnail>)
    requires
        forall|i: int| 0 <= i < db.thumbnails@.len() ==> (#[trigger] db.thumbnails@[i]).interned(*pool),
    ensures
        match r {
            Some(t) => exists|i: int|
                0 <= i < db.thumbnails@.len() && t == spec_api_thumbnail(*db, #[trigger] db.thumbnails@[i])
                    && db.thumbnails@[i].uuid@ == uuid@,
            None => forall|i: int|
                0 <= i < db.thumbnails@.len() ==> (#[trigger] db.thumbnails@[i]).uuid@ != uuid@,
        },
{
    proof {
        use_type_invariant(pool);
    }
    let handle = match pool.get(uuid) {
        Some(h) => h,
        None => {
            proof {
                assert forall|i: int| 0 <= i < db.thumbnails@.len() implies (
                #[trigger] db.thumbnails@[i]).uuid@ != uuid@ by {
                    assert(pool.is_interned(db.thumbnails@[i].uuid));
                }
            }
            return None;
        },
    };
    let mut i: usize = 0;
    while i < db.thumbnails.len()
        invariant
            i <= db.thumbnails@.len(),
            pool.inv(),
            pool.is_interned(handle),
            handle@ == uuid@,
            forall|l: int| 0 <= l < db.thumbnails@.len() ==> (#[trigger] db.thumbnails@[l]).interned(*pool),
            forall|l: int| 0 <= l < i ==> (#[trigger] db.thumbnails@[l]).uuid@ != uuid@,
        decreases db.thumbnails@.len() - i,
    {
        let t = &db.thumbnails[i];
        let hit = InternedString::ptr_eq(&t.uuid, &handle);
        proof {
            lemma_ptr_eq_text(*pool, db.thumbnails@[i as int].uuid, handle);
        }
        if hit {
            return Some(t.into_with_db(db));
        }
        i = i + 1;
    }
    None
}

/// All titles of one video, newest first. Scanning by pooled index returns the same
/// records as scanning the whole sequence for byte-equal ids.
pub fn titles_by_video_id(db: &DearrowDB, pool: &StringSet, video_id: &str) -> (r: Vec<ApiTitle>)
    requires
        forall|i: int| 0 <= i < db.titles@.len() ==> (#[trigger] db.titles@[i]).interned(*pool),
    ensures
        r@.to_multiset() == db.titles@.filter(|t: Title| t.video_id@ == video_id@).map_values(
            |t: Title| spec_api_title(*db, t),
        ).to_multiset(),
        forall|k: int, l: int|
            0 <= k < l < r@.len() ==> #[trigger] r@[k].time_submitted >= #[trigger] r@[l].time_submitted,
{
    broadcast use vstd::seq_lib::group_filter_ensures, vstd::prelude::Seq::lemma_filter_push;

    proof {
        use_type_invariant(pool);
    }
    let mut r: Vec<ApiTitle> = Vec::new();
    let handle_opt = pool.get(video_id);
    match handle_opt {
        None => {
            proof {
                let p = |t: Title| t.video_id@ == video_id@;
                assert forall|i: int| 0 <= i < db.titles@.len() implies !(#[trigger] p(
                    db.titles@[i],
                )) by {
                    assert(pool.is_interned(db.titles@[i].video_id));
                }
                assert(db.titles@.all(|t: Title| !p(t)));
                db.titles@.lemma_all_neg_filter_empty(p);
                assert(db.titles@.filter(p) =~= Seq::<Title>::empty());
                assert(db.titles@.filter(p).map_values(|t: Title| spec_api_title(*db, t))
                    =~= Seq::<ApiTitle>::empty());
            }
            return r;
        },
        Some(handle) => {
            let mut i: usize = 0;
            while i < db.titles.len()
                invariant
                    i <= db.titles@.len(),
                    pool.inv(),
                    pool.is_interned(handle),
                    handle@ == video_id@,
                    forall|l: int|
                        0 <= l < db.titles@.len() ==> (#[trigger] db.titles@[l]).interned(*pool),
                    r@ == db.titles@.take(i as int).filter(|t: Title| t.video_id@ == video_id@)
                        .map_values(|t: Title| spec_api_title(*db, t)),
                decreases db.titles@.len() - i,
            {
                let t = &db.titles[i];
                proof {
                    assert(db.titles@.take(i + 1) =~= db.titles@.take(i as int).push(
                        db.titles@[i as int],
                    ));
                    lemma_ptr_eq_text(*pool, db.titles@[i as int].video_id, handle);
                }
                if InternedString::ptr_eq(&t.video_id, &handle) {
                    r.push(t.into_with_db(db));
                }
                proof {
                    let p = |t: Title| t.video_id@ == video_id@;
                    let f = |t: Title| spec_api_title(*db, t);
                    db.titles@.take(i as int).lemma_filter_push(db.titles@[i as int], p);
                    assert(db.titles@.take(i as int).push(db.titles@[i as int]).filter(p)
                        == (if p(db.titles@[i as int]) {
                        db.titles@.take(i as int).filter(p).push(db.titles@[i as int])
                    } else {
                        db.titles@.take(i as int).filter(p)
                    }));
                    assert(db.titles@.take(i + 1).filter(p).map_values(f) =~= r@);
                }
                i = i + 1;
            }
            proof {
                assert(db.titles@.take(db.titles@.len() as int) =~= db.titles@);
            }
            sort_by_key(&mut r);
            proof {
                assert forall|k: int, l: int| 0 <= k < l < r@.len() implies
                    #[trigger] r@[k].time_submitted >= #[trigger] r@[l].time_submitted by {
                    assert(r@[k].spec_key() <= r@[l].spec_key());
                }
            }
            r
        },
    }
}

/// All titles by one user, newest first. Scanning by pooled index returns the same
/// records as scanning the whole sequence for byte-equal ids.
pub fn titles_by_user_id(db: &DearrowDB, pool: &StringSet, user_id: &str) -> (r: Vec<ApiTitle>)
    requires
        forall|i: int| 0 <= i < db.titles@.len() ==> (#[trigger] db.titles@[i]).interned(*pool),
    ensures
        r@.to_multiset() == db.titles@.filter(|t: Title| t.user_id@ == user_id@).map_values(
            |t: Title| spec_api_title(*db, t),
        ).to_multiset(),
        forall|k: int, l: int|
            0 <= k < l < r@.len() ==> #[trigger] r@[k].time_submitted >= #[trigger] r@[l].time_submitted,
{
    broadcast use vstd::seq_lib::group_filter_ensures, vstd::prelude::Seq::lemma_filter_push;

    proof {
        use_type_invariant(pool);
    }
    let mut r: Vec<ApiTitle> = Vec::new();
    let handle_opt = pool.get(user_id);
    match handle_opt {
        None => {
            proof {
                let p = |t: Title| t.user_id@ == user_id@;
                assert forall|i: int| 0 <= i < db.titles@.len() implies !(#[trigger] p(
                    db.titles@[i],
                )) by {
                    assert(pool.is_interned(db.titles@[i].user_id));
                }
                assert(db.titles@.all(|t: Title| !p(t)));
                db.titles@.lemma_all_neg_filter_empty(p);
                assert(db.titles@.filter(p) =~= Seq::<Title>::empty());
                assert(db.titles@.filter(p).map_values(|t: Title| spec_api_title(*db, t))
                    =~= Seq::<ApiTitle>::empty());
            }
            return r;
        },
        Some(handle) => {
            let mut i: usize = 0;
            while i < db.titles.len()
                invariant
                    i <= db.titles@.len(),
                    pool.inv(),
                    pool.is_interned(handle),
                    handle@ == user_id@,
                    forall|l: int|
                        0 <= l < db.titles@.len() ==> (#[trigger] db.titles@[l]).interned(*pool),
                    r@ == db.titles@.take(i as int).filter(|t: Title| t.user_id@ == user_id@)
                        .map_values(|t: Title| spec_api_title(*db, t)),
                decreases db.titles@.len() - i,
            {
                let t = &db.titles[i];
                proof {
                    assert(db.titles@.take(i + 1) =~= db.titles@.take(i as int).push(
                        db.titles@[i as int],
                    ));
                    lemma_ptr_eq_text(*pool, db.titles@[i as int].user_id, handle);
                }
                if InternedString::ptr_eq(&t.user_id, &handle) {
                    r.push(t.into_with_db(db));
                }
                proof {
                    let p = |t: Title| t.user_id@ == user_id@;
                    let f = |t: Title| spec_api_title(*db, t);
                    db.titles@.take(i as int).lemma_filter_push(db.titles@[i as int], p);
                    assert(db.titles@.take(i as int).push(db.titles@[i as int]).filter(p)
                        == (if p(db.titles@[i as int]) {
                        db.titles@.take(i as int).filter(p).push(db.titles@[i as int])
                    } else {
                        db.titles@.take(i as int).filter(p)
                    }));
                    assert(db.titles@.take(i + 1).filter(p).map_values(f) =~= r@);
                }
                i = i + 1;
            }
            proof {
                assert(db.titles@.take(db.titles@.len() as int) =~= db.titles@);
            }
            sort_by_key(&mut r);
            proof {
                assert forall|k: int, l: int| 0 <= k < l < r@.len() implies
                    #[trigger] r@[k].time_submitted >= #[trigger] r@[l].time_submitted by {
                    assert(r@[k].spec_key() <= r@[l].spec_key());
                }
            }
            r
        },
    }
}

/// All thumbnails of one video, newest first. Scanning by pooled index returns the same
/// records as scanning the whole sequence for byte-equal ids.
pub fn thumbnails_by_video_id(db: &DearrowDB, pool: &StringSet, video_id: &str) -> (r: Vec<ApiThumbnail>)
    requires
        forall|i: int| 0 <= i < db.thumbnails@.len() ==> (#[trigger] db.thumbnails@[i]).interned(*pool),
    ensures
        r@.to_multiset() == db.thumbnails@.filter(|t: Thumbnail| t.video_id@ == video_id@).map_values(
            |t: Thumbnail| spec_api_thumbnail(*db, t),
        ).to_multiset(),
        forall|k: int, l: int|
            0 <= k < l < r@.len() ==> #[trigger] r@[k].time_submitted >= #[trigger] r@[l].time_submitted,
{
    broadcast use vstd::seq_lib::group_filter_ensures, vstd::prelude::Seq::lemma_filter_push;

    proof {
        use_type_invariant(pool);
    }
    let mut r: Vec<ApiThumbnail> = Vec::new();
    let handle_opt = pool.get(video_id);
    match handle_opt {
        None => {
            proof {
                let p = |t: Thumbnail| t.video_id@ == video_id@;
                assert forall|i: int| 0 <= i < db.thumbnails@.len() implies !(#[trigger] p(
                    db.thumbnails@[i],
                )) by {
                    assert(pool.is_interned(db.thumbnails@[i].video_id));
                }
                assert(db.thumbnails@.all(|t: Thumbnail| !p(t)));
                db.thumbnails@.lemma_all_neg_filter_empty(p);
                assert(db.thumbnails@.filter(p) =~= Seq::<Thumbnail>::empty());
                assert(db.thumbnails@.filter(p).map_values(|t: Thumbnail| spec_api_thumbnail(*db, t))
                    =~= Seq::<ApiThumbnail>::empty());
            }
            return r;
        },
        Some(handle) => {
            let mut i: usize = 0;
            while i < db.thumbnails.len()
                invariant
                    i <= db.thumbnails@.len(),
                    pool.inv(),
                    pool.is_interned(handle),
                    handle@ == video_id@,
                    forall|l: int|
                        0 <= l < db.thumbnails@.len() ==> (#[trigger] db.thumbnails@[l]).interned(*pool),
                    r@ == db.thumbnails@.take(i as int).filter(|t: Thumbnail| t.video_id@ == video_id@)
                        .map_values(|t: Thumbnail| spec_api_thumbnail(*db, t)),
                decreases db.thumbnails@.len() - i,
            {
                let t = &db.thumbnails[i];
                proof {
                    assert(db.thumbnails@.take(i + 1) =~= db.thumbnails@.take(i as int).push(
                        db.thumbnails@[i as int],
                    ));
                    lemma_ptr_eq_text(*pool, db.thumbnails@[i as int].video_id, handle);
                }
                if InternedString::ptr_eq(&t.video_id, &handle) {
                    r.push(t.into_with_db(db));
                }
                proof {
                    let p = |t: Thumbnail| t.video_id@ == video_id@;
                    let f = |t: Thumbnail| spec_api_thumbnail(*db, t);
                    db.thumbnails@.take(i as int).lemma_filter_push(db.thumbnails@[i as int], p);
                    assert(db.thumbnails@.take(i as int).push(db.thumbnails@[i as int]).filter(p)
                        == (if p(db.thumbnails@[i as int]) {
                        db.thumbnails@.take(i as int).filter(p).push(db.thumbnails@[i as int])
                    } else {
                        db.thumbnails@.take(i as int).filter(p)
                    }));
                    assert(db.thumbnails@.take(i + 1).filter(p).map_values(f) =~= r@);
                }
                i = i + 1;
            }
            proof {
                assert(db.thumbnails@.take(db.thumbnails@.len() as int) =~= db.thumbnails@);
            }
            sort_by_key(&mut r);
            proof {
                assert forall|k: int, l: int| 0 <= k < l < r@.len() implies
                    #[trigger] r@[k].time_submitted >= #[trigger] r@[l].time_submitted by {
                    assert(r@[k].spec_key() <= r@[l].spec_key());
                }
            }
            r
        },
    }
}

/// All thumbnails by one user, newest first. Scanning by pooled index returns the same
/// records as scanning the whole sequence for byte-equal ids.
pub fn thumbnails_by_user_id(db: &DearrowDB, pool: &StringSet, user_id: &str) -> (r: Vec<ApiThumbnail>)
    requires
        forall|i: int| 0 <= i < db.thumbnails@.len() ==> (#[trigger] db.thumbnails@[i]).interned(*pool),
    ensures
        r@.to_multiset() == db.thumbnails@.filter(|t: Thumbnail| t.user_id@ == user_id@).map_values(
            |t: Thumbnail| spec_api_thumbnail(*db, t),
        ).to_multiset(),
        forall|k: int, l: int|
            0 <= k < l < r@.len() ==> #[trigger] r@[k].time_submitted >= #[trigger] r@[l].time_submitted,
{
    broadcast use vstd::seq_lib::group_filter_ensures, vstd::prelude::Seq::lemma_filter_push;

    proof {
        use_type_invariant(pool);
    }
    let mut r: Vec<ApiThumbnail> = Vec::new();
    let handle_opt = pool.get(user_id);
    match handle_opt {
        None => {
            proof {
                let p = |t: Thumbnail| t.user_id@ == user_id@;
                assert forall|i: int| 0 <= i < db.thumbnails@.len() implies !(#[trigger] p(
                    db.thumbnails@[i],
                )) by {
                    assert(pool.is_interned(db.thumbnails@[i].user_id));
                }
                assert(db.thumbnails@.all(|t: Thumbnail| !p(t)));
                db.thumbnails@.lemma_all_neg_filter_empty(p);
                assert(db.thumbnails@.filter(p) =~= Seq::<Thumbnail>::empty());
                assert(db.thumbnails@.filter(p).map_values(|t: Thumbnail| spec_api_thumbnail(*db, t))
                    =~= Seq::<ApiThumbnail>::empty());
            }
            return r;
        },
        Some(handle) => {
            let mut i: usize = 0;
            while i < db.thumbnails.len()
                invariant
                    i <= db.thumbnails@.len(),
                    pool.inv(),
                    pool.is_interned(handle),
                    handle@ == user_id@,
                    forall|l: int|
                        0 <= l < db.thumbnails@.len() ==> (#[trigger] db.thumbnails@[l]).interned(*pool),
                    r@ == db.thumbnails@.take(i as int).filter(|t: Thumbnail| t.user_id@ == user_id@)
                        .map_values(|t: Thumbnail| spec_api_thumbnail(*db, t)),
                decreases db.thumbnails@.len() - i,
            {
                let t = &db.thumbnails[i];
                proof {
                    assert(db.thumbnails@.take(i + 1) =~= db.thumbnails@.take(i as int).push(
                        db.thumbnails@[i as int],
                    ));
                    lemma_ptr_eq_text(*pool, db.thumbnails@[i as int].user_id, handle);
                }
                if InternedString::ptr_eq(&t.user_id, &handle) {
                    r.push(t.into_with_db(db));
                }
                proof {
                    let p = |t: Thumbnail| t.user_id@ == user_id@;
                    let f = |t: Thumbnail| spec_api_thumbnail(*db, t);
                    db.thumbnails@.take(i as int).lemma_filter_push(db.thumbnails@[i as int], p);
                    assert(db.thumbnails@.take(i as int).push(db.thumbnails@[i as int]).filter(p)
                        == (if p(db.thumbnails@[i as int]) {
                        db.thumbnails@.take(i as int).filter(p).push(db.thumbnails@[i as int])
                    } else {
                        db.thumbnails@.take(i as int).filter(p)
                    }));
                    assert(db.thumbnails@.take(i + 1).filter(p).map_values(f) =~= r@);
                }
                i = i + 1;
            }
            proof {
                assert(db.thumbnails@.take(db.thumbnails@.len() as int) =~= db.thumbnails@);
            }
            sort_by_key(&mut r);
            proof {
                assert forall|k: int, l: int| 0 <= k < l < r@.len() implies
                    #[trigger] r@[k].time_submitted >= #[trigger] r@[l].time_submitted by {
                    assert(r@[k].spec_key() <= r@[l].spec_key());
                }
            }
            r
        },
    }
}

} // verus!
