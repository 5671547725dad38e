//! The compatibility surface that mimics the upstream branding service:
//! per-video title/thumbnail rendering with visibility rules and vote/lock
//! ordering, bucket-wide branding, and per-user info. The deterministic
//! random-time draw is floating point and is taken by the HTTP layer from the
//! `VideoInfo` these functions hand back.

use vstd::prelude::*;

verus! {

use vstd::string::StrSliceExecFns;
use crate::string_pool::{InternedString, StringSet};
use crate::records::{Title, Thumbnail, VideoInfo};
use crate::db::DearrowDB;
use crate::sort::{SortKey, sort_by_key, sorted_by_key};
use crate::text::push_char;
use crate::hashing::{parse_hashprefix, prefix16_value};
use vstd::string::StringSliceAdditionalSpecFns;

/// The first `<` replaced by a single left-pointing angle quotation mark,
/// for display parity with the upstream service; later occurrences stay.
pub open spec fn spec_replace_angle(s: Seq<char>) -> Seq<char>
    decreases s.len(),
{
    if s.len() == 0 {
        s
    } else if s[0] == '<' {
        seq!['\u{2039}'] + s.drop_first()
    } else {
        seq![s[0]] + spec_replace_angle(s.drop_first())
    }
}

/// A string without `<` is left alone.
proof fn lemma_replace_angle_none(s: Seq<char>)
    requires
        forall|j: int| 0 <= j < s.len() ==> s[j] != '<',
    ensures
        spec_replace_angle(s) == s,
    decreases s.len(),
{
    if s.len() > 0 {
        lemma_replace_angle_none(s.drop_first());
        assert(spec_replace_angle(s) =~= s);
    }
}

/// With the first `<` at position `f`, exactly that character is replaced.
proof fn lemma_replace_angle_at(s: Seq<char>, f: int)
    requires
        0 <= f < s.len(),
        s[f] == '<',
        forall|j: int| 0 <= j < f ==> s[j] != '<',
    ensures
        spec_replace_angle(s) =~= s.take(f) + seq!['\u{2039}'] + s.skip(f + 1),
    decreases f,
{
    if f == 0 {
        assert(s.drop_first() =~= s.skip(1));
        assert(s.take(0) + seq!['\u{2039}'] + s.skip(1) =~= seq!['\u{2039}'] + s.drop_first());
    } else {
        lemma_replace_angle_at(s.drop_first(), f - 1);
        assert(s.drop_first().take(f - 1) =~= s.take(f).drop_first());
        assert(s.drop_first().skip(f) =~= s.skip(f + 1));
        assert(seq![s[0]] + (s.drop_first().take(f - 1) + seq!['\u{2039}'] + s.drop_first().skip(
            f,
        )) =~= s.take(f) + seq!['\u{2039}'] + s.skip(f + 1));
    }
}

pub fn replace_angle(s: &str) -> (r: String)
    ensures
        r@ == spec_replace_angle(s@),
{
    let n = s.unicode_len();
    let mut r = String::new();
    let mut replaced = false;
    let ghost mut f: int = 0;
    let mut i: usize = 0;
    while i < n
        invariant
            i <= s@.len(),
            n == s@.len(),
            !replaced ==> r@ == s@.take(i as int) && (forall|j: int|
                0 <= j < i ==> s@[j] != '<'),
            replaced ==> 0 <= f < i && s@[f] == '<' && (forall|j: int| 0 <= j < f ==> s@[j] != '<')
                && r@ == s@.take(f) + seq!['\u{2039}'] + s@.subrange(f + 1, i as int),
        decreases n - i,
    {
        let c = s.get_char(i);
        if !replaced && c == '<' {
            push_char(&mut r, '\u{2039}');
            replaced = true;
            proof {
                f = i as int;
                assert(r@ =~= s@.take(f) + seq!['\u{2039}'] + s@.subrange(f + 1, i + 1));
            }
        } else {
            push_char(&mut r, c);
            proof {
                if replaced {
                    assert(r@ =~= s@.take(f) + seq!['\u{2039}'] + s@.subrange(f + 1, i + 1));
                } else {
                    assert(r@ =~= s@.take(i + 1));
                }
            }
        }
        i = i + 1;
    }
    proof {
        if replaced {
            assert(s@.subrange(f + 1, s@.len() as int) =~= s@.skip(f + 1));
            lemma_replace_angle_at(s@, f);
        } else {
            assert(s@.take(s@.len() as int) =~= s@);
            lemma_replace_angle_none(s@);
        }
    }
    r
}

/// `a - b`, clamped into the `i8` range.
pub open spec fn spec_sat_sub(a: i8, b: i8) -> i8 {
    if a - b > 127 {
        127i8
    } else if a - b < -128 {
        (-128) as i8
    } else {
        (a - b) as i8
    }
}

pub fn sat_sub(a: i8, b: i8) -> (r: i8)
    ensures
        r == spec_sat_sub(a, b),
{
    let wide: i16 = a as i16 - b as i16;
    if wide > 127 {
        127
    } else if wide < -128 {
        -128
    } else {
        wide as i8
    }
}

/// The net vote count the compat API reports for a title: votes minus
/// downvotes, minus one more when unverified, saturating at each step.
pub open spec fn spec_sb_title_votes(t: Title) -> i8 {
    spec_sat_sub(spec_sat_sub(t.votes, t.downvotes), if t.flags.unverified {
        1i8
    } else {
        0i8
    })
}

pub open spec fn spec_sb_thumbnail_votes(t: Thumbnail) -> i8 {
    spec_sat_sub(t.votes, t.downvotes)
}

/// A row survives the base visibility filter: not voted away, not removed,
/// not shadow hidden.
pub open spec fn spec_title_visible(t: Title) -> bool {
    t.votes > -1 && spec_sat_sub(t.votes, t.downvotes) > -2 && !t.flags.removed
        && !t.flags.shadow_hidden
}

pub open spec fn spec_thumbnail_visible(t: Thumbnail) -> bool {
    t.votes > -1 && spec_sat_sub(t.votes, t.downvotes) > -2 && !t.flags.removed
        && !t.flags.shadow_hidden
}

/// A visible title is shown unless the caller asked for all of them and it is
/// neither locked nor at its unverified-adjusted vote threshold.
pub open spec fn spec_title_shown(t: Title, fetch_all: bool) -> bool {
    spec_title_visible(t) && (fetch_all || t.flags.locked || spec_sat_sub(t.votes, t.downvotes)
        >= (if t.flags.unverified {
        1i8
    } else {
        0i8
    }))
}

pub open spec fn spec_thumbnail_shown(t: Thumbnail, fetch_all: bool) -> bool {
    spec_thumbnail_visible(t) && (fetch_all || t.flags.locked || spec_sat_sub(
        t.votes,
        t.downvotes,
    ) >= 0)
}

/// Whether a title belongs to the requested bucket, when one is requested.
pub open spec fn spec_title_in_prefix(t: Title, prefix: Option<u16>) -> bool {
    match prefix {
        Some(p) => t.hash_prefix == p,
        None => true,
    }
}

pub open spec fn spec_thumbnail_in_prefix(t: Thumbnail, prefix: Option<u16>) -> bool {
    match prefix {
        Some(p) => t.hash_prefix == p,
        None => true,
    }
}

/// The one predicate both branding paths filter titles by: the title belongs
/// to the named video, passes the visibility rules, and sits in the
/// requested bucket when one is requested.
pub open spec fn title_pred(video: Seq<char>, fetch_all: bool, prefix: Option<u16>) -> spec_fn(
    Title,
) -> bool {
    |t: Title| t.video_id@ == video && spec_title_shown(t, fetch_all) && spec_title_in_prefix(
        t,
        prefix,
    )
}

pub open spec fn thumbnail_pred(
    video: Seq<char>,
    fetch_all: bool,
    prefix: Option<u16>,
) -> spec_fn(Thumbnail) -> bool {
    |t: Thumbnail| t.video_id@ == video && spec_thumbnail_shown(t, fetch_all)
        && spec_thumbnail_in_prefix(t, prefix)
}

/// A title as the compat API renders it.
pub struct SBApiTitle {
    pub title: String,
    pub original: bool,
    pub votes: i8,
    pub locked: bool,
    pub uuid: InternedString,
    pub user_id: Option<InternedString>,
}

/// A thumbnail as the compat API renders it; the timestamp is in
/// microseconds.
pub struct SBApiThumbnail {
    pub timestamp: Option<i64>,
    pub original: bool,
    pub votes: i8,
    pub locked: bool,
    pub uuid: InternedString,
    pub user_id: Option<InternedString>,
}

/// One video's compat response, short of the random time: the HTTP layer
/// derives that from `video_info` with the seeded PRNG.
pub struct SBApiVideo {
    pub titles: Vec<SBApiTitle>,
    pub thumbnails: Vec<SBApiThumbnail>,
    pub video_info: Option<VideoInfo>,
}

/// The observable contents of a whole rendered title list.
pub open spec fn strip_sb_titles(s: Seq<SBApiTitle>) -> Seq<
    (Seq<char>, bool, i8, bool, InternedString, Option<InternedString>),
> {
    s.map_values(|x: SBApiTitle| strip_sb_title(x))
}

pub open spec fn strip_sb_thumbnails(s: Seq<SBApiThumbnail>) -> Seq<
    (Option<i64>, bool, i8, bool, InternedString, Option<InternedString>),
> {
    s.map_values(|x: SBApiThumbnail| strip_sb_thumbnail(x))
}

/// The observable content of a rendered title, as spec values.
pub open spec fn strip_sb_title(r: SBApiTitle) -> (
    Seq<char>,
    bool,
    i8,
    bool,
    InternedString,
    Option<InternedString>,
) {
    (r.title@, r.original, r.votes, r.locked, r.uuid, r.user_id)
}

/// What rendering a merged title must produce.
pub open spec fn spec_sb_of_title(t: Title, include_userid: bool) -> (
    Seq<char>,
    bool,
    i8,
    bool,
    InternedString,
    Option<InternedString>,
) {
    (
        spec_replace_angle(t.title@),
        t.flags.original,
        spec_sb_title_votes(t),
        t.flags.locked,
        t.uuid,
        if include_userid {
            Some(t.user_id)
        } else {
            None
        },
    )
}

pub open spec fn strip_sb_thumbnail(r: SBApiThumbnail) -> (
    Option<i64>,
    bool,
    i8,
    bool,
    InternedString,
    Option<InternedString>,
) {
    (r.timestamp, r.original, r.votes, r.locked, r.uuid, r.user_id)
}

pub open spec fn spec_sb_of_thumbnail(t: Thumbnail, include_userid: bool) -> (
    Option<i64>,
    bool,
    i8,
    bool,
    InternedString,
    Option<InternedString>,
) {
    (
        t.timestamp,
        t.flags.original,
        spec_sb_thumbnail_votes(t),
        t.flags.locked,
        t.uuid,
        if include_userid {
            Some(t.user_id)
        } else {
            None
        },
    )
}

/// The rendering function for titles, as a value.
pub open spec fn sb_title_render(return_userid: bool) -> spec_fn(Title) -> (
    Seq<char>,
    bool,
    i8,
    bool,
    InternedString,
    Option<InternedString>,
) {
    |t: Title| spec_sb_of_title(t, return_userid)
}

pub open spec fn sb_thumbnail_render(return_userid: bool) -> spec_fn(Thumbnail) -> (
    Option<i64>,
    bool,
    i8,
    bool,
    InternedString,
    Option<InternedString>,
) {
    |t: Thumbnail| spec_sb_of_thumbnail(t, return_userid)
}

impl SBApiTitle {
    /// Render one merged title.
    pub fn from_db(title: &Title, include_userid: bool) -> (r: SBApiTitle)
        ensures
            strip_sb_title(r) == spec_sb_of_title(*title, include_userid),
    {
        SBApiTitle {
            title: replace_angle(title.title.as_str()),
            original: title.flags.original,
            votes: sat_sub(sat_sub(title.votes, title.downvotes), if title.flags.unverified {
                1
            } else {
                0
            }),
            locked: title.flags.locked,
            uuid: title.uuid.clone(),
            user_id: if include_userid {
                Some(title.user_id.clone())
            } else {
                None
            },
        }
    }
}

impl SBApiThumbnail {
    pub fn from_db(thumb: &Thumbnail, include_userid: bool) -> (r: SBApiThumbnail)
        ensures
            strip_sb_thumbnail(r) == spec_sb_of_thumbnail(*thumb, include_userid),
    {
        SBApiThumbnail {
            timestamp: thumb.timestamp,
            original: thumb.flags.original,
            votes: sat_sub(thumb.votes, thumb.downvotes),
            locked: thumb.flags.locked,
            uuid: thumb.uuid.clone(),
            user_id: if include_userid {
                Some(thumb.user_id.clone())
            } else {
                None
            },
        }
    }
}

impl SortKey for SBApiTitle {
    /// Descending by (locked, votes).
    open spec fn spec_key(&self) -> int {
        -(((if self.locked {
            1int
        } else {
            0int
        }) * 256) + self.votes + 128)
    }

    fn key(&self) -> (r: i128)
        ensures
            r as int == self.spec_key(),
    {
        -(((if self.locked {
            1i128
        } else {
            0i128
        }) * 256) + self.votes as i128 + 128)
    }
}

impl SortKey for SBApiThumbnail {
    /// Descending by (locked, votes, not original).
    open spec fn spec_key(&self) -> int {
        -(((if self.locked {
            1int
        } else {
            0int
        }) * 1024) + (self.votes + 128) * 2 + (if self.original {
            0int
        } else {
            1int
        }))
    }

    fn key(&self) -> (r: i128)
        ensures
            r as int == self.spec_key(),
    {
        -(((if self.locked {
            1i128
        } else {
            0i128
        }) * 1024) + (self.votes as i128 + 128) * 2 + (if self.original {
            0i128
        } else {
            1i128
        }))
    }
}

/// The shown titles of one video, rendered and ordered by (locked, votes)
/// descending: some pre-sort rendering of exactly the matching titles, then
/// sorted.
pub fn video_branding_titles(
    db: &DearrowDB,
    pool: &StringSet,
    video: &InternedString,
    prefix: Option<u16>,
    return_userid: bool,
    fetch_all: bool,
) -> (r: Vec<SBApiTitle>)
    requires
        forall|i: int| 0 <= i < db.titles@.len() ==> (#[trigger] db.titles@[i]).interned(*pool),
        pool.is_interned(*video),
    ensures
        exists|pre: Seq<SBApiTitle>|
            {
                &&& #[trigger] strip_sb_titles(pre) == db.titles@.filter(
                    title_pred(video@, fetch_all, prefix),
                ).map_values(sb_title_render(return_userid))
                &&& r@.to_multiset() == pre.to_multiset()
            },
        sorted_by_key(r@),
{
    broadcast use vstd::seq_lib::group_filter_ensures;

    proof {
        use_type_invariant(pool);
    }
    let mut r: Vec<SBApiTitle> = Vec::new();
    let p_spec = Ghost(title_pred(video@, fetch_all, prefix));
    let mut i: usize = 0;
    while i < db.titles.len()
        invariant
            i <= db.titles@.len(),
            pool.inv(),
            pool.is_interned(*video),
            forall|l: int| 0 <= l < db.titles@.len() ==> (#[trigger] db.titles@[l]).interned(*pool),
            p_spec@ == title_pred(video@, fetch_all, prefix),
            r@.len() == db.titles@.take(i as int).filter(p_spec@).len(),
            forall|k: int|
                0 <= k < r@.len() ==> #[trigger] strip_sb_title(r@[k]) == spec_sb_of_title(
                    db.titles@.take(i as int).filter(p_spec@)[k],
                    return_userid,
                ),
        decreases db.titles@.len() - i,
    {
        let t = &db.titles[i];
        proof {
            assert(db.titles@.take(i + 1) =~= db.titles@.take(i as int).push(
                db.titles@[i as int],
            ));
            db.titles@.take(i as int).lemma_filter_push(db.titles@[i as int], p_spec@);
            crate::string_pool::StringSet::lemma_interned_handle_eq(
                pool,
                db.titles@[i as int].video_id,
                *video,
            );
        }
        let matches_prefix = match prefix {
            Some(p) => t.hash_prefix == p,
            None => true,
        };
        let shown = t.votes > -1 && sat_sub(t.votes, t.downvotes) > -2 && !t.flags.removed
            && !t.flags.shadow_hidden && (fetch_all || t.flags.locked || sat_sub(
            t.votes,
            t.downvotes,
        ) >= (if t.flags.unverified {
            1
        } else {
            0
        }));
        let cond = InternedString::ptr_eq(&t.video_id, video) && shown && matches_prefix;
        proof {
            assert(cond == p_spec@(db.titles@[i as int]));
            assert(db.titles@.take(i + 1).filter(p_spec@) == (if p_spec@(db.titles@[i as int]) {
                db.titles@.take(i as int).filter(p_spec@).push(db.titles@[i as int])
            } else {
                db.titles@.take(i as int).filter(p_spec@)
            }));
        }
        let ghost r_old = r@;
        if cond {
            r.push(SBApiTitle::from_db(t, return_userid));
        }
        proof {
            let filter_old = db.titles@.take(i as int).filter(p_spec@);
            let filter_new = db.titles@.take(i + 1).filter(p_spec@);
            assert forall|k: int| 0 <= k < r@.len() implies #[trigger] strip_sb_title(r@[k])
                == spec_sb_of_title(filter_new[k], return_userid) by {
                if k < r_old.len() {
                    assert(filter_new[k] == filter_old[k]);
                    assert(strip_sb_title(r_old[k]) == spec_sb_of_title(
                        filter_old[k],
                        return_userid,
                    ));
                }
            }
        }
        i = i + 1;
    }
    proof {
        assert(db.titles@.take(db.titles@.len() as int) =~= db.titles@);
    }
    let ghost pre = r@;
    sort_by_key(&mut r);
    proof {
        let f2 = sb_title_render(return_userid);
        let rhs = db.titles@.filter(p_spec@).map_values(f2);
        assert forall|k: int| 0 <= k < pre.len() implies strip_sb_titles(pre)[k] == rhs[k] by {
            assert(strip_sb_title(pre[k]) == spec_sb_of_title(
                db.titles@.filter(p_spec@)[k],
                return_userid,
            ));
        }
        assert(strip_sb_titles(pre) =~= rhs);
        assert(strip_sb_titles(pre) == db.titles@.filter(title_pred(video@, fetch_all, prefix))
            .map_values(sb_title_render(return_userid)));
    }
    r
}

/// The shown thumbnails of one video, rendered and ordered by (locked,
/// votes, not-original) descending.
pub fn video_branding_thumbnails(
    db: &DearrowDB,
    pool: &StringSet,
    video: &InternedString,
    prefix: Option<u16>,
    return_userid: bool,
    fetch_all: bool,
) -> (r: Vec<SBApiThumbnail>)
    requires
        forall|i: int|
            0 <= i < db.thumbnails@.len() ==> (#[trigger] db.thumbnails@[i]).interned(*pool),
        pool.is_interned(*video),
    ensures
        exists|pre: Seq<SBApiThumbnail>|
            {
                &&& #[trigger] strip_sb_thumbnails(pre) == db.thumbnails@.filter(
                    thumbnail_pred(video@, fetch_all, prefix),
                ).map_values(sb_thumbnail_render(return_userid))
                &&& r@.to_multiset() == pre.to_multiset()
            },
        sorted_by_key(r@),
{
    broadcast use vstd::seq_lib::group_filter_ensures;

    proof {
        use_type_invariant(pool);
    }
    let mut r: Vec<SBApiThumbnail> = Vec::new();
    let p_spec = Ghost(thumbnail_pred(video@, fetch_all, prefix));
    let mut i: usize = 0;
    while i < db.thumbnails.len()
        invariant
            i <= db.thumbnails@.len(),
            pool.inv(),
            pool.is_interned(*video),
            forall|l: int|
                0 <= l < db.thumbnails@.len() ==> (#[trigger] db.thumbnails@[l]).interned(*pool),
            p_spec@ == thumbnail_pred(video@, fetch_all, prefix),
            r@.len() == db.thumbnails@.take(i as int).filter(p_spec@).len(),
            forall|k: int|
                0 <= k < r@.len() ==> #[trigger] strip_sb_thumbnail(r@[k]) == spec_sb_of_thumbnail(
                    db.thumbnails@.take(i as int).filter(p_spec@)[k],
                    return_userid,
                ),
        decreases db.thumbnails@.len() - i,
    {
        let t = &db.thumbnails[i];
        proof {
            assert(db.thumbnails@.take(i + 1) =~= db.thumbnails@.take(i as int).push(
                db.thumbnails@[i as int],
            ));
            db.thumbnails@.take(i as int).lemma_filter_push(db.thumbnails@[i as int], p_spec@);
            crate::string_pool::StringSet::lemma_interned_handle_eq(
                pool,
                db.thumbnails@[i as int].video_id,
                *video,
            );
        }
        let matches_prefix = match prefix {
            Some(p) => t.hash_prefix == p,
            None => true,
        };
        let shown = t.votes > -1 && sat_sub(t.votes, t.downvotes) > -2 && !t.flags.removed
            && !t.flags.shadow_hidden && (fetch_all || t.flags.locked || sat_sub(
            t.votes,
            t.downvotes,
        ) >= 0);
        let cond = InternedString::ptr_eq(&t.video_id, video) && shown && matches_prefix;
        proof {
            assert(cond == p_spec@(db.thumbnails@[i as int]));
            assert(db.thumbnails@.take(i + 1).filter(p_spec@) == (if p_spec@(
                db.thumbnails@[i as int],
            ) {
                db.thumbnails@.take(i as int).filter(p_spec@).push(db.thumbnails@[i as int])
            } else {
                db.thumbnails@.take(i as int).filter(p_spec@)
            }));
        }
        let ghost r_old = r@;
        if cond {
            r.push(SBApiThumbnail::from_db(t, return_userid));
        }
        proof {
            let filter_old = db.thumbnails@.take(i as int).filter(p_spec@);
            let filter_new = db.thumbnails@.take(i + 1).filter(p_spec@);
            assert forall|k: int| 0 <= k < r@.len() implies #[trigger] strip_sb_thumbnail(r@[k])
                == spec_sb_of_thumbnail(filter_new[k], return_userid) by {
                if k < r_old.len() {
                    assert(filter_new[k] == filter_old[k]);
                    assert(strip_sb_thumbnail(r_old[k]) == spec_sb_of_thumbnail(
                        filter_old[k],
                        return_userid,
                    ));
                }
            }
        }
        i = i + 1;
    }
    proof {
        assert(db.thumbnails@.take(db.thumbnails@.len() as int) =~= db.thumbnails@);
    }
    let ghost pre = r@;
    sort_by_key(&mut r);
    proof {
        let f2 = sb_thumbnail_render(return_userid);
        let rhs = db.thumbnails@.filter(p_spec@).map_values(f2);
        assert forall|k: int| 0 <= k < pre.len() implies strip_sb_thumbnails(pre)[k] == rhs[k] by {
            assert(strip_sb_thumbnail(pre[k]) == spec_sb_of_thumbnail(
                db.thumbnails@.filter(p_spec@)[k],
                return_userid,
            ));
        }
        assert(strip_sb_thumbnails(pre) =~= rhs);
        assert(strip_sb_thumbnails(pre) == db.thumbnails@.filter(
            thumbnail_pred(video@, fetch_all, prefix),
        ).map_values(sb_thumbnail_render(return_userid)));
    }
    r
}

/// The compat response for a video nobody has branded (or an unknown one):
/// empty lists and no derived info.
pub fn unknown_video() -> (r: SBApiVideo)
    ensures
        r.titles@.len() == 0,
        r.thumbnails@.len() == 0,
        r.video_info is None,
{
    SBApiVideo { titles: Vec::new(), thumbnails: Vec::new(), video_info: None }
}

/// One video's compat branding. The second component says whether the video
/// id was known (interned): an unknown video still gets the empty response,
/// and the route answers 404. For a known video, the lists are exactly the
/// video's shown titles and thumbnails in their vote/lock order, and the
/// derived info, when present, is well formed and belongs to this video.
pub fn video_branding(
    db: &DearrowDB,
    pool: &StringSet,
    video_id: &str,
    return_userid: bool,
    fetch_all: bool,
) -> (r: (SBApiVideo, bool))
    requires
        forall|i: int| 0 <= i < db.titles@.len() ==> (#[trigger] db.titles@[i]).interned(*pool),
        forall|i: int|
            0 <= i < db.thumbnails@.len() ==> (#[trigger] db.thumbnails@[i]).interned(*pool),
        db.video_infos@.len() == 65536,
        forall|q: int, j: int|
            0 <= q < db.video_infos@.len() && 0 <= j < db.video_infos@[q]@.len()
                ==> (#[trigger] db.video_infos@[q]@[j]).wf(*pool),
    ensures
        r.1 == pool.contains_text(video_id@),
        !r.1 ==> r.0.titles@.len() == 0 && r.0.thumbnails@.len() == 0 && r.0.video_info is None,
        r.1 ==> {
            &&& (exists|pre: Seq<SBApiTitle>|
                #[trigger] strip_sb_titles(pre) == db.titles@.filter(
                    title_pred(video_id@, fetch_all, None),
                ).map_values(sb_title_render(return_userid)) && r.0.titles@.to_multiset()
                    == pre.to_multiset())
            &&& sorted_by_key(r.0.titles@)
            &&& (exists|pre: Seq<SBApiThumbnail>|
                #[trigger] strip_sb_thumbnails(pre) == db.thumbnails@.filter(
                    thumbnail_pred(video_id@, fetch_all, None),
                ).map_values(sb_thumbnail_render(return_userid)) && r.0.thumbnails@.to_multiset()
                    == pre.to_multiset())
            &&& sorted_by_key(r.0.thumbnails@)
        },
        r.1 ==> ({
            let bucket =
                db.video_infos@[crate::hashing::hash_prefix_of(
                vstd::utf8::encode_utf8(video_id@),
            )]@;
            match crate::db::DearrowDB::bucket_find_text(bucket, video_id@, 0) {
                Some(j) => r.0.video_info is Some && video_info_view_eq(
                    r.0.video_info.unwrap(),
                    bucket[j],
                ),
                None => r.0.video_info is None,
            }
        }),
        match r.0.video_info {
            Some(v) => v.video_id@ == video_id@ && v.uncut_duration > 0
                && crate::records::uncut_segments_wf(
                v.uncut_segments@,
                v.uncut_duration as int,
            ),
            None => true,
        },
{
    proof {
        use_type_invariant(pool);
    }
    match pool.get(video_id) {
        None => (unknown_video(), false),
        Some(handle) => {
            let titles = video_branding_titles(db, pool, &handle, None, return_userid, fetch_all);
            let thumbnails = video_branding_thumbnails(
                db,
                pool,
                &handle,
                None,
                return_userid,
                fetch_all,
            );
            let found = db.get_video_info(&handle);
            proof {
                let bucket = db.video_infos@[crate::hashing::hash_prefix_of(
                    vstd::utf8::encode_utf8(handle@),
                )]@;
                crate::db::lemma_bucket_find_found(bucket, handle.spec_id(), 0);
                assert forall|j: int| 0 <= j < bucket.len() implies pool.is_interned(
                    (#[trigger] bucket[j]).video_id,
                ) by {
                    assert(db.video_infos@[crate::hashing::hash_prefix_of(
                        vstd::utf8::encode_utf8(handle@),
                    )]@[j].wf(*pool));
                }
                crate::db::lemma_bucket_find_text_agrees(bucket, *pool, handle, 0);
                match found {
                    Some(v) => {
                        pool.lemma_interned_handle_eq(v.video_id, handle);
                    },
                    None => {},
                }
            }
            let video_info: Option<VideoInfo> = match found {
                Some(v) => Some(v.clone()),
                None => None,
            };
            proof {
                assert(pool.contains_text(video_id@)) by {
                    assert(pool@[handle.spec_id()] == Some(handle@));
                }
                assert(handle@ == video_id@);
            }
            (SBApiVideo { titles, thumbnails, video_info }, true)
        },
    }
}


/// Per-user info as the compat API reports it.
pub struct UserInfo {
    pub user_id: String,
    pub username: String,
    pub title_submission_count: usize,
    pub thumbnail_submission_count: usize,
    pub vip: bool,
}

/// The compat per-user summary: submission counts over non-downvoted rows,
/// the chosen username (the user id itself when none is set or the user is
/// unknown), and VIP standing.
pub fn user_info(db: &DearrowDB, pool: &StringSet, public_user_id: &str) -> (r: UserInfo)
    requires
        forall|i: int| 0 <= i < db.titles@.len() ==> (#[trigger] db.titles@[i]).interned(*pool),
        forall|i: int|
            0 <= i < db.thumbnails@.len() ==> (#[trigger] db.thumbnails@[i]).interned(*pool),
        forall|i: int|
            0 <= i < db.vip_users@.len() ==> pool.is_interned(#[trigger] db.vip_users@[i]),
        forall|k: usize|
            db.usernames@.dom().contains(k) ==> (#[trigger] db.usernames@[k]).interned(*pool)
                && db.usernames@[k].user_id.spec_id() == k as int,
    ensures
        r.user_id@ == public_user_id@,
        r.title_submission_count == db.titles@.filter(
            |t: Title| t.user_id@ == public_user_id@ && t.votes >= 0,
        ).len(),
        r.thumbnail_submission_count == db.thumbnails@.filter(
            |t: Thumbnail| t.user_id@ == public_user_id@ && t.votes >= 0,
        ).len(),
        r.vip == (exists|i: int|
            0 <= i < db.vip_users@.len() && (#[trigger] db.vip_users@[i])@ == public_user_id@),
        (forall|k: usize|
            db.usernames@.dom().contains(k) ==> (#[trigger] db.usernames@[k]).user_id@
                != public_user_id@) ==> r.username@ == public_user_id@,
        forall|k: usize|
            db.usernames@.dom().contains(k) && (#[trigger] db.usernames@[k]).user_id@
                == public_user_id@ ==> r.username@ == db.usernames@[k].username@,
{
    broadcast use vstd::seq_lib::group_filter_ensures;

    proof {
        use_type_invariant(pool);
    }
    let tp = Ghost(|t: Title| t.user_id@ == public_user_id@ && t.votes >= 0);
    let hp = Ghost(|t: Thumbnail| t.user_id@ == public_user_id@ && t.votes >= 0);
    match pool.get(public_user_id) {
        None => {
            proof {
                assert forall|i: int| 0 <= i < db.titles@.len() implies !(#[trigger] tp@(
                    db.titles@[i],
                )) by {
                    assert(pool.is_interned(db.titles@[i].user_id));
                }
                assert(db.titles@.all(|t: Title| !tp@(t)));
                db.titles@.lemma_all_neg_filter_empty(tp@);
                assert forall|i: int| 0 <= i < db.thumbnails@.len() implies !(#[trigger] hp@(
                    db.thumbnails@[i],
                )) by {
                    assert(pool.is_interned(db.thumbnails@[i].user_id));
                }
                assert(db.thumbnails@.all(|t: Thumbnail| !hp@(t)));
                db.thumbnails@.lemma_all_neg_filter_empty(hp@);
                assert forall|i: int| 0 <= i < db.vip_users@.len() implies (
                #[trigger] db.vip_users@[i])@ != public_user_id@ by {
                    assert(pool.is_interned(db.vip_users@[i]));
                }
                assert forall|k: usize|
                    db.usernames@.dom().contains(k) implies (#[trigger] db.usernames@[k]).user_id@
                    != public_user_id@ by {
                    assert(pool.is_interned(db.usernames@[k].user_id));
                }
            }
            UserInfo {
                user_id: public_user_id.to_owned(),
                username: public_user_id.to_owned(),
                title_submission_count: 0,
                thumbnail_submission_count: 0,
                vip: false,
            }
        },
        Some(handle) => {
            let username: String = match db.usernames.get(&handle.id()) {
                Some(entry) => entry.username.as_str().to_owned(),
                None => public_user_id.to_owned(),
            };
            proof {
                assert forall|k: usize|
                    db.usernames@.dom().contains(k) && (#[trigger] db.usernames@[k]).user_id@
                        == public_user_id@ implies k as int == handle.spec_id() by {
                    pool.lemma_interned_handle_eq(db.usernames@[k].user_id, handle);
                }
                if db.usernames@.dom().contains((handle.spec_id() as usize)) {
                    pool.lemma_interned_handle_eq(
                        db.usernames@[handle.spec_id() as usize].user_id,
                        handle,
                    );
                }
            }
            let mut title_count: usize = 0;
            let mut i: usize = 0;
            while i < db.titles.len()
                invariant
                    i <= db.titles@.len(),
                    pool.inv(),
                    pool.is_interned(handle),
                    handle@ == public_user_id@,
                    forall|l: int|
                        0 <= l < db.titles@.len() ==> (#[trigger] db.titles@[l]).interned(*pool),
                    tp@ == (|t: Title| t.user_id@ == public_user_id@ && t.votes >= 0),
                    title_count == db.titles@.take(i as int).filter(tp@).len(),
                    title_count <= i,
                decreases db.titles@.len() - i,
            {
                let t = &db.titles[i];
                proof {
                    assert(db.titles@.take(i + 1) =~= db.titles@.take(i as int).push(
                        db.titles@[i as int],
                    ));
                    db.titles@.take(i as int).lemma_filter_push(db.titles@[i as int], tp@);
                    pool.lemma_interned_handle_eq(db.titles@[i as int].user_id, handle);
                }
                if InternedString::ptr_eq(&t.user_id, &handle) && t.votes >= 0 {
                    title_count = title_count + 1;
                }
                i = i + 1;
            }
            let mut thumbnail_count: usize = 0;
            let mut j: usize = 0;
            while j < db.thumbnails.len()
                invariant
                    j <= db.thumbnails@.len(),
                    pool.inv(),
                    pool.is_interned(handle),
                    handle@ == public_user_id@,
                    forall|l: int|
                        0 <= l < db.thumbnails@.len() ==> (#[trigger] db.thumbnails@[l]).interned(
                            *pool,
                        ),
                    hp@ == (|t: Thumbnail| t.user_id@ == public_user_id@ && t.votes >= 0),
                    thumbnail_count == db.thumbnails@.take(j as int).filter(hp@).len(),
                    thumbnail_count <= j,
                decreases db.thumbnails@.len() - j,
            {
                let t = &db.thumbnails[j];
                proof {
                    assert(db.thumbnails@.take(j + 1) =~= db.thumbnails@.take(j as int).push(
                        db.thumbnails@[j as int],
                    ));
                    db.thumbnails@.take(j as int).lemma_filter_push(
                        db.thumbnails@[j as int],
                        hp@,
                    );
                    pool.lemma_interned_handle_eq(db.thumbnails@[j as int].user_id, handle);
                }
                if InternedString::ptr_eq(&t.user_id, &handle) && t.votes >= 0 {
                    thumbnail_count = thumbnail_count + 1;
                }
                j = j + 1;
            }
            let vip = crate::query::is_vip(db, &handle);
            proof {
                assert(db.titles@.take(db.titles@.len() as int) =~= db.titles@);
                assert(db.thumbnails@.take(db.thumbnails@.len() as int) =~= db.thumbnails@);
                if vip {
                    let w = choose|l: int|
                        0 <= l < db.vip_users@.len() && (#[trigger] db.vip_users@[l]).spec_id()
                            == handle.spec_id();
                    pool.lemma_interned_handle_eq(db.vip_users@[w], handle);
                } else {
                    assert forall|l: int| 0 <= l < db.vip_users@.len() implies (
                    #[trigger] db.vip_users@[l])@ != public_user_id@ by {
                        pool.lemma_interned_handle_eq(db.vip_users@[l], handle);
                    }
                }
            }
            UserInfo {
                user_id: public_user_id.to_owned(),
                username,
                title_submission_count: title_count,
                thumbnail_submission_count: thumbnail_count,
                vip,
            }
        },
    }
}


/// Field-wise equality of two derived video infos (the segment vector is
/// compared by contents).
pub open spec fn video_info_view_eq(a: VideoInfo, b: VideoInfo) -> bool {
    &&& a.video_id == b.video_id
    &&& a.video_duration == b.video_duration
    &&& a.uncut_duration == b.uncut_duration
    &&& a.uncut_segments@ == b.uncut_segments@
    &&& a.has_outro == b.has_outro
}

/// What one entry of a chunk response owes: exactly the video's shown titles
/// and thumbnails of that bucket, ordered, and the bucket's info for the
/// video if it has one.
pub open spec fn chunk_entry_ok(
    db: DearrowDB,
    p: u16,
    video: InternedString,
    v: SBApiVideo,
    return_userid: bool,
    fetch_all: bool,
) -> bool {
    &&& (exists|pre: Seq<SBApiTitle>|
        #[trigger] strip_sb_titles(pre) == db.titles@.filter(
            title_pred(video@, fetch_all, Some(p)),
        ).map_values(sb_title_render(return_userid)) && v.titles@.to_multiset()
            == pre.to_multiset())
    &&& sorted_by_key(v.titles@)
    &&& (exists|pre: Seq<SBApiThumbnail>|
        #[trigger] strip_sb_thumbnails(pre) == db.thumbnails@.filter(
            thumbnail_pred(video@, fetch_all, Some(p)),
        ).map_values(sb_thumbnail_render(return_userid)) && v.thumbnails@.to_multiset()
            == pre.to_multiset())
    &&& sorted_by_key(v.thumbnails@)
    &&& (match crate::db::DearrowDB::bucket_find(db.video_infos@[p as int]@, video.spec_id(), 0) {
        Some(bj) => v.video_info is Some && video_info_view_eq(
            v.video_info.unwrap(),
            db.video_infos@[p as int]@[bj],
        ),
        None => v.video_info is None,
    })
}

/// Whether a video (given by pool index) belongs in bucket `p`'s chunk
/// response, looking only at the bucket's first `b_upto` infos, the first
/// `t_upto` titles and the first `h_upto` thumbnails.
pub open spec fn spec_chunk_member_upto(
    db: DearrowDB,
    p: u16,
    id: int,
    fetch_all: bool,
    b_upto: int,
    t_upto: int,
    h_upto: int,
) -> bool {
    ||| exists|m: int|
        0 <= m < b_upto && (#[trigger] db.video_infos@[p as int]@[m]).video_id.spec_id() == id
    ||| exists|m: int|
        0 <= m < t_upto && (#[trigger] db.titles@[m]).video_id.spec_id() == id
            && db.titles@[m].hash_prefix == p && spec_title_shown(db.titles@[m], fetch_all)
    ||| exists|m: int|
        0 <= m < h_upto && (#[trigger] db.thumbnails@[m]).video_id.spec_id() == id
            && db.thumbnails@[m].hash_prefix == p && spec_thumbnail_shown(
            db.thumbnails@[m],
            fetch_all,
        )
}

/// Whether a video belongs in bucket `p`'s chunk response: it has derived
/// info filed there, or a shown title or thumbnail filed there.
pub open spec fn spec_chunk_member(db: DearrowDB, p: u16, id: int, fetch_all: bool) -> bool {
    spec_chunk_member_upto(
        db,
        p,
        id,
        fetch_all,
        db.video_infos@[p as int]@.len() as int,
        db.titles@.len() as int,
        db.thumbnails@.len() as int,
    )
}

/// Every video that belongs (within the given ranges) has a handle.
pub open spec fn handles_cover(
    db: DearrowDB,
    p: u16,
    fetch_all: bool,
    handles: Seq<InternedString>,
    b_upto: int,
    t_upto: int,
    h_upto: int,
) -> bool {
    forall|id: int|
        #[trigger] spec_chunk_member_upto(db, p, id, fetch_all, b_upto, t_upto, h_upto)
            ==> exists|l: int| 0 <= l < handles.len() && (#[trigger] handles[l]).spec_id() == id
}

/// A witness for a pool index survives appending to the handle list.
proof fn lemma_id_witness_preserved(older: Seq<InternedString>, newer: Seq<InternedString>, id: int)
    requires
        newer.len() >= older.len(),
        forall|l: int| 0 <= l < older.len() ==> #[trigger] newer[l] == older[l],
        exists|l: int| 0 <= l < older.len() && (#[trigger] older[l]).spec_id() == id,
    ensures
        exists|l: int| 0 <= l < newer.len() && (#[trigger] newer[l]).spec_id() == id,
{
    let l0 = choose|l: int| 0 <= l < older.len() && (#[trigger] older[l]).spec_id() == id;
    assert(newer[l0].spec_id() == id);
}

/// Appending handles never loses coverage.
proof fn lemma_cover_extend(
    db: DearrowDB,
    p: u16,
    fetch_all: bool,
    older: Seq<InternedString>,
    newer: Seq<InternedString>,
    b_upto: int,
    t_upto: int,
    h_upto: int,
)
    requires
        newer.len() >= older.len(),
        forall|l: int| 0 <= l < older.len() ==> #[trigger] newer[l] == older[l],
        handles_cover(db, p, fetch_all, older, b_upto, t_upto, h_upto),
    ensures
        handles_cover(db, p, fetch_all, newer, b_upto, t_upto, h_upto),
{
    assert forall|id: int|
        #[trigger] spec_chunk_member_upto(db, p, id, fetch_all, b_upto, t_upto, h_upto) implies
        exists|l: int| 0 <= l < newer.len() && (#[trigger] newer[l]).spec_id() == id by {
        lemma_id_witness_preserved(older, newer, id);
    }
}

/// Whether some handle in the list carries this pool index.
fn contains_id(handles: &Vec<InternedString>, h: &InternedString) -> (r: bool)
    ensures
        r == (exists|l: int|
            0 <= l < handles@.len() && (#[trigger] handles@[l]).spec_id() == h.spec_id()),
{
    let mut l: usize = 0;
    while l < handles.len()
        invariant
            l <= handles@.len(),
            forall|m: int| 0 <= m < l ==> (#[trigger] handles@[m]).spec_id() != h.spec_id(),
        decreases handles@.len() - l,
    {
        if InternedString::ptr_eq(&handles[l], h) {
            return true;
        }
        l = l + 1;
    }
    false
}

/// The bucket's info for a video, if it filed one there.
fn find_info_in_bucket(db: &DearrowDB, p: u16, video: &InternedString) -> (r: Option<VideoInfo>)
    requires
        db.video_infos@.len() == 65536,
    ensures
        match crate::db::DearrowDB::bucket_find(db.video_infos@[p as int]@, video.spec_id(), 0) {
            Some(bj) => r is Some && video_info_view_eq(
                r.unwrap(),
                db.video_infos@[p as int]@[bj],
            ),
            None => r is None,
        },
{
    let bucket: &Vec<VideoInfo> = &db.video_infos[p as usize];
    let mut j: usize = 0;
    while j < bucket.len()
        invariant
            j <= bucket@.len(),
            bucket@ == db.video_infos@[p as int]@,
            crate::db::DearrowDB::bucket_find(bucket@, video.spec_id(), 0)
                == crate::db::DearrowDB::bucket_find(bucket@, video.spec_id(), j as int),
        decreases bucket@.len() - j,
    {
        if InternedString::ptr_eq(&bucket[j].video_id, video) {
            return Some(bucket[j].clone());
        }
        j = j + 1;
    }
    None
}

/// Everything a bucket's chunk response owes, over its entry list.
pub open spec fn chunk_ok(
    db: DearrowDB,
    pool: StringSet,
    out: Seq<(InternedString, SBApiVideo)>,
    p: u16,
    return_userid: bool,
    fetch_all: bool,
) -> bool {
    &&& forall|j: int, k: int|
        0 <= j < k < out.len() ==> (#[trigger] out[j].0).spec_id() != (
        #[trigger] out[k].0).spec_id()
    &&& forall|j: int|
        0 <= j < out.len() ==> spec_chunk_member(db, p, (#[trigger] out[j].0).spec_id(), fetch_all)
            && pool.is_interned(out[j].0)
    &&& forall|j: int|
        0 <= j < out.len() ==> chunk_entry_ok(
            db,
            p,
            (#[trigger] out[j]).0,
            out[j].1,
            return_userid,
            fetch_all,
        )
    &&& forall|id: int|
        #[trigger] spec_chunk_member(db, p, id, fetch_all) ==> exists|l: int|
            0 <= l < out.len() && (#[trigger] out[l].0).spec_id() == id
}

/// Branding for every video of one 16-bit bucket: `None` for a malformed
/// prefix (not exactly four hex characters), otherwise one entry per video
/// that has derived info or a shown submission filed under the bucket —
/// each entry exactly that video's branding restricted to the bucket.
pub fn chunk_branding(
    db: &DearrowDB,
    pool: &StringSet,
    prefix_str: &str,
    return_userid: bool,
    fetch_all: bool,
) -> (r: Option<Vec<(InternedString, SBApiVideo)>>)
    requires
        forall|i: int| 0 <= i < db.titles@.len() ==> (#[trigger] db.titles@[i]).interned(*pool),
        forall|i: int|
            0 <= i < db.thumbnails@.len() ==> (#[trigger] db.thumbnails@[i]).interned(*pool),
        db.video_infos@.len() == 65536,
        forall|q: int, j: int|
            0 <= q < db.video_infos@.len() && 0 <= j < db.video_infos@[q]@.len()
                ==> (#[trigger] db.video_infos@[q]@[j]).wf(*pool),
    ensures
        (r is None) == !(prefix_str.spec_bytes().len() == 4 && prefix16_value(
            prefix_str.spec_bytes(),
        ) is Some),
        match r {
            None => true,
            Some(out) => chunk_ok(
                *db,
                *pool,
                out@,
                (prefix16_value(prefix_str.spec_bytes()).unwrap() as u16),
                return_userid,
                fetch_all,
            ),
        },
{
    if prefix_str.as_bytes().len() != 4 {
        return None;
    }
    let p = match parse_hashprefix(prefix_str) {
        Some(p) => p,
        None => {
            return None;
        },
    };
    let mut handles: Vec<InternedString> = Vec::new();

    let bucket: &Vec<VideoInfo> = &db.video_infos[p as usize];
    let mut j: usize = 0;
    while j < bucket.len()
        invariant
            j <= bucket@.len(),
            bucket@ == db.video_infos@[p as int]@,
            forall|q: int, m: int|
                0 <= q < db.video_infos@.len() && 0 <= m < db.video_infos@[q]@.len()
                    ==> (#[trigger] db.video_infos@[q]@[m]).wf(*pool),
            db.video_infos@.len() == 65536,
            forall|a: int, b: int|
                0 <= a < b < handles@.len() ==> (#[trigger] handles@[a]).spec_id() != (
                #[trigger] handles@[b]).spec_id(),
            forall|a: int|
                0 <= a < handles@.len() ==> spec_chunk_member(
                    *db,
                    p,
                    (#[trigger] handles@[a]).spec_id(),
                    fetch_all,
                ) && pool.is_interned(handles@[a]),
            handles_cover(*db, p, fetch_all, handles@, j as int, 0, 0),
        decreases bucket@.len() - j,
    {
        let v = &bucket[j];
        let ghost h_old = handles@;
        let already = contains_id(&handles, &v.video_id);
        if !already {
            handles.push(v.video_id.clone());
            proof {
                assert(spec_chunk_member(*db, p, v.video_id.spec_id(), fetch_all)) by {
                    assert(db.video_infos@[p as int]@[j as int].video_id.spec_id()
                        == v.video_id.spec_id());
                }
            }
        }
        proof {
            lemma_cover_extend(*db, p, fetch_all, h_old, handles@, j as int, 0, 0);
            assert forall|id: int|
                #[trigger] spec_chunk_member_upto(*db, p, id, fetch_all, j + 1, 0, 0) implies
                exists|l: int|
                0 <= l < handles@.len() && (#[trigger] handles@[l]).spec_id() == id by {
                if spec_chunk_member_upto(*db, p, id, fetch_all, j as int, 0, 0) {
                } else {
                    let m = choose|m: int|
                        0 <= m < j + 1 && (
                        #[trigger] db.video_infos@[p as int]@[m]).video_id.spec_id() == id;
                    if m < j {
                        assert(spec_chunk_member_upto(*db, p, id, fetch_all, j as int, 0, 0));
                    }
                    assert(id == v.video_id.spec_id());
                    if already {
                        lemma_id_witness_preserved(h_old, handles@, id);
                    } else {
                        assert(handles@[handles@.len() - 1].spec_id() == id);
                    }
                }
            }
            assert(handles_cover(*db, p, fetch_all, handles@, j + 1, 0, 0));
        }
        j = j + 1;
    }

    let mut i: usize = 0;
    while i < db.titles.len()
        invariant
            i <= db.titles@.len(),
            forall|l: int| 0 <= l < db.titles@.len() ==> (#[trigger] db.titles@[l]).interned(*pool),
            db.video_infos@.len() == 65536,
            forall|a: int, b: int|
                0 <= a < b < handles@.len() ==> (#[trigger] handles@[a]).spec_id() != (
                #[trigger] handles@[b]).spec_id(),
            forall|a: int|
                0 <= a < handles@.len() ==> spec_chunk_member(
                    *db,
                    p,
                    (#[trigger] handles@[a]).spec_id(),
                    fetch_all,
                ) && pool.is_interned(handles@[a]),
            handles_cover(
                *db,
                p,
                fetch_all,
                handles@,
                db.video_infos@[p as int]@.len() as int,
                i as int,
                0,
            ),
        decreases db.titles@.len() - i,
    {
        let t = &db.titles[i];
        let shown = t.votes > -1 && sat_sub(t.votes, t.downvotes) > -2 && !t.flags.removed
            && !t.flags.shadow_hidden && (fetch_all || t.flags.locked || sat_sub(
            t.votes,
            t.downvotes,
        ) >= (if t.flags.unverified {
            1
        } else {
            0
        }));
        let ghost h_old = handles@;
        let cond = t.hash_prefix == p && shown;
        let already = if cond {
            contains_id(&handles, &t.video_id)
        } else {
            false
        };
        if cond && !already {
            handles.push(t.video_id.clone());
            proof {
                assert(spec_chunk_member(*db, p, t.video_id.spec_id(), fetch_all)) by {
                    assert((#[trigger] db.titles@[i as int]).video_id.spec_id()
                        == t.video_id.spec_id() && db.titles@[i as int].hash_prefix == p
                        && spec_title_shown(db.titles@[i as int], fetch_all));
                }
            }
        }
        proof {
            lemma_cover_extend(
                *db,
                p,
                fetch_all,
                h_old,
                handles@,
                db.video_infos@[p as int]@.len() as int,
                i as int,
                0,
            );
            assert forall|id: int|
                #[trigger] spec_chunk_member_upto(
                    *db,
                    p,
                    id,
                    fetch_all,
                    db.video_infos@[p as int]@.len() as int,
                    i + 1,
                    0,
                ) implies exists|l: int|
                0 <= l < handles@.len() && (#[trigger] handles@[l]).spec_id() == id by {
                if spec_chunk_member_upto(
                    *db,
                    p,
                    id,
                    fetch_all,
                    db.video_infos@[p as int]@.len() as int,
                    i as int,
                    0,
                ) {
                } else {
                    let m = choose|m: int|
                        0 <= m < i + 1 && (#[trigger] db.titles@[m]).video_id.spec_id() == id
                            && db.titles@[m].hash_prefix == p && spec_title_shown(
                            db.titles@[m],
                            fetch_all,
                        );
                    if m < i {
                        assert(spec_chunk_member_upto(
                            *db,
                            p,
                            id,
                            fetch_all,
                            db.video_infos@[p as int]@.len() as int,
                            i as int,
                            0,
                        ));
                    }
                    assert(id == t.video_id.spec_id());
                    if already {
                        lemma_id_witness_preserved(h_old, handles@, id);
                    } else {
                        assert(handles@[handles@.len() - 1].spec_id() == id);
                    }
                }
            }
            assert(handles_cover(
                *db,
                p,
                fetch_all,
                handles@,
                db.video_infos@[p as int]@.len() as int,
                i + 1,
                0,
            ));
        }
        i = i + 1;
    }

    let mut i2: usize = 0;
    while i2 < db.thumbnails.len()
        invariant
            i2 <= db.thumbnails@.len(),
            forall|l: int|
                0 <= l < db.thumbnails@.len() ==> (#[trigger] db.thumbnails@[l]).interned(*pool),
            db.video_infos@.len() == 65536,
            forall|a: int, b: int|
                0 <= a < b < handles@.len() ==> (#[trigger] handles@[a]).spec_id() != (
                #[trigger] handles@[b]).spec_id(),
            forall|a: int|
                0 <= a < handles@.len() ==> spec_chunk_member(
                    *db,
                    p,
                    (#[trigger] handles@[a]).spec_id(),
                    fetch_all,
                ) && pool.is_interned(handles@[a]),
            handles_cover(
                *db,
                p,
                fetch_all,
                handles@,
                db.video_infos@[p as int]@.len() as int,
                db.titles@.len() as int,
                i2 as int,
            ),
        decreases db.thumbnails@.len() - i2,
    {
        let t = &db.thumbnails[i2];
        let shown = t.votes > -1 && sat_sub(t.votes, t.downvotes) > -2 && !t.flags.removed
            && !t.flags.shadow_hidden && (fetch_all || t.flags.locked || sat_sub(
            t.votes,
            t.downvotes,
        ) >= 0);
        let ghost h_old = handles@;
        let cond = t.hash_prefix == p && shown;
        let already = if cond {
            contains_id(&handles, &t.video_id)
        } else {
            false
        };
        if cond && !already {
            handles.push(t.video_id.clone());
            proof {
                assert(spec_chunk_member(*db, p, t.video_id.spec_id(), fetch_all)) by {
                    assert((#[trigger] db.thumbnails@[i2 as int]).video_id.spec_id()
                        == t.video_id.spec_id() && db.thumbnails@[i2 as int].hash_prefix == p
                        && spec_thumbnail_shown(db.thumbnails@[i2 as int], fetch_all));
                }
            }
        }
        proof {
            lemma_cover_extend(
                *db,
                p,
                fetch_all,
                h_old,
                handles@,
                db.video_infos@[p as int]@.len() as int,
                db.titles@.len() as int,
                i2 as int,
            );
            assert forall|id: int|
                #[trigger] spec_chunk_member_upto(
                    *db,
                    p,
                    id,
                    fetch_all,
                    db.video_infos@[p as int]@.len() as int,
                    db.titles@.len() as int,
                    i2 + 1,
                ) implies exists|l: int|
                0 <= l < handles@.len() && (#[trigger] handles@[l]).spec_id() == id by {
                if spec_chunk_member_upto(
                    *db,
                    p,
                    id,
                    fetch_all,
                    db.video_infos@[p as int]@.len() as int,
                    db.titles@.len() as int,
                    i2 as int,
                ) {
                } else {
                    let m = choose|m: int|
                        0 <= m < i2 + 1 && (#[trigger] db.thumbnails@[m]).video_id.spec_id() == id
                            && db.thumbnails@[m].hash_prefix == p && spec_thumbnail_shown(
                            db.thumbnails@[m],
                            fetch_all,
                        );
                    if m < i2 {
                        assert(spec_chunk_member_upto(
                            *db,
                            p,
                            id,
                            fetch_all,
                            db.video_infos@[p as int]@.len() as int,
                            db.titles@.len() as int,
                            i2 as int,
                        ));
                    }
                    assert(id == t.video_id.spec_id());
                    if already {
                        lemma_id_witness_preserved(h_old, handles@, id);
                    } else {
                        assert(handles@[handles@.len() - 1].spec_id() == id);
                    }
                }
            }
            assert(handles_cover(
                *db,
                p,
                fetch_all,
                handles@,
                db.video_infos@[p as int]@.len() as int,
                db.titles@.len() as int,
                i2 + 1,
            ));
        }
        i2 = i2 + 1;
    }

    let mut out: Vec<(InternedString, SBApiVideo)> = Vec::new();
    let mut n: usize = 0;
    while n < handles.len()
        invariant
            n <= handles@.len(),
            out@.len() == n,
            forall|l: int| 0 <= l < db.titles@.len() ==> (#[trigger] db.titles@[l]).interned(*pool),
            forall|l: int|
                0 <= l < db.thumbnails@.len() ==> (#[trigger] db.thumbnails@[l]).interned(*pool),
            db.video_infos@.len() == 65536,
            forall|a: int, b: int|
                0 <= a < b < handles@.len() ==> (#[trigger] handles@[a]).spec_id() != (
                #[trigger] handles@[b]).spec_id(),
            forall|a: int|
                0 <= a < handles@.len() ==> spec_chunk_member(
                    *db,
                    p,
                    (#[trigger] handles@[a]).spec_id(),
                    fetch_all,
                ) && pool.is_interned(handles@[a]),
            handles_cover(
                *db,
                p,
                fetch_all,
                handles@,
                db.video_infos@[p as int]@.len() as int,
                db.titles@.len() as int,
                db.thumbnails@.len() as int,
            ),
            forall|l: int| 0 <= l < n ==> (#[trigger] out@[l].0) == handles@[l],
            forall|l: int|
                0 <= l < n ==> chunk_entry_ok(
                    *db,
                    p,
                    (#[trigger] out@[l]).0,
                    out@[l].1,
                    return_userid,
                    fetch_all,
                ),
        decreases handles@.len() - n,
    {
        let h = handles[n].clone();
        let titles = video_branding_titles(db, pool, &h, Some(p), return_userid, fetch_all);
        let thumbnails = video_branding_thumbnails(
            db,
            pool,
            &h,
            Some(p),
            return_userid,
            fetch_all,
        );
        let video_info = find_info_in_bucket(db, p, &h);
        out.push((h, SBApiVideo { titles, thumbnails, video_info }));
        n = n + 1;
    }
    proof {
        assert forall|id: int| #[trigger] spec_chunk_member(*db, p, id, fetch_all) implies exists|
            l: int,
        | 0 <= l < out@.len() && (#[trigger] out@[l].0).spec_id() == id by {
            let l0 = choose|l: int|
                0 <= l < handles@.len() && (#[trigger] handles@[l]).spec_id() == id;
            assert(out@[l0].0.spec_id() == id);
        }
        assert forall|j: int, k: int| 0 <= j < k < out@.len() implies (
        #[trigger] out@[j].0).spec_id() != (#[trigger] out@[k].0).spec_id() by {
            assert(out@[j].0 == handles@[j]);
            assert(out@[k].0 == handles@[k]);
        }
        assert forall|j: int| 0 <= j < out@.len() implies spec_chunk_member(
            *db,
            p,
            (#[trigger] out@[j].0).spec_id(),
            fetch_all,
        ) && pool.is_interned(out@[j].0) by {
            assert(out@[j].0 == handles@[j]);
        }
        assert(prefix_str.spec_bytes().len() == 4);
        assert(prefix16_value(prefix_str.spec_bytes()) == Some(p as int));
        assert(chunk_ok(*db, *pool, out@, p, return_userid, fetch_all));
        assert((prefix16_value(prefix_str.spec_bytes()).unwrap() as u16) == p);
    }
    Some(out)
}

} // verus!
