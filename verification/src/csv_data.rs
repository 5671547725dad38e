//! The typed rows of the mirror's CSV tables. A table's header names its
//! columns; each row is parsed field by field, with the numeric grammar pinned
//! down by the specs in `numbers`.

use vstd::prelude::*;

verus! {

use vstd::string::StringSliceAdditionalSpecFns;
use vstd::utf8::encode_utf8;
use crate::text::str_eq;
use crate::numbers::{parse_i8, parse_i16, parse_i64, parse_micros};
use crate::numbers::{spec_parse_i8, spec_parse_i16, spec_parse_i64, spec_parse_micros};
use crate::string_pool::{InternedString, StringSet};

/// The first column at or after `from` named `name`.
pub open spec fn spec_find_column(header: Seq<Seq<char>>, name: Seq<char>, from: int) -> Option<
    int,
>
    decreases header.len() - from,
{
    if from < 0 || from >= header.len() {
        None
    } else if header[from] == name {
        Some(from)
    } else {
        spec_find_column(header, name, from + 1)
    }
}

/// The first column of `header` named `name`.
pub fn find_column(header: &Vec<String>, name: &str) -> (r: Option<usize>)
    ensures
        match r {
            Some(i) => spec_find_column(header.deep_view(), name@, 0) == Some(i as int) && i
                < header@.len() && header@[i as int]@ == name@,
            None => spec_find_column(header.deep_view(), name@, 0) is None && (forall|j: int|
                0 <= j < header@.len() ==> header@[j]@ != name@),
        },
{
    let mut i: usize = 0;
    while i < header.len()
        invariant
            i <= header@.len(),
            forall|j: int| 0 <= j < i ==> header@[j]@ != name@,
            spec_find_column(header.deep_view(), name@, 0) == spec_find_column(
                header.deep_view(),
                name@,
                i as int,
            ),
        decreases header@.len() - i,
    {
        proof {
            assert(header.deep_view()[i as int] == header@[i as int]@);
        }
        if str_eq(header[i].as_str(), name) {
            return Some(i);
        }
        i = i + 1;
    }
    None
}

/// Whether some column of `header` is named `name`.
pub open spec fn has_column(header: Seq<String>, name: Seq<char>) -> bool {
    exists|j: int| 0 <= j < header.len() && header[j]@ == name
}

/// A raw `titles.csv` row.
pub struct Title {
    pub video_id: InternedString,
    pub title: InternedString,
    pub original: i8,
    pub user_id: InternedString,
    pub time_submitted: i64,
    pub uuid: InternedString,
    pub hashed_video_id: String,
}

pub struct TitleColumns {
    pub video_id: usize,
    pub title: usize,
    pub original: usize,
    pub user_id: usize,
    pub time_submitted: usize,
    pub uuid: usize,
    pub hashed_video_id: usize,
}

impl TitleColumns {
    pub open spec fn ok(self, header: Seq<String>) -> bool {
        &&& self.video_id < header.len() && header[self.video_id as int]@ == "videoID"@
        &&& self.title < header.len() && header[self.title as int]@ == "title"@
        &&& self.original < header.len() && header[self.original as int]@ == "original"@
        &&& self.user_id < header.len() && header[self.user_id as int]@ == "userID"@
        &&& self.time_submitted < header.len() && header[self.time_submitted as int]@
            == "timeSubmitted"@
        &&& self.uuid < header.len() && header[self.uuid as int]@ == "UUID"@
        &&& self.hashed_video_id < header.len() && header[self.hashed_video_id as int]@
            == "hashedVideoID"@
    }

    /// The column indices a well-formed `titles.csv` header yields.
    pub open spec fn spec_find(header: Seq<Seq<char>>) -> Option<TitleColumns> {
        match (
            spec_find_column(header, "videoID"@, 0),
            spec_find_column(header, "title"@, 0),
            spec_find_column(header, "original"@, 0),
            spec_find_column(header, "userID"@, 0),
            spec_find_column(header, "timeSubmitted"@, 0),
            spec_find_column(header, "UUID"@, 0),
            spec_find_column(header, "hashedVideoID"@, 0),
        ) {
            (Some(a), Some(b), Some(c), Some(d), Some(e), Some(f), Some(g)) => Some(
                TitleColumns {
                    video_id: a as usize,
                    title: b as usize,
                    original: c as usize,
                    user_id: d as usize,
                    time_submitted: e as usize,
                    uuid: f as usize,
                    hashed_video_id: g as usize,
                },
            ),
            _ => None,
        }
    }

    pub fn find(header: &Vec<String>) -> (r: Option<TitleColumns>)
        ensures
            r == Self::spec_find(header.deep_view()),
            match r {
                Some(c) => c.ok(header@),
                None => !(has_column(header@, "videoID"@) && has_column(header@, "title"@)
                    && has_column(header@, "original"@) && has_column(header@, "userID"@)
                    && has_column(header@, "timeSubmitted"@) && has_column(header@, "UUID"@)
                    && has_column(header@, "hashedVideoID"@)),
            },
    {
        let video_id = find_column(header, "videoID");
        let title = find_column(header, "title");
        let original = find_column(header, "original");
        let user_id = find_column(header, "userID");
        let time_submitted = find_column(header, "timeSubmitted");
        let uuid = find_column(header, "UUID");
        let hashed_video_id = find_column(header, "hashedVideoID");
        match (video_id, title, original, user_id, time_submitted, uuid, hashed_video_id) {
            (Some(a), Some(b), Some(c), Some(d), Some(e), Some(f), Some(g)) => Some(
                TitleColumns {
                    video_id: a,
                    title: b,
                    original: c,
                    user_id: d,
                    time_submitted: e,
                    uuid: f,
                    hashed_video_id: g,
                },
            ),
            _ => None,
        }
    }
}

/// The plain contents of a parsed title row.
pub struct TitleRowData {
    pub video_id: Seq<char>,
    pub title: Seq<char>,
    pub original: i8,
    pub user_id: Seq<char>,
    pub time_submitted: i64,
    pub uuid: Seq<char>,
    pub hashed_video_id: Seq<char>,
}

/// The plain contents a row struct holds.
pub open spec fn title_row_data(t: Title) -> TitleRowData {
    TitleRowData {
        video_id: t.video_id@,
        title: t.title@,
        original: t.original,
        user_id: t.user_id@,
        time_submitted: t.time_submitted,
        uuid: t.uuid@,
        hashed_video_id: t.hashed_video_id@,
    }
}

/// Exactly what parsing one `titles.csv` record yields.
pub open spec fn spec_title_row(fields: Seq<Seq<char>>, c: TitleColumns) -> Option<TitleRowData> {
    if c.video_id >= fields.len() || c.title >= fields.len() || c.original >= fields.len()
        || c.user_id >= fields.len() || c.time_submitted >= fields.len() || c.uuid >= fields.len()
        || c.hashed_video_id >= fields.len() {
        None
    } else {
        match (
            spec_parse_i8(encode_utf8(fields[c.original as int])),
            spec_parse_i64(encode_utf8(fields[c.time_submitted as int])),
        ) {
            (Some(original), Some(time_submitted)) => Some(
                TitleRowData {
                    video_id: fields[c.video_id as int],
                    title: fields[c.title as int],
                    original,
                    user_id: fields[c.user_id as int],
                    time_submitted,
                    uuid: fields[c.uuid as int],
                    hashed_video_id: fields[c.hashed_video_id as int],
                },
            ),
            _ => None,
        }
    }
}

impl Title {
    /// Parse one data row of `titles.csv`; `None` exactly when a referenced
    /// column is missing from the row or a numeric field is malformed.
    pub fn parse(fields: &Vec<String>, c: &TitleColumns) -> (r: Option<Title>)
        ensures
            match r {
                Some(t) => spec_title_row(fields.deep_view(), *c) == Some(title_row_data(t)),
                None => spec_title_row(fields.deep_view(), *c) is None,
            },
            match r {
                Some(t) => {
                    &&& c.video_id < fields@.len() && t.video_id@ == fields@[c.video_id as int]@
                    &&& c.title < fields@.len() && t.title@ == fields@[c.title as int]@
                    &&& c.user_id < fields@.len() && t.user_id@ == fields@[c.user_id as int]@
                    &&& c.uuid < fields@.len() && t.uuid@ == fields@[c.uuid as int]@
                    &&& c.hashed_video_id < fields@.len() && t.hashed_video_id@
                        == fields@[c.hashed_video_id as int]@
                    &&& c.original < fields@.len() && spec_parse_i8(
                        encode_utf8(fields@[c.original as int]@),
                    ) == Some(t.original)
                    &&& c.time_submitted < fields@.len() && spec_parse_i64(
                        encode_utf8(fields@[c.time_submitted as int]@),
                    ) == Some(t.time_submitted)
                },
                None => {
                    ||| c.video_id >= fields@.len()
                    ||| c.title >= fields@.len()
                    ||| c.original >= fields@.len()
                    ||| c.user_id >= fields@.len()
                    ||| c.time_submitted >= fields@.len()
                    ||| c.uuid >= fields@.len()
                    ||| c.hashed_video_id >= fields@.len()
                    ||| spec_parse_i8(encode_utf8(fields@[c.original as int]@)) is None
                    ||| spec_parse_i64(encode_utf8(fields@[c.time_submitted as int]@)) is None
                },
            },
    {
        proof {
            assert forall|j: int| 0 <= j < fields@.len() implies #[trigger] fields.deep_view()[j]
                == fields@[j]@ by {}
        }
        if c.video_id >= fields.len() || c.title >= fields.len() || c.original >= fields.len()
            || c.user_id >= fields.len() || c.time_submitted >= fields.len() || c.uuid
            >= fields.len() || c.hashed_video_id >= fields.len() {
            return None;
        }
        let original = match parse_i8(fields[c.original].as_str()) {
            Some(v) => v,
            None => {
                return None;
            },
        };
        let time_submitted = match parse_i64(fields[c.time_submitted].as_str()) {
            Some(v) => v,
            None => {
                return None;
            },
        };
        Some(
            Title {
                video_id: InternedString::new(fields[c.video_id].clone()),
                title: InternedString::new(fields[c.title].clone()),
                original,
                user_id: InternedString::new(fields[c.user_id].clone()),
                time_submitted,
                uuid: InternedString::new(fields[c.uuid].clone()),
                hashed_video_id: fields[c.hashed_video_id].clone(),
            },
        )
    }

    /// Intern every shared string field.
    pub fn dedupe_strings(&mut self, set: &mut StringSet)
        ensures
            final(self).video_id@ == old(self).video_id@,
            final(self).title@ == old(self).title@,
            final(self).user_id@ == old(self).user_id@,
            final(self).uuid@ == old(self).uuid@,
            final(self).original == old(self).original,
            final(self).time_submitted == old(self).time_submitted,
            final(self).hashed_video_id == old(self).hashed_video_id,
            final(set).extends(*old(set)),
            final(set).is_interned(final(self).video_id),
            final(set).is_interned(final(self).title),
            final(set).is_interned(final(self).user_id),
            final(set).is_interned(final(self).uuid),
    {
        set.dedupe_arc(&mut self.uuid);
        set.dedupe_arc(&mut self.title);
        set.dedupe_arc(&mut self.video_id);
        set.dedupe_arc(&mut self.user_id);
    }
}


/// A raw `titleVotes.csv` row.
pub struct TitleVotes {
    pub uuid: InternedString,
    pub votes: i8,
    pub locked: i8,
    pub shadow_hidden: i8,
    pub verification: i8,
    pub downvotes: i8,
    pub removed: i8,
}

pub struct TitleVotesColumns {
    pub uuid: usize,
    pub votes: usize,
    pub locked: usize,
    pub shadow_hidden: usize,
    pub verification: usize,
    pub downvotes: usize,
    pub removed: usize,
}

impl TitleVotesColumns {
    pub open spec fn ok(self, header: Seq<String>) -> bool {
        &&& self.uuid < header.len() && header[self.uuid as int]@ == "UUID"@
        &&& self.votes < header.len() && header[self.votes as int]@ == "votes"@
        &&& self.locked < header.len() && header[self.locked as int]@ == "locked"@
        &&& self.shadow_hidden < header.len() && header[self.shadow_hidden as int]@ == "shadowHidden"@
        &&& self.verification < header.len() && header[self.verification as int]@ == "verification"@
        &&& self.downvotes < header.len() && header[self.downvotes as int]@ == "downvotes"@
        &&& self.removed < header.len() && header[self.removed as int]@ == "removed"@
    }

    /// The column indices a well-formed `titleVotes.csv` header yields.
    pub open spec fn spec_find(header: Seq<Seq<char>>) -> Option<TitleVotesColumns> {
        match (
            spec_find_column(header, "UUID"@, 0),
            spec_find_column(header, "votes"@, 0),
            spec_find_column(header, "locked"@, 0),
            spec_find_column(header, "shadowHidden"@, 0),
            spec_find_column(header, "verification"@, 0),
            spec_find_column(header, "downvotes"@, 0),
            spec_find_column(header, "removed"@, 0),
        ) {
            (Some(a), Some(b), Some(c), Some(d), Some(e), Some(f), Some(g)) => Some(
                TitleVotesColumns {
                    uuid: a as usize,
                    votes: b as usize,
                    locked: c as usize,
                    shadow_hidden: d as usize,
                    verification: e as usize,
                    downvotes: f as usize,
                    removed: g as usize,
                },
            ),
            _ => None,
        }
    }

    pub fn find(header: &Vec<String>) -> (r: Option<TitleVotesColumns>)
        ensures
            r == Self::spec_find(header.deep_view()),
            match r {
                Some(c) => c.ok(header@),
                None => !(has_column(header@, "UUID"@)
                    && has_column(header@, "votes"@)
                    && has_column(header@, "locked"@)
                    && has_column(header@, "shadowHidden"@)
                    && has_column(header@, "verification"@)
                    && has_column(header@, "downvotes"@)
                    && has_column(header@, "removed"@)),
            },
    {
        let uuid = find_column(header, "UUID");
        let votes = find_column(header, "votes");
        let locked = find_column(header, "locked");
        let shadow_hidden = find_column(header, "shadowHidden");
        let verification = find_column(header, "verification");
        let downvotes = find_column(header, "downvotes");
        let removed = find_column(header, "removed");
        match (uuid, votes, locked, shadow_hidden, verification, downvotes, removed) {
            (Some(a), Some(b), Some(c), Some(d), Some(e), Some(f), Some(g)) => Some(
                TitleVotesColumns {
                    uuid: a,
                    votes: b,
                    locked: c,
                    shadow_hidden: d,
                    verification: e,
                    downvotes: f,
                    removed: g,
                },
            ),
            _ => None,
        }
    }
}

/// The plain contents of a parsed title votes row.
pub struct TitleVotesRowData {
    pub uuid: Seq<char>,
    pub votes: i8,
    pub locked: i8,
    pub shadow_hidden: i8,
    pub verification: i8,
    pub downvotes: i8,
    pub removed: i8,
}

pub open spec fn title_votes_row_data(t: TitleVotes) -> TitleVotesRowData {
    TitleVotesRowData {
        uuid: t.uuid@,
        votes: t.votes,
        locked: t.locked,
        shadow_hidden: t.shadow_hidden,
        verification: t.verification,
        downvotes: t.downvotes,
        removed: t.removed,
    }
}

/// Exactly what parsing one `titleVotes.csv` record yields.
pub open spec fn spec_title_votes_row(fields: Seq<Seq<char>>, c: TitleVotesColumns) -> Option<
    TitleVotesRowData,
> {
    if c.uuid >= fields.len() || c.votes >= fields.len() || c.locked >= fields.len()
        || c.shadow_hidden >= fields.len() || c.verification >= fields.len() || c.downvotes
        >= fields.len() || c.removed >= fields.len() {
        None
    } else {
        match (
            spec_parse_i8(encode_utf8(fields[c.votes as int])),
            spec_parse_i8(encode_utf8(fields[c.locked as int])),
            spec_parse_i8(encode_utf8(fields[c.shadow_hidden as int])),
            spec_parse_i8(encode_utf8(fields[c.verification as int])),
            spec_parse_i8(encode_utf8(fields[c.downvotes as int])),
            spec_parse_i8(encode_utf8(fields[c.removed as int])),
        ) {
            (Some(votes), Some(locked), Some(shadow_hidden), Some(verification), Some(downvotes),
                Some(removed)) => Some(
                TitleVotesRowData {
                    uuid: fields[c.uuid as int],
                    votes,
                    locked,
                    shadow_hidden,
                    verification,
                    downvotes,
                    removed,
                },
            ),
            _ => None,
        }
    }
}

impl TitleVotes {
    /// Parse one data row; `None` exactly when a referenced column is
    /// missing from the row or a numeric field is malformed.
    pub fn parse(fields: &Vec<String>, c: &TitleVotesColumns) -> (r: Option<TitleVotes>)
        ensures
            match r {
                Some(t) => spec_title_votes_row(fields.deep_view(), *c) == Some(
                    title_votes_row_data(t),
                ),
                None => spec_title_votes_row(fields.deep_view(), *c) is None,
            },
            match r {
                Some(t) => {
                    &&& c.uuid < fields@.len() && t.uuid@ == fields@[c.uuid as int]@
                    &&& c.votes < fields@.len() && spec_parse_i8(
                        encode_utf8(fields@[c.votes as int]@),
                    ) == Some(t.votes)
                    &&& c.locked < fields@.len() && spec_parse_i8(
                        encode_utf8(fields@[c.locked as int]@),
                    ) == Some(t.locked)
                    &&& c.shadow_hidden < fields@.len() && spec_parse_i8(
                        encode_utf8(fields@[c.shadow_hidden as int]@),
                    ) == Some(t.shadow_hidden)
                    &&& c.verification < fields@.len() && spec_parse_i8(
                        encode_utf8(fields@[c.verification as int]@),
                    ) == Some(t.verification)
                    &&& c.downvotes < fields@.len() && spec_parse_i8(
                        encode_utf8(fields@[c.downvotes as int]@),
                    ) == Some(t.downvotes)
                    &&& c.removed < fields@.len() && spec_parse_i8(
                        encode_utf8(fields@[c.removed as int]@),
                    ) == Some(t.removed)
                },
                None => {
                    ||| c.uuid >= fields@.len()
                    ||| c.votes >= fields@.len()
                    ||| c.locked >= fields@.len()
                    ||| c.shadow_hidden >= fields@.len()
                    ||| c.verification >= fields@.len()
                    ||| c.downvotes >= fields@.len()
                    ||| c.removed >= fields@.len()
                    ||| spec_parse_i8(encode_utf8(fields@[c.votes as int]@)) is None
                    ||| spec_parse_i8(encode_utf8(fields@[c.locked as int]@)) is None
                    ||| spec_parse_i8(encode_utf8(fields@[c.shadow_hidden as int]@)) is None
                    ||| spec_parse_i8(encode_utf8(fields@[c.verification as int]@)) is None
                    ||| spec_parse_i8(encode_utf8(fields@[c.downvotes as int]@)) is None
                    ||| spec_parse_i8(encode_utf8(fields@[c.removed as int]@)) is None
                },
            },
    {
        proof {
            assert forall|j: int| 0 <= j < fields@.len() implies #[trigger] fields.deep_view()[j]
                == fields@[j]@ by {}
        }
        if c.uuid >= fields.len() || c.votes >= fields.len() || c.locked >= fields.len() || c.shadow_hidden >= fields.len() || c.verification >= fields.len() || c.downvotes >= fields.len() || c.removed >= fields.len() {
            return None;
        }
        let votes = match parse_i8(fields[c.votes].as_str()) {
            Some(v) => v,
            None => {
                return None;
            },
        };
        let locked = match parse_i8(fields[c.locked].as_str()) {
            Some(v) => v,
            None => {
                return None;
            },
        };
        let shadow_hidden = match parse_i8(fields[c.shadow_hidden].as_str()) {
            Some(v) => v,
            None => {
                return None;
            },
        };
        let verification = match parse_i8(fields[c.verification].as_str()) {
            Some(v) => v,
            None => {
                return None;
            },
        };
        let downvotes = match parse_i8(fields[c.downvotes].as_str()) {
            Some(v) => v,
            None => {
                return None;
            },
        };
        let removed = match parse_i8(fields[c.removed].as_str()) {
            Some(v) => v,
            None => {
                return None;
            },
        };
        Some(
            TitleVotes {
                uuid: InternedString::new(fields[c.uuid].clone()),
                votes,
                locked,
                shadow_hidden,
                verification,
                downvotes,
                removed,
            },
        )
    }

    /// Intern every shared string field.
    pub fn dedupe_strings(&mut self, set: &mut StringSet)
        ensures
            final(self).uuid@ == old(self).uuid@,
            final(self).votes == old(self).votes,
            final(self).locked == old(self).locked,
            final(self).shadow_hidden == old(self).shadow_hidden,
            final(self).verification == old(self).verification,
            final(self).downvotes == old(self).downvotes,
            final(self).removed == old(self).removed,
            final(set).extends(*old(set)),
            final(set).is_interned(final(self).uuid),
    {
        set.dedupe_arc(&mut self.uuid);
    }
}

/// A raw `thumbnails.csv` row.
pub struct Thumbnail {
    pub video_id: InternedString,
    pub original: i8,
    pub user_id: InternedString,
    pub time_submitted: i64,
    pub uuid: InternedString,
    pub hashed_video_id: String,
}

pub struct ThumbnailColumns {
    pub video_id: usize,
    pub original: usize,
    pub user_id: usize,
    pub time_submitted: usize,
    pub uuid: usize,
    pub hashed_video_id: usize,
}

impl ThumbnailColumns {
    pub open spec fn ok(self, header: Seq<String>) -> bool {
        &&& self.video_id < header.len() && header[self.video_id as int]@ == "videoID"@
        &&& self.original < header.len() && header[self.original as int]@ == "original"@
        &&& self.user_id < header.len() && header[self.user_id as int]@ == "userID"@
        &&& self.time_submitted < header.len() && header[self.time_submitted as int]@ == "timeSubmitted"@
        &&& self.uuid < header.len() && header[self.uuid as int]@ == "UUID"@
        &&& self.hashed_video_id < header.len() && header[self.hashed_video_id as int]@ == "hashedVideoID"@
    }

    /// The column indices a well-formed `thumbnails.csv` header yields.
    pub open spec fn spec_find(header: Seq<Seq<char>>) -> Option<ThumbnailColumns> {
        match (
            spec_find_column(header, "videoID"@, 0),
            spec_find_column(header, "original"@, 0),
            spec_find_column(header, "userID"@, 0),
            spec_find_column(header, "timeSubmitted"@, 0),
            spec_find_column(header, "UUID"@, 0),
            spec_find_column(header, "hashedVideoID"@, 0),
        ) {
            (Some(a), Some(b), Some(c), Some(d), Some(e), Some(f)) => Some(
                ThumbnailColumns {
                    video_id: a as usize,
                    original: b as usize,
                    user_id: c as usize,
                    time_submitted: d as usize,
                    uuid: e as usize,
                    hashed_video_id: f as usize,
                },
            ),
            _ => None,
        }
    }

    pub fn find(header: &Vec<String>) -> (r: Option<ThumbnailColumns>)
        ensures
            r == Self::spec_find(header.deep_view()),
            match r {
                Some(c) => c.ok(header@),
                None => !(has_column(header@, "videoID"@)
                    && has_column(header@, "original"@)
                    && has_column(header@, "userID"@)
                    && has_column(header@, "timeSubmitted"@)
                    && has_column(header@, "UUID"@)
                    && has_column(header@, "hashedVideoID"@)),
            },
    {
        let video_id = find_column(header, "videoID");
        let original = find_column(header, "original");
        let user_id = find_column(header, "userID");
        let time_submitted = find_column(header, "timeSubmitted");
        let uuid = find_column(header, "UUID");
        let hashed_video_id = find_column(header, "hashedVideoID");
        match (video_id, original, user_id, time_submitted, uuid, hashed_video_id) {
            (Some(a), Some(b), Some(c), Some(d), Some(e), Some(f)) => Some(
                ThumbnailColumns {
                    video_id: a,
                    original: b,
                    user_id: c,
                    time_submitted: d,
                    uuid: e,
                    hashed_video_id: f,
                },
            ),
            _ => None,
        }
    }
}

/// The plain contents of a parsed thumbnail row.
pub struct ThumbnailRowData {
    pub video_id: Seq<char>,
    pub original: i8,
    pub user_id: Seq<char>,
    pub time_submitted: i64,
    pub uuid: Seq<char>,
    pub hashed_video_id: Seq<char>,
}

pub open spec fn thumbnail_row_data(t: Thumbnail) -> ThumbnailRowData {
    ThumbnailRowData {
        video_id: t.video_id@,
        original: t.original,
        user_id: t.user_id@,
        time_submitted: t.time_submitted,
        uuid: t.uuid@,
        hashed_video_id: t.hashed_video_id@,
    }
}

/// Exactly what parsing one `thumbnails.csv` record yields.
pub open spec fn spec_thumbnail_row(fields: Seq<Seq<char>>, c: ThumbnailColumns) -> Option<
    ThumbnailRowData,
> {
    if c.video_id >= fields.len() || c.original >= fields.len() || c.user_id >= fields.len()
        || c.time_submitted >= fields.len() || c.uuid >= fields.len() || c.hashed_video_id
        >= fields.len() {
        None
    } else {
        match (
            spec_parse_i8(encode_utf8(fields[c.original as int])),
            spec_parse_i64(encode_utf8(fields[c.time_submitted as int])),
        ) {
            (Some(original), Some(time_submitted)) => Some(
                ThumbnailRowData {
                    video_id: fields[c.video_id as int],
                    original,
                    user_id: fields[c.user_id as int],
                    time_submitted,
                    uuid: fields[c.uuid as int],
                    hashed_video_id: fields[c.hashed_video_id as int],
                },
            ),
            _ => None,
        }
    }
}

impl Thumbnail {
    /// Parse one data row; `None` exactly when a referenced column is
    /// missing from the row or a numeric field is malformed.
    pub fn parse(fields: &Vec<String>, c: &ThumbnailColumns) -> (r: Option<Thumbnail>)
        ensures
            match r {
                Some(t) => spec_thumbnail_row(fields.deep_view(), *c) == Some(
                    thumbnail_row_data(t),
                ),
                None => spec_thumbnail_row(fields.deep_view(), *c) is None,
            },
            match r {
                Some(t) => {
                    &&& c.video_id < fields@.len() && t.video_id@ == fields@[c.video_id as int]@
                    &&& c.original < fields@.len() && spec_parse_i8(
                        encode_utf8(fields@[c.original as int]@),
                    ) == Some(t.original)
                    &&& c.user_id < fields@.len() && t.user_id@ == fields@[c.user_id as int]@
                    &&& c.time_submitted < fields@.len() && spec_parse_i64(
                        encode_utf8(fields@[c.time_submitted as int]@),
                    ) == Some(t.time_submitted)
                    &&& c.uuid < fields@.len() && t.uuid@ == fields@[c.uuid as int]@
                    &&& c.hashed_video_id < fields@.len() && t.hashed_video_id@ == fields@[c.hashed_video_id as int]@
                },
                None => {
                    ||| c.video_id >= fields@.len()
                    ||| c.original >= fields@.len()
                    ||| c.user_id >= fields@.len()
                    ||| c.time_submitted >= fields@.len()
                    ||| c.uuid >= fields@.len()
                    ||| c.hashed_video_id >= fields@.len()
                    ||| spec_parse_i8(encode_utf8(fields@[c.original as int]@)) is None
                    ||| spec_parse_i64(encode_utf8(fields@[c.time_submitted as int]@)) is None
                },
            },
    {
        proof {
            assert forall|j: int| 0 <= j < fields@.len() implies #[trigger] fields.deep_view()[j]
                == fields@[j]@ by {}
        }
        if c.video_id >= fields.len() || c.original >= fields.len() || c.user_id >= fields.len() || c.time_submitted >= fields.len() || c.uuid >= fields.len() || c.hashed_video_id >= fields.len() {
            return None;
        }
        let original = match parse_i8(fields[c.original].as_str()) {
            Some(v) => v,
            None => {
                return None;
            },
        };
        let time_submitted = match parse_i64(fields[c.time_submitted].as_str()) {
            Some(v) => v,
            None => {
                return None;
            },
        };
        Some(
            Thumbnail {
                video_id: InternedString::new(fields[c.video_id].clone()),
                original,
                user_id: InternedString::new(fields[c.user_id].clone()),
                time_submitted,
                uuid: InternedString::new(fields[c.uuid].clone()),
                hashed_video_id: fields[c.hashed_video_id].clone(),
            },
        )
    }

    /// Intern every shared string field.
    pub fn dedupe_strings(&mut self, set: &mut StringSet)
        ensures
            final(self).video_id@ == old(self).video_id@,
            final(self).original == old(self).original,
            final(self).user_id@ == old(self).user_id@,
            final(self).time_submitted == old(self).time_submitted,
            final(self).uuid@ == old(self).uuid@,
            final(self).hashed_video_id == old(self).hashed_video_id,
            final(set).extends(*old(set)),
            final(set).is_interned(final(self).video_id),
            final(set).is_interned(final(self).user_id),
            final(set).is_interned(final(self).uuid),
    {
        set.dedupe_arc(&mut self.video_id);
        set.dedupe_arc(&mut self.user_id);
        set.dedupe_arc(&mut self.uuid);
    }
}

/// A raw `thumbnailTimestamps.csv` row; the timestamp is held in
/// microseconds.
pub struct ThumbnailTimestamps {
    pub uuid: InternedString,
    pub timestamp: i64,
}

pub struct ThumbnailTimestampsColumns {
    pub uuid: usize,
    pub timestamp: usize,
}

impl ThumbnailTimestampsColumns {
    pub open spec fn ok(self, header: Seq<String>) -> bool {
        &&& self.uuid < header.len() && header[self.uuid as int]@ == "UUID"@
        &&& self.timestamp < header.len() && header[self.timestamp as int]@ == "timestamp"@
    }

    /// The column indices a well-formed `thumbnailTimestamps.csv` header
    /// yields.
    pub open spec fn spec_find(header: Seq<Seq<char>>) -> Option<ThumbnailTimestampsColumns> {
        match (spec_find_column(header, "UUID"@, 0), spec_find_column(header, "timestamp"@, 0)) {
            (Some(a), Some(b)) => Some(
                ThumbnailTimestampsColumns { uuid: a as usize, timestamp: b as usize },
            ),
            _ => None,
        }
    }

    pub fn find(header: &Vec<String>) -> (r: Option<ThumbnailTimestampsColumns>)
        ensures
            r == Self::spec_find(header.deep_view()),
            match r {
                Some(c) => c.ok(header@),
                None => !(has_column(header@, "UUID"@)
                    && has_column(header@, "timestamp"@)),
            },
    {
        let uuid = find_column(header, "UUID");
        let timestamp = find_column(header, "timestamp");
        match (uuid, timestamp) {
            (Some(a), Some(b)) => Some(
                ThumbnailTimestampsColumns {
                    uuid: a,
                    timestamp: b,
                },
            ),
            _ => None,
        }
    }
}

/// The plain contents of a parsed thumbnail timestamp row.
pub struct ThumbnailTimestampsRowData {
    pub uuid: Seq<char>,
    pub timestamp: i64,
}

pub open spec fn thumbnail_timestamps_row_data(t: ThumbnailTimestamps) -> ThumbnailTimestampsRowData {
    ThumbnailTimestampsRowData { uuid: t.uuid@, timestamp: t.timestamp }
}

/// Exactly what parsing one `thumbnailTimestamps.csv` record yields.
pub open spec fn spec_thumbnail_timestamps_row(
    fields: Seq<Seq<char>>,
    c: ThumbnailTimestampsColumns,
) -> Option<ThumbnailTimestampsRowData> {
    if c.uuid >= fields.len() || c.timestamp >= fields.len() {
        None
    } else {
        match spec_parse_micros(encode_utf8(fields[c.timestamp as int])) {
            Some(timestamp) => Some(
                ThumbnailTimestampsRowData { uuid: fields[c.uuid as int], timestamp },
            ),
            None => None,
        }
    }
}

impl ThumbnailTimestamps {
    /// Parse one data row; `None` exactly when a referenced column is
    /// missing from the row or a numeric field is malformed.
    pub fn parse(fields: &Vec<String>, c: &ThumbnailTimestampsColumns) -> (r: Option<ThumbnailTimestamps>)
        ensures
            match r {
                Some(t) => spec_thumbnail_timestamps_row(fields.deep_view(), *c) == Some(
                    thumbnail_timestamps_row_data(t),
                ),
                None => spec_thumbnail_timestamps_row(fields.deep_view(), *c) is None,
            },
            match r {
                Some(t) => {
                    &&& c.uuid < fields@.len() && t.uuid@ == fields@[c.uuid as int]@
                    &&& c.timestamp < fields@.len() && spec_parse_micros(
                        encode_utf8(fields@[c.timestamp as int]@),
                    ) == Some(t.timestamp)
                },
                None => {
                    ||| c.uuid >= fields@.len()
                    ||| c.timestamp >= fields@.len()
                    ||| spec_parse_micros(encode_utf8(fields@[c.timestamp as int]@)) is None
                },
            },
    {
        proof {
            assert forall|j: int| 0 <= j < fields@.len() implies #[trigger] fields.deep_view()[j]
                == fields@[j]@ by {}
        }
        if c.uuid >= fields.len() || c.timestamp >= fields.len() {
            return None;
        }
        let timestamp = match parse_micros(fields[c.timestamp].as_str()) {
            Some(v) => v,
            None => {
                return None;
            },
        };
        Some(
            ThumbnailTimestamps {
                uuid: InternedString::new(fields[c.uuid].clone()),
                timestamp,
            },
        )
    }

    /// Intern every shared string field.
    pub fn dedupe_strings(&mut self, set: &mut StringSet)
        ensures
            final(self).uuid@ == old(self).uuid@,
            final(self).timestamp == old(self).timestamp,
            final(set).extends(*old(set)),
            final(set).is_interned(final(self).uuid),
    {
        set.dedupe_arc(&mut self.uuid);
    }
}

/// A raw `thumbnailVotes.csv` row.
pub struct ThumbnailVotes {
    pub uuid: InternedString,
    pub votes: i8,
    pub locked: i8,
    pub shadow_hidden: i8,
    pub downvotes: i8,
    pub removed: i8,
}

pub struct ThumbnailVotesColumns {
    pub uuid: usize,
    pub votes: usize,
    pub locked: usize,
    pub shadow_hidden: usize,
    pub downvotes: usize,
    pub removed: usize,
}

impl ThumbnailVotesColumns {
    pub open spec fn ok(self, header: Seq<String>) -> bool {
        &&& self.uuid < header.len() && header[self.uuid as int]@ == "UUID"@
        &&& self.votes < header.len() && header[self.votes as int]@ == "votes"@
        &&& self.locked < header.len() && header[self.locked as int]@ == "locked"@
        &&& self.shadow_hidden < header.len() && header[self.shadow_hidden as int]@ == "shadowHidden"@
        &&& self.downvotes < header.len() && header[self.downvotes as int]@ == "downvotes"@
        &&& self.removed < header.len() && header[self.removed as int]@ == "removed"@
    }

    /// The column indices a well-formed `thumbnailVotes.csv` header yields.
    pub open spec fn spec_find(header: Seq<Seq<char>>) -> Option<ThumbnailVotesColumns> {
        match (
            spec_find_column(header, "UUID"@, 0),
            spec_find_column(header, "votes"@, 0),
            spec_find_column(header, "locked"@, 0),
            spec_find_column(header, "shadowHidden"@, 0),
            spec_find_column(header, "downvotes"@, 0),
            spec_find_column(header, "removed"@, 0),
        ) {
            (Some(a), Some(b), Some(c), Some(d), Some(e), Some(f)) => Some(
                ThumbnailVotesColumns {
                    uuid: a as usize,
                    votes: b as usize,
                    locked: c as usize,
                    shadow_hidden: d as usize,
                    downvotes: e as usize,
                    removed: f as usize,
                },
            ),
            _ => None,
        }
    }

    pub fn find(header: &Vec<String>) -> (r: Option<ThumbnailVotesColumns>)
        ensures
            r == Self::spec_find(header.deep_view()),
            match r {
                Some(c) => c.ok(header@),
                None => !(has_column(header@, "UUID"@)
                    && has_column(header@, "votes"@)
                    && has_column(header@, "locked"@)
                    && has_column(header@, "shadowHidden"@)
                    && has_column(header@, "downvotes"@)
                    && has_column(header@, "removed"@)),
            },
    {
        let uuid = find_column(header, "UUID");
        let votes = find_column(header, "votes");
        let locked = find_column(header, "locked");
        let shadow_hidden = find_column(header, "shadowHidden");
        let downvotes = find_column(header, "downvotes");
        let removed = find_column(header, "removed");
        match (uuid, votes, locked, shadow_hidden, downvotes, removed) {
            (Some(a), Some(b), Some(c), Some(d), Some(e), Some(f)) => Some(
                ThumbnailVotesColumns {
                    uuid: a,
                    votes: b,
                    locked: c,
                    shadow_hidden: d,
                    downvotes: e,
                    removed: f,
                },
            ),
            _ => None,
        }
    }
}

/// The plain contents of a parsed thumbnail votes row.
pub struct ThumbnailVotesRowData {
    pub uuid: Seq<char>,
    pub votes: i8,
    pub locked: i8,
    pub shadow_hidden: i8,
    pub downvotes: i8,
    pub removed: i8,
}

pub open spec fn thumbnail_votes_row_data(t: ThumbnailVotes) -> ThumbnailVotesRowData {
    ThumbnailVotesRowData {
        uuid: t.uuid@,
        votes: t.votes,
        locked: t.locked,
        shadow_hidden: t.shadow_hidden,
        downvotes: t.downvotes,
        removed: t.removed,
    }
}

/// Exactly what parsing one `thumbnailVotes.csv` record yields.
pub open spec fn spec_thumbnail_votes_row(fields: Seq<Seq<char>>, c: ThumbnailVotesColumns) -> Option<
    ThumbnailVotesRowData,
> {
    if c.uuid >= fields.len() || c.votes >= fields.len() || c.locked >= fields.len()
        || c.shadow_hidden >= fields.len() || c.downvotes >= fields.len() || c.removed
        >= fields.len() {
        None
    } else {
        match (
            spec_parse_i8(encode_utf8(fields[c.votes as int])),
            spec_parse_i8(encode_utf8(fields[c.locked as int])),
            spec_parse_i8(encode_utf8(fields[c.shadow_hidden as int])),
            spec_parse_i8(encode_utf8(fields[c.downvotes as int])),
            spec_parse_i8(encode_utf8(fields[c.removed as int])),
        ) {
            (Some(votes), Some(locked), Some(shadow_hidden), Some(downvotes), Some(removed)) => Some(
                ThumbnailVotesRowData {
                    uuid: fields[c.uuid as int],
                    votes,
                    locked,
                    shadow_hidden,
                    downvotes,
                    removed,
                },
            ),
            _ => None,
        }
    }
}

impl ThumbnailVotes {
    /// Parse one data row; `None` exactly when a referenced column is
    /// missing from the row or a numeric field is malformed.
    pub fn parse(fields: &Vec<String>, c: &ThumbnailVotesColumns) -> (r: Option<ThumbnailVotes>)
        ensures
            match r {
                Some(t) => spec_thumbnail_votes_row(fields.deep_view(), *c) == Some(
                    thumbnail_votes_row_data(t),
                ),
                None => spec_thumbnail_votes_row(fields.deep_view(), *c) is None,
            },
            match r {
                Some(t) => {
                    &&& c.uuid < fields@.len() && t.uuid@ == fields@[c.uuid as int]@
                    &&& c.votes < fields@.len() && spec_parse_i8(
                        encode_utf8(fields@[c.votes as int]@),
                    ) == Some(t.votes)
                    &&& c.locked < fields@.len() && spec_parse_i8(
                        encode_utf8(fields@[c.locked as int]@),
                    ) == Some(t.locked)
                    &&& c.shadow_hidden < fields@.len() && spec_parse_i8(
                        encode_utf8(fields@[c.shadow_hidden as int]@),
                    ) == Some(t.shadow_hidden)
                    &&& c.downvotes < fields@.len() && spec_parse_i8(
                        encode_utf8(fields@[c.downvotes as int]@),
                    ) == Some(t.downvotes)
                    &&& c.removed < fields@.len() && spec_parse_i8(
                        encode_utf8(fields@[c.removed as int]@),
                    ) == Some(t.removed)
                },
                None => {
                    ||| c.uuid >= fields@.len()
                    ||| c.votes >= fields@.len()
                    ||| c.locked >= fields@.len()
                    ||| c.shadow_hidden >= fields@.len()
                    ||| c.downvotes >= fields@.len()
                    ||| c.removed >= fields@.len()
                    ||| spec_parse_i8(encode_utf8(fields@[c.votes as int]@)) is None
                    ||| spec_parse_i8(encode_utf8(fields@[c.locked as int]@)) is None
                    ||| spec_parse_i8(encode_utf8(fields@[c.shadow_hidden as int]@)) is None
                    ||| spec_parse_i8(encode_utf8(fields@[c.downvotes as int]@)) is None
                    ||| spec_parse_i8(encode_utf8(fields@[c.removed as int]@)) is None
                },
            },
    {
        proof {
            assert forall|j: int| 0 <= j < fields@.len() implies #[trigger] fields.deep_view()[j]
                == fields@[j]@ by {}
        }
        if c.uuid >= fields.len() || c.votes >= fields.len() || c.locked >= fields.len() || c.shadow_hidden >= fields.len() || c.downvotes >= fields.len() || c.removed >= fields.len() {
            return None;
        }
        let votes = match parse_i8(fields[c.votes].as_str()) {
            Some(v) => v,
            None => {
                return None;
            },
        };
        let locked = match parse_i8(fields[c.locked].as_str()) {
            Some(v) => v,
            None => {
                return None;
            },
        };
        let shadow_hidden = match parse_i8(fields[c.shadow_hidden].as_str()) {
            Some(v) => v,
            None => {
                return None;
            },
        };
        let downvotes = match parse_i8(fields[c.downvotes].as_str()) {
            Some(v) => v,
            None => {
                return None;
            },
        };
        let removed = match parse_i8(fields[c.removed].as_str()) {
            Some(v) => v,
            None => {
                return None;
            },
        };
        Some(
            ThumbnailVotes {
                uuid: InternedString::new(fields[c.uuid].clone()),
                votes,
                locked,
                shadow_hidden,
                downvotes,
                removed,
            },
        )
    }

    /// Intern every shared string field.
    pub fn dedupe_strings(&mut self, set: &mut StringSet)
        ensures
            final(self).uuid@ == old(self).uuid@,
            final(self).votes == old(self).votes,
            final(self).locked == old(self).locked,
            final(self).shadow_hidden == old(self).shadow_hidden,
            final(self).downvotes == old(self).downvotes,
            final(self).removed == old(self).removed,
            final(set).extends(*old(set)),
            final(set).is_interned(final(self).uuid),
    {
        set.dedupe_arc(&mut self.uuid);
    }
}

/// A raw `userNames.csv` row.
pub struct Username {
    pub user_id: InternedString,
    pub username: InternedString,
    pub locked: i8,
}

pub struct UsernameColumns {
    pub user_id: usize,
    pub username: usize,
    pub locked: usize,
}

impl UsernameColumns {
    pub open spec fn ok(self, header: Seq<String>) -> bool {
        &&& self.user_id < header.len() && header[self.user_id as int]@ == "userID"@
        &&& self.username < header.len() && header[self.username as int]@ == "userName"@
        &&& self.locked < header.len() && header[self.locked as int]@ == "locked"@
    }

    /// The column indices a well-formed `userNames.csv` header yields.
    pub open spec fn spec_find(header: Seq<Seq<char>>) -> Option<UsernameColumns> {
        match (
            spec_find_column(header, "userID"@, 0),
            spec_find_column(header, "userName"@, 0),
            spec_find_column(header, "locked"@, 0),
        ) {
            (Some(a), Some(b), Some(c)) => Some(
                UsernameColumns { user_id: a as usize, username: b as usize, locked: c as usize },
            ),
            _ => None,
        }
    }

    pub fn find(header: &Vec<String>) -> (r: Option<UsernameColumns>)
        ensures
            r == Self::spec_find(header.deep_view()),
            match r {
                Some(c) => c.ok(header@),
                None => !(has_column(header@, "userID"@)
                    && has_column(header@, "userName"@)
                    && has_column(header@, "locked"@)),
            },
    {
        let user_id = find_column(header, "userID");
        let username = find_column(header, "userName");
        let locked = find_column(header, "locked");
        match (user_id, username, locked) {
            (Some(a), Some(b), Some(c)) => Some(
                UsernameColumns {
                    user_id: a,
                    username: b,
                    locked: c,
                },
            ),
            _ => None,
        }
    }
}

/// The plain contents of a parsed username row.
pub struct UsernameRowData {
    pub user_id: Seq<char>,
    pub username: Seq<char>,
    pub locked: i8,
}

pub open spec fn username_row_data(t: Username) -> UsernameRowData {
    UsernameRowData { user_id: t.user_id@, username: t.username@, locked: t.locked }
}

/// Exactly what parsing one `userNames.csv` record yields.
pub open spec fn spec_username_row(fields: Seq<Seq<char>>, c: UsernameColumns) -> Option<
    UsernameRowData,
> {
    if c.user_id >= fields.len() || c.username >= fields.len() || c.locked >= fields.len() {
        None
    } else {
        match spec_parse_i8(encode_utf8(fields[c.locked as int])) {
            Some(locked) => Some(
                UsernameRowData {
                    user_id: fields[c.user_id as int],
                    username: fields[c.username as int],
                    locked,
                },
            ),
            None => None,
        }
    }
}

impl Username {
    /// Parse one data row; `None` exactly when a referenced column is
    /// missing from the row or a numeric field is malformed.
    pub fn parse(fields: &Vec<String>, c: &UsernameColumns) -> (r: Option<Username>)
        ensures
            match r {
                Some(t) => spec_username_row(fields.deep_view(), *c) == Some(username_row_data(t)),
                None => spec_username_row(fields.deep_view(), *c) is None,
            },
            match r {
                Some(t) => {
                    &&& c.user_id < fields@.len() && t.user_id@ == fields@[c.user_id as int]@
                    &&& c.username < fields@.len() && t.username@ == fields@[c.username as int]@
                    &&& c.locked < fields@.len() && spec_parse_i8(
                        encode_utf8(fields@[c.locked as int]@),
                    ) == Some(t.locked)
                },
                None => {
                    ||| c.user_id >= fields@.len()
                    ||| c.username >= fields@.len()
                    ||| c.locked >= fields@.len()
                    ||| spec_parse_i8(encode_utf8(fields@[c.locked as int]@)) is None
                },
            },
    {
        proof {
            assert forall|j: int| 0 <= j < fields@.len() implies #[trigger] fields.deep_view()[j]
                == fields@[j]@ by {}
        }
        if c.user_id >= fields.len() || c.username >= fields.len() || c.locked >= fields.len() {
            return None;
        }
        let locked = match parse_i8(fields[c.locked].as_str()) {
            Some(v) => v,
            None => {
                return None;
            },
        };
        Some(
            Username {
                user_id: InternedString::new(fields[c.user_id].clone()),
                username: InternedString::new(fields[c.username].clone()),
                locked,
            },
        )
    }

    /// Intern every shared string field.
    pub fn dedupe_strings(&mut self, set: &mut StringSet)
        ensures
            final(self).user_id@ == old(self).user_id@,
            final(self).username@ == old(self).username@,
            final(self).locked == old(self).locked,
            final(set).extends(*old(set)),
            final(set).is_interned(final(self).user_id),
            final(set).is_interned(final(self).username),
    {
        set.dedupe_arc(&mut self.user_id);
        set.dedupe_arc(&mut self.username);
    }
}

/// A raw `vipUsers.csv` row.
pub struct VIPUser {
    pub user_id: InternedString,
}

pub struct VIPUserColumns {
    pub user_id: usize,
}

impl VIPUserColumns {
    pub open spec fn ok(self, header: Seq<String>) -> bool {
        &&& self.user_id < header.len() && header[self.user_id as int]@ == "userID"@
    }

    /// The column index a well-formed `vipUsers.csv` header yields.
    pub open spec fn spec_find(header: Seq<Seq<char>>) -> Option<VIPUserColumns> {
        match spec_find_column(header, "userID"@, 0) {
            Some(a) => Some(VIPUserColumns { user_id: a as usize }),
            None => None,
        }
    }

    pub fn find(header: &Vec<String>) -> (r: Option<VIPUserColumns>)
        ensures
            r == Self::spec_find(header.deep_view()),
            match r {
                Some(c) => c.ok(header@),
                None => !(has_column(header@, "userID"@)),
            },
    {
        let user_id = find_column(header, "userID");
        match (user_id) {
            (Some(a)) => Some(
                VIPUserColumns {
                    user_id: a,
                },
            ),
            _ => None,
        }
    }
}

/// Exactly what parsing one `vipUsers.csv` record yields: the user id text.
pub open spec fn spec_vip_row(fields: Seq<Seq<char>>, c: VIPUserColumns) -> Option<Seq<char>> {
    if c.user_id >= fields.len() {
        None
    } else {
        Some(fields[c.user_id as int])
    }
}

impl VIPUser {
    /// Parse one data row; `None` exactly when a referenced column is
    /// missing from the row or a numeric field is malformed.
    pub fn parse(fields: &Vec<String>, c: &VIPUserColumns) -> (r: Option<VIPUser>)
        ensures
            match r {
                Some(t) => spec_vip_row(fields.deep_view(), *c) == Some(t.user_id@),
                None => spec_vip_row(fields.deep_view(), *c) is None,
            },
            match r {
                Some(t) => {
                    &&& c.user_id < fields@.len() && t.user_id@ == fields@[c.user_id as int]@
                },
                None => {
                    ||| c.user_id >= fields@.len()
                },
            },
    {
        proof {
            assert forall|j: int| 0 <= j < fields@.len() implies #[trigger] fields.deep_view()[j]
                == fields@[j]@ by {}
        }
        if c.user_id >= fields.len() {
            return None;
        }
        Some(
            VIPUser {
                user_id: InternedString::new(fields[c.user_id].clone()),
            },
        )
    }

    /// Intern every shared string field.
    pub fn dedupe_strings(&mut self, set: &mut StringSet)
        ensures
            final(self).user_id@ == old(self).user_id@,
            final(set).extends(*old(set)),
            final(set).is_interned(final(self).user_id),
    {
        set.dedupe_arc(&mut self.user_id);
    }
}

/// A raw `sponsorTimes.csv` row; times are held in microseconds.
pub struct SponsorTime {
    pub video_id: InternedString,
    pub start_time: i64,
    pub end_time: i64,
    pub video_duration: i64,
    pub votes: i16,
    pub shadow_hidden: i8,
    pub hidden: i8,
    pub category: String,
    pub action_type: String,
    pub hashed_video_id: String,
    pub time_submitted: i64,
}

pub struct SponsorTimeColumns {
    pub video_id: usize,
    pub start_time: usize,
    pub end_time: usize,
    pub video_duration: usize,
    pub votes: usize,
    pub shadow_hidden: usize,
    pub hidden: usize,
    pub category: usize,
    pub action_type: usize,
    pub hashed_video_id: usize,
    pub time_submitted: usize,
}

impl SponsorTimeColumns {
    pub open spec fn ok(self, header: Seq<String>) -> bool {
        &&& self.video_id < header.len() && header[self.video_id as int]@ == "videoID"@
        &&& self.start_time < header.len() && header[self.start_time as int]@ == "startTime"@
        &&& self.end_time < header.len() && header[self.end_time as int]@ == "endTime"@
        &&& self.video_duration < header.len() && header[self.video_duration as int]@ == "videoDuration"@
        &&& self.votes < header.len() && header[self.votes as int]@ == "votes"@
        &&& self.shadow_hidden < header.len() && header[self.shadow_hidden as int]@ == "shadowHidden"@
        &&& self.hidden < header.len() && header[self.hidden as int]@ == "hidden"@
        &&& self.category < header.len() && header[self.category as int]@ == "category"@
        &&& self.action_type < header.len() && header[self.action_type as int]@ == "actionType"@
        &&& self.hashed_video_id < header.len() && header[self.hashed_video_id as int]@ == "hashedVideoID"@
        &&& self.time_submitted < header.len() && header[self.time_submitted as int]@ == "timeSubmitted"@
    }

    pub fn find(header: &Vec<String>) -> (r: Option<SponsorTimeColumns>)
        ensures
            match r {
                Some(c) => c.ok(header@),
                None => !(has_column(header@, "videoID"@)
                    && has_column(header@, "startTime"@)
                    && has_column(header@, "endTime"@)
                    && has_column(header@, "videoDuration"@)
                    && has_column(header@, "votes"@)
                    && has_column(header@, "shadowHidden"@)
                    && has_column(header@, "hidden"@)
                    && has_column(header@, "category"@)
                    && has_column(header@, "actionType"@)
                    && has_column(header@, "hashedVideoID"@)
                    && has_column(header@, "timeSubmitted"@)),
            },
    {
        let video_id = find_column(header, "videoID");
        let start_time = find_column(header, "startTime");
        let end_time = find_column(header, "endTime");
        let video_duration = find_column(header, "videoDuration");
        let votes = find_column(header, "votes");
        let shadow_hidden = find_column(header, "shadowHidden");
        let hidden = find_column(header, "hidden");
        let category = find_column(header, "category");
        let action_type = find_column(header, "actionType");
        let hashed_video_id = find_column(header, "hashedVideoID");
        let time_submitted = find_column(header, "timeSubmitted");
        match (video_id, start_time, end_time, video_duration, votes, shadow_hidden, hidden, category, action_type, hashed_video_id, time_submitted) {
            (Some(a), Some(b), Some(c), Some(d), Some(e), Some(f), Some(g), Some(h), Some(i), Some(j), Some(k)) => Some(
                SponsorTimeColumns {
                    video_id: a,
                    start_time: b,
                    end_time: c,
                    video_duration: d,
                    votes: e,
                    shadow_hidden: f,
                    hidden: g,
                    category: h,
                    action_type: i,
                    hashed_video_id: j,
                    time_submitted: k,
                },
            ),
            _ => None,
        }
    }
}

impl SponsorTime {
    /// Parse one data row; `None` exactly when a referenced column is
    /// missing from the row or a numeric field is malformed.
    pub fn parse(fields: &Vec<String>, c: &SponsorTimeColumns) -> (r: Option<SponsorTime>)
        ensures
            match r {
                Some(t) => {
                    &&& c.video_id < fields@.len() && t.video_id@ == fields@[c.video_id as int]@
                    &&& c.start_time < fields@.len() && spec_parse_micros(
                        encode_utf8(fields@[c.start_time as int]@),
                    ) == Some(t.start_time)
                    &&& c.end_time < fields@.len() && spec_parse_micros(
                        encode_utf8(fields@[c.end_time as int]@),
                    ) == Some(t.end_time)
                    &&& c.video_duration < fields@.len() && spec_parse_micros(
                        encode_utf8(fields@[c.video_duration as int]@),
                    ) == Some(t.video_duration)
                    &&& c.votes < fields@.len() && spec_parse_i16(
                        encode_utf8(fields@[c.votes as int]@),
                    ) == Some(t.votes)
                    &&& c.shadow_hidden < fields@.len() && spec_parse_i8(
                        encode_utf8(fields@[c.shadow_hidden as int]@),
                    ) == Some(t.shadow_hidden)
                    &&& c.hidden < fields@.len() && spec_parse_i8(
                        encode_utf8(fields@[c.hidden as int]@),
                    ) == Some(t.hidden)
                    &&& c.category < fields@.len() && t.category@ == fields@[c.category as int]@
                    &&& c.action_type < fields@.len() && t.action_type@ == fields@[c.action_type as int]@
                    &&& c.hashed_video_id < fields@.len() && t.hashed_video_id@ == fields@[c.hashed_video_id as int]@
                    &&& c.time_submitted < fields@.len() && spec_parse_i64(
                        encode_utf8(fields@[c.time_submitted as int]@),
                    ) == Some(t.time_submitted)
                },
                None => {
                    ||| c.video_id >= fields@.len()
                    ||| c.start_time >= fields@.len()
                    ||| c.end_time >= fields@.len()
                    ||| c.video_duration >= fields@.len()
                    ||| c.votes >= fields@.len()
                    ||| c.shadow_hidden >= fields@.len()
                    ||| c.hidden >= fields@.len()
                    ||| c.category >= fields@.len()
                    ||| c.action_type >= fields@.len()
                    ||| c.hashed_video_id >= fields@.len()
                    ||| c.time_submitted >= fields@.len()
                    ||| spec_parse_micros(encode_utf8(fields@[c.start_time as int]@)) is None
                    ||| spec_parse_micros(encode_utf8(fields@[c.end_time as int]@)) is None
                    ||| spec_parse_micros(encode_utf8(fields@[c.video_duration as int]@)) is None
                    ||| spec_parse_i16(encode_utf8(fields@[c.votes as int]@)) is None
                    ||| spec_parse_i8(encode_utf8(fields@[c.shadow_hidden as int]@)) is None
                    ||| spec_parse_i8(encode_utf8(fields@[c.hidden as int]@)) is None
                    ||| spec_parse_i64(encode_utf8(fields@[c.time_submitted as int]@)) is None
                },
            },
    {
        if c.video_id >= fields.len() || c.start_time >= fields.len() || c.end_time >= fields.len() || c.video_duration >= fields.len() || c.votes >= fields.len() || c.shadow_hidden >= fields.len() || c.hidden >= fields.len() || c.category >= fields.len() || c.action_type >= fields.len() || c.hashed_video_id >= fields.len() || c.time_submitted >= fields.len() {
            return None;
        }
        let start_time = match parse_micros(fields[c.start_time].as_str()) {
            Some(v) => v,
            None => {
                return None;
            },
        };
        let end_time = match parse_micros(fields[c.end_time].as_str()) {
            Some(v) => v,
            None => {
                return None;
            },
        };
        let video_duration = match parse_micros(fields[c.video_duration].as_str()) {
            Some(v) => v,
            None => {
                return None;
            },
        };
        let votes = match parse_i16(fields[c.votes].as_str()) {
            Some(v) => v,
            None => {
                return None;
            },
        };
        let shadow_hidden = match parse_i8(fields[c.shadow_hidden].as_str()) {
            Some(v) => v,
            None => {
                return None;
            },
        };
        let hidden = match parse_i8(fields[c.hidden].as_str()) {
            Some(v) => v,
            None => {
                return None;
            },
        };
        let time_submitted = match parse_i64(fields[c.time_submitted].as_str()) {
            Some(v) => v,
            None => {
                return None;
            },
        };
        Some(
            SponsorTime {
                video_id: InternedString::new(fields[c.video_id].clone()),
                start_time,
                end_time,
                video_duration,
                votes,
                shadow_hidden,
                hidden,
                category: fields[c.category].clone(),
                action_type: fields[c.action_type].clone(),
                hashed_video_id: fields[c.hashed_video_id].clone(),
                time_submitted,
            },
        )
    }

    /// Intern every shared string field.
    pub fn dedupe_strings(&mut self, set: &mut StringSet)
        ensures
            final(self).video_id@ == old(self).video_id@,
            final(self).start_time == old(self).start_time,
            final(self).end_time == old(self).end_time,
            final(self).video_duration == old(self).video_duration,
            final(self).votes == old(self).votes,
            final(self).shadow_hidden == old(self).shadow_hidden,
            final(self).hidden == old(self).hidden,
            final(self).category == old(self).category,
            final(self).action_type == old(self).action_type,
            final(self).hashed_video_id == old(self).hashed_video_id,
            final(self).time_submitted == old(self).time_submitted,
            final(set).extends(*old(set)),
            final(set).is_interned(final(self).video_id),
    {
        set.dedupe_arc(&mut self.video_id);
    }
}

/// A sponsor segment trimmed to what the reducer needs, in microseconds.
pub struct TrimmedSponsorTime {
    pub video_id: InternedString,
    pub start_time: i64,
    pub end_time: i64,
}

/// One video's candidate canonical duration, in microseconds.
pub struct VideoDuration {
    pub video_id: InternedString,
    pub time_submitted: i64,
    pub video_duration: i64,
    pub has_outro: bool,
}

} // verus!
