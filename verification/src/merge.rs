//! Joining raw rows into merged records: a main row meets its votes row (and,
//! for thumbnails, its optional timestamp row) under one UUID, integer-coded
//! booleans become flags, and the bucket index is read from the row or
//! recomputed from the video id.

use vstd::prelude::*;

verus! {

use vstd::utf8::encode_utf8;
use crate::text::str_eq;
use crate::csv_data;
use crate::hashing::{compute_hashprefix, parse_hashprefix, prefix16_value, hash_prefix_of};
use crate::records::{
    Title,
    TitleFlags,
    Thumbnail,
    ThumbnailFlags,
    Username,
    ObjectKind,
    FieldName,
    SubobjectKind,
    ParseError,
    ParseErrorKind,
};

/// The bucket index a merged record ends up with: what the row's
/// `hashedVideoID` claims when its first four characters read as hex, and the
/// recomputed SHA-256 prefix of the video id otherwise.
pub open spec fn spec_row_hash_prefix(hashed: Seq<char>, video_id: Seq<char>) -> int {
    match prefix16_value(encode_utf8(hashed)) {
        Some(v) => v,
        None => hash_prefix_of(encode_utf8(video_id)),
    }
}

fn row_hash_prefix(hashed: &String, video_id: &crate::string_pool::InternedString) -> (r: u16)
    ensures
        r as int == spec_row_hash_prefix(hashed@, video_id@),
{
    match parse_hashprefix(hashed.as_str()) {
        Some(p) => p,
        None => compute_hashprefix(video_id.as_str()),
    }
}

/// Exactly what merging a title row with its votes row yields: the first
/// failing check decides the error, in the order the fields are folded.
pub open spec fn spec_merge_title(row: csv_data::Title, votes: csv_data::TitleVotes) -> Result<
    Title,
    ParseError,
> {
    if row.uuid@ != votes.uuid@ {
        Err(
            ParseError(
                ObjectKind::Title,
                ParseErrorKind::MismatchedUUIDs {
                    struct_name: SubobjectKind::TitleVotes,
                    uuid_main: row.uuid,
                    uuid_struct: votes.uuid,
                },
            ),
        )
    } else if row.original != 0 && row.original != 1 {
        Err(
            ParseError(
                ObjectKind::Title,
                ParseErrorKind::InvalidValue {
                    uuid: row.uuid,
                    field: FieldName::Original,
                    value: row.original,
                },
            ),
        )
    } else if votes.locked != 0 && votes.locked != 1 {
        Err(
            ParseError(
                ObjectKind::Title,
                ParseErrorKind::InvalidValue {
                    uuid: votes.uuid,
                    field: FieldName::Locked,
                    value: votes.locked,
                },
            ),
        )
    } else if votes.shadow_hidden != 0 && votes.shadow_hidden != 1 {
        Err(
            ParseError(
                ObjectKind::Title,
                ParseErrorKind::InvalidValue {
                    uuid: votes.uuid,
                    field: FieldName::ShadowHidden,
                    value: votes.shadow_hidden,
                },
            ),
        )
    } else if votes.verification != 0 && votes.verification != -1 {
        Err(
            ParseError(
                ObjectKind::Title,
                ParseErrorKind::InvalidValue {
                    uuid: votes.uuid,
                    field: FieldName::Verification,
                    value: votes.verification,
                },
            ),
        )
    } else if votes.removed != 0 && votes.removed != 1 {
        Err(
            ParseError(
                ObjectKind::Title,
                ParseErrorKind::InvalidValue {
                    uuid: votes.uuid,
                    field: FieldName::Removed,
                    value: votes.removed,
                },
            ),
        )
    } else {
        Ok(
            Title {
                uuid: row.uuid,
                video_id: row.video_id,
                title: row.title,
                user_id: row.user_id,
                time_submitted: row.time_submitted,
                votes: votes.votes,
                downvotes: votes.downvotes,
                flags: TitleFlags {
                    original: row.original == 1,
                    locked: votes.locked == 1,
                    shadow_hidden: votes.shadow_hidden == 1,
                    unverified: votes.verification == -1,
                    removed: votes.removed == 1,
                },
                hash_prefix: spec_row_hash_prefix(row.hashed_video_id@, row.video_id@) as u16,
            },
        )
    }
}

impl csv_data::Title {
    /// Join this row with its votes row.
    pub fn try_merge(self, votes: &csv_data::TitleVotes) -> (r: Result<Title, ParseError>)
        ensures
            r == spec_merge_title(self, *votes),
    {
        if !str_eq(self.uuid.as_str(), votes.uuid.as_str()) {
            return Err(
                ParseError(
                    ObjectKind::Title,
                    ParseErrorKind::MismatchedUUIDs {
                        struct_name: SubobjectKind::TitleVotes,
                        uuid_main: self.uuid,
                        uuid_struct: votes.uuid.clone(),
                    },
                ),
            );
        }
        if self.original != 0 && self.original != 1 {
            return Err(
                ParseError(
                    ObjectKind::Title,
                    ParseErrorKind::InvalidValue {
                        uuid: self.uuid,
                        field: FieldName::Original,
                        value: self.original,
                    },
                ),
            );
        }
        if votes.locked != 0 && votes.locked != 1 {
            return Err(
                ParseError(
                    ObjectKind::Title,
                    ParseErrorKind::InvalidValue {
                        uuid: votes.uuid.clone(),
                        field: FieldName::Locked,
                        value: votes.locked,
                    },
                ),
            );
        }
        if votes.shadow_hidden != 0 && votes.shadow_hidden != 1 {
            return Err(
                ParseError(
                    ObjectKind::Title,
                    ParseErrorKind::InvalidValue {
                        uuid: votes.uuid.clone(),
                        field: FieldName::ShadowHidden,
                        value: votes.shadow_hidden,
                    },
                ),
            );
        }
        if votes.verification != 0 && votes.verification != -1 {
            return Err(
                ParseError(
                    ObjectKind::Title,
                    ParseErrorKind::InvalidValue {
                        uuid: votes.uuid.clone(),
                        field: FieldName::Verification,
                        value: votes.verification,
                    },
                ),
            );
        }
        if votes.removed != 0 && votes.removed != 1 {
            return Err(
                ParseError(
                    ObjectKind::Title,
                    ParseErrorKind::InvalidValue {
                        uuid: votes.uuid.clone(),
                        field: FieldName::Removed,
                        value: votes.removed,
                    },
                ),
            );
        }
        let hash_prefix = row_hash_prefix(&self.hashed_video_id, &self.video_id);
        Ok(
            Title {
                uuid: self.uuid,
                video_id: self.video_id,
                title: self.title,
                user_id: self.user_id,
                time_submitted: self.time_submitted,
                votes: votes.votes,
                downvotes: votes.downvotes,
                flags: TitleFlags {
                    original: self.original == 1,
                    locked: votes.locked == 1,
                    shadow_hidden: votes.shadow_hidden == 1,
                    unverified: votes.verification == -1,
                    removed: votes.removed == 1,
                },
                hash_prefix,
            },
        )
    }
}

/// Exactly what merging a thumbnail row with its optional timestamp row and
/// its votes row yields.
pub open spec fn spec_merge_thumbnail(
    row: csv_data::Thumbnail,
    timestamps: Option<csv_data::ThumbnailTimestamps>,
    votes: csv_data::ThumbnailVotes,
) -> Result<Thumbnail, ParseError> {
    if timestamps is Some && row.uuid@ != timestamps.unwrap().uuid@ {
        Err(
            ParseError(
                ObjectKind::Thumbnail,
                ParseErrorKind::MismatchedUUIDs {
                    struct_name: SubobjectKind::ThumbnailTimestamps,
                    uuid_main: row.uuid,
                    uuid_struct: timestamps.unwrap().uuid,
                },
            ),
        )
    } else if row.uuid@ != votes.uuid@ {
        Err(
            ParseError(
                ObjectKind::Thumbnail,
                ParseErrorKind::MismatchedUUIDs {
                    struct_name: SubobjectKind::ThumbnailVotes,
                    uuid_main: row.uuid,
                    uuid_struct: votes.uuid,
                },
            ),
        )
    } else if row.original != 0 && row.original != 1 {
        Err(
            ParseError(
                ObjectKind::Thumbnail,
                ParseErrorKind::InvalidValue {
                    uuid: row.uuid,
                    field: FieldName::Original,
                    value: row.original,
                },
            ),
        )
    } else if votes.locked != 0 && votes.locked != 1 {
        Err(
            ParseError(
                ObjectKind::Thumbnail,
                ParseErrorKind::InvalidValue {
                    uuid: votes.uuid,
                    field: FieldName::Locked,
                    value: votes.locked,
                },
            ),
        )
    } else if votes.shadow_hidden != 0 && votes.shadow_hidden != 1 {
        Err(
            ParseError(
                ObjectKind::Thumbnail,
                ParseErrorKind::InvalidValue {
                    uuid: votes.uuid,
                    field: FieldName::ShadowHidden,
                    value: votes.shadow_hidden,
                },
            ),
        )
    } else if votes.removed != 0 && votes.removed != 1 {
        Err(
            ParseError(
                ObjectKind::Thumbnail,
                ParseErrorKind::InvalidValue {
                    uuid: votes.uuid,
                    field: FieldName::Removed,
                    value: votes.removed,
                },
            ),
        )
    } else if row.original != 1 && timestamps is None {
        Err(
            ParseError(
                ObjectKind::Thumbnail,
                ParseErrorKind::MissingSubobject {
                    struct_name: SubobjectKind::ThumbnailTimestamps,
                    uuid: row.uuid,
                },
            ),
        )
    } else {
        Ok(
            Thumbnail {
                uuid: row.uuid,
                video_id: row.video_id,
                user_id: row.user_id,
                time_submitted: row.time_submitted,
                timestamp: match timestamps {
                    Some(t) => Some(t.timestamp),
                    None => None,
                },
                votes: votes.votes,
                downvotes: votes.downvotes,
                flags: ThumbnailFlags {
                    original: row.original == 1,
                    locked: votes.locked == 1,
                    shadow_hidden: votes.shadow_hidden == 1,
                    removed: votes.removed == 1,
                },
                hash_prefix: spec_row_hash_prefix(row.hashed_video_id@, row.video_id@) as u16,
            },
        )
    }
}

impl csv_data::Thumbnail {
    /// Join this row with its optional timestamp row and its votes row.
    pub fn try_merge(
        self,
        timestamps: Option<&csv_data::ThumbnailTimestamps>,
        votes: &csv_data::ThumbnailVotes,
    ) -> (r: Result<Thumbnail, ParseError>)
        ensures
            r == spec_merge_thumbnail(
                self,
                match timestamps {
                    Some(t) => Some(*t),
                    None => None,
                },
                *votes,
            ),
    {
        match timestamps {
            Some(t) => {
                if !str_eq(self.uuid.as_str(), t.uuid.as_str()) {
                    return Err(
                        ParseError(
                            ObjectKind::Thumbnail,
                            ParseErrorKind::MismatchedUUIDs {
                                struct_name: SubobjectKind::ThumbnailTimestamps,
                                uuid_main: self.uuid,
                                uuid_struct: t.uuid.clone(),
                            },
                        ),
                    );
                }
            },
            None => {},
        }
        if !str_eq(self.uuid.as_str(), votes.uuid.as_str()) {
            return Err(
                ParseError(
                    ObjectKind::Thumbnail,
                    ParseErrorKind::MismatchedUUIDs {
                        struct_name: SubobjectKind::ThumbnailVotes,
                        uuid_main: self.uuid,
                        uuid_struct: votes.uuid.clone(),
                    },
                ),
            );
        }
        if self.original != 0 && self.original != 1 {
            return Err(
                ParseError(
                    ObjectKind::Thumbnail,
                    ParseErrorKind::InvalidValue {
                        uuid: self.uuid,
                        field: FieldName::Original,
                        value: self.original,
                    },
                ),
            );
        }
        if votes.locked != 0 && votes.locked != 1 {
            return Err(
                ParseError(
                    ObjectKind::Thumbnail,
                    ParseErrorKind::InvalidValue {
                        uuid: votes.uuid.clone(),
                        field: FieldName::Locked,
                        value: votes.locked,
                    },
                ),
            );
        }
        if votes.shadow_hidden != 0 && votes.shadow_hidden != 1 {
            return Err(
                ParseError(
                    ObjectKind::Thumbnail,
                    ParseErrorKind::InvalidValue {
                        uuid: votes.uuid.clone(),
                        field: FieldName::ShadowHidden,
                        value: votes.shadow_hidden,
                    },
                ),
            );
        }
        if votes.removed != 0 && votes.removed != 1 {
            return Err(
                ParseError(
                    ObjectKind::Thumbnail,
                    ParseErrorKind::InvalidValue {
                        uuid: votes.uuid.clone(),
                        field: FieldName::Removed,
                        value: votes.removed,
                    },
                ),
            );
        }
        let timestamp: Option<i64> = match timestamps {
            Some(t) => Some(t.timestamp),
            None => None,
        };
        if self.original != 1 && timestamp.is_none() {
            return Err(
                ParseError(
                    ObjectKind::Thumbnail,
                    ParseErrorKind::MissingSubobject {
                        struct_name: SubobjectKind::ThumbnailTimestamps,
                        uuid: self.uuid,
                    },
                ),
            );
        }
        let hash_prefix = row_hash_prefix(&self.hashed_video_id, &self.video_id);
        Ok(
            Thumbnail {
                uuid: self.uuid,
                video_id: self.video_id,
                user_id: self.user_id,
                time_submitted: self.time_submitted,
                timestamp,
                votes: votes.votes,
                downvotes: votes.downvotes,
                flags: ThumbnailFlags {
                    original: self.original == 1,
                    locked: votes.locked == 1,
                    shadow_hidden: votes.shadow_hidden == 1,
                    removed: votes.removed == 1,
                },
                hash_prefix,
            },
        )
    }
}

/// Exactly what validating a username row yields.
pub open spec fn spec_merge_username(row: csv_data::Username) -> Result<Username, ParseError> {
    if row.locked != 0 && row.locked != 1 {
        Err(
            ParseError(
                ObjectKind::Username,
                ParseErrorKind::InvalidValue {
                    uuid: row.user_id,
                    field: FieldName::Locked,
                    value: row.locked,
                },
            ),
        )
    } else {
        Ok(Username { user_id: row.user_id, username: row.username, locked: row.locked == 1 })
    }
}

impl Username {
    /// Validate a raw username row.
    pub fn try_from(row: csv_data::Username) -> (r: Result<Username, ParseError>)
        ensures
            r == spec_merge_username(row),
    {
        if row.locked != 0 && row.locked != 1 {
            return Err(
                ParseError(
                    ObjectKind::Username,
                    ParseErrorKind::InvalidValue {
                        uuid: row.user_id,
                        field: FieldName::Locked,
                        value: row.locked,
                    },
                ),
            );
        }
        Ok(Username { user_id: row.user_id, username: row.username, locked: row.locked == 1 })
    }
}

/// A merged thumbnail that is not the video's original one always carries a
/// timestamp: merging rejects the row otherwise.
pub proof fn lemma_merged_thumbnail_has_timestamp(
    row: csv_data::Thumbnail,
    timestamps: Option<csv_data::ThumbnailTimestamps>,
    votes: csv_data::ThumbnailVotes,
)
    ensures
        match spec_merge_thumbnail(row, timestamps, votes) {
            Ok(t) => !t.flags.original ==> t.timestamp is Some,
            Err(_) => true,
        },
{
}

/// Where the row's `hashedVideoID` column does not contradict the video id —
/// its four hex digits are unreadable, or they agree with the recomputed
/// digest — a merged title's bucket index is the first sixteen bits of the
/// SHA-256 of its video id.
pub proof fn lemma_merged_title_hash_prefix(row: csv_data::Title, votes: csv_data::TitleVotes)
    requires
        match prefix16_value(encode_utf8(row.hashed_video_id@)) {
            Some(v) => v == hash_prefix_of(encode_utf8(row.video_id@)),
            None => true,
        },
    ensures
        match spec_merge_title(row, votes) {
            Ok(t) => t.hash_prefix as int == hash_prefix_of(encode_utf8(t.video_id@)),
            Err(_) => true,
        },
{
}

/// The same, for thumbnails.
pub proof fn lemma_merged_thumbnail_hash_prefix(
    row: csv_data::Thumbnail,
    timestamps: Option<csv_data::ThumbnailTimestamps>,
    votes: csv_data::ThumbnailVotes,
)
    requires
        match prefix16_value(encode_utf8(row.hashed_video_id@)) {
            Some(v) => v == hash_prefix_of(encode_utf8(row.video_id@)),
            None => true,
        },
    ensures
        match spec_merge_thumbnail(row, timestamps, votes) {
            Ok(t) => t.hash_prefix as int == hash_prefix_of(encode_utf8(t.video_id@)),
            Err(_) => true,
        },
{
}

} // verus!
