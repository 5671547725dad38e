//! End-to-end checks through one load: CSV tables in, snapshot out, queries
//! and branding against it.

use dearrow_browser::db::DBTables;
use dearrow_browser::records::{LoadError, ParseError, ParseErrorKind};
use dearrow_browser::state::Snapshot;
use dearrow_browser::StringSet;

fn sample_tables() -> DBTables {
    DBTables {
        titles: String::from(
            "videoID,title,original,userID,timeSubmitted,UUID,hashedVideoID\n\
             abc,First title,0,user1,100,uuid1,0000\n\
             abc,Second title,0,user1,200,uuid2,0000\n\
             other,Broken votes,0,user2,150,uuid3,0000\n\
             other,No votes,0,user2,300,uuid4,0000\n",
        ),
        title_votes: String::from(
            "UUID,votes,locked,shadowHidden,verification,downvotes,removed\n\
             uuid1,3,0,0,-1,0,0\n\
             uuid2,5,0,0,0,1,0\n\
             uuid3,2,0,0,0,0,5\n",
        ),
        thumbnails: String::from(
            "videoID,original,userID,timeSubmitted,UUID,hashedVideoID\n\
             abc,0,user1,100,tuuid1,0000\n\
             abc,0,user1,200,tuuid2,0000\n\
             abc,1,user1,300,tuuid3,0000\n",
        ),
        thumbnail_timestamps: String::from(
            "UUID,timestamp\n\
             tuuid1,12.5\n",
        ),
        thumbnail_votes: String::from(
            "UUID,votes,locked,shadowHidden,downvotes,removed\n\
             tuuid1,1,0,0,0,0\n\
             tuuid2,1,0,0,0,0\n\
             tuuid3,2,0,0,0,0\n",
        ),
        usernames: String::from(
            "userID,userName,locked\n\
             user1,Alice,0\n",
        ),
        vip_users: String::from(
            "userID\n\
             user1\n",
        ),
        sponsor_times: String::from(
            "videoID,startTime,endTime,videoDuration,votes,shadowHidden,hidden,category,actionType,hashedVideoID,timeSubmitted\n\
             V,10,20,100,5,0,0,outro,skip,xxxx,123\n\
             V,0,99,100,-2,0,0,sponsor,skip,xxxx,50\n\
             V,0,99,100,5,1,0,sponsor,skip,xxxx,51\n\
             V,0,99,100,5,0,1,sponsor,skip,xxxx,52\n\
             V,0,99,100,5,0,0,sponsor,mute,xxxx,53\n",
        ),
    }
}

fn sample_snapshot() -> (Snapshot, Vec<LoadError>) {
    Snapshot::build(&sample_tables(), &StringSet::with_capacity(0))
}

#[test]
fn load_keeps_joined_rows_and_records_errors() {
    let (snapshot, errors) = sample_snapshot();
    // uuid1 and uuid2 merged; uuid3 had removed=5, uuid4 had no votes row
    assert_eq!(snapshot.titles_len(), 2);
    // tuuid2 is non-original without a timestamp row and is dropped
    assert_eq!(snapshot.thumbnails_len(), 2);
    assert_eq!(snapshot.usernames_len(), 1);
    assert_eq!(snapshot.vip_users_len(), 1);
    assert_eq!(errors.len(), 3);
    let invalid_values = errors
        .iter()
        .filter(|e| {
            matches!(
                e,
                LoadError::Parse(ParseError(_, ParseErrorKind::InvalidValue { .. }))
            )
        })
        .count();
    let missing = errors
        .iter()
        .filter(|e| {
            matches!(
                e,
                LoadError::Parse(ParseError(_, ParseErrorKind::MissingSubobject { .. }))
            )
        })
        .count();
    assert_eq!(invalid_values, 1);
    assert_eq!(missing, 2);
}

#[test]
fn two_rows_of_one_video_share_a_handle_and_come_back_newest_first() {
    let (snapshot, _) = sample_snapshot();
    let titles = snapshot.titles_by_video_id("abc");
    assert_eq!(titles.len(), 2);
    assert_eq!(titles[0].uuid.as_str(), "uuid2");
    assert_eq!(titles[1].uuid.as_str(), "uuid1");
    assert!(titles[0].time_submitted > titles[1].time_submitted);
    // one pooled handle for the shared video id
    assert_eq!(titles[0].video_id.id(), titles[1].video_id.id());
    assert!(snapshot.titles_by_video_id("nope").is_empty());
}

#[test]
fn unverified_title_appears_in_the_unverified_listing() {
    let (snapshot, _) = sample_snapshot();
    let unverified = snapshot.unverified_titles();
    assert_eq!(unverified.len(), 1);
    assert_eq!(unverified[0].uuid.as_str(), "uuid1");
    assert!(unverified[0].unverified);
}

#[test]
fn score_is_votes_plus_unverified() {
    let (snapshot, _) = sample_snapshot();
    let t1 = snapshot.title_by_uuid("uuid1").unwrap();
    assert_eq!(t1.votes, 3);
    assert!(t1.unverified);
    assert_eq!(t1.score, 4);
    let t2 = snapshot.title_by_uuid("uuid2").unwrap();
    assert_eq!(t2.votes, 5);
    assert!(!t2.unverified);
    assert_eq!(t2.score, 5);
    assert!(snapshot.title_by_uuid("uuid9").is_none());
}

#[test]
fn non_original_thumbnails_carry_timestamps() {
    let (snapshot, _) = sample_snapshot();
    let with_time = snapshot.thumbnail_by_uuid("tuuid1").unwrap();
    assert_eq!(with_time.timestamp, Some(12_500_000));
    assert!(!with_time.original);
    let original = snapshot.thumbnail_by_uuid("tuuid3").unwrap();
    assert!(original.original);
    assert_eq!(original.timestamp, None);
    // the dropped row is gone
    assert!(snapshot.thumbnail_by_uuid("tuuid2").is_none());
}

#[test]
fn newest_titles_limits_and_orders() {
    let (snapshot, _) = sample_snapshot();
    let newest = snapshot.newest_titles(50);
    assert_eq!(newest.len(), 2);
    assert_eq!(newest[0].uuid.as_str(), "uuid2");
    let only_one = snapshot.newest_titles(1);
    assert_eq!(only_one.len(), 1);
    assert_eq!(only_one[0].uuid.as_str(), "uuid2");
}

#[test]
fn sponsor_segments_reduce_to_video_info() {
    // only the first sponsor row contributes: the others are downvoted away,
    // hidden, shadow hidden, or not skip segments
    let (snapshot, _) = sample_snapshot();
    let (video, known) = snapshot.video_branding("V", false, false);
    assert!(known);
    let info = video.video_info.expect("video V should have derived info");
    assert_eq!(info.video_duration, 100_000_000);
    assert_eq!(info.uncut_duration, 100_000_000);
    assert!(info.has_outro);
    assert_eq!(info.uncut_segments.len(), 2);
    assert_eq!(info.uncut_segments[0].offset, 0);
    assert_eq!(info.uncut_segments[0].length, 10_000_000);
    assert_eq!(info.uncut_segments[1].offset, 20_000_000);
    assert_eq!(info.uncut_segments[1].length, 80_000_000);
}

#[test]
fn branding_orders_by_lock_then_votes() {
    let (snapshot, _) = sample_snapshot();
    let (video, known) = snapshot.video_branding("abc", true, false);
    assert!(known);
    assert!(video.video_info.is_none());
    assert_eq!(video.titles.len(), 2);
    // uuid2 nets 5-1=4, uuid1 nets 3-0-1(unverified)=2
    assert_eq!(video.titles[0].uuid.as_str(), "uuid2");
    assert_eq!(video.titles[0].votes, 4);
    assert_eq!(video.titles[1].uuid.as_str(), "uuid1");
    assert_eq!(video.titles[1].votes, 2);
    assert!(video.titles[0].user_id.is_some());
    assert_eq!(video.thumbnails.len(), 2);
    assert_eq!(video.thumbnails[0].uuid.as_str(), "tuuid3");
    assert_eq!(video.thumbnails[1].uuid.as_str(), "tuuid1");
}

#[test]
fn branding_for_an_unknown_video_is_empty() {
    let (snapshot, _) = sample_snapshot();
    let (video, known) = snapshot.video_branding("unknownvid", false, false);
    assert!(!known);
    assert!(video.titles.is_empty());
    assert!(video.thumbnails.is_empty());
    assert!(video.video_info.is_none());
}

#[test]
fn chunk_branding_groups_by_video() {
    let (snapshot, _) = sample_snapshot();
    let chunk = snapshot.chunk_branding("0000", false, false).unwrap();
    assert_eq!(chunk.len(), 1);
    let (video_id, video) = &chunk[0];
    assert_eq!(video_id.as_str(), "abc");
    assert_eq!(video.titles.len(), 2);
    assert_eq!(video.thumbnails.len(), 2);
    assert!(video.video_info.is_none());
    // an empty bucket yields an empty map
    let empty = snapshot.chunk_branding("ffff", false, false).unwrap();
    assert!(empty.is_empty());
}

#[test]
fn chunk_branding_rejects_bad_prefixes() {
    let (snapshot, _) = sample_snapshot();
    assert!(snapshot.chunk_branding("zzzz", false, false).is_none());
    assert!(snapshot.chunk_branding("00000", false, false).is_none());
    assert!(snapshot.chunk_branding("00f", false, false).is_none());
}

#[test]
fn user_info_counts_submissions() {
    let (snapshot, _) = sample_snapshot();
    let info = snapshot.user_info("user1");
    assert_eq!(info.user_id.as_str(), "user1");
    assert_eq!(info.username.as_str(), "Alice");
    assert_eq!(info.title_submission_count, 2);
    assert_eq!(info.thumbnail_submission_count, 2);
    assert!(info.vip);

    let ghost_user = snapshot.user_info("nobody");
    assert_eq!(ghost_user.user_id.as_str(), "nobody");
    assert_eq!(ghost_user.username.as_str(), "nobody");
    assert_eq!(ghost_user.title_submission_count, 0);
    assert_eq!(ghost_user.thumbnail_submission_count, 0);
    assert!(!ghost_user.vip);
}

#[test]
fn quoted_csv_fields_survive_the_reader() {
    let mut tables = sample_tables();
    tables.titles = String::from(
        "videoID,title,original,userID,timeSubmitted,UUID,hashedVideoID\n\
         abc,\"A title, with a comma\",0,user1,100,uuid1,0000\n",
    );
    tables.title_votes = String::from(
        "UUID,votes,locked,shadowHidden,verification,downvotes,removed\n\
         uuid1,0,0,0,0,0,0\n",
    );
    let (snapshot, _) = Snapshot::build(&tables, &StringSet::with_capacity(0));
    let title = snapshot.title_by_uuid("uuid1").unwrap();
    assert_eq!(title.title.as_str(), "A title, with a comma");
}

#[test]
fn reload_prunes_strings_nothing_references() {
    let (snapshot, _) = sample_snapshot();
    // held: abc, First title, Second title, user1, uuid1, uuid2, tuuid1,
    // tuuid3, Alice, V; the dropped rows' strings are reclaimed
    assert_eq!(snapshot.interned_count(), 10);
    // strings of dropped rows are no longer pooled
    assert!(snapshot.titles_by_video_id("other").is_empty());
}
