//! Unit-level checks: interning, numeric and hex parsing, hashing, the
//! segment reducer's edge behaviors, version tokens, and the reload state
//! machine.

use dearrow_browser::csv_data::{SponsorTime, TrimmedSponsorTime};
use dearrow_browser::etag::{etag_matches, etag_of};
use dearrow_browser::hashing::{compute_hashprefix, parse_hashprefix};
use dearrow_browser::numbers::{parse_i16, parse_i64, parse_i8, parse_micros};
use dearrow_browser::records::UncutSegment;
use dearrow_browser::sbserver::{replace_angle, sat_sub};
use dearrow_browser::segments::reduce_segments;
use dearrow_browser::state::{check_auth, AuthOutcome, DatabaseState, ReloadDecision, Snapshot};
use dearrow_browser::{InternedString, StringSet};
use sha2::Digest;

fn seg(video: &str, start: i64, end: i64) -> TrimmedSponsorTime {
    TrimmedSponsorTime {
        video_id: InternedString::new(String::from(video)),
        start_time: start,
        end_time: end,
    }
}

#[test]
fn intern_same_text_gives_one_handle() {
    let mut pool = StringSet::with_capacity(4);
    let a = pool.intern("abc");
    let b = pool.intern("abc");
    let c = pool.intern("abd");
    assert!(InternedString::ptr_eq(&a, &b));
    assert!(!InternedString::ptr_eq(&a, &c));
    assert_eq!(a.id(), b.id());
    assert_ne!(a.id(), c.id());
    assert_eq!(a.as_str(), "abc");
    // a pooled lookup returns the canonical handle
    let d = pool.get("abc").unwrap();
    assert!(InternedString::ptr_eq(&a, &d));
    assert!(pool.get("missing").is_none());
}

#[test]
fn dedupe_arc_reuses_the_pool_entry() {
    let mut pool = StringSet::with_capacity(0);
    let first = pool.intern("video");
    let mut fresh = InternedString::new(String::from("video"));
    pool.dedupe_arc(&mut fresh);
    assert!(InternedString::ptr_eq(&first, &fresh));
    assert_eq!(fresh.as_str(), "video");
}

#[test]
fn clean_reclaims_unreferenced_entries() {
    let mut pool = StringSet::with_capacity(0);
    let a = pool.intern("keep");
    let _b = pool.intern("drop");
    let live = vec![true, false];
    pool.clean(&live);
    let again = pool.get("keep").unwrap();
    assert!(InternedString::ptr_eq(&a, &again));
    assert!(pool.get("drop").is_none());
    assert_eq!(pool.live_count(), 1);
}

#[test]
fn hashprefix_matches_sha256() {
    for s in ["", "abc", "dQw4w9WgXcQ"] {
        let digest = sha2::Sha256::digest(s.as_bytes());
        let expected = u16::from_be_bytes([digest[0], digest[1]]);
        assert_eq!(compute_hashprefix(s), expected);
    }
    // SHA-256("abc") begins with ba 78 ...
    assert_eq!(compute_hashprefix("abc"), 0xba78);
}

#[test]
fn hashprefix_parsing() {
    assert_eq!(parse_hashprefix("00ff"), Some(0x00ff));
    assert_eq!(parse_hashprefix("deadbeef"), Some(0xdead));
    assert_eq!(parse_hashprefix("DEAD"), Some(0xdead));
    assert_eq!(parse_hashprefix("+fff"), None);
    assert_eq!(parse_hashprefix("xyzw"), None);
    assert_eq!(parse_hashprefix("abc"), None);
}

#[test]
fn integer_parsing() {
    assert_eq!(parse_i64("123"), Some(123));
    assert_eq!(parse_i64("-5"), Some(-5));
    assert_eq!(parse_i64("+7"), Some(7));
    assert_eq!(parse_i64(""), None);
    assert_eq!(parse_i64("12a"), None);
    assert_eq!(parse_i64("99999999999999999999999"), None);
    assert_eq!(parse_i8("127"), Some(127));
    assert_eq!(parse_i8("-128"), Some(-128));
    assert_eq!(parse_i8("128"), None);
    assert_eq!(parse_i16("-2"), Some(-2));
}

#[test]
fn micros_parsing() {
    assert_eq!(parse_micros("10.5"), Some(10_500_000));
    assert_eq!(parse_micros("52.428"), Some(52_428_000));
    assert_eq!(parse_micros(".5"), Some(500_000));
    assert_eq!(parse_micros("10."), Some(10_000_000));
    assert_eq!(parse_micros("-1.25"), Some(-1_250_000));
    assert_eq!(parse_micros("100"), Some(100_000_000));
    assert_eq!(parse_micros("0.1234567"), Some(123_456));
    assert_eq!(parse_micros("1e3"), None);
    assert_eq!(parse_micros(""), None);
    assert_eq!(parse_micros("."), None);
}

#[test]
fn sponsor_rows_filter_by_votes_visibility_and_action() {
    let row = |votes: i16, shadow: i8, hidden: i8, action: &str| SponsorTime {
        video_id: InternedString::new(String::from("v")),
        start_time: 10_000_000,
        end_time: 20_000_000,
        video_duration: 100_000_000,
        votes,
        shadow_hidden: shadow,
        hidden,
        category: String::from("outro"),
        action_type: String::from(action),
        hashed_video_id: String::from("0000"),
        time_submitted: 7,
    };
    let kept = row(-1, 0, 0, "skip").filter_and_split();
    let (prefix, duration, segment) = kept.expect("a visible skip row contributes");
    assert_eq!(prefix, 0x0000);
    assert!(duration.has_outro);
    assert_eq!(duration.video_duration, 100_000_000);
    assert_eq!(segment.start_time, 10_000_000);
    assert_eq!(segment.end_time, 20_000_000);
    assert!(row(-2, 0, 0, "skip").filter_and_split().is_none());
    assert!(row(5, 1, 0, "skip").filter_and_split().is_none());
    assert!(row(5, 0, 1, "skip").filter_and_split().is_none());
    assert!(row(5, 0, 0, "mute").filter_and_split().is_none());
}

#[test]
fn full_cover_segment_yields_no_uncut_time() {
    // one segment spanning the whole video: everything is cut
    let segments = vec![seg("v", 0, 100_000_000)];
    let uncut = reduce_segments(&segments, 100_000_000);
    assert!(uncut.is_empty());
}

#[test]
fn no_segments_yield_the_whole_video() {
    let segments: Vec<TrimmedSponsorTime> = vec![];
    let uncut = reduce_segments(&segments, 100_000_000);
    assert_eq!(uncut, vec![UncutSegment { offset: 0, length: 100_000_000 }]);
}

#[test]
fn identical_segments_collapse_to_one_gap() {
    let segments = vec![seg("v", 10_000_000, 20_000_000), seg("v", 10_000_000, 20_000_000)];
    let uncut = reduce_segments(&segments, 100_000_000);
    assert_eq!(
        uncut,
        vec![
            UncutSegment { offset: 0, length: 10_000_000 },
            UncutSegment { offset: 20_000_000, length: 80_000_000 },
        ]
    );
}

#[test]
fn overlapping_segments_merge() {
    // [10,30] and [20,50] over 100: uncut [0,10] and [50,100]
    let segments = vec![seg("v", 10_000_000, 30_000_000), seg("v", 20_000_000, 50_000_000)];
    let uncut = reduce_segments(&segments, 100_000_000);
    assert_eq!(
        uncut,
        vec![
            UncutSegment { offset: 0, length: 10_000_000 },
            UncutSegment { offset: 50_000_000, length: 50_000_000 },
        ]
    );
}

#[test]
fn segments_past_duration_are_ignored() {
    let segments = vec![seg("v", 150_000_000, 160_000_000)];
    let uncut = reduce_segments(&segments, 100_000_000);
    assert_eq!(uncut, vec![UncutSegment { offset: 0, length: 100_000_000 }]);
}

#[test]
fn version_tokens() {
    assert_eq!(etag_of(0).as_str(), "0");
    assert_eq!(etag_of(1234567).as_str(), "1234567");
    assert_eq!(etag_of(-123).as_str(), "-123");
    assert!(etag_matches(42, "42"));
    assert!(!etag_matches(42, "41"));
    assert!(!etag_matches(42, ""));
}

#[test]
fn reload_state_machine_rejects_concurrent_reloads() {
    let mut state = DatabaseState::new(1000, 0);
    assert!(matches!(state.begin_reload(), ReloadDecision::Started));
    // a second reload while one is in flight is rejected
    assert!(matches!(state.begin_reload(), ReloadDecision::AlreadyUpdating));
    state.abort_reload();
    assert!(matches!(state.begin_reload(), ReloadDecision::Started));
}

#[test]
fn last_updated_strictly_increases() {
    let mut state = DatabaseState::new(1000, 0);
    let v0 = state.last_updated;
    state.publish(Snapshot::empty(), Vec::new(), 2000, 5);
    let v1 = state.last_updated;
    assert!(v1 > v0);
    assert_eq!(v1, 2000);
    // even with a clock that went backwards, the counter still advances
    state.publish(Snapshot::empty(), Vec::new(), 1500, 6);
    let v2 = state.last_updated;
    assert!(v2 > v1);
    assert_eq!(v2, 2001);
    assert_eq!(state.last_modified, 6);
    assert!(!state.updating_now);
}

#[test]
fn conditional_requests_short_circuit_until_a_reload() {
    let mut state = DatabaseState::new(1000, 0);
    let token = etag_of(state.last_updated);
    assert!(etag_matches(state.last_updated, token.as_str()));
    state.publish(Snapshot::empty(), Vec::new(), 2000, 0);
    assert!(!etag_matches(state.last_updated, token.as_str()));
    let fresh = etag_of(state.last_updated);
    assert!(etag_matches(state.last_updated, fresh.as_str()));
}

#[test]
fn auth_is_checked_by_digest() {
    assert!(matches!(check_auth(None, "opensesame"), AuthOutcome::Missing));
    assert!(matches!(check_auth(Some("wrong"), "opensesame"), AuthOutcome::Wrong));
    assert!(matches!(
        check_auth(Some("opensesame"), "opensesame"),
        AuthOutcome::Granted
    ));
}

#[test]
fn title_text_replaces_only_the_first_angle_bracket() {
    assert_eq!(replace_angle("a<b<c").as_str(), "a\u{2039}b<c");
    assert_eq!(replace_angle("<tag>").as_str(), "\u{2039}tag>");
    assert_eq!(replace_angle("plain").as_str(), "plain");
}

#[test]
fn saturating_vote_arithmetic() {
    assert_eq!(sat_sub(-128, 1), -128);
    assert_eq!(sat_sub(127, -1), 127);
    assert_eq!(sat_sub(5, 7), -2);
}
