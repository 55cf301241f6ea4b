use std::time::{Duration, UNIX_EPOCH};

use shard_elect::decimal::{append_decimal, parse_u64};
use shard_elect::record::LockRecord;

fn record(owner: &str, expires_unix: u64) -> LockRecord {
    LockRecord { owner_id: owner.to_string(), expires_unix }
}

fn parts(r: Option<LockRecord>) -> Option<(String, u64)> {
    r.map(|r| (r.owner_id, r.expires_unix))
}

/// The same reading with the operations of the standard library.
fn read_with_std(s: &str) -> Option<(String, u64)> {
    let (owner, expiry) = s.split_once(' ')?;
    let expires_unix = expiry.trim().parse().ok()?;
    Some((owner.to_string(), expires_unix))
}

#[test]
fn encode_is_owner_space_expiry() {
    assert_eq!(record("worker-1", 1000).encode(), "worker-1 1000");
    assert_eq!(record("", 0).encode(), " 0");
    assert_eq!(record("h", u64::MAX).encode(), "h 18446744073709551615");
}

#[test]
fn parse_reads_owner_and_expiry() {
    assert_eq!(parts(LockRecord::parse("worker-1 1000")), Some(("worker-1".to_string(), 1000)));
    assert_eq!(parts(LockRecord::parse(" 7")), Some((String::new(), 7)));
    assert_eq!(parts(LockRecord::parse("a \t+12\u{3000}")), Some(("a".to_string(), 12)));
}

#[test]
fn parse_refuses_malformed_text() {
    for s in ["", "worker-1", "a b 5", "a -1", "a ", "a +", "a ++1", "a 1_0", "a 0x1", "a 1 2",
        "a 18446744073709551616", "a 99999999999999999999999"]
    {
        assert!(LockRecord::parse(s).is_none(), "{s:?}");
    }
}

#[test]
fn parse_agrees_with_the_standard_library() {
    let owners = ["", "a", "host-1-2", "\u{e4}\u{1f600}", "\"q\"", "tab\tbed"];
    let expiries = ["0", "7", "007", "+7", "-7", "", " ", " 5 ", "\t5\n", "\u{a0}5\u{2003}", "5 5",
        "18446744073709551615", "18446744073709551616", "18446744073709551625",
        "00000000000000000000000000000001", "1e3", "\u{663}", "5.", "++5", "+", "5+"];
    for owner in owners {
        for expiry in expiries {
            let s = format!("{owner} {expiry}");
            assert_eq!(parts(LockRecord::parse(&s)), read_with_std(&s), "{s:?}");
        }
    }
}

#[test]
fn record_round_trip_without_spaces() {
    for (owner, expires) in [("worker-1", 1000), ("", 0), ("\u{e4}\"\u{1f600}", u64::MAX), ("x", 10)] {
        let text = record(owner, expires).encode();
        assert_eq!(parts(LockRecord::parse(&text)), Some((owner.to_string(), expires)));
    }
}

#[test]
fn record_with_space_in_owner_is_not_read_back() {
    let text = record("my host", 5).encode();
    assert_eq!(parts(LockRecord::parse(&text)), None);
}

#[test]
fn new_cuts_to_whole_seconds_and_to_the_epoch() {
    let t = UNIX_EPOCH + Duration::from_millis(12_999);
    assert_eq!(LockRecord::new("o", t).expires_unix, 12);
    assert_eq!(LockRecord::new("o", t).owner_id, "o");
    let before = UNIX_EPOCH - Duration::from_secs(3);
    assert_eq!(LockRecord::new("o", before).expires_unix, 0);
}

#[test]
fn expiry_is_reached_at_its_second() {
    let r = record("o", 100);
    assert!(!r.is_expired_at(&(UNIX_EPOCH + Duration::from_millis(99_999))));
    assert!(r.is_expired_at(&(UNIX_EPOCH + Duration::from_secs(100))));
    assert!(r.is_expired_at(&(UNIX_EPOCH + Duration::from_secs(101))));
    assert!(!r.is_expired_at(&(UNIX_EPOCH - Duration::from_secs(1))));
}

#[test]
fn expiry_follows_the_clock() {
    let millis = |ms: u64| UNIX_EPOCH + Duration::from_millis(ms);
    for end in [0, 1, 999, 1_000, 99_500, 100_000] {
        let lock = LockRecord::new("o", millis(end));
        let mut over = false;
        for now in 0..1_200 {
            let now = now * 100;
            let expired = lock.is_expired_at(&millis(now));
            assert!(expired || now < end);
            assert!(!expired || end < now + 1_000);
            assert!(expired || !over);
            over = expired;
        }
    }
}

#[test]
fn different_locks_have_different_texts() {
    let owners = ["", " ", "a", "a ", "a 1", "a 1 1", "1", "1 1"];
    let mut texts = Vec::new();
    for owner in owners {
        for expires in [0, 1, 10, 11, 111] {
            let text = record(owner, expires).encode();
            assert!(!texts.contains(&text));
            texts.push(text);
        }
    }
}

#[test]
fn expiry_by_the_system_clock() {
    assert!(record("o", 0).is_expired());
    assert!(record("o", 1_000_000_000).is_expired());
    assert!(!record("o", u64::MAX).is_expired());
}

#[test]
fn decimal_notation_agrees_with_the_standard_library() {
    for n in [0u64, 1, 9, 10, 11, 99, 100, 12345, u64::MAX - 1, u64::MAX] {
        let mut s = String::from("x");
        append_decimal(&mut s, n);
        assert_eq!(s, format!("x{n}"));
        assert_eq!(parse_u64(&s[1..]), Some(n));
    }
}
