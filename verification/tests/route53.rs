use std::time::{Duration, SystemTime, UNIX_EPOCH};

use shard_elect::record::{LockRecord, StoredRecord};
use shard_elect::route53::{
    find_ignored, find_ignored_by_names, find_lock, find_lock_by_names, Plan,
};
use shard_elect::zone::{quote, ChangeKind, ChangeRequest, RecordSet};
use shard_elect::Route53Locker;

fn at(secs: u64) -> SystemTime {
    UNIX_EPOCH + Duration::from_secs(secs)
}

fn set(name: &str, record_type: &str, values: &[&str]) -> RecordSet {
    RecordSet {
        name: name.to_string(),
        record_type: record_type.to_string(),
        ttl: Some(60),
        values: values.iter().map(|v| v.to_string()).collect(),
    }
}

fn found(sets: &Vec<RecordSet>, name: &str) -> Option<(String, u64)> {
    find_lock(sets, name).map(|r| (r.record.owner_id, r.record.expires_unix))
}

fn locker() -> Route53Locker {
    Route53Locker::new("Z1", "locks.example.com")
}

/// A hosted zone: TXT record sets by name, changed in batches.
struct Zone {
    sets: Vec<(String, i64, Vec<String>)>,
}

impl Zone {
    fn new() -> Zone {
        Zone { sets: Vec::new() }
    }

    fn submit(&mut self, request: &ChangeRequest) -> bool {
        let mut sets = self.sets.clone();
        for c in &request.changes {
            let entry = (c.name.clone(), c.ttl, vec![format!("\"{}\"", c.value)]);
            match c.kind {
                ChangeKind::Delete => match sets.iter().position(|s| *s == entry) {
                    Some(i) => {
                        sets.remove(i);
                    }
                    None => return false,
                },
                ChangeKind::Create => {
                    if sets.iter().any(|s| s.0 == entry.0) {
                        return false;
                    }
                    sets.push(entry);
                }
            }
        }
        self.sets = sets;
        true
    }

    fn list(&self, name: &str) -> Vec<RecordSet> {
        self.sets
            .iter()
            .filter(|s| s.0 == name)
            .map(|s| RecordSet {
                name: s.0.clone(),
                record_type: "TXT".to_string(),
                ttl: Some(s.1),
                values: s.2.clone(),
            })
            .collect()
    }

    /// Submits what a plan asks for; the answer of the plan.
    fn follow(&mut self, plan: Plan) -> bool {
        match plan {
            Plan::Settled(answer) => answer,
            Plan::Submit(request) => self.submit(&request),
        }
    }

    fn holder(&self, name: &str) -> Option<(String, u64)> {
        found(&self.list(name), name)
    }
}

fn request(plan: Plan) -> ChangeRequest {
    match plan {
        Plan::Submit(request) => request,
        Plan::Settled(answer) => panic!("settled with {answer}"),
    }
}

const NAME: &str = "worker.locks.example.com.";

#[test]
fn record_name_joins_shard_and_domain() {
    assert_eq!(locker().record_name("worker"), NAME);
    assert_eq!(Route53Locker::new("Z1", "locks.example.com..").record_name("worker"), NAME);
    assert_eq!(Route53Locker::new("Z1", "..").record_name("worker"), "worker..");
}

#[test]
fn list_request_asks_for_the_first_txt_set() {
    let r = Route53Locker::new("/hostedzone/Z1", String::from("locks.example.com."))
        .list_request("worker");
    assert_eq!(r.hosted_zone_id, "Z1");
    assert_eq!(r.start_record_name, NAME);
    assert_eq!(r.start_record_type, "TXT");
    assert_eq!(r.max_items, 1);
}

#[test]
fn hosted_zone_prefix_is_ignored() {
    for zone in ["Z1", "/hostedzone/Z1"] {
        assert_eq!(Route53Locker::new(zone, "d").list_request("s").hosted_zone_id, "Z1");
    }
    assert_eq!(
        Route53Locker::new("/hostedzone//hostedzone/Z1", "d").list_request("s").hosted_zone_id,
        "/hostedzone/Z1"
    );
}

#[test]
fn lock_is_found_in_any_case_and_with_or_without_dot() {
    for name in ["worker.locks.example.com.", "Worker.LOCKS.example.com", "WORKER.locks.example.com.."] {
        let sets = vec![set(name, "TXT", &["\"worker-1 1000\""])];
        assert_eq!(found(&sets, NAME), Some(("worker-1".to_string(), 1000)));
    }
    let sets = vec![set("\u{c4}.x.", "TXT", &["\"a 1\""])];
    assert_eq!(found(&sets, "\u{e4}.X"), Some(("a".to_string(), 1)));
}

#[test]
fn other_names_and_types_are_passed_over() {
    let sets = vec![
        set("other.locks.example.com.", "TXT", &["\"a 1\""]),
        set(NAME, "A", &["\"b 2\""]),
        set(NAME, "TXT", &["\"no lock\"", "unreadable", "\"c 3\"", "\"d 4\""]),
        set(NAME, "TXT", &["\"e 5\""]),
    ];
    assert_eq!(found(&sets, NAME), Some(("c".to_string(), 3)));
    assert_eq!(found(&vec![set(NAME, "TXT", &["x", "\"\""])], NAME), None);
    assert_eq!(found(&vec![], NAME), None);
    assert_eq!(found(&vec![set(NAME, "txt", &["\"c 3\""])], NAME), None);
}

#[test]
fn lock_is_found_with_the_ttl_of_its_set() {
    let other = RecordSet { ttl: Some(5), ..set("other.locks.example.com.", "TXT", &["\"a 1\""]) };
    let own = RecordSet { ttl: Some(300), ..set(NAME, "TXT", &["\"b 2\""]) };
    let read = locker().get_current("worker", &vec![other, own]).unwrap();
    assert_eq!((read.record.owner_id.as_str(), read.ttl), ("b", Some(300)));
    let bare = RecordSet { ttl: None, ..set(NAME, "TXT", &["\"b 2\""]) };
    assert_eq!(find_lock(&vec![bare], NAME).unwrap().ttl, None);
}

#[test]
fn value_may_stand_without_quotes() {
    assert_eq!(found(&vec![set(NAME, "TXT", &["c 3"])], NAME), Some(("c".to_string(), 3)));
    assert_eq!(quote("c 3"), "\"c 3\"");
}

#[test]
fn swap_deletes_the_old_as_stored_and_creates_the_new() {
    let record = LockRecord { owner_id: "worker-1".to_string(), expires_unix: 1000 };
    let old = StoredRecord { record, ttl: Some(300) };
    let new = LockRecord { owner_id: "worker-2".to_string(), expires_unix: 2000 };
    let r = locker().with_dns_ttl(30).atomic_swap("worker", Some(&old), &new);
    assert_eq!(r.hosted_zone_id, "Z1");
    assert_eq!(r.changes.len(), 2);
    assert!(matches!(r.changes[0].kind, ChangeKind::Delete));
    assert!(matches!(r.changes[1].kind, ChangeKind::Create));
    assert_eq!(r.changes[0].value, "worker-1 1000");
    assert_eq!(r.changes[1].value, "worker-2 2000");
    assert_eq!((r.changes[0].ttl, r.changes[1].ttl), (300, 30));
    for c in &r.changes {
        assert_eq!(c.name, NAME);
    }
    let old = StoredRecord { ttl: None, ..old };
    assert_eq!(locker().atomic_swap("worker", Some(&old), &new).changes[0].ttl, 60);
    let r = locker().atomic_swap("worker", None, &new);
    assert_eq!(r.changes.len(), 1);
    assert!(matches!(r.changes[0].kind, ChangeKind::Create));
    assert_eq!(r.changes[0].ttl, 60);
}

#[test]
fn two_followers_compete_for_an_expired_lease() {
    let l = locker();
    let mut zone = Zone::new();
    assert!(zone.submit(&request(l.try_acquire_at("worker", "worker-1", at(1000), &vec![], &at(990)))));
    let sets = zone.list(NAME);
    let a = request(l.try_acquire_at("worker", "worker-2", at(2000), &sets, &at(1000)));
    let b = request(l.try_acquire_at("worker", "worker-3", at(2000), &sets, &at(1000)));
    assert!(zone.submit(&a));
    assert!(!zone.submit(&b));
    assert_eq!(zone.holder(NAME), Some(("worker-2".to_string(), 2000)));
    let again = l.try_acquire_at("worker", "worker-3", at(2010), &zone.list(NAME), &at(1001));
    assert!(matches!(again, Plan::Settled(false)));
}

#[test]
fn two_followers_compete_for_a_missing_record() {
    let l = locker();
    let mut zone = Zone::new();
    let a = request(l.try_acquire_at("worker", "a", at(2000), &vec![], &at(1000)));
    let b = request(l.try_acquire_at("worker", "b", at(2000), &vec![], &at(1000)));
    assert!(zone.submit(&b));
    assert!(!zone.submit(&a));
    assert_eq!(zone.holder(NAME), Some(("b".to_string(), 2000)));
}

#[test]
fn rewriting_the_same_lock_leaves_room_for_a_second_batch() {
    let l = locker();
    let mut zone = Zone::new();
    assert!(zone.submit(&request(l.try_acquire_at("worker", "a", at(1000), &vec![], &at(1)))));
    let sets = zone.list(NAME);
    let same = request(l.try_acquire_at("worker", "a", at(1000), &sets, &at(2)));
    let other = request(l.try_acquire_at("worker", "b", at(2000), &sets, &at(1000)));
    assert!(zone.submit(&same));
    assert!(zone.submit(&other));
}

#[test]
fn own_lock_is_acquired_again_before_it_expires() {
    let l = locker();
    let sets = vec![set(NAME, "TXT", &["\"a 1000\""])];
    let r = request(l.try_acquire_at("worker", "a", at(1010), &sets, &at(500)));
    assert_eq!(r.changes[0].value, "a 1000");
    assert_eq!(r.changes[1].value, "a 1010");
}

#[test]
fn held_lock_is_not_acquired() {
    let sets = vec![set(NAME, "TXT", &["\"a 1000\""])];
    let plan = locker().try_acquire_at("worker", "b", at(2000), &sets, &at(999));
    assert!(matches!(plan, Plan::Settled(false)));
    let plan = locker().try_acquire_at("worker", "b", at(2000), &sets, &at(1000));
    assert!(matches!(plan, Plan::Submit(_)));
}

#[test]
fn acquisition_by_the_system_clock() {
    let l = locker();
    let past = vec![set(NAME, "TXT", &["\"a 1000\""])];
    assert!(matches!(l.try_acquire("worker", "b", at(1), &past), Plan::Submit(_)));
    let future = vec![set(NAME, "TXT", &["\"a 18446744073709551615\""])];
    assert!(matches!(l.try_acquire("worker", "b", at(1), &future), Plan::Settled(false)));
    assert!(matches!(l.try_acquire("worker", "a", at(1), &future), Plan::Submit(_)));
    assert!(matches!(l.try_acquire("worker", "b", at(1), &vec![]), Plan::Submit(_)));
}

#[test]
fn renewal_extends_the_own_lock_only() {
    let l = locker();
    let mut zone = Zone::new();
    assert!(matches!(l.renew("worker", "a", at(20), &vec![]), Plan::Settled(false)));
    assert!(zone.submit(&request(l.try_acquire_at("worker", "a", at(15), &vec![], &at(0)))));
    let sets = zone.list(NAME);
    assert!(matches!(l.renew("worker", "b", at(20), &sets), Plan::Settled(false)));
    assert!(zone.submit(&request(l.renew("worker", "a", at(20), &sets))));
    assert_eq!(zone.holder(NAME), Some(("a".to_string(), 20)));
    // Planned from what was read before the renewal.
    assert!(!zone.submit(&request(l.renew("worker", "a", at(30), &sets))));
}

#[test]
fn released_lock_is_free_at_once() {
    let l = locker();
    let mut zone = Zone::new();
    assert!(zone.submit(&request(l.try_acquire_at("worker", "a", at(1000), &vec![], &at(0)))));
    let sets = zone.list(NAME);
    assert!(l.release("worker", "b", &sets).is_none());
    assert!(l.release("worker", "a", &vec![]).is_none());
    let release = l.release("worker", "a", &sets).unwrap();
    assert_eq!(release.hosted_zone_id, "Z1");
    assert_eq!(release.changes.len(), 1);
    assert!(matches!(release.changes[0].kind, ChangeKind::Delete));
    assert_eq!(release.changes[0].value, "a 1000");
    assert!(zone.submit(&release));
    assert_eq!(zone.holder(NAME), None);
    let sets = zone.list(NAME);
    assert!(zone.submit(&request(l.try_acquire_at("worker", "b", at(20), &sets, &at(5)))));
    assert_eq!(zone.holder(NAME), Some(("b".to_string(), 20)));
}

#[test]
fn owner_that_starts_with_a_quote_is_not_read_back() {
    let l = locker();
    let mut zone = Zone::new();
    assert!(zone.submit(&request(l.try_acquire_at("worker", "\"a", at(9), &vec![], &at(0)))));
    assert_eq!(zone.holder(NAME), Some(("a".to_string(), 9)));
}

#[test]
fn lock_stored_with_another_ttl_is_acquired_renewed_and_released() {
    let mut zone = Zone::new();
    zone.sets.push((NAME.to_string(), 60, vec!["\"w1 1000\"".to_string()]));
    let l = locker().with_dns_ttl(300);
    let r = request(l.try_acquire_at("worker", "w2", at(3000), &zone.list(NAME), &at(2000)));
    assert_eq!((r.changes[0].ttl, r.changes[1].ttl), (60, 300));
    assert!(zone.submit(&r));
    assert_eq!(zone.sets[0], (NAME.to_string(), 300, vec!["\"w2 3000\"".to_string()]));

    let l = locker().with_dns_ttl(5);
    assert!(zone.follow(l.renew("worker", "w2", at(4000), &zone.list(NAME))));
    assert_eq!(zone.sets[0], (NAME.to_string(), 5, vec!["\"w2 4000\"".to_string()]));

    let release = locker().release("worker", "w2", &zone.list(NAME)).unwrap();
    assert_eq!(release.changes[0].ttl, 5);
    assert!(zone.submit(&release));
    assert_eq!(zone.holder(NAME), None);
}

#[test]
fn competitors_with_different_ttls_do_not_both_win() {
    let mut zone = Zone::new();
    zone.sets.push((NAME.to_string(), 60, vec!["\"w1 1000\"".to_string()]));
    let sets = zone.list(NAME);
    let (a, b) = (locker().with_dns_ttl(300), locker().with_dns_ttl(5));
    let first = a.try_acquire_at("worker", "w2", at(3000), &sets, &at(2000));
    let second = b.try_acquire_at("worker", "w3", at(3000), &sets, &at(2000));
    assert!(zone.follow(second));
    assert!(!zone.follow(first));
    assert_eq!(zone.holder(NAME), Some(("w3".to_string(), 3000)));
}

#[test]
fn one_holder_until_the_lease_expires() {
    let (a, b) = (locker(), locker().with_dns_ttl(300));
    let mut zone = Zone::new();
    assert!(zone.follow(a.try_acquire_at("worker", "a", at(1000), &vec![], &at(0))));
    for now in [0, 999] {
        let sets = zone.list(NAME);
        assert!(!zone.follow(b.try_acquire_at("worker", "b", at(2000), &sets, &at(now))));
        assert_eq!(zone.holder(NAME), Some(("a".to_string(), 1000)));
    }
    let sets = zone.list(NAME);
    assert!(zone.follow(a.try_acquire_at("worker", "a", at(1500), &sets, &at(999))));
    let sets = zone.list(NAME);
    assert!(!zone.follow(b.try_acquire_at("worker", "b", at(2000), &sets, &at(1499))));
    assert!(zone.follow(b.try_acquire_at("worker", "b", at(2000), &sets, &at(1500))));
    assert_eq!(zone.holder(NAME), Some(("b".to_string(), 2000)));
}

#[test]
fn batch_from_an_old_reading_is_refused() {
    let l = locker();
    let mut zone = Zone::new();
    zone.sets.push((NAME.to_string(), 60, vec!["\"a 1000\"".to_string()]));
    let sets = zone.list(NAME);
    zone.sets[0].2 = vec!["\"a 1001\"".to_string()];
    assert!(!zone.follow(l.try_acquire_at("worker", "b", at(3000), &sets, &at(2000))));
    assert!(!zone.follow(l.renew("worker", "a", at(3000), &sets)));
    assert!(!zone.submit(&l.release("worker", "a", &sets).unwrap()));
}

#[test]
fn shards_have_their_own_records() {
    let l = locker();
    let mut zone = Zone::new();
    for shard in ["worker", "batch"] {
        let name = l.record_name(shard);
        let sets = zone.list(&name);
        assert!(zone.submit(&request(l.try_acquire_at(shard, shard, at(9), &sets, &at(0)))));
    }
    assert_eq!(zone.holder(NAME), Some(("worker".to_string(), 9)));
    assert_eq!(zone.holder("batch.locks.example.com."), Some(("batch".to_string(), 9)));
}

#[test]
fn lower_case_names_are_compared_without_final_dots() {
    let sets = vec![set("x", "TXT", &["\"a 1\""]), set("y", "TXT", &["\"b 2\""])];
    let names = vec!["n.d".to_string(), "m.d..".to_string()];
    let find = |name: &str| find_lock_by_names(&sets, &names, name).map(|r| r.record.owner_id);
    assert_eq!(find("n.d."), Some("a".to_string()));
    assert_eq!(find("m.d"), Some("b".to_string()));
    assert_eq!(find("M.d"), None);
}

#[test]
fn decisions_about_a_known_lock() {
    let l = locker();
    let record = LockRecord { owner_id: "a".to_string(), expires_unix: 100 };
    let held = StoredRecord { record, ttl: Some(60) };
    let by = |owner: &str| LockRecord { owner_id: owner.to_string(), expires_unix: 200 };
    assert!(matches!(l.decide_acquire("s", Some(&held), &by("b"), 99), Plan::Settled(false)));
    assert!(matches!(l.decide_acquire("s", Some(&held), &by("b"), 100), Plan::Submit(_)));
    assert!(matches!(l.decide_acquire("s", Some(&held), &by("a"), 0), Plan::Submit(_)));
    assert!(matches!(l.decide_acquire("s", None, &by("b"), 0), Plan::Submit(_)));
    assert!(matches!(l.decide_renew("s", Some(&held), &by("a")), Plan::Submit(_)));
    assert!(matches!(l.decide_renew("s", Some(&held), &by("b")), Plan::Settled(false)));
    assert!(matches!(l.decide_renew("s", None, &by("a")), Plan::Settled(false)));
    assert!(l.decide_release("s", Some(&held), "a").is_some());
    assert!(l.decide_release("s", Some(&held), "b").is_none());
    assert!(l.decide_release("s", None, "a").is_none());
}

#[test]
fn lock_in_another_spelling_is_read_but_not_replaced() {
    let mut zone = Zone::new();
    zone.sets.push((NAME.to_string(), 60, vec!["\"w1  1000\"".to_string()]));
    assert_eq!(zone.holder(NAME), Some(("w1".to_string(), 1000)));
    let sets = zone.list(NAME);
    assert!(!zone.follow(locker().try_acquire_at("worker", "w2", at(3000), &sets, &at(2000))));
}

#[test]
fn lease_of_an_owner_that_ends_in_a_space_is_not_taken_over() {
    let l = locker();
    let mut zone = Zone::new();
    assert!(zone.follow(l.try_acquire_at("worker", "a ", at(1000), &vec![], &at(0))));
    let sets = zone.list(NAME);
    assert_eq!(found(&sets, NAME), Some(("a".to_string(), 1000)));
    assert!(!zone.follow(l.try_acquire_at("worker", "a", at(2000), &sets, &at(10))));
    assert_eq!(zone.sets[0].2, vec!["\"a  1000\"".to_string()]);
}

#[test]
fn texts_before_the_lock_are_ignored() {
    let sets = vec![
        set("other.locks.example.com.", "TXT", &["\"not ours\""]),
        set(NAME, "A", &["\"no text\""]),
        set("WORKER.locks.example.com", "TXT", &["\"no lock\"", "unreadable"]),
        set(NAME, "TXT", &["\"\"", "\"c 3\"", "\"after it\""]),
        set(NAME, "TXT", &["\"later\""]),
    ];
    assert_eq!(locker().get_ignored("worker", &sets), vec!["no lock", "unreadable", ""]);
    assert_eq!(find_ignored(&sets, NAME), vec!["no lock", "unreadable", ""]);
    assert_eq!(find_ignored(&sets, "other.locks.example.com"), vec!["not ours"]);
    assert!(find_ignored(&sets, "x.").is_empty());
    assert!(locker().get_ignored("worker", &vec![]).is_empty());
    let names = vec!["n.d", "n.d", "n.d.", "m.d", "n.d"];
    let names = names.iter().map(|n| n.to_string()).collect();
    let found = find_ignored_by_names(&sets, &names, "n.d");
    assert_eq!(found, vec!["not ours", "no lock", "unreadable", "later"]);
}
