use std::future::{ready, Ready};
use std::sync::Mutex;
use std::time::{Duration, SystemTime, UNIX_EPOCH};

use shard_elect::clock::{half, is_shorter, unix_secs};
use shard_elect::coordinator::{Action, Event};
use shard_elect::error::{api_err, ApiCause};
use shard_elect::{Config, Coordinator, Error, Locker};

/// A backend that notes its calls and succeeds.
struct Noting {
    calls: Mutex<Vec<String>>,
}

impl Noting {
    fn new() -> Noting {
        Noting { calls: Mutex::new(Vec::new()) }
    }

    fn note(&self, call: String) {
        self.calls.lock().unwrap().push(call);
    }
}

impl Locker for Noting {
    type Attempt<'a> = Ready<Result<bool, Error>>;
    type Release<'a> = Ready<Result<(), Error>>;

    fn try_acquire<'a>(&'a self, s: &'a str, o: &'a str, t: SystemTime) -> Self::Attempt<'a> {
        self.note(format!("acquire {s} {o} {}", unix_secs(&t)));
        ready(Ok(true))
    }

    fn renew<'a>(&'a self, s: &'a str, o: &'a str, t: SystemTime) -> Self::Attempt<'a> {
        self.note(format!("renew {s} {o} {}", unix_secs(&t)));
        ready(Ok(false))
    }

    fn release<'a>(&'a self, s: &'a str, o: &'a str) -> Self::Release<'a> {
        self.note(format!("release {s} {o}"));
        ready(Ok(()))
    }
}

fn failure(text: &str) -> Error {
    api_err(ApiCause::Other(std::io::Error::other(text)))
}

fn config() -> Config<Noting> {
    Config::new("shard", Noting::new())
}

fn leader() -> Coordinator {
    let mut c = Coordinator::start(&config());
    c.step(Event::AcquireTick);
    c.step(Event::Acquired(Ok(true)));
    c
}

#[test]
fn defaults() {
    let c = config();
    assert_eq!(c.shard_id, "shard");
    assert_eq!(c.lease_duration, Duration::from_secs(15));
    assert_eq!(c.renew_period, Duration::from_secs(5));
    assert!(c.is_valid());
    assert_eq!(c.acquire_period(), Duration::from_millis(2500));
}

#[test]
fn default_owner_is_a_random_uuid() {
    let (a, b) = (config().owner_id, config().owner_id);
    assert_ne!(a, b);
    for id in [a, b] {
        let parsed = uuid::Uuid::parse_str(&id).unwrap();
        assert_eq!(parsed.get_version_num(), 4);
        assert_eq!(parsed.to_string(), id);
        assert!(!id.contains(' ') && !id.contains('"'));
    }
}

#[test]
fn builders_set_one_field_each() {
    let c = config()
        .owner_id("me")
        .lease_duration(Duration::from_secs(30))
        .renew_period(Duration::from_secs(10));
    assert_eq!(c.owner_id, "me");
    assert_eq!(c.lease_duration, Duration::from_secs(30));
    assert_eq!(c.renew_period, Duration::from_secs(10));
    assert_eq!(c.shard_id, "shard");
    assert_eq!(c.owner_id(String::from("you")).owner_id, "you");
}

#[test]
fn renew_period_must_be_shorter_than_the_lease() {
    let with = |renew: Duration| config().lease_duration(Duration::from_secs(2)).renew_period(renew);
    assert!(with(Duration::from_nanos(1_999_999_999)).is_valid());
    assert!(!with(Duration::from_secs(2)).is_valid());
    assert!(!with(Duration::from_nanos(2_000_000_001)).is_valid());
}

#[test]
fn lengths_of_time() {
    for d in [Duration::ZERO, Duration::from_nanos(1), Duration::new(3, 5), Duration::MAX,
        Duration::new(1, 999_999_999), Duration::new(4, 1)]
    {
        assert_eq!(half(&d), d / 2);
        assert!(!is_shorter(&d, &d));
        assert!(d == Duration::ZERO || is_shorter(&half(&d), &d));
    }
    assert!(is_shorter(&Duration::new(1, 9), &Duration::new(2, 0)));
    assert!(!is_shorter(&Duration::new(2, 0), &Duration::new(1, 9)));
}

#[test]
fn points_in_time() {
    assert_eq!(unix_secs(&(UNIX_EPOCH + Duration::new(7, 999))), 7);
    assert_eq!(unix_secs(&(UNIX_EPOCH - Duration::new(7, 0))), 0);
    let now = UNIX_EPOCH + Duration::new(100, 5);
    assert_eq!(config().lease_end(&now), Some(now + Duration::from_secs(15)));
    assert_eq!(config().lease_duration(Duration::MAX).lease_end(&now), None);
}

#[test]
fn backend_is_called_with_shard_owner_and_end_of_lease() {
    let c = config().owner_id("me");
    let now = UNIX_EPOCH + Duration::from_secs(100);
    assert!(c.call_try_acquire(&now).is_some());
    assert!(c.call_renew(&now).is_some());
    let _ = c.call_release();
    let calls = c.locker.calls.lock().unwrap().clone();
    assert_eq!(calls, vec!["acquire shard me 115", "renew shard me 115", "release shard me"]);
}

#[test]
fn backend_is_not_called_for_a_lease_without_end() {
    let c = config().lease_duration(Duration::MAX);
    let now = UNIX_EPOCH + Duration::from_secs(100);
    assert!(c.call_try_acquire(&now).is_none());
    assert!(c.call_renew(&now).is_none());
    assert!(c.locker.calls.lock().unwrap().is_empty());
}

#[test]
fn backend_answers_are_awaited() {
    let c = config();
    let attempt = c.call_try_acquire(&UNIX_EPOCH).unwrap();
    let runtime = tokio::runtime::Builder::new_current_thread().build().unwrap();
    assert!(matches!(runtime.block_on(attempt), Ok(true)));
}

#[test]
fn follower_becomes_leader_by_acquiring() {
    let mut c = Coordinator::start(&config());
    assert!(!c.is_leader());
    assert!(matches!(c.step(Event::RenewTick), Action::Wait));
    assert!(matches!(c.step(Event::AcquireTick), Action::TryAcquire));
    assert!(!c.is_leader());
    assert!(matches!(c.step(Event::Acquired(Ok(true))), Action::Publish(true)));
    assert!(c.is_leader());
    assert!(matches!(c.step(Event::AcquireTick), Action::Wait));
}

#[test]
fn follower_stays_follower_when_acquiring_fails() {
    for answer in [Ok(false), Err(failure("x"))] {
        let mut c = Coordinator::start(&config());
        c.step(Event::AcquireTick);
        assert!(matches!(c.step(Event::Acquired(answer)), Action::Wait));
        assert!(!c.is_leader());
        assert!(matches!(c.step(Event::AcquireTick), Action::TryAcquire));
    }
}

#[test]
fn leader_renews() {
    let mut c = leader();
    assert!(matches!(c.step(Event::RenewTick), Action::Renew));
    assert!(matches!(c.step(Event::Renewed(Ok(true))), Action::Wait));
    assert!(c.is_leader());
    assert!(matches!(c.step(Event::RenewTick), Action::Renew));
}

#[test]
fn failed_renewal_demotes_at_once() {
    for answer in [Ok(false), Err(failure("x"))] {
        let mut c = leader();
        c.step(Event::RenewTick);
        assert!(matches!(c.step(Event::Renewed(answer)), Action::Publish(false)));
        assert!(!c.is_leader());
        assert!(matches!(c.step(Event::RenewTick), Action::Wait));
        assert!(matches!(c.step(Event::AcquireTick), Action::TryAcquire));
    }
}

#[test]
fn shutdown_of_a_leader_releases() {
    for answer in [Ok(()), Err(failure("x"))] {
        let mut c = leader();
        assert!(matches!(c.step(Event::Shutdown), Action::Release));
        assert!(matches!(c.step(Event::Released(answer)), Action::Stop));
        assert!(matches!(c.step(Event::AcquireTick), Action::Wait));
        assert!(matches!(c.step(Event::Shutdown), Action::Wait));
    }
}

#[test]
fn shutdown_of_a_follower_stops() {
    let mut c = Coordinator::start(&config());
    assert!(matches!(c.step(Event::Shutdown), Action::Stop));
    assert!(matches!(c.step(Event::AcquireTick), Action::Wait));
}

#[test]
fn shutdown_waits_for_the_answer() {
    for renewed in [true, false] {
        let mut c = leader();
        c.step(Event::RenewTick);
        assert!(matches!(c.step(Event::Shutdown), Action::Wait));
        c.step(Event::Renewed(Ok(renewed)));
        assert_eq!(matches!(c.step(Event::Shutdown), Action::Release), renewed);
    }
    for acquired in [true, false] {
        let mut c = Coordinator::start(&config());
        c.step(Event::AcquireTick);
        assert!(matches!(c.step(Event::Shutdown), Action::Wait));
        c.step(Event::Acquired(Ok(acquired)));
        assert_eq!(matches!(c.step(Event::Shutdown), Action::Release), acquired);
    }
}

#[test]
fn dropping_does_not_release() {
    let mut c = leader();
    assert!(matches!(c.step(Event::Dropped), Action::Stop));
    assert!(matches!(c.step(Event::Dropped), Action::Wait));
    let mut c = leader();
    c.step(Event::RenewTick);
    assert!(matches!(c.step(Event::Dropped), Action::Stop));
}

#[test]
fn unexpected_events_change_nothing() {
    let mut c = Coordinator::start(&config());
    assert!(matches!(c.step(Event::Acquired(Ok(true))), Action::Wait));
    assert!(matches!(c.step(Event::Renewed(Ok(false))), Action::Wait));
    assert!(matches!(c.step(Event::Released(Ok(()))), Action::Wait));
    assert!(!c.is_leader());
    c.step(Event::AcquireTick);
    assert!(matches!(c.step(Event::Shutdown), Action::Wait));
    assert!(matches!(c.step(Event::Acquired(Ok(true))), Action::Publish(true)));
}

#[test]
fn published_state_follows_leadership() {
    let mut c = Coordinator::start(&config());
    let mut told = false;
    let events = vec![
        Event::AcquireTick,
        Event::Acquired(Ok(false)),
        Event::AcquireTick,
        Event::Acquired(Ok(true)),
        Event::RenewTick,
        Event::Renewed(Ok(true)),
        Event::RenewTick,
        Event::Renewed(Err(Error::ConditionFailed)),
        Event::AcquireTick,
        Event::Acquired(Ok(true)),
        Event::Shutdown,
        Event::Released(Ok(())),
    ];
    for event in events {
        if let Action::Publish(leader) = c.step(event) {
            assert_ne!(leader, told);
            told = leader;
        }
        assert_eq!(told, c.is_leader());
    }
}

#[test]
fn shutdown_outcomes() {
    assert!(Coordinator::shutdown_outcome(true).is_ok());
    assert!(matches!(Coordinator::shutdown_outcome(false), Err(Error::Shutdown)));
}

#[test]
fn error_messages() {
    assert_eq!(
        Error::ConditionFailed.message(),
        "condition check failed: another node holds the lock"
    );
    assert_eq!(failure("boom").message(), "Route53 API error: boom");
    assert_eq!(Error::Shutdown.message(), "coordinator is shut down");
    assert_eq!(Error::MalformedRecord("x y".to_string()).message(), "malformed lock record: x y");
}
