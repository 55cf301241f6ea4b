//! Leader election: configuration, and the decisions of the election loop.

use std::sync::Arc;
use std::time::{Duration, SystemTime};

use uuid::Uuid;

use vstd::prelude::*;

use crate::clock::{
    duration_secs, duration_subsec_nanos, epoch_secs, half, is_shorter, later_by, since_epoch,
    total_nanos,
};
use crate::error::Error;
use crate::identity::{display_uuid, is_random_uuid, uuid_text};
use crate::locker::Locker;

verus! {

pub const DEFAULT_LEASE_DURATION_SEC: u64 = 15;

pub const DEFAULT_RENEW_PERIOD_SEC: u64 = 5;

/// Configuration for a [`Coordinator`].
///
/// # Defaults
/// - `lease_duration`: 15 seconds
/// - `renew_period`: 5 seconds (a third of the lease)
/// - `owner_id`: a random UUID (override with your hostname and process id for easier debugging)
///
/// # Invariant
/// `renew_period` must be less than `lease_duration`; see [`Config::is_valid`].
pub struct Config<L: Locker> {
    /// Logical name for the resource being coordinated (e.g. `"worker-shard-0"`).
    pub shard_id: String,
    /// Unique identifier for this process.
    pub owner_id: String,
    /// How long a successfully acquired lease is valid.
    pub lease_duration: Duration,
    /// How often to attempt renewal. Followers attempt acquisition twice as often, so they pick
    /// up expired leases faster than the leader renews.
    pub renew_period: Duration,
    /// The lock backend.
    pub locker: Arc<L>,
}

impl<L: Locker> Config<L> {
    /// Whether a coordinator can be started: a lease outlasts the time between two renewals.
    pub open spec fn valid(self) -> bool {
        total_nanos(self.renew_period) < total_nanos(self.lease_duration)
    }

    /// `attempt` is what the backend returned when it was called to acquire the lock of this
    /// config until `end`.
    pub open spec fn acquire_called(&self, end: SystemTime, attempt: L::Attempt<'_>) -> bool {
        exists|shard: &str, owner: &str|
            shard@ == self.shard_id@ && owner@ == self.owner_id@ && #[trigger] call_ensures(
                L::try_acquire,
                (&*self.locker, shard, owner, end),
                attempt,
            )
    }

    /// `attempt` is what the backend returned when it was called to extend the lock of this
    /// config to `end`.
    pub open spec fn renew_called(&self, end: SystemTime, attempt: L::Attempt<'_>) -> bool {
        exists|shard: &str, owner: &str|
            shard@ == self.shard_id@ && owner@ == self.owner_id@ && #[trigger] call_ensures(
                L::renew,
                (&*self.locker, shard, owner, end),
                attempt,
            )
    }

    /// `release` is what the backend returned when it was called to release the lock of this
    /// config.
    pub open spec fn release_called(&self, release: L::Release<'_>) -> bool {
        exists|shard: &str, owner: &str|
            shard@ == self.shard_id@ && owner@ == self.owner_id@ && #[trigger] call_ensures(
                L::release,
                (&*self.locker, shard, owner),
                release,
            )
    }

    /// Creates a config with sensible defaults, owned by a random UUID that is made for it.
    pub fn new<S: Into<String>>(shard_id: S, locker: L) -> (config: Self)
        ensures
            call_ensures(S::into, (shard_id,), config.shard_id),
            exists|id: Uuid| #[trigger]
                call_ensures(Uuid::new_v4, (), id) && config.owner_id@ == uuid_text(id),
            is_random_uuid(config.owner_id@),
            duration_secs(config.lease_duration) == DEFAULT_LEASE_DURATION_SEC,
            duration_subsec_nanos(config.lease_duration) == 0,
            duration_secs(config.renew_period) == DEFAULT_RENEW_PERIOD_SEC,
            duration_subsec_nanos(config.renew_period) == 0,
            total_nanos(config.lease_duration) == 15_000_000_000,
            total_nanos(config.renew_period) == 5_000_000_000,
            *config.locker == locker,
            config.valid(),
    {
        let config = Config {
            shard_id: shard_id.into(),
            owner_id: String::new(),
            lease_duration: Duration::new(DEFAULT_LEASE_DURATION_SEC, 0),
            renew_period: Duration::new(DEFAULT_RENEW_PERIOD_SEC, 0),
            locker: Arc::new(locker),
        };
        let id = Uuid::new_v4();
        config.owner_id(display_uuid(&id))
    }

    /// Sets the identifier of this process.
    pub fn owner_id<S: Into<String>>(self, id: S) -> (config: Self)
        ensures
            call_ensures(S::into, (id,), config.owner_id),
            config == (Config { owner_id: config.owner_id, ..self }),
    {
        Config { owner_id: id.into(), ..self }
    }

    /// Sets how long a lease is valid.
    pub fn lease_duration(self, d: Duration) -> (config: Self)
        ensures
            config == (Config { lease_duration: d, ..self }),
    {
        Config { lease_duration: d, ..self }
    }

    /// Sets how often the leader renews.
    pub fn renew_period(self, d: Duration) -> (config: Self)
        ensures
            config == (Config { renew_period: d, ..self }),
    {
        Config { renew_period: d, ..self }
    }

    /// Whether a coordinator can be started with this config.
    pub fn is_valid(&self) -> (valid: bool)
        ensures
            valid == self.valid(),
            valid == (total_nanos(self.renew_period) < total_nanos(self.lease_duration)),
    {
        is_shorter(&self.renew_period, &self.lease_duration)
    }

    /// How often a follower tries to acquire: half the renew period, so that it reacts faster to
    /// an expired lease.
    pub fn acquire_period(&self) -> (period: Duration)
        ensures
            total_nanos(period) == total_nanos(self.renew_period) / 2,
    {
        half(&self.renew_period)
    }

    /// When a lease that starts at `now` ends; `None` where the system clock cannot represent it.
    /// A lease of whole seconds ends that many Unix seconds later.
    pub fn lease_end(&self, now: &SystemTime) -> (end: Option<SystemTime>)
        ensures
            end == later_by(*now, self.lease_duration),
            duration_subsec_nanos(self.lease_duration) == 0 && since_epoch(*now) is Some
                && end is Some ==> epoch_secs(end->0) == epoch_secs(*now) + duration_secs(
                self.lease_duration,
            ),
    {
        now.checked_add(self.lease_duration)
    }

    /// Calls the backend to acquire the lock until `end`.
    pub fn call_try_acquire_until<'a>(&'a self, end: SystemTime) -> (attempt: L::Attempt<'a>)
        ensures
            self.acquire_called(end, attempt),
            exists|shard: &str, owner: &str|
                shard@ == self.shard_id@ && owner@ == self.owner_id@ && #[trigger] call_ensures(
                    L::try_acquire,
                    (&*self.locker, shard, owner, end),
                    attempt,
                ),
    {
        self.locker.try_acquire(self.shard_id.as_str(), self.owner_id.as_str(), end)
    }

    /// Calls the backend to extend the lock to `end`.
    pub fn call_renew_until<'a>(&'a self, end: SystemTime) -> (attempt: L::Attempt<'a>)
        ensures
            self.renew_called(end, attempt),
            exists|shard: &str, owner: &str|
                shard@ == self.shard_id@ && owner@ == self.owner_id@ && #[trigger] call_ensures(
                    L::renew,
                    (&*self.locker, shard, owner, end),
                    attempt,
                ),
    {
        self.locker.renew(self.shard_id.as_str(), self.owner_id.as_str(), end)
    }

    /// Calls the backend to acquire the lock for one lease from `now`; `None` where the end of
    /// the lease cannot be represented.
    pub fn call_try_acquire<'a>(&'a self, now: &SystemTime) -> (attempt: Option<L::Attempt<'a>>)
        ensures
            attempt is Some <==> later_by(*now, self.lease_duration) is Some,
            attempt is Some ==> self.acquire_called(
                later_by(*now, self.lease_duration)->0,
                attempt->0,
            ),
            attempt is Some ==> exists|shard: &str, owner: &str|
                shard@ == self.shard_id@ && owner@ == self.owner_id@ && #[trigger] call_ensures(
                    L::try_acquire,
                    (&*self.locker, shard, owner, later_by(*now, self.lease_duration)->0),
                    attempt->0,
                ),
    {
        match self.lease_end(now) {
            None => None,
            Some(end) => Some(self.call_try_acquire_until(end)),
        }
    }

    /// Calls the backend to extend the lock to one lease from `now`; `None` where the end of the
    /// lease cannot be represented.
    pub fn call_renew<'a>(&'a self, now: &SystemTime) -> (attempt: Option<L::Attempt<'a>>)
        ensures
            attempt is Some <==> later_by(*now, self.lease_duration) is Some,
            attempt is Some ==> self.renew_called(
                later_by(*now, self.lease_duration)->0,
                attempt->0,
            ),
            attempt is Some ==> exists|shard: &str, owner: &str|
                shard@ == self.shard_id@ && owner@ == self.owner_id@ && #[trigger] call_ensures(
                    L::renew,
                    (&*self.locker, shard, owner, later_by(*now, self.lease_duration)->0),
                    attempt->0,
                ),
    {
        match self.lease_end(now) {
            None => None,
            Some(end) => Some(self.call_renew_until(end)),
        }
    }

    /// Calls the backend to release the lock.
    pub fn call_release<'a>(&'a self) -> (release: L::Release<'a>)
        ensures
            self.release_called(release),
            exists|shard: &str, owner: &str|
                shard@ == self.shard_id@ && owner@ == self.owner_id@ && #[trigger] call_ensures(
                    L::release,
                    (&*self.locker, shard, owner),
                    release,
                ),
    {
        self.locker.release(self.shard_id.as_str(), self.owner_id.as_str())
    }
}

/// What the election loop is waiting for.
#[derive(Clone, Copy)]
pub enum Phase {
    /// The next timer tick or the request to shut down.
    Idle,
    /// The answer of the backend to an acquisition.
    Acquiring,
    /// The answer of the backend to a renewal.
    Renewing,
    /// The answer of the backend to a release.
    Releasing,
    /// Nothing any more.
    Stopped,
}

/// What happens to the election loop.
pub enum Event {
    /// The owner of the coordinator asked it to shut down. The loop takes the request up when it
    /// is idle; one that comes during a call of the backend waits for the answer.
    Shutdown,
    /// The owner of the coordinator dropped it without asking it to shut down.
    Dropped,
    /// The renew timer fired.
    RenewTick,
    /// The acquire timer fired.
    AcquireTick,
    /// The backend answered an acquisition.
    Acquired(Result<bool, Error>),
    /// The backend answered a renewal.
    Renewed(Result<bool, Error>),
    /// The backend answered a release.
    Released(Result<(), Error>),
}

/// What the election loop does next.
#[derive(Clone, Copy)]
pub enum Action {
    /// Wait for the next event.
    Wait,
    /// Call the backend to acquire the lock.
    TryAcquire,
    /// Call the backend to extend the lease.
    Renew,
    /// Call the backend to release the lock.
    Release,
    /// Tell the subscribers whether this node is the leader, then wait.
    Publish(bool),
    /// Leave the loop.
    Stop,
}

/// The state of an election loop.
pub struct Election {
    pub leader: bool,
    pub phase: Phase,
}

impl Election {
    /// A node starts as a follower.
    pub open spec fn initial() -> Election {
        Election { leader: false, phase: Phase::Idle }
    }

    /// Only a follower acquires, and only a leader renews or releases.
    pub open spec fn wf(self) -> bool {
        match self.phase {
            Phase::Acquiring => !self.leader,
            Phase::Renewing | Phase::Releasing => self.leader,
            Phase::Idle | Phase::Stopped => true,
        }
    }

    /// The next state, and what to do. An event that the loop does not wait for changes nothing.
    pub open spec fn next(self, event: Event) -> (Election, Action) {
        match (self.phase, event) {
            (Phase::Stopped, _) => (self, Action::Wait),
            (_, Event::Dropped) => (Election { phase: Phase::Stopped, ..self }, Action::Stop),
            (Phase::Idle, Event::Shutdown) => if self.leader {
                (Election { phase: Phase::Releasing, ..self }, Action::Release)
            } else {
                (Election { phase: Phase::Stopped, ..self }, Action::Stop)
            },
            (Phase::Idle, Event::RenewTick) => if self.leader {
                (Election { phase: Phase::Renewing, ..self }, Action::Renew)
            } else {
                (self, Action::Wait)
            },
            (Phase::Idle, Event::AcquireTick) => if self.leader {
                (self, Action::Wait)
            } else {
                (Election { phase: Phase::Acquiring, ..self }, Action::TryAcquire)
            },
            (Phase::Acquiring, Event::Acquired(answer)) => match answer {
                Ok(true) => (Election { leader: true, phase: Phase::Idle }, Action::Publish(true)),
                _ => (Election { phase: Phase::Idle, ..self }, Action::Wait),
            },
            (Phase::Renewing, Event::Renewed(answer)) => match answer {
                Ok(true) => (Election { phase: Phase::Idle, ..self }, Action::Wait),
                _ => (Election { leader: false, phase: Phase::Idle }, Action::Publish(false)),
            },
            (Phase::Releasing, Event::Released(_)) => (
                Election { phase: Phase::Stopped, ..self },
                Action::Stop,
            ),
            _ => (self, Action::Wait),
        }
    }

    /// The state after a sequence of events.
    pub open spec fn after(self, events: Seq<Event>) -> Election
        decreases events.len(),
    {
        if events.len() == 0 {
            self
        } else {
            self.after(events.drop_last()).next(events.last()).0
        }
    }

    /// What the subscribers were told last in a sequence of events; `told` if nothing was.
    pub open spec fn published_after(self, told: bool, events: Seq<Event>) -> bool
        decreases events.len(),
    {
        if events.len() == 0 {
            told
        } else {
            match self.after(events.drop_last()).next(events.last()).1 {
                Action::Publish(leader) => leader,
                _ => self.published_after(told, events.drop_last()),
            }
        }
    }
}

/// The decisions of the election loop of one node.
///
/// Two timers run beside each other:
/// - **Renew timer** (every `renew_period`): if this node is leader, extend the lease.
/// - **Acquire timer** (every `renew_period / 2`): if this node is follower, try to claim an
///   available or expired lease.
///
/// If renewal fails for any reason, the node immediately demotes itself to follower (fail-safe:
/// avoids zombie leaders during network partitions).
///
/// A request to shut down makes a leader release the lock before it stops. Dropping the coordinator
/// without such a request stops the loop without releasing the lock; the lease then expires after
/// `lease_duration`.
///
/// The loop itself performs the returned [`Action`] and hands the outcome back as an [`Event`].
pub struct Coordinator {
    leader: bool,
    phase: Phase,
}

impl View for Coordinator {
    type V = Election;

    closed spec fn view(&self) -> Election {
        Election { leader: self.leader, phase: self.phase }
    }
}

impl Coordinator {
    #[verifier::type_invariant]
    spec fn inv(self) -> bool {
        self@.wf()
    }

    /// Starts an election as a follower.
    pub fn start<L: Locker>(config: &Config<L>) -> (coordinator: Coordinator)
        requires
            config.valid(),
        ensures
            coordinator@ == Election::initial(),
    {
        Coordinator { leader: false, phase: Phase::Idle }
    }

    /// Whether this node is the leader.
    pub fn is_leader(&self) -> (leader: bool)
        ensures
            leader == self@.leader,
    {
        self.leader
    }

    /// Decides what to do about an event.
    pub fn step(&mut self, event: Event) -> (action: Action)
        ensures
            (final(self)@, action) == old(self)@.next(event),
            final(self)@.wf(),
    {
        proof {
            use_type_invariant(&*self);
        }
        let leader = self.leader;
        let (leader, phase, action) = match (self.phase, event) {
            (Phase::Stopped, _) => (leader, Phase::Stopped, Action::Wait),
            (_, Event::Dropped) => (leader, Phase::Stopped, Action::Stop),
            (Phase::Idle, Event::Shutdown) => if leader {
                (leader, Phase::Releasing, Action::Release)
            } else {
                (leader, Phase::Stopped, Action::Stop)
            },
            (Phase::Idle, Event::RenewTick) => if leader {
                (leader, Phase::Renewing, Action::Renew)
            } else {
                (leader, Phase::Idle, Action::Wait)
            },
            (Phase::Idle, Event::AcquireTick) => if leader {
                (leader, Phase::Idle, Action::Wait)
            } else {
                (leader, Phase::Acquiring, Action::TryAcquire)
            },
            (Phase::Acquiring, Event::Acquired(answer)) => match answer {
                Ok(true) => (true, Phase::Idle, Action::Publish(true)),
                _ => (leader, Phase::Idle, Action::Wait),
            },
            (Phase::Renewing, Event::Renewed(answer)) => match answer {
                Ok(true) => (leader, Phase::Idle, Action::Wait),
                _ => (false, Phase::Idle, Action::Publish(false)),
            },
            (Phase::Releasing, Event::Released(_)) => (leader, Phase::Stopped, Action::Stop),
            (phase, _) => (leader, phase, Action::Wait),
        };
        *self = Coordinator { leader, phase };
        action
    }

    /// What a shutdown reports, given whether the loop came to its end.
    pub fn shutdown_outcome(finished: bool) -> (outcome: Result<(), Error>)
        ensures
            outcome == if finished {
                Ok::<(), Error>(())
            } else {
                Err::<(), Error>(Error::Shutdown)
            },
    {
        if finished {
            Ok(())
        } else {
            Err(Error::Shutdown)
        }
    }
}

/// The acquisition, the renewal and the release of a config are calls of the one backend, with all
/// of the shard and all of the owner of the config, and to the end that is given.
pub proof fn law_backend_is_called_for_the_config<L: Locker>(
    config: Config<L>,
    end: SystemTime,
    acquired: L::Attempt<'_>,
    renewed: L::Attempt<'_>,
    released: L::Release<'_>,
)
    ensures
        config.acquire_called(end, acquired) ==> exists|shard: &str, owner: &str|
            shard@ == config.shard_id@ && owner@ == config.owner_id@ && #[trigger] call_ensures(
                L::try_acquire,
                (&*config.locker, shard, owner, end),
                acquired,
            ),
        config.renew_called(end, renewed) ==> exists|shard: &str, owner: &str|
            shard@ == config.shard_id@ && owner@ == config.owner_id@ && #[trigger] call_ensures(
                L::renew,
                (&*config.locker, shard, owner, end),
                renewed,
            ),
        config.release_called(released) ==> exists|shard: &str, owner: &str|
            shard@ == config.shard_id@ && owner@ == config.owner_id@ && #[trigger] call_ensures(
                L::release,
                (&*config.locker, shard, owner),
                released,
            ),
{
}

/// The lock that a config renews and releases is the one that it acquires: the three calls agree on
/// the shard and on the owner.
pub proof fn law_calls_agree_on_shard_and_owner<L: Locker>(
    config: Config<L>,
    acquired_end: SystemTime,
    acquired: L::Attempt<'_>,
    end: SystemTime,
    renewed: L::Attempt<'_>,
    released: L::Release<'_>,
)
    requires
        config.acquire_called(acquired_end, acquired),
        config.renew_called(end, renewed),
        config.release_called(released),
    ensures
        exists|s: &str, o: &str, s2: &str, o2: &str, s3: &str, o3: &str|
            #![trigger
                call_ensures(L::try_acquire, (&*config.locker, s, o, acquired_end), acquired),
                call_ensures(L::renew, (&*config.locker, s2, o2, end), renewed),
                call_ensures(L::release, (&*config.locker, s3, o3), released)]
            call_ensures(L::try_acquire, (&*config.locker, s, o, acquired_end), acquired)
                && call_ensures(L::renew, (&*config.locker, s2, o2, end), renewed) && call_ensures(
                L::release,
                (&*config.locker, s3, o3),
                released,
            ) && s@ == s2@ && s@ == s3@ && o@ == o2@ && o@ == o3@ && s@ == config.shard_id@ && o@
                == config.owner_id@,
{
}

/// A config is valid exactly if its renew period is shorter than its lease.
pub proof fn law_valid_config<L: Locker>(config: Config<L>)
    ensures
        ({
            let (renew, lease) = (config.renew_period, config.lease_duration);
            config.valid() <==> duration_secs(renew) * 1_000_000_000 + duration_subsec_nanos(renew)
                < duration_secs(lease) * 1_000_000_000 + duration_subsec_nanos(lease)
        }),
        DEFAULT_LEASE_DURATION_SEC == 15,
        DEFAULT_RENEW_PERIOD_SEC == 5,
{
}

/// Followers poll twice as often as leaders renew, to the nanosecond.
pub proof fn law_followers_poll_twice_as_often<L: Locker>(config: Config<L>, period: Duration)
    requires
        call_ensures(Config::<L>::acquire_period, (&config,), period),
    ensures
        2 * total_nanos(period) <= total_nanos(config.renew_period) <= 2 * total_nanos(period) + 1,
{
}

/// A shutdown succeeds exactly if the loop came to its end.
pub proof fn law_shutdown_outcome(finished: bool, outcome: Result<(), Error>)
    requires
        call_ensures(Coordinator::shutdown_outcome, (finished,), outcome),
    ensures
        finished ==> outcome == Ok::<(), Error>(()),
        !finished ==> outcome == Err::<(), Error>(Error::Shutdown),
{
}

/// A node starts as an idle follower. Only followers wait for an acquisition, and only leaders for
/// a renewal or a release. The state after some events and one more is the next one.
pub proof fn law_states(state: Election, events: Seq<Event>, event: Event)
    ensures
        !Election::initial().leader,
        Election::initial().phase is Idle,
        state.wf() <==> !(state.phase is Acquiring && state.leader) && !(state.phase is Renewing
            && !state.leader) && !(state.phase is Releasing && !state.leader),
        state.after(Seq::empty()) == state,
        state.after(events.push(event)) == state.after(events).next(event).0,
{
    assert(events.push(event).drop_last() =~= events);
}

/// A follower becomes leader, and says so, exactly if its acquisition was answered `true`. Whatever
/// else the answer is, and whatever the error, it stays what it was and waits for the next tick.
pub proof fn law_answer_to_an_acquisition(state: Election, answer: Result<bool, Error>)
    requires
        state.phase is Acquiring,
    ensures
        ({
            let (next, action) = state.next(Event::Acquired(answer));
            &&& next.phase is Idle
            &&& match answer {
                Ok(true) => next.leader && action == Action::Publish(true),
                Ok(false) => next.leader == state.leader && action is Wait,
                Err(_) => next.leader == state.leader && action is Wait,
            }
        }),
{
}

/// A leader stays leader exactly if its renewal was answered `true`. Whatever else the answer is,
/// and whatever the error, it becomes a follower, says so, and waits for the next tick.
pub proof fn law_answer_to_a_renewal(state: Election, answer: Result<bool, Error>)
    requires
        state.phase is Renewing,
    ensures
        ({
            let (next, action) = state.next(Event::Renewed(answer));
            &&& next.phase is Idle
            &&& match answer {
                Ok(true) => next.leader == state.leader && action is Wait,
                Ok(false) => !next.leader && action == Action::Publish(false),
                Err(_) => !next.leader && action == Action::Publish(false),
            }
        }),
{
}

/// The loop is left exactly when the coordinator is dropped, when a follower is asked to shut down,
/// and when a release was answered, whatever the answer. It stays left.
pub proof fn law_loop_is_left_at_the_end_only(state: Election, event: Event)
    ensures
        state.next(event).1 is Stop <==> !(state.phase is Stopped) && (event is Dropped || (
        event is Shutdown && state.phase is Idle && !state.leader) || (event is Released
            && state.phase is Releasing)),
        state.next(event).0.phase is Stopped <==> state.phase is Stopped || state.next(
            event,
        ).1 is Stop,
        state.next(event).1 is Stop ==> state.next(event).0.leader == state.leader,
{
}

/// The backend is called to acquire exactly on the acquire tick of an idle follower, to renew
/// exactly on the renew tick of an idle leader, and to release exactly when an idle leader is asked
/// to shut down. The loop then waits for the answer, and the role stays the same.
pub proof fn law_calls_of_the_backend(state: Election, event: Event)
    ensures
        state.next(event).1 is TryAcquire <==> state.phase is Idle && !state.leader
            && event is AcquireTick,
        state.next(event).1 is Renew <==> state.phase is Idle && state.leader
            && event is RenewTick,
        state.next(event).1 is Release <==> state.phase is Idle && state.leader
            && event is Shutdown,
        state.next(event).1 is TryAcquire ==> state.next(event).0 == (Election {
            leader: false,
            phase: Phase::Acquiring,
        }),
        state.next(event).1 is Renew ==> state.next(event).0 == (Election {
            leader: true,
            phase: Phase::Renewing,
        }),
        state.next(event).1 is Release ==> state.next(event).0 == (Election {
            leader: true,
            phase: Phase::Releasing,
        }),
{
}

/// An event that the loop does not wait for changes nothing: a tick or a request to shut down
/// during a call, a tick for the other role, and an answer that was not asked for.
pub proof fn law_events_out_of_turn(state: Election, event: Event)
    requires
        match event {
            Event::Shutdown => !(state.phase is Idle),
            Event::Dropped => state.phase is Stopped,
            Event::RenewTick => !(state.phase is Idle) || !state.leader,
            Event::AcquireTick => !(state.phase is Idle) || state.leader,
            Event::Acquired(_) => !(state.phase is Acquiring),
            Event::Renewed(_) => !(state.phase is Renewing),
            Event::Released(_) => !(state.phase is Releasing),
        },
    ensures
        state.next(event).0 == state,
        state.next(event).1 is Wait,
{
}

/// A follower keeps trying: whatever its acquisition is answered, unless it becomes leader, the
/// next acquire tick makes it try again. So does a leader that was demoted.
pub proof fn law_follower_keeps_trying(state: Election, answer: Result<bool, Error>)
    requires
        answer matches Ok(success) ==> !success,
    ensures
        state == (Election { leader: false, phase: Phase::Acquiring }) ==> state.next(
            Event::Acquired(answer),
        ).0.next(Event::AcquireTick).1 is TryAcquire,
        state == (Election { leader: true, phase: Phase::Renewing }) ==> state.next(
            Event::Renewed(answer),
        ).0.next(Event::AcquireTick).1 is TryAcquire,
{
}

/// A leader keeps renewing: after an acquisition or a renewal that was answered `true`, the next
/// renew tick makes it renew.
pub proof fn law_leader_keeps_renewing(state: Election)
    ensures
        state.phase is Acquiring ==> state.next(Event::Acquired(Ok(true))).0.next(
            Event::RenewTick,
        ).1 is Renew,
        state == (Election { leader: true, phase: Phase::Renewing }) ==> state.next(
            Event::Renewed(Ok(true)),
        ).0.next(Event::RenewTick).1 is Renew,
{
}

/// Every state that an election reaches has the backend called in the right role only.
pub proof fn law_roles_kept(events: Seq<Event>)
    ensures
        Election::initial().after(events).wf(),
    decreases events.len(),
{
    if events.len() > 0 {
        law_roles_kept(events.drop_last());
    }
}

/// Whatever happens, the subscribers have been told the current state of leadership.
pub proof fn law_published_state_is_current(events: Seq<Event>)
    ensures
        Election::initial().published_after(false, events) == Election::initial().after(
            events,
        ).leader,
    decreases events.len(),
{
    if events.len() > 0 {
        law_published_state_is_current(events.drop_last());
        law_roles_kept(events.drop_last());
    }
}

/// Subscribers are told of changes only: what is published differs from what was published last.
pub proof fn law_only_changes_are_published(state: Election, event: Event)
    requires
        state.wf(),
    ensures
        state.next(event).1 matches Action::Publish(leader) ==> leader != state.leader && leader
            == state.next(event).0.leader,
        state.next(event).0.leader != state.leader ==> state.next(event).1 is Publish,
{
}

/// Any answer to a renewal but success demotes the leader at once.
pub proof fn law_failed_renewal_demotes(state: Election, answer: Result<bool, Error>)
    requires
        state.phase is Renewing,
    ensures
        answer == Ok::<bool, Error>(true) ==> state.next(Event::Renewed(answer)) == (
            Election { leader: state.leader, phase: Phase::Idle },
            Action::Wait,
        ),
        answer != Ok::<bool, Error>(true) ==> state.next(Event::Renewed(answer)) == (
            Election { leader: false, phase: Phase::Idle },
            Action::Publish(false),
        ),
{
}

/// The only way to become leader is a successful acquisition.
pub proof fn law_leader_by_acquisition_only(state: Election, event: Event)
    requires
        !state.leader,
        state.next(event).0.leader,
    ensures
        state.phase is Acquiring,
        event == Event::Acquired(Ok(true)),
{
}

/// The only way to lose leadership is a renewal that did not succeed.
pub proof fn law_demoted_by_renewal_only(state: Election, event: Event)
    requires
        state.leader,
        !state.next(event).0.leader,
    ensures
        state.phase is Renewing,
        event matches Event::Renewed(answer) && answer != Ok::<bool, Error>(true),
{
}

/// A shutdown releases the lock exactly if this node is the leader, and then stops.
pub proof fn law_shutdown_releases(state: Election, answer: Result<(), Error>)
    requires
        state.phase is Idle,
    ensures
        state.leader ==> state.next(Event::Shutdown).1 is Release && state.next(
            Event::Shutdown,
        ).0.next(Event::Released(answer)).1 is Stop,
        !state.leader ==> state.next(Event::Shutdown).1 is Stop,
{
}

/// A request to shut down that comes during an acquisition or a renewal does not interrupt it. Once
/// the backend has answered, the request releases the lock exactly if the node is leader by then.
pub proof fn law_shutdown_waits_for_the_answer(state: Election, answer: Result<bool, Error>)
    ensures
        !(state.phase is Idle) ==> state.next(Event::Shutdown) == (state, Action::Wait),
        state.wf() && state.phase is Acquiring ==> state.next(
            Event::Acquired(answer),
        ).0.next(Event::Shutdown).1 == if answer == Ok::<bool, Error>(true) {
            Action::Release
        } else {
            Action::Stop
        },
        state.wf() && state.phase is Renewing ==> state.next(
            Event::Renewed(answer),
        ).0.next(Event::Shutdown).1 == if answer == Ok::<bool, Error>(true) {
            Action::Release
        } else {
            Action::Stop
        },
{
}

/// A dropped coordinator stops in whatever phase it is, without releasing the lock.
pub proof fn law_dropped_does_not_release(state: Election)
    requires
        !(state.phase is Stopped),
    ensures
        state.next(Event::Dropped).0.phase is Stopped,
        state.next(Event::Dropped).1 is Stop,
{
}

/// A stopped election does nothing any more.
pub proof fn law_stopped_stays_stopped(state: Election, event: Event)
    requires
        state.phase is Stopped,
    ensures
        state.next(event) == (state, Action::Wait),
{
}

/// An idle election acts on the acquire timer as a follower and on the renew timer as a leader,
/// and on no other timer.
pub proof fn law_timers(state: Election)
    requires
        state.phase is Idle,
    ensures
        state.next(Event::RenewTick).1 is Renew <==> state.leader,
        state.next(Event::AcquireTick).1 is TryAcquire <==> !state.leader,
        state.next(Event::RenewTick).1 is Wait <==> !state.leader,
        state.next(Event::AcquireTick).1 is Wait <==> state.leader,
{
}

} // verus!
