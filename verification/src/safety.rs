//! The single-leader guarantee: however the nodes that compete for a shard interleave, at most one
//! of them holds a lease that is not over.
//!
//! All nodes read the same clock here; where clocks differ, a node may take a lease to be over
//! before its owner does.

use vstd::prelude::*;

use crate::laws::{
    holds, law_one_lock_per_name, law_swap_is_compare_and_swap, lemma_stores_holds, submitted, Zone,
};
use crate::record::{Lock, StoredLock};
use crate::route53::{name_under, Course, Settings};
use crate::zone::Edit;

verus! {

/// A zone, a clock, and the nodes that compete for one shard.
pub struct World {
    pub zone: Zone,
    /// The time in whole seconds since the Unix epoch.
    pub now: u64,
    /// The lease that each node was granted last and has not released, by the owner of the node.
    pub leases: Map<Seq<char>, Lock>,
}

/// What can happen in a [`World`]. A node acts on what it read earlier, which need not be what the
/// zone holds by now.
pub enum Move {
    /// Time passes.
    Wait { until: u64 },
    /// A node plans an acquisition from what it read by the time `read_at`, and submits it now.
    Acquire { by: Settings, new: Lock, read: Option<StoredLock>, read_at: u64 },
    /// A node plans a renewal from what it read, and submits it now.
    Renew { by: Settings, new: Lock, read: Option<StoredLock> },
    /// A node plans a release from what it read, and submits it now.
    Release { by: Settings, owner: Seq<char>, read: Option<StoredLock> },
}

impl World {
    /// Whether a move can happen: time does not run backwards, and all nodes keep their lock
    /// records under one domain. Their TTLs may differ.
    pub open spec fn allows(self, domain: Seq<char>, m: Move) -> bool {
        match m {
            Move::Wait { until } => self.now <= until,
            Move::Acquire { by, new, read, read_at } => by.domain == domain && read_at <= self.now,
            Move::Renew { by, new, read } => by.domain == domain,
            Move::Release { by, owner, read } => by.domain == domain,
        }
    }

    /// The world after a node follows its plan to take the lock `new`: if the plan is to submit
    /// a batch and the zone accepts it, the node is granted the lease.
    pub open spec fn granted(self, course: Course, new: Lock) -> World {
        match course {
            Course::Settled(_) => self,
            Course::Submit(batch) => match submitted(self.zone, batch.edits) {
                Some(zone) => World { zone, leases: self.leases.insert(new.owner, new), ..self },
                None => self,
            },
        }
    }

    /// The world after a move.
    pub open spec fn next(self, shard: Seq<char>, m: Move) -> World {
        match m {
            Move::Wait { until } => World { now: until, ..self },
            Move::Acquire { by, new, read, read_at } => self.granted(
                by.try_acquire(shard, new, read, read_at),
                new,
            ),
            Move::Renew { by, new, read } => self.granted(by.renew(shard, new, read), new),
            Move::Release { by, owner, read } => match by.release(shard, owner, read) {
                None => self,
                Some(batch) => match submitted(self.zone, batch.edits) {
                    Some(zone) => World { zone, leases: self.leases.remove(owner), ..self },
                    None => self,
                },
            },
        }
    }

    /// The world after a sequence of moves.
    pub open spec fn after(self, shard: Seq<char>, moves: Seq<Move>) -> World
        decreases moves.len(),
    {
        if moves.len() == 0 {
            self
        } else {
            self.after(shard, moves.drop_last()).next(shard, moves.last())
        }
    }

    /// Whether each of a sequence of moves can happen when its turn comes.
    pub open spec fn allows_all(self, domain: Seq<char>, shard: Seq<char>, moves: Seq<Move>) -> bool
        decreases moves.len(),
    {
        moves.len() > 0 ==> self.allows_all(domain, shard, moves.drop_last()) && self.after(
            shard,
            moves.drop_last(),
        ).allows(domain, moves.last())
    }

    /// Whether a node holds a lease that is not over.
    pub open spec fn leads(self, owner: Seq<char>) -> bool {
        self.leases.contains_key(owner) && !self.leases[owner].expired(self.now)
    }

    /// Every lease that is not over stands in the zone, under the given name.
    pub open spec fn safe(self, name: Seq<char>) -> bool {
        &&& forall|owner: Seq<char>| #[trigger]
            self.leases.contains_key(owner) ==> self.leases[owner].owner == owner
        &&& forall|owner: Seq<char>| #[trigger]
            self.leads(owner) ==> holds(self.zone, name, Some(self.leases[owner]))
    }
}

/// A swap that replaces a free lock or one of the same owner keeps every other lease that is not
/// over out of the way.
proof fn lemma_granted_keeps_safe(
    world: World,
    by: Settings,
    shard: Seq<char>,
    read: Option<StoredLock>,
    new: Lock,
)
    requires
        world.safe(by.name_of(shard)),
        read matches Some(old) ==> old.lock.expired(world.now) || old.lock.owner == new.owner,
    ensures
        world.granted(Course::Submit(by.swap(shard, read, new)), new).safe(by.name_of(shard)),
{
    let name = by.name_of(shard);
    let batch = by.swap(shard, read, new);
    let next = world.granted(Course::Submit(batch), new);
    law_swap_is_compare_and_swap(by, world.zone, shard, read, new);
    if submitted(world.zone, batch.edits) is Some {
        lemma_stores_holds(by, world.zone, shard, read);
        assert forall|owner: Seq<char>| #[trigger] next.leads(owner) implies holds(
            next.zone,
            name,
            Some(next.leases[owner]),
        ) by {
            if owner != new.owner {
                assert(world.leads(owner));
                match read {
                    Some(old) => {
                        law_one_lock_per_name(world.zone, name, old.lock, world.leases[owner]);
                    },
                    None => {},
                }
            }
        }
    }
}

/// Every move keeps every lease that is not over in the zone.
pub proof fn law_moves_keep_leases_in_the_zone(
    world: World,
    domain: Seq<char>,
    shard: Seq<char>,
    m: Move,
)
    requires
        world.safe(name_under(domain, shard)),
        world.allows(domain, m),
    ensures
        world.next(shard, m).safe(name_under(domain, shard)),
{
    let name = name_under(domain, shard);
    let next = world.next(shard, m);
    match m {
        Move::Wait { until } => {
            assert forall|owner: Seq<char>| #[trigger] next.leads(owner) implies holds(
                next.zone,
                name,
                Some(next.leases[owner]),
            ) by {
                assert(world.leads(owner));
            }
        },
        Move::Acquire { by, new, read, read_at } => {
            if by.try_acquire(shard, new, read, read_at) is Submit {
                lemma_granted_keeps_safe(world, by, shard, read, new);
            }
        },
        Move::Renew { by, new, read } => {
            if by.renew(shard, new, read) is Submit {
                lemma_granted_keeps_safe(world, by, shard, read, new);
            }
        },
        Move::Release { by, owner, read } => {
            match by.release(shard, owner, read) {
                None => {},
                Some(batch) => {
                    let old = read->0;
                    assert(batch.edits =~= seq![by.deletion(shard, old)]);
                    assert(batch.edits.drop_first() =~= Seq::<Edit>::empty());
                    reveal_with_fuel(submitted, 2);
                    if submitted(world.zone, batch.edits) is Some {
                        assert(by.stores(world.zone, shard, read));
                        lemma_stores_holds(by, world.zone, shard, read);
                        assert forall|other: Seq<char>| #[trigger] next.leads(other) implies holds(
                            next.zone,
                            name,
                            Some(next.leases[other]),
                        ) by {
                            assert(world.leads(other));
                            law_one_lock_per_name(
                                world.zone,
                                name,
                                old.lock,
                                world.leases[other],
                            );
                        }
                    }
                },
            }
        },
    }
}

/// However the moves of the nodes interleave, every lease that is not over stands in the zone.
pub proof fn law_leases_stand_in_the_zone(
    world: World,
    domain: Seq<char>,
    shard: Seq<char>,
    moves: Seq<Move>,
)
    requires
        world.safe(name_under(domain, shard)),
        world.allows_all(domain, shard, moves),
    ensures
        world.after(shard, moves).safe(name_under(domain, shard)),
    decreases moves.len(),
{
    if moves.len() > 0 {
        law_leases_stand_in_the_zone(world, domain, shard, moves.drop_last());
        law_moves_keep_leases_in_the_zone(
            world.after(shard, moves.drop_last()),
            domain,
            shard,
            moves.last(),
        );
    }
}

/// From any zone and time on in which no node has a lease yet, and however the moves of the nodes
/// interleave, no two nodes ever hold a lease that is not over.
pub proof fn law_at_most_one_leader(
    zone: Zone,
    now: u64,
    domain: Seq<char>,
    shard: Seq<char>,
    moves: Seq<Move>,
    a: Seq<char>,
    b: Seq<char>,
)
    requires
        (World { zone, now, leases: Map::empty() }).allows_all(domain, shard, moves),
        (World { zone, now, leases: Map::empty() }).after(shard, moves).leads(a),
        (World { zone, now, leases: Map::empty() }).after(shard, moves).leads(b),
    ensures
        a == b,
{
    let world = World { zone, now, leases: Map::empty() };
    law_leases_stand_in_the_zone(world, domain, shard, moves);
    let last = world.after(shard, moves);
    law_one_lock_per_name(
        last.zone,
        name_under(domain, shard),
        last.leases[a],
        last.leases[b],
    );
}

} // verus!
