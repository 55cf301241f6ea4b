//! What holds of lock records, of the batches that change them, and of the nodes that compete for
//! them.
//!
//! Route53 is modelled by what its users rely on: a zone holds at most one TXT record set per name,
//! a deletion must name the record set exactly as it is stored, a creation must not meet an
//! existing one, and a batch takes effect as a whole or not at all.

use std::time::SystemTime;

use aws_sdk_route53::types::ResourceRecordSet;

use vstd::prelude::*;

use crate::clock::{
    epoch_secs, is_valid_duration, law_later_is_no_fewer_seconds, no_later, since_epoch,
    total_nanos,
};
use crate::decimal::{decimal, is_digit, lemma_decimal, lemma_decimal_parsed};
use crate::identity::is_safe_owner;
use crate::record::{Lock, StoredLock};
use crate::route53::{canonical, current_lock, first_lock, Course, Settings};
use crate::sdk::{sdk_record_set, txt_contents};
use crate::text::{
    lemma_trim_enclosed, lemma_trim_end_done, lemma_trim_end_push, lemma_trim_keeps, trim, Pattern,
};
use crate::zone::{quoted, Batch, ChangeKind, Edit, Listed};

verus! {

/// A stored TXT record set.
pub struct Stored {
    pub ttl: i64,
    pub values: Seq<Seq<char>>,
}

/// The TXT record sets of a zone by their canonical names.
pub type Zone = Map<Seq<char>, Stored>;

/// The record set that an edit names.
pub open spec fn stored(edit: Edit) -> Stored {
    Stored { ttl: edit.ttl, values: seq![quoted(edit.value)] }
}

/// The zone after one edit; `None` if the edit does not fit the zone.
pub open spec fn edited(zone: Zone, edit: Edit) -> Option<Zone> {
    let key = canonical(edit.name);
    match edit.kind {
        ChangeKind::Delete => if zone.contains_key(key) && zone[key] == stored(edit) {
            Some(zone.remove(key))
        } else {
            None
        },
        ChangeKind::Create => if zone.contains_key(key) {
            None
        } else {
            Some(zone.insert(key, stored(edit)))
        },
    }
}

/// The zone after a batch; `None` if the batch is refused.
pub open spec fn submitted(zone: Zone, edits: Seq<Edit>) -> Option<Zone>
    decreases edits.len(),
{
    if edits.len() == 0 {
        Some(zone)
    } else {
        match edited(zone, edits.first()) {
            Some(next) => submitted(next, edits.drop_first()),
            None => None,
        }
    }
}

/// Whether the zone may list `sets` when asked for the first record set from the TXT record set
/// `name` on.
pub open spec fn lists(zone: Zone, name: Seq<char>, sets: Seq<Listed>) -> bool {
    &&& sets.len() <= 1
    &&& if zone.contains_key(canonical(name)) {
        let set = zone[canonical(name)];
        sets.len() == 1 && canonical(sets[0].name) == canonical(name) && sets[0].record_type
            == "TXT"@ && sets[0].ttl == Some(set.ttl) && sets[0].values == set.values
    } else {
        sets.len() == 1 ==> canonical(sets[0].name) != canonical(name) || sets[0].record_type
            != "TXT"@
    }
}

/// Whether the zone holds the given lock under a name, or none. The TTL of the record plays no
/// part.
pub open spec fn holds(zone: Zone, name: Seq<char>, lock: Option<Lock>) -> bool {
    match lock {
        Some(held) => zone.contains_key(canonical(name)) && zone[canonical(name)].values == seq![
            quoted(held.encoded()),
        ],
        None => !zone.contains_key(canonical(name)),
    }
}

impl Settings {
    /// Whether the zone stores the lock of a shard just as it was read, TTL included, or none.
    pub open spec fn stores(self, zone: Zone, shard: Seq<char>, read: Option<StoredLock>) -> bool {
        let key = canonical(self.name_of(shard));
        match read {
            Some(old) => zone.contains_key(key) && zone[key] == stored(self.deletion(shard, old)),
            None => !zone.contains_key(key),
        }
    }
}

/// The zone after a node follows its plan, and what the node is answered.
pub open spec fn followed(zone: Zone, course: Course) -> (Zone, bool) {
    match course {
        Course::Settled(answer) => (zone, answer),
        Course::Submit(batch) => match submitted(zone, batch.edits) {
            Some(next) => (next, true),
            None => (zone, false),
        },
    }
}

/// A hosted zone: its identifier, by which batches are addressed, and its record sets.
pub struct HostedZone {
    pub id: Seq<char>,
    pub sets: Zone,
}

/// The hosted zone after a batch is sent; `None` if the batch is refused, as one that is addressed
/// to another zone is.
pub open spec fn delivered(hosted: HostedZone, batch: Batch) -> Option<HostedZone> {
    if batch.zone_id != hosted.id {
        None
    } else {
        match submitted(hosted.sets, batch.edits) {
            Some(sets) => Some(HostedZone { sets, ..hosted }),
            None => None,
        }
    }
}

/// Whether two zones agree on everything but one name.
pub open spec fn same_but_for(a: Zone, b: Zone, key: Seq<char>) -> bool {
    a.remove(key) == b.remove(key)
}

/// The text of a lock stands for that lock, if its owner has no space.
pub proof fn law_record_round_trip(lock: Lock)
    requires
        !lock.owner.contains(' '),
    ensures
        Lock::decoded(lock.encoded()) == Some(lock),
{
    let expiry = decimal(lock.expires_unix as nat);
    let text = lock.encoded();
    let n = lock.owner.len() as int;
    assert(text[n] == ' ');
    assert(text.contains(' '));
    text.index_of_first_ensures(' ');
    let i = text.index_of_first(' ')->0;
    assert(i == n) by {
        if i < n {
            assert(lock.owner[i] == ' ');
        }
    }
    assert(text.take(n) =~= lock.owner);
    assert(text.skip(n + 1) =~= expiry);
    lemma_decimal(lock.expires_unix as nat);
    lemma_decimal_parsed(lock.expires_unix);
    assert(is_digit(expiry.first()));
    assert(is_digit(expiry.last()));
    lemma_trim_keeps(expiry, Pattern::WhiteSpace);
}

/// The text of a lock is found again inside the quotes of a TXT value, for safe owners.
pub proof fn law_quoted_record_round_trip(lock: Lock)
    requires
        is_safe_owner(lock.owner),
    ensures
        Lock::decoded(trim(quoted(lock.encoded()), Pattern::Char('"'))) == Some(lock),
{
    let text = lock.encoded();
    lemma_decimal(lock.expires_unix as nat);
    let expiry = decimal(lock.expires_unix as nat);
    assert(text.last() == expiry.last());
    assert(is_digit(expiry[expiry.len() - 1]));
    if lock.owner.len() > 0 {
        assert(text.first() == lock.owner[0]);
    } else {
        assert(text.first() == ' ');
    }
    lemma_trim_enclosed(text, '"', Pattern::Char('"'));
    law_record_round_trip(lock);
}

/// Different locks have different texts: the last space ends the owner.
pub proof fn law_different_locks_differ_in_text(a: Lock, b: Lock)
    requires
        a != b,
    ensures
        a.encoded() != b.encoded(),
{
    if a.encoded() == b.encoded() {
        let (m, n) = (a.owner.len() as int, b.owner.len() as int);
        let (x, y) = (decimal(a.expires_unix as nat), decimal(b.expires_unix as nat));
        lemma_decimal(a.expires_unix as nat);
        lemma_decimal(b.expires_unix as nat);
        assert(a.encoded().len() == m + 1 + x.len());
        assert(b.encoded().len() == n + 1 + y.len());
        assert(a.encoded()[m] == ' ');
        assert(b.encoded()[n] == ' ');
        if m < n {
            assert(a.encoded()[n] == x[n - m - 1]);
            assert(is_digit(x[n - m - 1]));
        }
        if n < m {
            assert(b.encoded()[m] == y[m - n - 1]);
            assert(is_digit(y[m - n - 1]));
        }
        assert(m == n);
        assert(a.encoded().take(m) =~= a.owner);
        assert(b.encoded().take(m) =~= b.owner);
        assert(a.encoded().skip(m + 1) =~= x);
        assert(b.encoded().skip(m + 1) =~= y);
        lemma_decimal_parsed(a.expires_unix);
        lemma_decimal_parsed(b.expires_unix);
    }
}

/// A lease that is over stays over.
pub proof fn law_expiry_is_final(lock: Lock, now: u64, later: u64)
    requires
        lock.expired(now),
        now <= later,
    ensures
        lock.expired(later),
{
}

/// A lease that was asked for until `expires_at` is over at every clock reading from then on; it
/// ends early by less than a second; and once it is over by one clock reading, it is over by every
/// later one. The owner plays no part.
pub proof fn law_expiry_follows_the_clock(
    owner: Seq<char>,
    expires_at: SystemTime,
    earlier: SystemTime,
    later: SystemTime,
)
    requires
        no_later(earlier, later),
    ensures
        ({
            let lock = Lock { owner, expires_unix: epoch_secs(expires_at) };
            &&& no_later(expires_at, earlier) ==> lock.expired(epoch_secs(earlier))
            &&& lock.expired(epoch_secs(earlier)) ==> lock.expired(epoch_secs(later))
            &&& match (since_epoch(expires_at), since_epoch(earlier)) {
                (Some(end), Some(now)) => lock.expired(epoch_secs(earlier)) && is_valid_duration(
                    end,
                ) ==> total_nanos(end) - total_nanos(now) < 1_000_000_000,
                _ => true,
            }
        }),
{
    law_later_is_no_fewer_seconds(earlier, later);
    if no_later(expires_at, earlier) {
        law_later_is_no_fewer_seconds(expires_at, earlier);
    }
}

/// What was written under a name is what is read there, with the TTL that it is stored with: the
/// lock that the zone holds, or none.
pub proof fn law_lock_is_read_back(
    zone: Zone,
    name: Seq<char>,
    lock: Option<Lock>,
    sets: Seq<Listed>,
)
    requires
        holds(zone, name, lock),
        lock matches Some(held) ==> is_safe_owner(held.owner),
        lists(zone, name, sets),
    ensures
        current_lock(sets, name) == match lock {
            Some(held) => Some(StoredLock { lock: held, ttl: Some(zone[canonical(name)].ttl) }),
            None => None,
        },
{
    match lock {
        Some(held) => {
            law_quoted_record_round_trip(held);
            assert(sets[0].values.first() == quoted(held.encoded()));
            assert(first_lock(sets[0].values) == Some(held));
        },
        None => {
            if sets.len() == 1 {
                assert(sets.drop_first() =~= Seq::<Listed>::empty());
                assert(current_lock(sets.drop_first(), name) is None);
            }
        },
    }
}

/// The record set that the client is given for a lock reads back as that lock, with its TTL, for
/// safe owners.
pub proof fn law_client_record_set_is_read_back(
    set: ResourceRecordSet,
    name: Seq<char>,
    lock: Lock,
    ttl: i64,
)
    requires
        sdk_record_set(set) == txt_contents(name, lock.encoded(), ttl),
        is_safe_owner(lock.owner),
    ensures
        current_lock(
            seq![
                Listed {
                    name: sdk_record_set(set).name,
                    record_type: sdk_record_set(set).record_type,
                    ttl: sdk_record_set(set).ttl,
                    values: sdk_record_set(set).values,
                },
            ],
            name,
        ) == Some(StoredLock { lock, ttl: Some(ttl) }),
{
    law_quoted_record_round_trip(lock);
    let values = sdk_record_set(set).values;
    assert(values.first() == quoted(lock.encoded()));
    assert(first_lock(values) == Some(lock));
}

/// Different locks have different texts inside quotes, too.
proof fn lemma_quoted_locks_differ(a: Lock, b: Lock)
    requires
        a != b,
    ensures
        quoted(a.encoded()) != quoted(b.encoded()),
{
    law_different_locks_differ_in_text(a, b);
    let (x, y) = (a.encoded(), b.encoded());
    if quoted(x) == quoted(y) {
        assert(quoted(x).len() == x.len() + 2);
        assert(quoted(y).len() == y.len() + 2);
        assert forall|i: int| 0 <= i < x.len() implies x[i] == y[i] by {
            assert(quoted(x)[i + 1] == x[i]);
            assert(quoted(y)[i + 1] == y[i]);
        }
        assert(x =~= y);
    }
}

/// A zone holds no two different locks under one name.
pub proof fn law_one_lock_per_name(zone: Zone, name: Seq<char>, a: Lock, b: Lock)
    requires
        holds(zone, name, Some(a)),
        holds(zone, name, Some(b)),
    ensures
        a == b,
{
    if a != b {
        lemma_quoted_locks_differ(a, b);
        let values = zone[canonical(name)].values;
        assert(values[0] == quoted(a.encoded()));
        assert(values[0] == quoted(b.encoded()));
    }
}

/// A zone that stores a lock as it was read holds that lock.
pub proof fn lemma_stores_holds(
    settings: Settings,
    zone: Zone,
    shard: Seq<char>,
    read: Option<StoredLock>,
)
    requires
        settings.stores(zone, shard, read),
    ensures
        holds(
            zone,
            settings.name_of(shard),
            match read {
                Some(old) => Some(old.lock),
                None => None,
            },
        ),
{
}

/// What a swap does to a zone.
proof fn lemma_swap(
    settings: Settings,
    zone: Zone,
    shard: Seq<char>,
    read: Option<StoredLock>,
    new: Lock,
)
    ensures
        submitted(zone, settings.swap(shard, read, new).edits) == if settings.stores(
            zone,
            shard,
            read,
        ) {
            Some(
                zone.insert(
                    canonical(settings.name_of(shard)),
                    stored(settings.creation(shard, new)),
                ),
            )
        } else {
            None
        },
{
    let key = canonical(settings.name_of(shard));
    let create = settings.creation(shard, new);
    let edits = settings.swap(shard, read, new).edits;
    reveal_with_fuel(submitted, 3);
    match read {
        Some(old) => {
            assert(edits.drop_first() =~= seq![create]);
            assert(edits.drop_first().drop_first() =~= Seq::<Edit>::empty());
            assert(zone.remove(key).insert(key, stored(create)) =~= zone.insert(
                key,
                stored(create),
            ));
        },
        None => {
            assert(edits.drop_first() =~= Seq::<Edit>::empty());
        },
    }
}

/// A batch that swaps the lock of a shard is accepted exactly if the zone still stores the record
/// that it replaces. Then the zone holds the new lock, with the TTL of the locker, and nothing else
/// has changed.
pub proof fn law_swap_is_compare_and_swap(
    settings: Settings,
    zone: Zone,
    shard: Seq<char>,
    read: Option<StoredLock>,
    new: Lock,
)
    ensures
        submitted(zone, settings.swap(shard, read, new).edits) is Some <==> settings.stores(
            zone,
            shard,
            read,
        ),
        submitted(zone, settings.swap(shard, read, new).edits) matches Some(next) ==> holds(
            next,
            settings.name_of(shard),
            Some(new),
        ) && next[canonical(settings.name_of(shard))].ttl == settings.ttl && same_but_for(
            zone,
            next,
            canonical(settings.name_of(shard)),
        ),
{
    lemma_swap(settings, zone, shard, read, new);
    let key = canonical(settings.name_of(shard));
    let set = stored(settings.creation(shard, new));
    assert(zone.insert(key, set).remove(key) =~= zone.remove(key));
}

/// Of two batches that replace the same record, or create one where there is none, the second is
/// refused once the first was accepted, also if the two nodes write different TTLs. (A first batch
/// that writes the record as it stood changes nothing, and so is left out.)
pub proof fn law_one_swap_wins(
    a: Settings,
    b: Settings,
    zone: Zone,
    shard: Seq<char>,
    read: Option<StoredLock>,
    first: Lock,
    second: Lock,
)
    requires
        a.domain == b.domain,
        submitted(zone, a.swap(shard, read, first).edits) is Some,
        read matches Some(old) ==> old.lock != first || b.deletion(shard, old).ttl != a.ttl,
    ensures
        submitted(
            submitted(zone, a.swap(shard, read, first).edits)->0,
            b.swap(shard, read, second).edits,
        ) is None,
{
    lemma_swap(a, zone, shard, read, first);
    let next = submitted(zone, a.swap(shard, read, first).edits)->0;
    lemma_swap(b, next, shard, read, second);
    match read {
        Some(old) => {
            if old.lock != first {
                lemma_quoted_locks_differ(old.lock, first);
                let x = stored(b.deletion(shard, old));
                let y = stored(a.creation(shard, first));
                assert(x.values[0] != y.values[0]);
            }
        },
        None => {},
    }
}

/// A batch that was planned from an old reading is refused if the lock has changed since.
pub proof fn law_stale_swap_is_refused(
    settings: Settings,
    zone: Zone,
    shard: Seq<char>,
    read: StoredLock,
    held: Lock,
    new: Lock,
)
    requires
        holds(zone, settings.name_of(shard), Some(held)),
        read.lock != held,
    ensures
        submitted(zone, settings.swap(shard, Some(read), new).edits) is None,
{
    lemma_swap(settings, zone, shard, Some(read), new);
    if settings.stores(zone, shard, Some(read)) {
        lemma_stores_holds(settings, zone, shard, Some(read));
        law_one_lock_per_name(zone, settings.name_of(shard), read.lock, held);
    }
}

/// An acquisition without a competitor succeeds when there is no lock, when it has expired, and
/// when it already belongs to the caller, whatever TTL it is stored with. The caller then holds the
/// lock, and nothing else has changed.
pub proof fn law_free_lock_is_acquired(
    settings: Settings,
    zone: Zone,
    shard: Seq<char>,
    current: Option<Lock>,
    sets: Seq<Listed>,
    new: Lock,
    now: u64,
)
    requires
        holds(zone, settings.name_of(shard), current),
        current matches Some(held) ==> is_safe_owner(held.owner) && (held.expired(now)
            || held.owner == new.owner),
        lists(zone, settings.name_of(shard), sets),
    ensures
        ({
            let name = settings.name_of(shard);
            let (next, answer) = followed(
                zone,
                settings.try_acquire(shard, new, current_lock(sets, name), now),
            );
            answer && holds(next, name, Some(new)) && same_but_for(zone, next, canonical(name))
        }),
{
    let name = settings.name_of(shard);
    law_lock_is_read_back(zone, name, current, sets);
    law_swap_is_compare_and_swap(settings, zone, shard, current_lock(sets, name), new);
}

/// No acquisition touches a lock that another owner holds: it is answered `false`, and nothing has
/// changed.
pub proof fn law_held_lock_is_not_acquired(
    settings: Settings,
    zone: Zone,
    shard: Seq<char>,
    held: Lock,
    sets: Seq<Listed>,
    new: Lock,
    now: u64,
)
    requires
        holds(zone, settings.name_of(shard), Some(held)),
        is_safe_owner(held.owner),
        !held.expired(now),
        held.owner != new.owner,
        lists(zone, settings.name_of(shard), sets),
    ensures
        settings.try_acquire(shard, new, current_lock(sets, settings.name_of(shard)), now)
            == Course::Settled(false),
        followed(
            zone,
            settings.try_acquire(shard, new, current_lock(sets, settings.name_of(shard)), now),
        ) == (zone, false),
{
    law_lock_is_read_back(zone, settings.name_of(shard), Some(held), sets);
}

/// A node whose acquisition or renewal was answered `true` after a submission holds the lock.
pub proof fn law_winner_holds_the_lock(
    settings: Settings,
    zone: Zone,
    shard: Seq<char>,
    new: Lock,
    read: Option<StoredLock>,
    now: u64,
)
    ensures
        followed(zone, settings.try_acquire(shard, new, read, now)).1 ==> holds(
            followed(zone, settings.try_acquire(shard, new, read, now)).0,
            settings.name_of(shard),
            Some(new),
        ),
        followed(zone, settings.renew(shard, new, read)).1 ==> holds(
            followed(zone, settings.renew(shard, new, read)).0,
            settings.name_of(shard),
            Some(new),
        ),
{
    law_swap_is_compare_and_swap(settings, zone, shard, read, new);
}

/// One holder per shard until expiry: after an acquisition was answered `true`, and before the
/// lease is over, an acquisition by another owner is answered `false` and changes nothing, while
/// one by the holder is answered `true` and leaves the new lease in the zone. The other node may
/// use another TTL.
pub proof fn law_one_holder_until_expiry(
    a: Settings,
    b: Settings,
    zone: Zone,
    shard: Seq<char>,
    granted: Lock,
    read: Option<StoredLock>,
    read_at: u64,
    sets: Seq<Listed>,
    now: u64,
    other: Lock,
    again: Lock,
)
    requires
        a.domain == b.domain,
        followed(zone, a.try_acquire(shard, granted, read, read_at)).1,
        is_safe_owner(granted.owner),
        !granted.expired(now),
        other.owner != granted.owner,
        again.owner == granted.owner,
        lists(
            followed(zone, a.try_acquire(shard, granted, read, read_at)).0,
            a.name_of(shard),
            sets,
        ),
    ensures
        ({
            let name = a.name_of(shard);
            let after = followed(zone, a.try_acquire(shard, granted, read, read_at)).0;
            let (next, answer) = followed(
                after,
                a.try_acquire(shard, again, current_lock(sets, name), now),
            );
            &&& followed(after, b.try_acquire(shard, other, current_lock(sets, name), now)) == (
                after,
                false,
            )
            &&& answer
            &&& holds(next, name, Some(again))
        }),
{
    let after = followed(zone, a.try_acquire(shard, granted, read, read_at)).0;
    law_winner_holds_the_lock(a, zone, shard, granted, read, read_at);
    law_held_lock_is_not_acquired(b, after, shard, granted, sets, other, now);
    law_free_lock_is_acquired(a, after, shard, Some(granted), sets, again, now);
}

/// Two nodes that read the same free lock, each at its own time, do not both get it: once the
/// batch of one is accepted, that of the other is refused. (The lock that the first one takes ends
/// after the time at which it read.)
pub proof fn law_two_candidates_one_leader(
    a: Settings,
    b: Settings,
    zone: Zone,
    shard: Seq<char>,
    current: Option<Lock>,
    sets: Seq<Listed>,
    first: Lock,
    first_now: u64,
    second: Lock,
    second_now: u64,
)
    requires
        a.domain == b.domain,
        holds(zone, a.name_of(shard), current),
        current matches Some(held) ==> is_safe_owner(held.owner) && held.expired(first_now)
            && held.expired(second_now),
        lists(zone, a.name_of(shard), sets),
        !first.expired(first_now),
    ensures
        ({
            let read = current_lock(sets, a.name_of(shard));
            let (next, answer) = followed(zone, a.try_acquire(shard, first, read, first_now));
            answer && followed(next, b.try_acquire(shard, second, read, second_now)) == (
                next,
                false,
            )
        }),
{
    let read = current_lock(sets, a.name_of(shard));
    law_free_lock_is_acquired(a, zone, shard, current, sets, first, first_now);
    law_lock_is_read_back(zone, a.name_of(shard), current, sets);
    law_one_swap_wins(a, b, zone, shard, read, first, second);
}

/// A renewal by the owner of the lock extends it, even after its end and whatever TTL it is stored
/// with, if no one else was faster.
pub proof fn law_own_lock_is_renewed(
    settings: Settings,
    zone: Zone,
    shard: Seq<char>,
    held: Lock,
    sets: Seq<Listed>,
    new: Lock,
)
    requires
        holds(zone, settings.name_of(shard), Some(held)),
        is_safe_owner(held.owner),
        held.owner == new.owner,
        lists(zone, settings.name_of(shard), sets),
    ensures
        ({
            let name = settings.name_of(shard);
            let (next, answer) = followed(
                zone,
                settings.renew(shard, new, current_lock(sets, name)),
            );
            answer && holds(next, name, Some(new)) && same_but_for(zone, next, canonical(name))
        }),
{
    let name = settings.name_of(shard);
    law_lock_is_read_back(zone, name, Some(held), sets);
    law_swap_is_compare_and_swap(settings, zone, shard, current_lock(sets, name), new);
}

/// A renewal gives up if the lock is gone or belongs to someone else.
pub proof fn law_lost_lock_is_not_renewed(
    settings: Settings,
    zone: Zone,
    shard: Seq<char>,
    current: Option<Lock>,
    sets: Seq<Listed>,
    new: Lock,
)
    requires
        holds(zone, settings.name_of(shard), current),
        current matches Some(held) ==> is_safe_owner(held.owner) && held.owner != new.owner,
        lists(zone, settings.name_of(shard), sets),
    ensures
        settings.renew(shard, new, current_lock(sets, settings.name_of(shard))) == Course::Settled(
            false,
        ),
{
    law_lock_is_read_back(zone, settings.name_of(shard), current, sets);
}

/// A release by the owner of the lock removes it, whatever TTL it is stored with, and nothing else.
/// Any node can then acquire the lock at once, whatever the time.
pub proof fn law_released_lock_is_free(
    a: Settings,
    b: Settings,
    zone: Zone,
    shard: Seq<char>,
    held: Lock,
    sets: Seq<Listed>,
    new: Lock,
    later_sets: Seq<Listed>,
    now: u64,
)
    requires
        a.domain == b.domain,
        holds(zone, a.name_of(shard), Some(held)),
        is_safe_owner(held.owner),
        lists(zone, a.name_of(shard), sets),
        lists(zone.remove(canonical(a.name_of(shard))), a.name_of(shard), later_sets),
    ensures
        ({
            let name = a.name_of(shard);
            let free = zone.remove(canonical(name));
            let (next, answer) = followed(
                free,
                b.try_acquire(shard, new, current_lock(later_sets, name), now),
            );
            &&& a.release(shard, held.owner, current_lock(sets, name)) matches Some(batch)
                && submitted(zone, batch.edits) == Some(free)
            &&& answer
            &&& holds(next, name, Some(new))
        }),
{
    let name = a.name_of(shard);
    let free = zone.remove(canonical(name));
    law_lock_is_read_back(zone, name, Some(held), sets);
    let delete = a.deletion(shard, current_lock(sets, name)->0);
    reveal_with_fuel(submitted, 2);
    assert(seq![delete].drop_first() =~= Seq::<Edit>::empty());
    law_free_lock_is_acquired(b, free, shard, None, later_sets, new, now);
}

/// A lock that a node acquired and released again is free: an acquisition by any other node is
/// answered `true` at once, without waiting for the end of the lease.
pub proof fn law_released_lease_is_free_at_once(
    a: Settings,
    b: Settings,
    zone: Zone,
    shard: Seq<char>,
    granted: Lock,
    read: Option<StoredLock>,
    read_at: u64,
    sets: Seq<Listed>,
    later_sets: Seq<Listed>,
    new: Lock,
    now: u64,
)
    requires
        a.domain == b.domain,
        followed(zone, a.try_acquire(shard, granted, read, read_at)).1,
        is_safe_owner(granted.owner),
        lists(
            followed(zone, a.try_acquire(shard, granted, read, read_at)).0,
            a.name_of(shard),
            sets,
        ),
        lists(
            followed(zone, a.try_acquire(shard, granted, read, read_at)).0.remove(
                canonical(a.name_of(shard)),
            ),
            a.name_of(shard),
            later_sets,
        ),
    ensures
        ({
            let name = a.name_of(shard);
            let after = followed(zone, a.try_acquire(shard, granted, read, read_at)).0;
            let free = after.remove(canonical(name));
            let (next, answer) = followed(
                free,
                b.try_acquire(shard, new, current_lock(later_sets, name), now),
            );
            &&& a.release(shard, granted.owner, current_lock(sets, name)) matches Some(batch)
                && submitted(after, batch.edits) == Some(free)
            &&& answer
            &&& holds(next, name, Some(new))
        }),
{
    let after = followed(zone, a.try_acquire(shard, granted, read, read_at)).0;
    law_winner_holds_the_lock(a, zone, shard, granted, read, read_at);
    law_released_lock_is_free(a, b, after, shard, granted, sets, new, later_sets, now);
}

/// A release does nothing if the lock is gone or belongs to someone else.
pub proof fn law_foreign_lock_is_not_released(
    settings: Settings,
    zone: Zone,
    shard: Seq<char>,
    current: Option<Lock>,
    sets: Seq<Listed>,
    owner: Seq<char>,
)
    requires
        holds(zone, settings.name_of(shard), current),
        current matches Some(held) ==> is_safe_owner(held.owner) && held.owner != owner,
        lists(zone, settings.name_of(shard), sets),
    ensures
        settings.release(shard, owner, current_lock(sets, settings.name_of(shard))) is None,
{
    law_lock_is_read_back(zone, settings.name_of(shard), current, sets);
}

/// Different shards have different record names. A zone tells names apart without regard to
/// letter case and final dots, so shards that differ in letter case only share one record.
pub proof fn law_shards_have_their_own_names(settings: Settings, a: Seq<char>, b: Seq<char>)
    requires
        settings.name_of(a) == settings.name_of(b),
    ensures
        a == b,
{
    let tail = seq!['.'] + settings.domain + seq!['.'];
    assert(settings.name_of(a) =~= a + tail);
    assert(settings.name_of(b) =~= b + tail);
    assert((a + tail).len() == a.len() + tail.len());
    assert((b + tail).len() == b.len() + tail.len());
    assert forall|i: int| 0 <= i < a.len() implies a[i] == b[i] by {
        assert((a + tail)[i] == a[i]);
        assert((b + tail)[i] == b[i]);
    }
    assert(a =~= b);
}

/// The base domain of a locker does not end in a dot, and may be given with dots at its end or
/// without.
pub proof fn law_final_dots_of_the_domain_are_ignored(zone_id: Seq<char>, domain: Seq<char>)
    ensures
        Settings::initial(zone_id, domain.push('.')) == Settings::initial(zone_id, domain),
        Settings::initial(zone_id, domain).domain.len() > 0 ==> Settings::initial(
            zone_id,
            domain,
        ).domain.last() != '.',
        Settings::initial(zone_id, Settings::initial(zone_id, domain).domain) == Settings::initial(
            zone_id,
            domain,
        ),
{
    lemma_trim_end_push(domain, '.', Pattern::Char('.'));
    lemma_trim_end_done(domain, Pattern::Char('.'));
}

/// The hosted zone may be given with its `/hostedzone/` prefix or without.
pub proof fn law_hosted_zone_prefix_is_ignored(zone_id: Seq<char>, domain: Seq<char>)
    requires
        !"/hostedzone/"@.is_prefix_of(zone_id),
    ensures
        Settings::initial("/hostedzone/"@ + zone_id, domain) == Settings::initial(zone_id, domain),
        Settings::initial(zone_id, domain).zone_id == zone_id,
{
    let prefix = "/hostedzone/"@;
    assert(prefix =~= (prefix + zone_id).subrange(0, prefix.len() as int));
    assert((prefix + zone_id).skip(prefix.len() as int) =~= zone_id);
}

proof fn lemma_first_lock_owner_has_no_space(values: Seq<Seq<char>>)
    ensures
        first_lock(values) matches Some(lock) ==> !lock.owner.contains(' '),
    decreases values.len(),
{
    if values.len() > 0 {
        let text = trim(values.first(), Pattern::Char('"'));
        text.index_of_first_ensures(' ');
        lemma_first_lock_owner_has_no_space(values.drop_first());
    }
}

/// Whatever a zone lists, the owner of the lock that is read from it has no space.
pub proof fn law_read_owner_has_no_space(sets: Seq<Listed>, name: Seq<char>)
    ensures
        current_lock(sets, name) matches Some(old) ==> !old.lock.owner.contains(' '),
    decreases sets.len(),
{
    if sets.len() > 0 {
        lemma_first_lock_owner_has_no_space(sets.first().values);
        law_read_owner_has_no_space(sets.drop_first(), name);
    }
}

} // verus!
