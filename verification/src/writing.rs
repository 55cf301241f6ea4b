//! What it means to change a lock: which record a batch deletes and which one it creates, where it
//! is sent, and what the client is given for it.

use std::time::SystemTime;

use aws_sdk_route53::error::SdkError;
use aws_sdk_route53::operation::change_resource_record_sets::{
    ChangeResourceRecordSetsError, ChangeResourceRecordSetsOutput,
};

use vstd::prelude::*;

use crate::clock::epoch_secs;
use crate::decimal::decimal;
use crate::error::{ApiCause, Error};
use crate::laws::{
    delivered, holds, law_free_lock_is_acquired, law_lock_is_read_back, law_own_lock_is_renewed,
    law_quoted_record_round_trip, law_record_round_trip, law_swap_is_compare_and_swap, lists,
    same_but_for, stored, submitted, HostedZone,
};
use crate::reading::{law_other_names_are_no_lock, law_prefix_is_cut_once, law_trim_end_cuts};
use crate::record::{Lock, LockRecord, StoredLock, StoredRecord};
use crate::route53::{
    canonical, current_lock, first_lock, name_under, Course, Plan, Route53Locker, Settings,
    DEFAULT_DNS_TTL,
};
use crate::sdk::{
    action_name, condition_failed, sdk_contents, sdk_invalid_change_batch, sdk_service_error,
    txt_contents, Submission,
};
use crate::text::{lowercase, trim_end, Pattern};
use crate::zone::{
    edits, listed, quoted, Batch, ChangeRequest, Edit, ListRequest, Listed, RecordSet, TxtChange,
};

verus! {

/// A new locker works on the hosted zone that it is given, with or without the prefix
/// `/hostedzone/`; on the domain that it is given, without final dots; and with a TTL of 60
/// seconds.
pub proof fn law_new_locker(id: Seq<char>, domain: Seq<char>)
    ensures
        Settings::initial("/hostedzone/"@ + id, domain).zone_id == id,
        (forall|tail: Seq<char>| id != #[trigger] ("/hostedzone/"@ + tail)) ==> Settings::initial(
            id,
            domain,
        ).zone_id == id,
        ({
            let base = Settings::initial(id, domain).domain;
            &&& base.len() <= domain.len()
            &&& base == domain.take(base.len() as int)
            &&& forall|i: int| base.len() <= i < domain.len() ==> #[trigger] domain[i] == '.'
            &&& base.len() > 0 ==> base.last() != '.'
        }),
        Settings::initial(id, domain).ttl == 60,
        DEFAULT_DNS_TTL == 60,
{
    let prefix = "/hostedzone/"@;
    law_trim_end_cuts(domain, Pattern::Char('.'));
    let base = Settings::initial(id, domain).domain;
    assert forall|i: int| base.len() <= i < domain.len() implies #[trigger] domain[i] == '.' by {
        assert(Pattern::Char('.').covers(domain[i]));
    }
    if forall|tail: Seq<char>| id != #[trigger] (prefix + tail) {
        law_prefix_is_cut_once(prefix, id, id);
    }
    let whole = prefix + id;
    assert(whole.subrange(0, prefix.len() as int) =~= prefix);
    assert(whole.skip(prefix.len() as int) =~= id);
}

/// The record of a shard is named by the shard, a dot, the domain and a final dot.
pub proof fn law_record_name(settings: Settings, shard: Seq<char>)
    ensures
        ({
            let (name, n) = (settings.name_of(shard), shard.len() as int);
            &&& name.len() == n + settings.domain.len() + 2
            &&& name.take(n) == shard
            &&& name[n] == '.'
            &&& name.subrange(n + 1, name.len() - 1) == settings.domain
            &&& name.last() == '.'
            &&& name == name_under(settings.domain, shard)
        }),
{
    let (name, n) = (settings.name_of(shard), shard.len() as int);
    assert(name.take(n) =~= shard);
    assert(name.subrange(n + 1, name.len() - 1) =~= settings.domain);
}

/// A quoted text is the text with one quote before and one after it.
pub proof fn law_quoted(s: Seq<char>)
    ensures
        quoted(s).len() == s.len() + 2,
        quoted(s).first() == '"',
        quoted(s).subrange(1, 1 + s.len() as int) == s,
        quoted(s).last() == '"',
{
    assert(quoted(s).subrange(1, 1 + s.len() as int) =~= s);
}

/// Whether a batch goes to the hosted zone of a locker, deletes the record of a shard as it was
/// read, if there is one, creates the record of a new lock with the TTL of the locker, and does
/// nothing else.
pub open spec fn replaces(
    batch: Batch,
    settings: Settings,
    shard: Seq<char>,
    read: Option<StoredLock>,
    new: Lock,
) -> bool {
    let last = batch.edits.len() - 1;
    &&& batch.zone_id == settings.zone_id
    &&& batch.edits.len() == if read is Some {
        2int
    } else {
        1int
    }
    &&& batch.edits[last].kind is Create
    &&& batch.edits[last].name == settings.name_of(shard)
    &&& batch.edits[last].ttl == settings.ttl
    &&& batch.edits[last].value == new.encoded()
    &&& read matches Some(old) ==> {
        &&& batch.edits[0].kind is Delete
        &&& batch.edits[0].name == settings.name_of(shard)
        &&& old.ttl matches Some(ttl) ==> batch.edits[0].ttl == ttl
        &&& old.ttl is None ==> batch.edits[0].ttl == settings.ttl
        &&& batch.edits[0].value == old.lock.encoded()
    }
}

/// A swap replaces the lock that was read, in the hosted zone of the locker.
pub proof fn law_swap_replaces(
    settings: Settings,
    shard: Seq<char>,
    read: Option<StoredLock>,
    new: Lock,
)
    ensures
        replaces(settings.swap(shard, read, new), settings, shard, read, new),
{
}

/// An acquisition is answered `false` at once exactly while another owner holds an unexpired lock;
/// else it replaces what was read, in the hosted zone of the locker.
pub proof fn law_acquisition(
    settings: Settings,
    shard: Seq<char>,
    new: Lock,
    read: Option<StoredLock>,
    now: u64,
)
    ensures
        match settings.try_acquire(shard, new, read, now) {
            Course::Settled(answer) => !answer && (read matches Some(old) && now
                < old.lock.expires_unix && old.lock.owner != new.owner),
            Course::Submit(batch) => replaces(batch, settings, shard, read, new) && (
            read matches Some(old) ==> old.lock.expires_unix <= now || old.lock.owner
                == new.owner),
        },
{
}

/// A renewal replaces the lock exactly if its owner is the one that renews, expired or not, in the
/// hosted zone of the locker; else it is answered `false` at once.
pub proof fn law_renewal(
    settings: Settings,
    shard: Seq<char>,
    new: Lock,
    read: Option<StoredLock>,
)
    ensures
        match settings.renew(shard, new, read) {
            Course::Settled(answer) => !answer && (read matches Some(old) ==> old.lock.owner
                != new.owner),
            Course::Submit(batch) => replaces(batch, settings, shard, read, new) && (
            read matches Some(old) && old.lock.owner == new.owner),
        },
{
}

/// A release deletes the lock exactly if its owner is the one that releases, as it was read, in the
/// hosted zone of the locker, and does nothing else.
pub proof fn law_release(
    settings: Settings,
    shard: Seq<char>,
    owner: Seq<char>,
    read: Option<StoredLock>,
)
    ensures
        match settings.release(shard, owner, read) {
            None => read matches Some(old) ==> old.lock.owner != owner,
            Some(batch) => {
                &&& batch.zone_id == settings.zone_id
                &&& batch.edits.len() == 1
                &&& batch.edits[0].kind is Delete
                &&& batch.edits[0].name == settings.name_of(shard)
                &&& read matches Some(old) && {
                    &&& old.lock.owner == owner
                    &&& batch.edits[0].value == old.lock.encoded()
                    &&& old.ttl matches Some(ttl) ==> batch.edits[0].ttl == ttl
                    &&& old.ttl is None ==> batch.edits[0].ttl == settings.ttl
                }
            },
        },
{
}

/// The acquisition of a free, expired or own lock reaches the hosted zone of the locker, which then
/// stores the text of the new lock in quotes, under the name of the shard and with the TTL of the
/// locker. Nothing else has changed there.
pub proof fn law_acquisition_reaches_the_hosted_zone(
    settings: Settings,
    hosted: HostedZone,
    shard: Seq<char>,
    current: Option<Lock>,
    sets: Seq<Listed>,
    new: Lock,
    now: u64,
)
    requires
        hosted.id == settings.zone_id,
        holds(hosted.sets, settings.name_of(shard), current),
        current matches Some(held) ==> !held.owner.contains(' ') && (held.owner.len() > 0
            ==> held.owner[0] != '"') && (held.expires_unix <= now || held.owner == new.owner),
        lists(hosted.sets, settings.name_of(shard), sets),
    ensures
        ({
            let name = settings.name_of(shard);
            &&& settings.try_acquire(
                shard,
                new,
                current_lock(sets, name),
                now,
            ) matches Course::Submit(batch)
            &&& delivered(hosted, batch) matches Some(next)
            &&& next.id == hosted.id
            &&& next.sets.contains_key(canonical(name))
            &&& next.sets[canonical(name)].ttl == settings.ttl
            &&& next.sets[canonical(name)].values == seq![seq!['"'] + new.encoded() + seq!['"']]
            &&& same_but_for(hosted.sets, next.sets, canonical(name))
        }),
{
    let name = settings.name_of(shard);
    law_free_lock_is_acquired(settings, hosted.sets, shard, current, sets, new, now);
    law_swap_is_compare_and_swap(
        settings,
        hosted.sets,
        shard,
        current_lock(sets, name),
        new,
    );
}

/// The renewal of the own lock reaches the hosted zone of the locker, too.
pub proof fn law_renewal_reaches_the_hosted_zone(
    settings: Settings,
    hosted: HostedZone,
    shard: Seq<char>,
    held: Lock,
    sets: Seq<Listed>,
    new: Lock,
)
    requires
        hosted.id == settings.zone_id,
        holds(hosted.sets, settings.name_of(shard), Some(held)),
        !held.owner.contains(' '),
        held.owner.len() > 0 ==> held.owner[0] != '"',
        held.owner == new.owner,
        lists(hosted.sets, settings.name_of(shard), sets),
    ensures
        ({
            let name = settings.name_of(shard);
            &&& settings.renew(shard, new, current_lock(sets, name)) matches Course::Submit(batch)
            &&& delivered(hosted, batch) matches Some(next)
            &&& next.id == hosted.id
            &&& next.sets.contains_key(canonical(name))
            &&& next.sets[canonical(name)].ttl == settings.ttl
            &&& next.sets[canonical(name)].values == seq![seq!['"'] + new.encoded() + seq!['"']]
            &&& same_but_for(hosted.sets, next.sets, canonical(name))
        }),
{
    let name = settings.name_of(shard);
    law_own_lock_is_renewed(settings, hosted.sets, shard, held, sets, new);
    law_swap_is_compare_and_swap(
        settings,
        hosted.sets,
        shard,
        current_lock(sets, name),
        new,
    );
}

/// The release of the own lock reaches the hosted zone of the locker, which then has no record of
/// the shard.
pub proof fn law_release_reaches_the_hosted_zone(
    settings: Settings,
    hosted: HostedZone,
    shard: Seq<char>,
    held: Lock,
    sets: Seq<Listed>,
)
    requires
        hosted.id == settings.zone_id,
        holds(hosted.sets, settings.name_of(shard), Some(held)),
        !held.owner.contains(' '),
        held.owner.len() > 0 ==> held.owner[0] != '"',
        lists(hosted.sets, settings.name_of(shard), sets),
    ensures
        ({
            let name = settings.name_of(shard);
            &&& settings.release(shard, held.owner, current_lock(sets, name)) matches Some(batch)
            &&& delivered(hosted, batch) matches Some(next)
            &&& next.id == hosted.id
            &&& next.sets == hosted.sets.remove(canonical(name))
        }),
{
    let name = settings.name_of(shard);
    law_lock_is_read_back(hosted.sets, name, Some(held), sets);
    let delete = settings.deletion(shard, current_lock(sets, name)->0);
    reveal_with_fuel(submitted, 2);
    assert(seq![delete].drop_first() =~= Seq::<Edit>::empty());
}

/// A plan stands for the same answer, or for the same request, as it holds; a request for the same
/// zone and changes; and a change for the same fields.
pub proof fn law_planned_values_are_seen_whole(
    answer: bool,
    request: ChangeRequest,
    change: TxtChange,
    i: int,
)
    ensures
        Plan::Settled(answer)@ == Course::Settled(answer),
        Plan::Submit(request)@ == Course::Submit(request@),
        request@.zone_id == request.hosted_zone_id@,
        request@.edits.len() == request.changes@.len(),
        0 <= i < request.changes@.len() ==> request@.edits[i] == request.changes@[i]@,
        request@.edits == edits(request.changes@),
        change@.kind == change.kind,
        change@.name == change.name@,
        change@.ttl == change.ttl,
        change@.value == change.value@,
{
}

/// What the client is given for an edit is the edit: its action by its kind, and a TXT record set
/// with its name, its TTL and its whole value in quotes, and nothing else.
pub proof fn law_client_is_given_the_edit(edit: Edit)
    ensures
        edit.kind is Create ==> sdk_contents(edit).action == "CREATE"@ && action_name(edit.kind)
            == "CREATE"@,
        edit.kind is Delete ==> sdk_contents(edit).action == "DELETE"@ && action_name(edit.kind)
            == "DELETE"@,
        ({
            let set = sdk_contents(edit).record_set;
            &&& set == txt_contents(edit.name, edit.value, edit.ttl)
            &&& set.name == edit.name
            &&& set.record_type == "TXT"@
            &&& set.ttl == Some(edit.ttl)
            &&& set.simple
            &&& set.values.len() == 1
            &&& set.values[0].len() == edit.value.len() + 2
            &&& set.values[0].first() == '"'
            &&& set.values[0].subrange(1, 1 + edit.value.len() as int) == edit.value
            &&& set.values[0].last() == '"'
        }),
{
    law_quoted(edit.value);
}

/// The record set that the client is given for an edit is the one that the zone stores for it.
pub proof fn law_client_is_given_what_is_stored(edit: Edit)
    ensures
        sdk_contents(edit).record_set.values == stored(edit).values,
        sdk_contents(edit).record_set.ttl == Some(stored(edit).ttl),
        stored(edit).ttl == edit.ttl,
        stored(edit).values == seq![seq!['"'] + edit.value + seq!['"']],
{
}

/// The record set that the client is given to create for a lock is read back, under the name of the
/// shard, as that lock with the TTL of the locker.
pub proof fn law_created_record_set_is_read_back(settings: Settings, shard: Seq<char>, lock: Lock)
    requires
        !lock.owner.contains(' '),
        lock.owner.len() > 0 ==> lock.owner[0] != '"',
    ensures
        ({
            let set = sdk_contents(settings.creation(shard, lock)).record_set;
            let sets = seq![
                Listed {
                    name: set.name,
                    record_type: set.record_type,
                    ttl: set.ttl,
                    values: set.values,
                },
            ];
            &&& current_lock(sets, settings.name_of(shard)) matches Some(read)
            &&& read.lock == lock
            &&& read.ttl == Some(settings.ttl)
        }),
{
    let set = sdk_contents(settings.creation(shard, lock)).record_set;
    law_quoted_record_round_trip(lock);
    assert(set.values.first() == quoted(lock.encoded()));
    assert(first_lock(set.values) == Some(lock));
}

/// Contention is a service error that says that the batch was invalid, and nothing else.
pub proof fn law_only_an_invalid_batch_is_contention(e: SdkError<ChangeResourceRecordSetsError>)
    ensures
        match sdk_service_error(e) {
            Some(service) => condition_failed(e) == sdk_invalid_change_batch(service),
            None => !condition_failed(e),
        },
{
}

/// What a compare-and-swap reports of what the client returned: `true` exactly for an accepted
/// batch, `false` exactly for contention, and every other failure as an error that keeps it.
pub proof fn law_swap_outcomes(
    result: Result<ChangeResourceRecordSetsOutput, SdkError<ChangeResourceRecordSetsError>>,
    submission: Submission,
    outcome: Result<bool, Error>,
)
    requires
        call_ensures(Submission::of, (result,), submission),
        call_ensures(Submission::swapped, (submission,), outcome),
    ensures
        match result {
            Ok(_) => outcome == Ok::<bool, Error>(true),
            Err(e) => match sdk_service_error(e) {
                Some(service) if sdk_invalid_change_batch(service) => outcome == Ok::<bool, Error>(
                    false,
                ),
                _ => outcome == Err::<bool, Error>(Error::Api(ApiCause::Change(e))),
            },
        },
{
}

/// What a release reports of what the client returned: success for an accepted batch and for
/// contention, and every other failure as an error that keeps it.
pub proof fn law_release_outcomes(
    result: Result<ChangeResourceRecordSetsOutput, SdkError<ChangeResourceRecordSetsError>>,
    submission: Submission,
    outcome: Result<(), Error>,
)
    requires
        call_ensures(Submission::of, (result,), submission),
        call_ensures(Submission::released, (submission,), outcome),
    ensures
        match result {
            Ok(_) => outcome == Ok::<(), Error>(()),
            Err(e) => match sdk_service_error(e) {
                Some(service) if sdk_invalid_change_batch(service) => outcome == Ok::<(), Error>(
                    (),
                ),
                _ => outcome == Err::<(), Error>(Error::Api(ApiCause::Change(e))),
            },
        },
{
}

/// A locker changes the record that it asks for, and in the same zone: every change of a swap bears
/// the name from which on it lists, and goes to the zone in which it lists.
pub proof fn law_listed_record_is_changed(
    locker: Route53Locker,
    shard: &str,
    old: Option<&StoredRecord>,
    new: &LockRecord,
    list: ListRequest,
    request: ChangeRequest,
    i: int,
)
    requires
        call_ensures(Route53Locker::list_request, (&locker, shard), list),
        call_ensures(Route53Locker::atomic_swap, (&locker, shard, old, new), request),
        0 <= i < request.changes@.len(),
    ensures
        list.start_record_type@ == "TXT"@,
        list.max_items == 1,
        request.hosted_zone_id@ == list.hosted_zone_id@,
        request.changes@[i].name@ == list.start_record_name@,
{
}

/// A record that was encoded is parsed again, if its owner has no space.
pub proof fn law_encoded_record_is_parsed(
    record: LockRecord,
    encoded: String,
    text: &str,
    parsed: Option<LockRecord>,
)
    requires
        call_ensures(LockRecord::encode, (&record,), encoded),
        text@ == encoded@,
        call_ensures(LockRecord::parse, (text,), parsed),
        !record.owner_id@.contains(' '),
    ensures
        parsed matches Some(r) && r.owner_id@ == record.owner_id@ && r.expires_unix
            == record.expires_unix,
{
    law_record_round_trip(record@);
}

/// A lock that is missing is acquired: if nothing that is listed bears the name of the shard, the
/// plan is to send the hosted zone of the locker the one creation of the record of the caller.
pub proof fn law_missing_lock_is_acquired(
    locker: Route53Locker,
    shard: &str,
    owner: &str,
    expires_at: SystemTime,
    sets: &Vec<RecordSet>,
    now: &SystemTime,
    plan: Plan,
)
    requires
        call_ensures(
            Route53Locker::try_acquire_at,
            (&locker, shard, owner, expires_at, sets, now),
            plan,
        ),
        forall|i: int|
            0 <= i < sets@.len() ==> trim_end(
                lowercase((#[trigger] sets@[i]).name@),
                Pattern::Char('.'),
            ) != trim_end(
                lowercase(shard@ + seq!['.'] + locker@.domain + seq!['.']),
                Pattern::Char('.'),
            ),
    ensures
        plan matches Plan::Submit(request) && {
            let created = request.changes@[0];
            &&& request.hosted_zone_id@ == locker@.zone_id
            &&& request.changes@.len() == 1
            &&& created.kind is Create
            &&& created.name@ == shard@ + seq!['.'] + locker@.domain + seq!['.']
            &&& created.ttl == locker@.ttl
            &&& created.value@ == owner@ + seq![' '] + decimal(epoch_secs(expires_at) as nat)
        },
{
    let all = listed(sets@);
    let name = locker@.name_of(shard@);
    let new = Lock { owner: owner@, expires_unix: epoch_secs(expires_at) };
    assert forall|i: int| 0 <= i < all.len() implies trim_end(
        lowercase((#[trigger] all[i]).name),
        Pattern::Char('.'),
    ) != trim_end(lowercase(name), Pattern::Char('.')) by {
        assert(all[i] == sets@[i]@);
    }
    law_other_names_are_no_lock(all, name);
    law_acquisition(locker@, shard@, new, None, epoch_secs(*now));
    match plan {
        Plan::Submit(request) => {
            assert(request@.edits[0] == request.changes@[0]@);
        },
        Plan::Settled(_) => {},
    }
}

/// The lock that is listed decides: another owner gets it only once it has expired; its owner can
/// acquire, renew and release it at any time; and no one else renews or releases it.
pub proof fn law_listed_lock_decides(
    locker: Route53Locker,
    shard: &str,
    owner: &str,
    expires_at: SystemTime,
    sets: &Vec<RecordSet>,
    now: &SystemTime,
    held: Lock,
    acquisition: Plan,
    renewal: Plan,
    release: Option<ChangeRequest>,
)
    requires
        call_ensures(
            Route53Locker::try_acquire_at,
            (&locker, shard, owner, expires_at, sets, now),
            acquisition,
        ),
        call_ensures(Route53Locker::renew, (&locker, shard, owner, expires_at, sets), renewal),
        call_ensures(Route53Locker::release, (&locker, shard, owner, sets), release),
        sets@.len() == 1,
        sets@[0].name@ == shard@ + seq!['.'] + locker@.domain + seq!['.'],
        sets@[0].record_type@ == "TXT"@,
        sets@[0].values@.len() == 1,
        sets@[0].values@[0]@ == seq!['"'] + (held.owner + seq![' '] + decimal(
            held.expires_unix as nat,
        )) + seq!['"'],
        !held.owner.contains(' '),
        held.owner.len() > 0 ==> held.owner[0] != '"',
    ensures
        acquisition is Submit <==> held.expires_unix <= epoch_secs(*now) || held.owner == owner@,
        renewal is Submit <==> held.owner == owner@,
        release is Some <==> held.owner == owner@,
        acquisition matches Plan::Settled(answer) ==> !answer,
        renewal matches Plan::Settled(answer) ==> !answer,
{
    let all = listed(sets@);
    let name = locker@.name_of(shard@);
    let new = Lock { owner: owner@, expires_unix: epoch_secs(expires_at) };
    assert(all[0] == sets@[0]@);
    assert(all[0].values[0] == sets@[0].values@[0]@);
    law_quoted_record_round_trip(held);
    assert(all[0].values.first() == quoted(held.encoded()));
    assert(first_lock(all[0].values) == Some(held));
    let read = current_lock(all, name);
    assert(read matches Some(old) && old.lock == held);
    law_acquisition(locker@, shard@, new, read, epoch_secs(*now));
    law_renewal(locker@, shard@, new, read);
    law_release(locker@, shard@, owner@, read);
}

} // verus!
