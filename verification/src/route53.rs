//! A lock backend on TXT records of a Route53 hosted zone.

use std::time::SystemTime;

use vstd::prelude::*;

use crate::clock::{epoch_secs, unix_secs};
use crate::decimal::decimal;
use crate::record::{Lock, LockRecord, StoredLock, StoredRecord};
use crate::text::{
    lowercase, same_text, strip_prefix_or_keep, to_lowercase, trim, trim_end, trim_end_of, trim_of,
    without_prefix, Pattern,
};
use crate::zone::{
    listed, texts, Batch, ChangeKind, ChangeRequest, Edit, ListRequest, Listed, RecordSet,
    TxtChange,
};

verus! {

/// How long resolvers may cache a lock record, in seconds, unless set otherwise.
pub const DEFAULT_DNS_TTL: i64 = 60;

/// A lock backend on TXT records of a Route53 hosted zone.
///
/// Each shard gets a TXT record at `{shard_id}.{base_domain}.` whose value is
/// `"{owner_id} {expiry_unix_secs}"`. Leadership is transferred by a batch of changes that deletes
/// the old record, with the TTL that it is stored with, and creates the new one: if the deletion no
/// longer fits (another node was faster), Route53 refuses the whole batch with
/// `InvalidChangeBatch`.
///
/// A locker says what to ask of the zone and what to make of the answers; sending the requests is
/// up to its user.
///
/// ## Rate limits
/// Route53 allows about 5 `ChangeResourceRecordSets` calls per second and hosted zone. With a
/// 10-second renew period you can safely manage about 25 shards per zone.
pub struct Route53Locker {
    hosted_zone_id: String,
    base_domain: String,
    /// DNS TTL on the TXT record (does not affect lease expiry, only resolver caching).
    dns_ttl: i64,
}

/// A [`Route53Locker`] in contracts.
pub struct Settings {
    pub zone_id: Seq<char>,
    pub domain: Seq<char>,
    pub ttl: i64,
}

/// What to do about a lock, given what the zone lists.
pub enum Plan {
    /// Nothing is left to do; this is the answer.
    Settled(bool),
    /// The changes are to be submitted.
    Submit(ChangeRequest),
}

/// A [`Plan`] in contracts.
pub enum Course {
    Settled(bool),
    Submit(Batch),
}

impl View for Plan {
    type V = Course;

    open spec fn view(&self) -> Course {
        match *self {
            Plan::Settled(answer) => Course::Settled(answer),
            Plan::Submit(request) => Course::Submit(request@),
        }
    }
}

/// A domain name in the form in which names are compared: in lower case, without final dots.
pub open spec fn canonical(name: Seq<char>) -> Seq<char> {
    trim_end(lowercase(name), Pattern::Char('.'))
}

/// The first lock among the values of a record set, without the quotes around them.
pub open spec fn first_lock(values: Seq<Seq<char>>) -> Option<Lock>
    decreases values.len(),
{
    if values.len() == 0 {
        None
    } else {
        match Lock::decoded(trim(values.first(), Pattern::Char('"'))) {
            Some(lock) => Some(lock),
            None => first_lock(values.drop_first()),
        }
    }
}

/// Whether a record set is a TXT record set of the given name.
pub open spec fn is_txt_of(set: Listed, name: Seq<char>) -> bool {
    canonical(set.name) == canonical(name) && set.record_type == "TXT"@
}

/// The lock in a record set, with the TTL of the set.
pub open spec fn lock_in_set(set: Listed) -> Option<StoredLock> {
    match first_lock(set.values) {
        Some(lock) => Some(StoredLock { lock, ttl: set.ttl }),
        None => None,
    }
}

/// The first lock among the listed TXT record sets of the given name.
pub open spec fn current_lock(sets: Seq<Listed>, name: Seq<char>) -> Option<StoredLock>
    decreases sets.len(),
{
    if sets.len() == 0 {
        None
    } else if is_txt_of(sets.first(), name) && lock_in_set(sets.first()) is Some {
        lock_in_set(sets.first())
    } else {
        current_lock(sets.drop_first(), name)
    }
}

/// The texts before the first lock among the values of a record set, without the quotes around
/// them: they are no locks.
pub open spec fn ignored_values(values: Seq<Seq<char>>) -> Seq<Seq<char>>
    decreases values.len(),
{
    if values.len() == 0 {
        Seq::empty()
    } else {
        let text = trim(values.first(), Pattern::Char('"'));
        match Lock::decoded(text) {
            Some(_) => Seq::empty(),
            None => seq![text] + ignored_values(values.drop_first()),
        }
    }
}

/// The texts that are passed over until the first lock among the listed TXT record sets of the
/// given name is found.
pub open spec fn ignored_texts(sets: Seq<Listed>, name: Seq<char>) -> Seq<Seq<char>>
    decreases sets.len(),
{
    if sets.len() == 0 {
        Seq::empty()
    } else if !is_txt_of(sets.first(), name) {
        ignored_texts(sets.drop_first(), name)
    } else if lock_in_set(sets.first()) is Some {
        ignored_values(sets.first().values)
    } else {
        ignored_values(sets.first().values) + ignored_texts(sets.drop_first(), name)
    }
}

/// The first lock among the TXT record sets whose names, given in lower case, are `name`. Dots at
/// the end of a name are ignored.
pub open spec fn lock_by_names(
    sets: Seq<Listed>,
    names: Seq<Seq<char>>,
    name: Seq<char>,
) -> Option<StoredLock>
    decreases sets.len(),
{
    if sets.len() == 0 {
        None
    } else if trim_end(names.first(), Pattern::Char('.')) == trim_end(name, Pattern::Char('.'))
        && sets.first().record_type == "TXT"@ && lock_in_set(sets.first()) is Some {
        lock_in_set(sets.first())
    } else {
        lock_by_names(sets.drop_first(), names.drop_first(), name)
    }
}

/// The texts that are passed over until the first lock among the TXT record sets whose names, given
/// in lower case, are `name`. Dots at the end of a name are ignored.
pub open spec fn ignored_by_names(
    sets: Seq<Listed>,
    names: Seq<Seq<char>>,
    name: Seq<char>,
) -> Seq<Seq<char>>
    decreases sets.len(),
{
    if sets.len() == 0 {
        Seq::empty()
    } else if trim_end(names.first(), Pattern::Char('.')) != trim_end(name, Pattern::Char('.'))
        || sets.first().record_type != "TXT"@ {
        ignored_by_names(sets.drop_first(), names.drop_first(), name)
    } else if lock_in_set(sets.first()) is Some {
        ignored_values(sets.first().values)
    } else {
        ignored_values(sets.first().values) + ignored_by_names(
            sets.drop_first(),
            names.drop_first(),
            name,
        )
    }
}

/// Comparing lower-case names is comparing canonical names.
proof fn lemma_by_names(sets: Seq<Listed>, names: Seq<Seq<char>>, name: Seq<char>)
    requires
        names.len() == sets.len(),
        forall|i: int| 0 <= i < sets.len() ==> #[trigger] names[i] == lowercase(sets[i].name),
    ensures
        lock_by_names(sets, names, lowercase(name)) == current_lock(sets, name),
        ignored_by_names(sets, names, lowercase(name)) == ignored_texts(sets, name),
    decreases sets.len(),
{
    if sets.len() > 0 {
        assert(names.first() == lowercase(sets.first().name));
        lemma_by_names(sets.drop_first(), names.drop_first(), name);
    }
}

/// The stored lock that a record stands for, or none.
pub open spec fn found_lock(record: Option<StoredRecord>) -> Option<StoredLock> {
    match record {
        Some(r) => Some(r@),
        None => None,
    }
}

/// The stored lock that a borrowed record stands for, or none.
pub open spec fn lock_of(record: Option<&StoredRecord>) -> Option<StoredLock> {
    match record {
        Some(r) => Some(r@),
        None => None,
    }
}

/// The domain name of the lock record of a shard under a base domain.
pub open spec fn name_under(domain: Seq<char>, shard: Seq<char>) -> Seq<char> {
    shard + seq!['.'] + domain + seq!['.']
}

impl Settings {
    /// The settings of a new locker.
    pub open spec fn initial(hosted_zone_id: Seq<char>, base_domain: Seq<char>) -> Settings {
        Settings {
            zone_id: without_prefix(hosted_zone_id, "/hostedzone/"@),
            domain: trim_end(base_domain, Pattern::Char('.')),
            ttl: DEFAULT_DNS_TTL,
        }
    }

    /// The domain name of the lock record of a shard.
    pub open spec fn name_of(self, shard: Seq<char>) -> Seq<char> {
        name_under(self.domain, shard)
    }

    /// The creation of the lock record of a shard, with the TTL of the locker.
    pub open spec fn creation(self, shard: Seq<char>, lock: Lock) -> Edit {
        Edit {
            kind: ChangeKind::Create,
            name: self.name_of(shard),
            ttl: self.ttl,
            value: lock.encoded(),
        }
    }

    /// The deletion of the lock record of a shard, with the TTL that it is stored with. (A record
    /// set without a TTL holds no records; it is given that of the locker.) The value is the text
    /// of the lock: a record that spells the same lock otherwise, say with a second space, stays.
    /// It may be the lock of another owner, one whose identifier ends in a space.
    pub open spec fn deletion(self, shard: Seq<char>, old: StoredLock) -> Edit {
        Edit {
            kind: ChangeKind::Delete,
            name: self.name_of(shard),
            ttl: match old.ttl {
                Some(ttl) => ttl,
                None => self.ttl,
            },
            value: old.lock.encoded(),
        }
    }

    /// Replaces the lock `old`, or none, by the lock `new`.
    pub open spec fn swap(self, shard: Seq<char>, old: Option<StoredLock>, new: Lock) -> Batch {
        Batch {
            zone_id: self.zone_id,
            edits: match old {
                Some(stored) => seq![self.deletion(shard, stored), self.creation(shard, new)],
                None => seq![self.creation(shard, new)],
            },
        }
    }

    /// How to acquire the lock of a shard: not at all while another owner holds it.
    pub open spec fn try_acquire(
        self,
        shard: Seq<char>,
        new: Lock,
        current: Option<StoredLock>,
        now: u64,
    ) -> Course {
        match current {
            Some(old) if !old.lock.expired(now) && old.lock.owner != new.owner => Course::Settled(
                false,
            ),
            _ => Course::Submit(self.swap(shard, current, new)),
        }
    }

    /// How to renew the lock of a shard: only while its owner holds it.
    pub open spec fn renew(
        self,
        shard: Seq<char>,
        new: Lock,
        current: Option<StoredLock>,
    ) -> Course {
        match current {
            Some(old) if old.lock.owner == new.owner => Course::Submit(
                self.swap(shard, current, new),
            ),
            _ => Course::Settled(false),
        }
    }

    /// How to release the lock of a shard, if its owner holds it.
    pub open spec fn release(
        self,
        shard: Seq<char>,
        owner: Seq<char>,
        current: Option<StoredLock>,
    ) -> Option<Batch> {
        match current {
            Some(old) if old.lock.owner == owner => Some(
                Batch { zone_id: self.zone_id, edits: seq![self.deletion(shard, old)] },
            ),
            _ => None,
        }
    }
}

impl View for Route53Locker {
    type V = Settings;

    closed spec fn view(&self) -> Settings {
        Settings {
            zone_id: self.hosted_zone_id@,
            domain: self.base_domain@,
            ttl: self.dns_ttl,
        }
    }
}

/// The first lock among the values of a record set.
fn find_first_lock(values: &Vec<String>) -> (found: Option<LockRecord>)
    ensures
        match found {
            Some(record) => first_lock(texts(values@)) == Some(record@),
            None => first_lock(texts(values@)) is None,
        },
{
    let ghost all = texts(values@);
    let mut i: usize = 0;
    assert(all.skip(0) =~= all);
    while i < values.len()
        invariant
            i <= values@.len(),
            all == texts(values@),
            first_lock(all) == first_lock(all.skip(i as int)),
        decreases values@.len() - i,
    {
        assert(all.skip(i as int).first() == values@[i as int]@);
        assert(all.skip(i as int).drop_first() =~= all.skip(i + 1));
        let text = trim_of(values[i].as_str(), Pattern::Char('"'));
        match LockRecord::parse(text) {
            Some(record) => {
                return Some(record);
            },
            None => {},
        }
        i = i + 1;
    }
    None
}

/// Adds the texts before the first lock among the values of a record set. Tells whether there is a
/// lock.
fn collect_ignored(values: &Vec<String>, ignored: &mut Vec<String>) -> (found: bool)
    ensures
        found == (first_lock(texts(values@)) is Some),
        texts(final(ignored)@) == texts(old(ignored)@) + ignored_values(texts(values@)),
{
    let ghost all = texts(values@);
    let ghost before = texts(ignored@);
    let mut i: usize = 0;
    assert(all.skip(0) =~= all);
    while i < values.len()
        invariant
            i <= values@.len(),
            all == texts(values@),
            before == texts(old(ignored)@),
            first_lock(all) == first_lock(all.skip(i as int)),
            texts(ignored@) + ignored_values(all.skip(i as int)) == before + ignored_values(all),
        decreases values@.len() - i,
    {
        let ghost rest = all.skip(i as int);
        let ghost so_far = texts(ignored@);
        assert(rest.first() == values@[i as int]@);
        assert(rest.drop_first() =~= all.skip(i + 1));
        let text = trim_of(values[i].as_str(), Pattern::Char('"'));
        match LockRecord::parse(text) {
            Some(_) => {
                assert(so_far + Seq::<Seq<char>>::empty() =~= so_far);
                return true;
            },
            None => {},
        }
        ignored.push(text.to_owned());
        assert(texts(ignored@) =~= so_far.push(text@));
        assert(so_far.push(text@) + ignored_values(rest.drop_first()) =~= so_far
            + ignored_values(rest));
        i = i + 1;
    }
    assert(texts(ignored@) + Seq::<Seq<char>>::empty() =~= texts(ignored@));
    false
}

/// The first lock among the TXT record sets whose names, given in lower case, are `lower_name`.
/// Dots at the end of a name are ignored.
pub fn find_lock_by_names(
    sets: &Vec<RecordSet>,
    lower_names: &Vec<String>,
    lower_name: &str,
) -> (found: Option<StoredRecord>)
    requires
        lower_names@.len() == sets@.len(),
    ensures
        found_lock(found) == lock_by_names(
            listed(sets@),
            texts(lower_names@),
            lower_name@,
        ),
{
    let expected = trim_end_of(lower_name, Pattern::Char('.'));
    let ghost all = listed(sets@);
    let ghost names = texts(lower_names@);
    let mut i: usize = 0;
    assert(all.skip(0) =~= all);
    assert(names.skip(0) =~= names);
    while i < sets.len()
        invariant
            i <= sets@.len(),
            lower_names@.len() == sets@.len(),
            all == listed(sets@),
            names == texts(lower_names@),
            expected@ == trim_end(lower_name@, Pattern::Char('.')),
            lock_by_names(all, names, lower_name@) == lock_by_names(
                all.skip(i as int),
                names.skip(i as int),
                lower_name@,
            ),
        decreases sets@.len() - i,
    {
        let set: &RecordSet = &sets[i];
        assert(all.skip(i as int).first() == set@);
        assert(all.skip(i as int).drop_first() =~= all.skip(i + 1));
        assert(names.skip(i as int).first() == lower_names@[i as int]@);
        assert(names.skip(i as int).drop_first() =~= names.skip(i + 1));
        let name = trim_end_of(lower_names[i].as_str(), Pattern::Char('.'));
        if same_text(name, expected) && same_text(set.record_type.as_str(), "TXT") {
            match find_first_lock(&set.values) {
                Some(record) => {
                    return Some(StoredRecord { record, ttl: set.ttl });
                },
                None => {},
            }
        }
        i = i + 1;
    }
    None
}

/// The texts that are passed over until the first lock among the TXT record sets whose names, given
/// in lower case, are `lower_name`. Dots at the end of a name are ignored.
pub fn find_ignored_by_names(
    sets: &Vec<RecordSet>,
    lower_names: &Vec<String>,
    lower_name: &str,
) -> (ignored: Vec<String>)
    requires
        lower_names@.len() == sets@.len(),
    ensures
        texts(ignored@) == ignored_by_names(listed(sets@), texts(lower_names@), lower_name@),
{
    let expected = trim_end_of(lower_name, Pattern::Char('.'));
    let ghost all = listed(sets@);
    let ghost names = texts(lower_names@);
    let ghost result = ignored_by_names(all, names, lower_name@);
    let mut ignored: Vec<String> = Vec::new();
    let mut i: usize = 0;
    assert(all.skip(0) =~= all);
    assert(names.skip(0) =~= names);
    assert(texts(ignored@) + result =~= result);
    while i < sets.len()
        invariant
            i <= sets@.len(),
            lower_names@.len() == sets@.len(),
            all == listed(sets@),
            names == texts(lower_names@),
            result == ignored_by_names(all, names, lower_name@),
            expected@ == trim_end(lower_name@, Pattern::Char('.')),
            texts(ignored@) + ignored_by_names(
                all.skip(i as int),
                names.skip(i as int),
                lower_name@,
            ) == result,
        decreases sets@.len() - i,
    {
        let set: &RecordSet = &sets[i];
        let ghost rest = all.skip(i as int);
        let ghost rest_names = names.skip(i as int);
        let ghost so_far = texts(ignored@);
        assert(rest.first() == set@);
        assert(rest.drop_first() =~= all.skip(i + 1));
        assert(rest_names.first() == lower_names@[i as int]@);
        assert(rest_names.drop_first() =~= names.skip(i + 1));
        let name = trim_end_of(lower_names[i].as_str(), Pattern::Char('.'));
        if same_text(name, expected) && same_text(set.record_type.as_str(), "TXT") {
            if collect_ignored(&set.values, &mut ignored) {
                return ignored;
            }
            assert(so_far + ignored_values(set@.values) + ignored_by_names(
                rest.drop_first(),
                rest_names.drop_first(),
                lower_name@,
            ) =~= so_far + ignored_by_names(rest, rest_names, lower_name@));
        }
        i = i + 1;
    }
    assert(texts(ignored@) + Seq::<Seq<char>>::empty() =~= texts(ignored@));
    ignored
}

/// The names of record sets in lower case.
fn lower_names_of(sets: &Vec<RecordSet>) -> (names: Vec<String>)
    ensures
        names@.len() == sets@.len(),
        forall|i: int|
            0 <= i < sets@.len() ==> (#[trigger] names@[i])@ == lowercase(sets@[i].name@),
{
    let mut names: Vec<String> = Vec::new();
    let mut i: usize = 0;
    while i < sets.len()
        invariant
            i <= sets@.len(),
            names@.len() == i,
            forall|j: int| 0 <= j < i ==> (#[trigger] names@[j])@ == lowercase(sets@[j].name@),
        decreases sets@.len() - i,
    {
        names.push(to_lowercase(sets[i].name.as_str()));
        i = i + 1;
    }
    names
}

/// The first lock among the listed TXT record sets of the given name.
pub fn find_lock(sets: &Vec<RecordSet>, name: &str) -> (found: Option<StoredRecord>)
    ensures
        found_lock(found) == current_lock(listed(sets@), name@),
{
    let lower_names = lower_names_of(sets);
    proof {
        lemma_by_names(listed(sets@), texts(lower_names@), name@);
    }
    find_lock_by_names(sets, &lower_names, to_lowercase(name).as_str())
}

/// The texts that are passed over until the first lock among the listed TXT record sets of the
/// given name is found.
pub fn find_ignored(sets: &Vec<RecordSet>, name: &str) -> (ignored: Vec<String>)
    ensures
        texts(ignored@) == ignored_texts(listed(sets@), name@),
{
    let lower_names = lower_names_of(sets);
    proof {
        lemma_by_names(listed(sets@), texts(lower_names@), name@);
    }
    find_ignored_by_names(sets, &lower_names, to_lowercase(name).as_str())
}

impl Route53Locker {
    /// Creates a locker.
    ///
    /// - `hosted_zone_id`: the Route53 hosted zone ID (`Z...`); the `/hostedzone/` prefix is
    ///   stripped automatically.
    /// - `base_domain`: domain suffix for lock records, e.g. `"locks.internal.example.com"`.
    ///   The final record name will be `{shard_id}.{base_domain}.`
    pub fn new<Z: Into<String>, D: Into<String>>(hosted_zone_id: Z, base_domain: D) -> (locker:
        Self)
        ensures
            exists|zone: String, domain: String|
                call_ensures(Z::into, (hosted_zone_id,), zone) && call_ensures(
                    D::into,
                    (base_domain,),
                    domain,
                ) && locker@ == #[trigger] Settings::initial(zone@, domain@),
    {
        let zone: String = hosted_zone_id.into();
        let domain: String = base_domain.into();
        let locker = Route53Locker {
            hosted_zone_id: strip_prefix_or_keep(zone.as_str(), "/hostedzone/").to_owned(),
            base_domain: trim_end_of(domain.as_str(), Pattern::Char('.')).to_owned(),
            dns_ttl: DEFAULT_DNS_TTL,
        };
        assert(locker@ == Settings::initial(zone@, domain@));
        locker
    }

    /// Overrides the DNS TTL on TXT records (default: 60 seconds).
    pub fn with_dns_ttl(self, ttl_secs: i64) -> (locker: Self)
        ensures
            locker@ == (Settings { ttl: ttl_secs, ..self@ }),
    {
        Route53Locker { dns_ttl: ttl_secs, ..self }
    }

    /// The domain name of the lock record of a shard.
    pub fn record_name(&self, shard_id: &str) -> (name: String)
        ensures
            name@ == self@.name_of(shard_id@),
            name@ == shard_id@ + seq!['.'] + self@.domain + seq!['.'],
    {
        proof {
            reveal_strlit(".");
            assert("."@ =~= seq!['.']);
        }
        shard_id.to_owned().concat(".").concat(self.base_domain.as_str()).concat(".")
    }

    /// What to ask of the zone to find the lock record of a shard: the first record set from its
    /// name on.
    pub fn list_request(&self, shard_id: &str) -> (request: ListRequest)
        ensures
            request.hosted_zone_id@ == self@.zone_id,
            request.start_record_name@ == self@.name_of(shard_id@),
            request.start_record_name@ == shard_id@ + seq!['.'] + self@.domain + seq!['.'],
            request.start_record_type@ == "TXT"@,
            request.max_items == 1,
    {
        ListRequest {
            hosted_zone_id: self.hosted_zone_id.clone(),
            start_record_name: self.record_name(shard_id),
            start_record_type: String::from("TXT"),
            max_items: 1,
        }
    }

    /// The lock of a shard and the TTL that it is stored with, given what the zone lists.
    pub fn get_current(&self, shard_id: &str, sets: &Vec<RecordSet>) -> (found: Option<
        StoredRecord,
    >)
        ensures
            found_lock(found) == current_lock(listed(sets@), self@.name_of(shard_id@)),
    {
        find_lock(sets, self.record_name(shard_id).as_str())
    }

    /// What is found under the name of a shard, without quotes, but is no lock, given what the zone
    /// lists; up to the lock, if there is one.
    pub fn get_ignored(&self, shard_id: &str, sets: &Vec<RecordSet>) -> (ignored: Vec<String>)
        ensures
            texts(ignored@) == ignored_texts(listed(sets@), self@.name_of(shard_id@)),
    {
        find_ignored(sets, self.record_name(shard_id).as_str())
    }

    /// The creation of the lock record of a shard.
    fn create(&self, shard_id: &str, record: &LockRecord) -> (change: TxtChange)
        ensures
            change@ == self@.creation(shard_id@, record@),
            change.kind is Create,
            change.ttl == self@.ttl,
            change.value@ == record.owner_id@ + seq![' '] + decimal(record.expires_unix as nat),
    {
        TxtChange {
            kind: ChangeKind::Create,
            name: self.record_name(shard_id),
            ttl: self.dns_ttl,
            value: record.encode(),
        }
    }

    /// The deletion of the lock record of a shard, with the TTL that it is stored with.
    fn delete(&self, shard_id: &str, old: &StoredRecord) -> (change: TxtChange)
        ensures
            change@ == self@.deletion(shard_id@, old@),
            change.kind is Delete,
            old.ttl matches Some(ttl) ==> change.ttl == ttl,
            change.value@ == old.record.owner_id@ + seq![' '] + decimal(
                old.record.expires_unix as nat,
            ),
    {
        let ttl: i64 = match old.ttl {
            Some(ttl) => ttl,
            None => self.dns_ttl,
        };
        TxtChange {
            kind: ChangeKind::Delete,
            name: self.record_name(shard_id),
            ttl,
            value: old.record.encode(),
        }
    }

    /// The batch that deletes the old record, if there is one, with the TTL that it is stored with,
    /// and creates the new one with the TTL of the locker.
    pub fn atomic_swap(
        &self,
        shard_id: &str,
        old: Option<&StoredRecord>,
        new: &LockRecord,
    ) -> (request: ChangeRequest)
        ensures
            request@ == self@.swap(shard_id@, lock_of(old), new@),
            request.hosted_zone_id@ == self@.zone_id,
            request.changes@.len() == if old is Some {
                2int
            } else {
                1int
            },
            forall|i: int|
                0 <= i < request.changes@.len() ==> (#[trigger] request.changes@[i]).name@
                    == shard_id@ + seq!['.'] + self@.domain + seq!['.'],
            request.changes@.last().kind is Create,
            request.changes@.last().ttl == self@.ttl,
            request.changes@.last().value@ == new.owner_id@ + seq![' '] + decimal(
                new.expires_unix as nat,
            ),
            old matches Some(stored) ==> request.changes@[0].kind is Delete
                && request.changes@[0].value@ == stored.record.owner_id@ + seq![' '] + decimal(
                stored.record.expires_unix as nat,
            ),
            old matches Some(stored) ==> (stored.ttl matches Some(ttl)
                ==> request.changes@[0].ttl == ttl),
    {
        let mut changes: Vec<TxtChange> = Vec::new();
        match old {
            Some(stored) => {
                changes.push(self.delete(shard_id, stored));
            },
            None => {},
        }
        changes.push(self.create(shard_id, new));
        let request = ChangeRequest { hosted_zone_id: self.hosted_zone_id.clone(), changes };
        assert(request@.edits =~= self@.swap(shard_id@, lock_of(old), new@).edits);
        request
    }

    /// How to take the lock of a shard, given who holds it and the time in Unix seconds: not at
    /// all while another owner holds it.
    pub fn decide_acquire(
        &self,
        shard_id: &str,
        current: Option<&StoredRecord>,
        new: &LockRecord,
        now_unix: u64,
    ) -> (plan: Plan)
        ensures
            plan@ == self@.try_acquire(shard_id@, new@, lock_of(current), now_unix),
            plan == Plan::Settled(false) <==> (current matches Some(existing) && now_unix
                < existing.record.expires_unix && existing.record.owner_id@ != new.owner_id@),
            plan != Plan::Settled(true),
            plan matches Plan::Submit(request) ==> request.hosted_zone_id@ == self@.zone_id,
    {
        match current {
            Some(existing) => if !existing.record.is_expired_by(now_unix) && !same_text(
                existing.record.owner_id.as_str(),
                new.owner_id.as_str(),
            ) {
                Plan::Settled(false)
            } else {
                Plan::Submit(self.atomic_swap(shard_id, Some(existing), new))
            },
            None => Plan::Submit(self.atomic_swap(shard_id, None, new)),
        }
    }

    /// How to extend the lock of a shard, given who holds it: only while its owner does.
    pub fn decide_renew(
        &self,
        shard_id: &str,
        current: Option<&StoredRecord>,
        new: &LockRecord,
    ) -> (plan: Plan)
        ensures
            plan@ == self@.renew(shard_id@, new@, lock_of(current)),
            plan is Submit <==> (current matches Some(existing) && existing.record.owner_id@
                == new.owner_id@),
            plan != Plan::Settled(true),
            plan matches Plan::Submit(request) ==> request.hosted_zone_id@ == self@.zone_id,
    {
        match current {
            Some(existing) => if same_text(
                existing.record.owner_id.as_str(),
                new.owner_id.as_str(),
            ) {
                Plan::Submit(self.atomic_swap(shard_id, Some(existing), new))
            } else {
                Plan::Settled(false)
            },
            None => Plan::Settled(false),
        }
    }

    /// How to release the lock of a shard, given who holds it; `None` if there is nothing to
    /// release.
    pub fn decide_release(
        &self,
        shard_id: &str,
        current: Option<&StoredRecord>,
        owner_id: &str,
    ) -> (plan: Option<ChangeRequest>)
        ensures
            match plan {
                Some(request) => Some(request@),
                None => None,
            } == self@.release(shard_id@, owner_id@, lock_of(current)),
            plan is Some <==> (current matches Some(existing) && existing.record.owner_id@
                == owner_id@),
            plan matches Some(request) ==> request.hosted_zone_id@ == self@.zone_id,
    {
        match current {
            Some(existing) => if same_text(existing.record.owner_id.as_str(), owner_id) {
                let mut changes: Vec<TxtChange> = Vec::new();
                changes.push(self.delete(shard_id, existing));
                let request = ChangeRequest {
                    hosted_zone_id: self.hosted_zone_id.clone(),
                    changes,
                };
                assert(request@.edits =~= seq![self@.deletion(shard_id@, existing@)]);
                Some(request)
            } else {
                None
            },
            None => None,
        }
    }

    /// How to acquire the lock of a shard until `expires_at`, given what the zone lists at `now`.
    pub fn try_acquire_at(
        &self,
        shard_id: &str,
        owner_id: &str,
        expires_at: SystemTime,
        sets: &Vec<RecordSet>,
        now: &SystemTime,
    ) -> (plan: Plan)
        ensures
            plan@ == self@.try_acquire(
                shard_id@,
                Lock { owner: owner_id@, expires_unix: epoch_secs(expires_at) },
                current_lock(listed(sets@), self@.name_of(shard_id@)),
                epoch_secs(*now),
            ),
            plan matches Plan::Submit(request) ==> request.hosted_zone_id@ == self@.zone_id,
    {
        let new = LockRecord::new(owner_id, expires_at);
        let current = self.get_current(shard_id, sets);
        self.decide_acquire(shard_id, current.as_ref(), &new, unix_secs(now))
    }

    /// How to acquire the lock of a shard until `expires_at`, given what the zone lists, by a
    /// reading of the system clock.
    pub fn try_acquire(
        &self,
        shard_id: &str,
        owner_id: &str,
        expires_at: SystemTime,
        sets: &Vec<RecordSet>,
    ) -> (plan: Plan)
        ensures
            exists|now: SystemTime| #[trigger]
                call_ensures(SystemTime::now, (), now) && plan@ == self@.try_acquire(
                    shard_id@,
                    Lock { owner: owner_id@, expires_unix: epoch_secs(expires_at) },
                    current_lock(listed(sets@), self@.name_of(shard_id@)),
                    epoch_secs(now),
                ),
            plan matches Plan::Submit(request) ==> request.hosted_zone_id@ == self@.zone_id,
    {
        let now = SystemTime::now();
        self.try_acquire_at(shard_id, owner_id, expires_at, sets, &now)
    }

    /// How to renew the lock of a shard until `expires_at`, given what the zone lists.
    pub fn renew(
        &self,
        shard_id: &str,
        owner_id: &str,
        expires_at: SystemTime,
        sets: &Vec<RecordSet>,
    ) -> (plan: Plan)
        ensures
            plan@ == self@.renew(
                shard_id@,
                Lock { owner: owner_id@, expires_unix: epoch_secs(expires_at) },
                current_lock(listed(sets@), self@.name_of(shard_id@)),
            ),
            plan matches Plan::Submit(request) ==> request.hosted_zone_id@ == self@.zone_id,
    {
        let new = LockRecord::new(owner_id, expires_at);
        let current = self.get_current(shard_id, sets);
        self.decide_renew(shard_id, current.as_ref(), &new)
    }

    /// How to release the lock of a shard, given what the zone lists; `None` if there is nothing
    /// to release.
    pub fn release(&self, shard_id: &str, owner_id: &str, sets: &Vec<RecordSet>) -> (plan:
        Option<ChangeRequest>)
        ensures
            match plan {
                Some(request) => Some(request@),
                None => None,
            } == self@.release(
                shard_id@,
                owner_id@,
                current_lock(listed(sets@), self@.name_of(shard_id@)),
            ),
            plan matches Some(request) ==> request.hosted_zone_id@ == self@.zone_id,
    {
        let current = self.get_current(shard_id, sets);
        self.decide_release(shard_id, current.as_ref(), owner_id)
    }
}

} // verus!
