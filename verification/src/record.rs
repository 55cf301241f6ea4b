//! The value of a lock record.

use std::time::SystemTime;

use vstd::prelude::*;

use crate::clock::{epoch_secs, unix_secs};
use crate::decimal::{append_decimal, decimal, parse_u64, parsed};
use crate::text::{split_at_first, split_once, trim, trim_of, Pattern};

verus! {

/// Who holds a lock, and until when.
pub struct LockRecord {
    /// Who holds the lock.
    pub owner_id: String,
    /// When the lease ends, in whole seconds since the Unix epoch.
    pub expires_unix: u64,
}

/// A [`LockRecord`] in contracts.
pub struct Lock {
    pub owner: Seq<char>,
    pub expires_unix: u64,
}

impl Lock {
    /// The text that stands for the lock: `{owner} {expiry in Unix seconds}`.
    pub open spec fn encoded(self) -> Seq<char> {
        self.owner + seq![' '] + decimal(self.expires_unix as nat)
    }

    /// The lock that `s` stands for. The first space ends the owner; white space around the
    /// expiry is ignored.
    pub open spec fn decoded(s: Seq<char>) -> Option<Lock> {
        match split_once(s, ' ') {
            None => None,
            Some((owner, expiry)) => match parsed(trim(expiry, Pattern::WhiteSpace)) {
                None => None,
                Some(expires_unix) => Some(Lock { owner, expires_unix }),
            },
        }
    }

    /// Whether the lease is over at `now`, in whole seconds since the Unix epoch.
    pub open spec fn expired(self, now: u64) -> bool {
        now >= self.expires_unix
    }
}

impl View for LockRecord {
    type V = Lock;

    open spec fn view(&self) -> Lock {
        Lock { owner: self.owner_id@, expires_unix: self.expires_unix }
    }
}

impl LockRecord {
    /// The record of a lease that `owner_id` holds until `expires_at`, cut to whole seconds.
    pub fn new(owner_id: &str, expires_at: SystemTime) -> (record: LockRecord)
        ensures
            record@ == (Lock { owner: owner_id@, expires_unix: epoch_secs(expires_at) }),
            record.owner_id@ == owner_id@,
            record.expires_unix == epoch_secs(expires_at),
    {
        LockRecord { owner_id: owner_id.to_owned(), expires_unix: unix_secs(&expires_at) }
    }

    /// Reads a record from its text, without surrounding quotes.
    pub fn parse(s: &str) -> (record: Option<LockRecord>)
        ensures
            match record {
                Some(r) => Lock::decoded(s@) == Some(r@),
                None => Lock::decoded(s@) is None,
            },
    {
        match split_at_first(s, ' ') {
            None => None,
            Some((owner, expiry)) => match parse_u64(trim_of(expiry, Pattern::WhiteSpace)) {
                None => None,
                Some(expires_unix) => Some(
                    LockRecord { owner_id: owner.to_owned(), expires_unix },
                ),
            },
        }
    }

    /// The text of the record, without surrounding quotes.
    pub fn encode(&self) -> (text: String)
        ensures
            text@ == self@.encoded(),
            text@ == self.owner_id@ + seq![' '] + decimal(self.expires_unix as nat),
    {
        let mut text = self.owner_id.clone();
        proof {
            reveal_strlit(" ");
            assert(" "@ =~= seq![' ']);
        }
        text.append(" ");
        append_decimal(&mut text, self.expires_unix);
        text
    }

    /// Whether the lease is over at a time in whole seconds since the Unix epoch.
    pub fn is_expired_by(&self, now_unix: u64) -> (expired: bool)
        ensures
            expired == self@.expired(now_unix),
            expired == (self.expires_unix <= now_unix),
    {
        now_unix >= self.expires_unix
    }

    /// Whether the lease is over at `now`.
    pub fn is_expired_at(&self, now: &SystemTime) -> (expired: bool)
        ensures
            expired == self@.expired(epoch_secs(*now)),
            expired == (self.expires_unix <= epoch_secs(*now)),
    {
        self.is_expired_by(unix_secs(now))
    }

    /// Whether the lease is over by a reading of the system clock.
    pub fn is_expired(&self) -> (expired: bool)
        ensures
            exists|now: SystemTime| #[trigger]
                call_ensures(SystemTime::now, (), now) && expired == self@.expired(epoch_secs(now)),
            self@.expires_unix == 0 ==> expired,
    {
        let now = SystemTime::now();
        self.is_expired_at(&now)
    }
}

/// A lock record as it is stored in a zone.
pub struct StoredRecord {
    pub record: LockRecord,
    /// The TTL of the record set that holds the record, if it has one.
    pub ttl: Option<i64>,
}

/// A [`StoredRecord`] in contracts.
pub struct StoredLock {
    pub lock: Lock,
    pub ttl: Option<i64>,
}

impl View for StoredRecord {
    type V = StoredLock;

    open spec fn view(&self) -> StoredLock {
        StoredLock { lock: self.record@, ttl: self.ttl }
    }
}

} // verus!
