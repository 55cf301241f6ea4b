//! The interface of a lock backend.

use std::future::Future;
use std::time::SystemTime;

use vstd::prelude::*;

use crate::error::Error;

verus! {

/// Backend storage for a distributed lock.
///
/// Route53 is the primary backend, but the trait exists so that test doubles and other backends
/// (e.g. DynamoDB, etcd) can be swapped in without changing the coordinator.
///
/// ## Semantics
/// - The futures of `try_acquire` and `renew` give `Ok(true)` on success, `Ok(false)` on
///   contention (another node holds the lock or a compare-and-swap race was lost), and `Err` only
///   for infrastructure failures.
/// - All operations must be safe to call concurrently from several tasks.
/// - Implementations should be idempotent wherever possible.
pub trait Locker: Send + Sync {
    /// What `try_acquire` and `renew` wait for.
    type Attempt<'a>: Future<Output = Result<bool, Error>> + Send where Self: 'a;

    /// What `release` waits for.
    type Release<'a>: Future<Output = Result<(), Error>> + Send where Self: 'a;

    /// Atomically acquires the lock for `shard_id` owned by `owner_id`, valid until
    /// `expires_at`. Gives `true` if the lock was acquired.
    ///
    /// Succeeds when:
    /// - no lock record exists, or
    /// - the existing lock has expired, or
    /// - the existing lock already belongs to `owner_id` (idempotent re-acquire).
    fn try_acquire<'a>(
        &'a self,
        shard_id: &'a str,
        owner_id: &'a str,
        expires_at: SystemTime,
    ) -> Self::Attempt<'a>;

    /// Extends the lease for a lock that `owner_id` currently holds. Gives `false` if the record
    /// no longer belongs to `owner_id`.
    fn renew<'a>(
        &'a self,
        shard_id: &'a str,
        owner_id: &'a str,
        expires_at: SystemTime,
    ) -> Self::Attempt<'a>;

    /// Releases the lock if it is currently held by `owner_id`. Succeeds silently if the record
    /// is missing or owned by someone else.
    fn release<'a>(&'a self, shard_id: &'a str, owner_id: &'a str) -> Self::Release<'a>;
}

} // verus!
