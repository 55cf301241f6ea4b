//! Distributed leader election on Route53 TXT records.
//!
//! Leadership is stored as a TXT record at `{shard_id}.{base_domain}.` with the value
//! `"{owner_id} {expiry_unix_secs}"`. Acquisition and renewal submit a batch of changes that
//! deletes the old record that was read and creates the new one, which makes it a
//! compare-and-swap: if the stored record has changed between the read and the write, Route53
//! refuses the whole batch, and the node backs off.
//!
//! This library holds the decisions: what to ask of the zone, what to make of its answers
//! ([`Route53Locker`]), and when to acquire, renew, release and announce leadership
//! ([`Coordinator`]). Sending requests, waiting for timers and running tasks is left to its user.
//!
//! [`reading`] and [`writing`] state what a lock record is, where it is found, and what is sent to
//! change it, in terms of characters, names and fields. [`laws`] and [`safety`] state what follows:
//! what is written is read back, only one of several competing batches is accepted, and no two
//! nodes hold a lease at the same time.

pub mod clock;
pub mod coordinator;
pub mod decimal;
pub mod error;
pub mod identity;
pub mod laws;
pub mod locker;
pub mod reading;
pub mod record;
pub mod route53;
pub mod safety;
pub mod sdk;
pub mod text;
pub mod writing;
pub mod zone;

pub use coordinator::{Config, Coordinator};
pub use error::Error;
pub use locker::Locker;
pub use route53::Route53Locker;
