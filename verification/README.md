# shard-elect

Distributed leader election with a Route53 hosted zone as the coordination backend, verified with
Verus.

Leadership is stored as a DNS TXT record:

```
Name:  {shard_id}.{base_domain}.
Type:  TXT
Value: "{owner_id} {expiry_unix_secs}"
TTL:   60  (resolver cache only; the lease expiry is in the value)
```

Acquiring and renewing it submits one batch that deletes the old record, with the TTL that it is
stored with, and creates the new one with the TTL of the node. So nodes with different TTLs can
follow each other.
Route53 treats the batch as a transaction: if another node has changed the record since it was read,
the deletion no longer matches, the whole batch is refused, and the node backs off.

## Layout

`src/` holds every decision, with contracts that Verus proves:

- `route53`: what to ask of the zone, how to read its answers, and the batches that acquire, renew
  and release a lock (`Route53Locker`)
- `record`, `zone`, `text`, `decimal`, `clock`, `identity`: lock records and what they are made of
- `sdk`: the values that the AWS client sends and receives
- `coordinator`: the configuration and the state machine of the election loop (`Config`,
  `Coordinator`)
- `locker`: the interface of a lock backend (`Locker`)
- `error`: what can go wrong, with the failure behind it (`Error`)
- `laws`: a lock is read back as it was written; a batch is a compare-and-swap; free, expired and
  own locks are acquired whatever TTL they are stored with, and held ones are not; a shard has one
  holder until the lease expires; a released lock is free at once; expiry follows the clock
- `safety`: however the nodes interleave, no two of them hold a lease at the same time, as long as
  their clocks agree

`app/` runs this in a tokio runtime with the AWS client: the background task, the `watch` channel,
the calls to Route53, and backends written with `async fn`.

`tests/` runs the library on concrete values.

## Owner identifiers

The owner is stored verbatim in the record and ends at the first space. **Do not include spaces,
tabs, or quotes.** The default owner, a random UUID, qualifies.

The zone tells names apart without regard to letter case, so shards that differ in letter case only
share one lock.

## Rule

`renew_period` must be strictly less than `lease_duration`. Three renew periods per lease are the
recommended start: two renewals may be missed before the lease expires.
