use std::time::{Duration, SystemTime, UNIX_EPOCH};

use shard_elect::route53::Plan;
use shard_elect::zone::{ChangeKind, ChangeRequest, RecordSet};
use shard_elect::Route53Locker;

fn at(secs: u64) -> SystemTime {
    UNIX_EPOCH + Duration::from_secs(secs)
}

/// The one lock record of a zone: its TTL and its value.
struct Zone {
    stored: Option<(i64, String)>,
}

impl Zone {
    fn submit(&mut self, request: &ChangeRequest) -> bool {
        let mut stored = self.stored.clone();
        for c in &request.changes {
            let named = Some((c.ttl, c.value.clone()));
            match c.kind {
                ChangeKind::Delete => {
                    if stored != named {
                        return false;
                    }
                    stored = None;
                }
                ChangeKind::Create => {
                    if stored.is_some() {
                        return false;
                    }
                    stored = named;
                }
            }
        }
        self.stored = stored;
        true
    }

    fn list(&self, name: &str) -> Vec<RecordSet> {
        self.stored
            .iter()
            .map(|(ttl, value)| RecordSet {
                name: name.to_string(),
                record_type: "TXT".to_string(),
                ttl: Some(*ttl),
                values: vec![format!("\"{value}\"")],
            })
            .collect()
    }
}

struct Node {
    owner: String,
    locker: Route53Locker,
    read: Vec<RecordSet>,
    read_at: u64,
    lease: Option<u64>,
}

#[test]
fn at_most_one_node_holds_a_lease() {
    let name = Route53Locker::new("Z1", "d").record_name("s");
    let mut seed: u64 = 7;
    let mut random = |n: u64| {
        seed = seed.wrapping_mul(6364136223846793005).wrapping_add(1442695040888963407);
        (seed >> 33) % n
    };
    let mut zone = Zone { stored: None };
    let mut now = 1000;
    let mut nodes: Vec<Node> = (0..3)
        .map(|i| Node {
            owner: format!("n{i}"),
            locker: Route53Locker::new("Z1", "d").with_dns_ttl(60 * i),
            read: vec![],
            read_at: now,
            lease: None,
        })
        .collect();
    let mut granted = 0;
    for _ in 0..20_000 {
        let i = random(3) as usize;
        let node = &mut nodes[i];
        let end = now + 1 + random(9);
        match random(5) {
            0 => now += random(4),
            1 => {
                node.read = zone.list(&name);
                node.read_at = now;
            }
            2 => {
                let read_at = at(node.read_at);
                let plan =
                    node.locker.try_acquire_at("s", &node.owner, at(end), &node.read, &read_at);
                if let Plan::Submit(request) = plan {
                    if zone.submit(&request) {
                        node.lease = Some(end);
                        granted += 1;
                    }
                }
            }
            3 => {
                let plan = node.locker.renew("s", &node.owner, at(end), &node.read);
                if let Plan::Submit(request) = plan {
                    if zone.submit(&request) {
                        node.lease = Some(end);
                    }
                }
            }
            _ => {
                if let Some(request) = node.locker.release("s", &node.owner, &node.read) {
                    if zone.submit(&request) {
                        node.lease = None;
                    }
                }
            }
        }
        let leaders = nodes.iter().filter(|n| n.lease.is_some_and(|end| now < end)).count();
        assert!(leaders <= 1);
    }
    assert!(granted > 100);
}
