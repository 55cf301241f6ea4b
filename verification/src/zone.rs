//! Record sets of a hosted zone, and changes to them.

use vstd::prelude::*;

verus! {

/// The texts of a sequence of strings.
pub open spec fn texts(strings: Seq<String>) -> Seq<Seq<char>> {
    strings.map_values(|s: String| s@)
}

/// A text in double quotes.
pub open spec fn quoted(s: Seq<char>) -> Seq<char> {
    seq!['"'] + s + seq!['"']
}

/// A record set as the zone lists it.
pub struct RecordSet {
    /// The domain name of the record set.
    pub name: String,
    /// The DNS type of its records, such as `TXT`.
    pub record_type: String,
    /// How long resolvers may cache the record set, in seconds; an alias has none.
    pub ttl: Option<i64>,
    /// The values of its records; a TXT value stands in double quotes.
    pub values: Vec<String>,
}

/// A [`RecordSet`] in contracts.
pub struct Listed {
    pub name: Seq<char>,
    pub record_type: Seq<char>,
    pub ttl: Option<i64>,
    pub values: Seq<Seq<char>>,
}

impl View for RecordSet {
    type V = Listed;

    open spec fn view(&self) -> Listed {
        Listed {
            name: self.name@,
            record_type: self.record_type@,
            ttl: self.ttl,
            values: texts(self.values@),
        }
    }
}

/// Record sets in the order in which the zone lists them.
pub open spec fn listed(sets: Seq<RecordSet>) -> Seq<Listed> {
    sets.map_values(|s: RecordSet| s@)
}

/// What is asked of the zone to find a lock record.
pub struct ListRequest {
    pub hosted_zone_id: String,
    /// The name to start at.
    pub start_record_name: String,
    /// The type to start at.
    pub start_record_type: String,
    /// How many record sets to list.
    pub max_items: i32,
}

/// Whether a record set is created or deleted.
#[derive(Clone, Copy)]
pub enum ChangeKind {
    Create,
    Delete,
}

/// A change to a TXT record set with one value.
pub struct TxtChange {
    pub kind: ChangeKind,
    /// The domain name of the record set.
    pub name: String,
    /// How long resolvers may cache the record set, in seconds.
    pub ttl: i64,
    /// The text of the record; it is stored in double quotes.
    pub value: String,
}

/// A [`TxtChange`] in contracts.
pub struct Edit {
    pub kind: ChangeKind,
    pub name: Seq<char>,
    pub ttl: i64,
    pub value: Seq<char>,
}

impl View for TxtChange {
    type V = Edit;

    open spec fn view(&self) -> Edit {
        Edit { kind: self.kind, name: self.name@, ttl: self.ttl, value: self.value@ }
    }
}

/// Changes in the order in which they are submitted.
pub open spec fn edits(changes: Seq<TxtChange>) -> Seq<Edit> {
    changes.map_values(|c: TxtChange| c@)
}

/// Changes to a hosted zone that take effect together or not at all.
pub struct ChangeRequest {
    pub hosted_zone_id: String,
    pub changes: Vec<TxtChange>,
}

/// A [`ChangeRequest`] in contracts.
pub struct Batch {
    pub zone_id: Seq<char>,
    pub edits: Seq<Edit>,
}

impl View for ChangeRequest {
    type V = Batch;

    open spec fn view(&self) -> Batch {
        Batch { zone_id: self.hosted_zone_id@, edits: edits(self.changes@) }
    }
}

/// Puts a text in double quotes.
pub fn quote(s: &str) -> (r: String)
    ensures
        r@ == quoted(s@),
        r@ == seq!['"'] + s@ + seq!['"'],
{
    proof {
        reveal_strlit("\"");
        assert("\""@ =~= seq!['"']);
    }
    "\"".to_owned().concat(s).concat("\"")
}

} // verus!
