//! The values that the Route53 client sends and receives.

use aws_sdk_route53::error::SdkError;
use aws_sdk_route53::operation::change_resource_record_sets::{
    ChangeResourceRecordSetsError, ChangeResourceRecordSetsOutput,
};
use aws_sdk_route53::types::{
    Change, ChangeAction, ChangeBatch, ResourceRecord, ResourceRecordSet, RrType,
};

use vstd::prelude::*;

use crate::error::{api_err, ApiCause, Error};
use crate::zone::{
    quote, quoted, texts, ChangeKind, ChangeRequest, Edit, Listed, RecordSet, TxtChange,
};

verus! {

/// One DNS record.
#[verifier::external_type_specification]
#[verifier::external_body]
pub struct ExResourceRecord(aws_sdk_route53::types::ResourceRecord);

/// The DNS records of one name and type.
#[verifier::external_type_specification]
#[verifier::external_body]
pub struct ExResourceRecordSet(aws_sdk_route53::types::ResourceRecordSet);

/// A change to a record set.
#[verifier::external_type_specification]
#[verifier::external_body]
pub struct ExChange(aws_sdk_route53::types::Change);

/// Changes that are submitted together.
#[verifier::external_type_specification]
#[verifier::external_body]
pub struct ExChangeBatch(aws_sdk_route53::types::ChangeBatch);

/// The answer to an accepted batch.
#[verifier::external_type_specification]
#[verifier::external_body]
pub struct ExChangeResourceRecordSetsOutput(ChangeResourceRecordSetsOutput);

/// The service's reason for refusing a batch.
#[verifier::external_type_specification]
#[verifier::external_body]
pub struct ExChangeResourceRecordSetsError(ChangeResourceRecordSetsError);

/// Why a call of the client failed.
#[verifier::external_type_specification]
#[verifier::external_body]
#[verifier::reject_recursive_types(E)]
#[verifier::reject_recursive_types(R)]
pub struct ExSdkError<E, R>(aws_smithy_runtime_api::client::result::SdkError<E, R>);

/// A raw HTTP response.
#[verifier::external_type_specification]
#[verifier::external_body]
#[verifier::reject_recursive_types(B)]
pub struct ExResponse<B>(aws_smithy_runtime_api::http::Response<B>);

/// The body of a raw HTTP response.
#[verifier::external_type_specification]
#[verifier::external_body]
pub struct ExSdkBody(aws_smithy_types::body::SdkBody);

/// What a record set of the client holds.
pub struct SdkRecordSet {
    pub name: Seq<char>,
    pub record_type: Seq<char>,
    pub ttl: Option<i64>,
    pub values: Seq<Seq<char>>,
    /// Whether no other field is set: set identifier, weight, region, geographic location,
    /// failover, multi-value answer, alias target, health check, traffic policy instance, CIDR
    /// routing and geographic proximity.
    pub simple: bool,
}

/// What a change of the client holds.
pub struct SdkChange {
    pub action: Seq<char>,
    pub record_set: SdkRecordSet,
}

/// What a batch of the client holds.
pub struct SdkBatch {
    pub comment: Option<Seq<char>>,
    /// The changes in order.
    pub changes: Seq<SdkChange>,
}

/// The value of a record.
pub uninterp spec fn sdk_value(record: ResourceRecord) -> Seq<char>;

/// The contents of a record set: its name, the API name of its type, its TTL, the values of its
/// records, and whether it has no other field.
pub uninterp spec fn sdk_record_set(set: ResourceRecordSet) -> SdkRecordSet;

/// The contents of a change: the API name of its action, and its record set.
pub uninterp spec fn sdk_change(change: Change) -> SdkChange;

/// The contents of a batch: its comment and its changes.
pub uninterp spec fn sdk_batch(batch: ChangeBatch) -> SdkBatch;

/// The service error inside the failure of a call, if the service answered with one.
pub uninterp spec fn sdk_service_error(e: SdkError<ChangeResourceRecordSetsError>) -> Option<
    ChangeResourceRecordSetsError,
>;

/// Whether a service error says that the batch was invalid.
pub uninterp spec fn sdk_invalid_change_batch(e: ChangeResourceRecordSetsError) -> bool;

/// `ResourceRecordSet::name` returns the name.
pub assume_specification[ ResourceRecordSet::name ](set: &ResourceRecordSet) -> (name: &str)
    ensures
        name@ == sdk_record_set(*set).name,
;

/// `ResourceRecordSet::ttl` returns the TTL, if the set has one.
pub assume_specification[ ResourceRecordSet::ttl ](set: &ResourceRecordSet) -> (ttl: Option<i64>)
    ensures
        ttl == sdk_record_set(*set).ttl,
;

/// `ResourceRecordSet::resource_records` returns the records in order; none where the set holds
/// no list of records.
pub assume_specification[ ResourceRecordSet::resource_records ](set: &ResourceRecordSet) -> (
    records: &[ResourceRecord])
    ensures
        records@.map_values(|r: ResourceRecord| sdk_value(r)) == sdk_record_set(*set).values,
;

/// `ResourceRecord::value` returns the value.
pub assume_specification[ ResourceRecord::value ](record: &ResourceRecord) -> (value: &str)
    ensures
        value@ == sdk_value(*record),
;

/// `ChangeResourceRecordSetsError::is_invalid_change_batch` tells whether the error is
/// `InvalidChangeBatch`.
pub assume_specification[ ChangeResourceRecordSetsError::is_invalid_change_batch ](
    e: &ChangeResourceRecordSetsError,
) -> (invalid: bool)
    ensures
        invalid == sdk_invalid_change_batch(*e),
;

/// Calls `SdkError::as_service_error`, which returns the service error if the failure holds one.
#[verifier::external_body]
fn as_service_error(e: &SdkError<ChangeResourceRecordSetsError>) -> (service: Option<
    &ChangeResourceRecordSetsError,
>)
    ensures
        match service {
            Some(s) => sdk_service_error(*e) == Some(*s),
            None => sdk_service_error(*e) is None,
        },
{
    e.as_service_error()
}

/// Calls the builder of `ResourceRecord`. The value is the one required field, so building
/// succeeds, and the record has the given value.
#[verifier::external_body]
fn build_record(value: &str) -> (record: ResourceRecord)
    ensures
        sdk_value(record) == value@,
{
    ResourceRecord::builder().value(value).build().expect("resource record has all required fields")
}

/// Calls the builder of `ResourceRecordSet`. Name and type are the required fields, so building
/// succeeds. The set has the given name, the type of the given name, the given TTL and the given
/// record; no other field is set.
#[verifier::external_body]
fn build_record_set(name: &str, record_type: &str, ttl: i64, record: ResourceRecord) -> (set:
    ResourceRecordSet)
    ensures
        sdk_record_set(set) == (SdkRecordSet {
            name: name@,
            record_type: record_type@,
            ttl: Some(ttl),
            values: seq![sdk_value(record)],
            simple: true,
        }),
{
    ResourceRecordSet::builder()
        .name(name)
        .set_type(Some(RrType::from(record_type)))
        .ttl(ttl)
        .resource_records(record)
        .build()
        .expect("resource record set has all required fields")
}

/// Calls the builder of `Change`. The action is the one required field, so building succeeds, and
/// the change has the action of the given name and the given record set.
#[verifier::external_body]
fn build_change(action: &str, set: ResourceRecordSet) -> (change: Change)
    ensures
        sdk_change(change) == (SdkChange { action: action@, record_set: sdk_record_set(set) }),
{
    Change::builder()
        .action(ChangeAction::from(action))
        .resource_record_set(set)
        .build()
        .expect("change has all required fields")
}

/// Calls the builder of `ChangeBatch`. The list of changes is the one required field, so building
/// succeeds. The batch has the given changes in the given order, and no comment.
#[verifier::external_body]
fn build_change_batch(changes: Vec<Change>) -> (batch: ChangeBatch)
    ensures
        sdk_batch(batch) == (SdkBatch {
            comment: None,
            changes: changes@.map_values(|c: Change| sdk_change(c)),
        }),
{
    ChangeBatch::builder()
        .set_changes(Some(changes))
        .build()
        .expect("change_batch has all required fields")
}

/// The name of a kind of change in the Route53 API.
pub open spec fn action_name(kind: ChangeKind) -> Seq<char> {
    match kind {
        ChangeKind::Create => "CREATE"@,
        ChangeKind::Delete => "DELETE"@,
    }
}

/// The TXT record set whose one record is `value` in quotes, with no other field.
pub open spec fn txt_contents(name: Seq<char>, value: Seq<char>, ttl: i64) -> SdkRecordSet {
    SdkRecordSet {
        name,
        record_type: "TXT"@,
        ttl: Some(ttl),
        values: seq![quoted(value)],
        simple: true,
    }
}

/// What the client is given for a change.
pub open spec fn sdk_contents(edit: Edit) -> SdkChange {
    SdkChange {
        action: action_name(edit.kind),
        record_set: txt_contents(edit.name, edit.value, edit.ttl),
    }
}

/// Makes the TXT record set whose one record is `value` in quotes.
pub fn txt_rrset(name: &str, value: &str, ttl: i64) -> (set: ResourceRecordSet)
    ensures
        sdk_record_set(set) == txt_contents(name@, value@, ttl),
        sdk_record_set(set).name == name@,
        sdk_record_set(set).record_type == "TXT"@,
        sdk_record_set(set).ttl == Some(ttl),
        sdk_record_set(set).values == seq![seq!['"'] + value@ + seq!['"']],
        sdk_record_set(set).simple,
{
    build_record_set(name, "TXT", ttl, build_record(quote(value).as_str()))
}

/// Makes the change for one edit of a zone.
fn sdk_change_for(change: &TxtChange) -> (r: Change)
    ensures
        sdk_change(r) == sdk_contents(change@),
        sdk_change(r).action == if change.kind is Create {
            "CREATE"@
        } else {
            "DELETE"@
        },
        sdk_change(r).record_set.name == change.name@,
        sdk_change(r).record_set.record_type == "TXT"@,
        sdk_change(r).record_set.ttl == Some(change.ttl),
        sdk_change(r).record_set.values == seq![seq!['"'] + change.value@ + seq!['"']],
        sdk_change(r).record_set.simple,
{
    let set = txt_rrset(change.name.as_str(), change.value.as_str(), change.ttl);
    match change.kind {
        ChangeKind::Create => build_change("CREATE", set),
        ChangeKind::Delete => build_change("DELETE", set),
    }
}

impl ChangeRequest {
    /// The batch that the client submits for the request, without a comment.
    pub fn batch(&self) -> (batch: ChangeBatch)
        ensures
            sdk_batch(batch) == (SdkBatch {
                comment: None,
                changes: self@.edits.map_values(|e: Edit| sdk_contents(e)),
            }),
            sdk_batch(batch).comment is None,
            sdk_batch(batch).changes.len() == self.changes@.len(),
            forall|i: int|
                #![trigger sdk_batch(batch).changes[i]]
                0 <= i < self.changes@.len() ==> {
                    let (given, change) = (sdk_batch(batch).changes[i], self.changes@[i]);
                    &&& given.action == if change.kind is Create {
                        "CREATE"@
                    } else {
                        "DELETE"@
                    }
                    &&& given.record_set.name == change.name@
                    &&& given.record_set.record_type == "TXT"@
                    &&& given.record_set.ttl == Some(change.ttl)
                    &&& given.record_set.values == seq![seq!['"'] + change.value@ + seq!['"']]
                    &&& given.record_set.simple
                },
    {
        let mut changes: Vec<Change> = Vec::new();
        let mut i: usize = 0;
        while i < self.changes.len()
            invariant
                i <= self.changes@.len(),
                changes@.len() == i,
                forall|j: int|
                    0 <= j < i ==> sdk_change(#[trigger] changes@[j]) == sdk_contents(
                        self.changes@[j]@,
                    ),
            decreases self.changes@.len() - i,
        {
            changes.push(sdk_change_for(&self.changes[i]));
            i = i + 1;
        }
        let batch = build_change_batch(changes);
        assert(sdk_batch(batch).changes =~= self@.edits.map_values(|e: Edit| sdk_contents(e)));
        batch
    }
}

impl RecordSet {
    /// Takes over a record set of the client, given the name of its type.
    pub fn from_sdk(set: &ResourceRecordSet, record_type: &str) -> (r: RecordSet)
        ensures
            r@ == (Listed {
                name: sdk_record_set(*set).name,
                record_type: record_type@,
                ttl: sdk_record_set(*set).ttl,
                values: sdk_record_set(*set).values,
            }),
            r.name@ == sdk_record_set(*set).name,
            r.record_type@ == record_type@,
            r.ttl == sdk_record_set(*set).ttl,
            r.values@.len() == sdk_record_set(*set).values.len(),
            forall|i: int|
                0 <= i < r.values@.len() ==> (#[trigger] r.values@[i])@ == sdk_record_set(
                    *set,
                ).values[i],
    {
        let records = set.resource_records();
        let mut values: Vec<String> = Vec::new();
        let mut i: usize = 0;
        while i < records.len()
            invariant
                i <= records@.len(),
                values@.len() == i,
                forall|j: int| 0 <= j < i ==> (#[trigger] values@[j])@ == sdk_value(records@[j]),
            decreases records@.len() - i,
        {
            values.push(records[i].value().to_owned());
            i = i + 1;
        }
        assert(texts(values@) =~= records@.map_values(|r: ResourceRecord| sdk_value(r)));
        RecordSet {
            name: set.name().to_owned(),
            record_type: record_type.to_owned(),
            ttl: set.ttl(),
            values,
        }
    }
}

/// Whether a batch was refused because it no longer fits the zone: another node was faster.
pub open spec fn condition_failed(e: SdkError<ChangeResourceRecordSetsError>) -> bool {
    sdk_service_error(e) matches Some(service) && sdk_invalid_change_batch(service)
}

/// Whether a batch was refused because it no longer fits the zone.
pub fn is_condition_failed(e: &SdkError<ChangeResourceRecordSetsError>) -> (failed: bool)
    ensures
        failed == condition_failed(*e),
        failed == (sdk_service_error(*e) matches Some(service) && sdk_invalid_change_batch(
            service,
        )),
{
    match as_service_error(e) {
        Some(service) => service.is_invalid_change_batch(),
        None => false,
    }
}

/// What became of a submitted batch.
#[derive(Debug)]
pub enum Submission {
    /// The batch took effect.
    Accepted,
    /// The batch no longer fitted the zone, and nothing has changed.
    Outdated,
    /// The batch failed for another reason.
    Failed(Error),
}

impl Submission {
    /// What a compare-and-swap reports: `true` if the batch was accepted, `false` if another node
    /// was faster, and an error for every other failure.
    pub fn swapped(self) -> (outcome: Result<bool, Error>)
        ensures
            outcome == match self {
                Submission::Accepted => Ok::<bool, Error>(true),
                Submission::Outdated => Ok::<bool, Error>(false),
                Submission::Failed(e) => Err::<bool, Error>(e),
            },
    {
        match self {
            Submission::Accepted => Ok(true),
            Submission::Outdated => Ok(false),
            Submission::Failed(e) => Err(e),
        }
    }

    /// What a release reports. A record that is already gone or taken is fine.
    pub fn released(self) -> (outcome: Result<(), Error>)
        ensures
            outcome == match self {
                Submission::Accepted | Submission::Outdated => Ok::<(), Error>(()),
                Submission::Failed(e) => Err::<(), Error>(e),
            },
    {
        match self {
            Submission::Accepted | Submission::Outdated => Ok(()),
            Submission::Failed(e) => Err(e),
        }
    }

    /// What became of a batch, by what the client returned. A failure is kept as the cause.
    pub fn of(
        result: Result<ChangeResourceRecordSetsOutput, SdkError<ChangeResourceRecordSetsError>>,
    ) -> (submission: Submission)
        ensures
            submission == match result {
                Ok(_) => Submission::Accepted,
                Err(e) => if condition_failed(e) {
                    Submission::Outdated
                } else {
                    Submission::Failed(Error::Api(ApiCause::Change(e)))
                },
            },
    {
        match result {
            Ok(_) => Submission::Accepted,
            Err(e) => if is_condition_failed(&e) {
                Submission::Outdated
            } else {
                Submission::Failed(api_err(ApiCause::Change(e)))
            },
        }
    }
}

} // verus!
