use aws_sdk_route53::error::SdkError;
use aws_sdk_route53::operation::change_resource_record_sets::{
    ChangeResourceRecordSetsError, ChangeResourceRecordSetsOutput,
};
use aws_sdk_route53::operation::list_resource_record_sets::ListResourceRecordSetsError;
use aws_sdk_route53::types::error::{InvalidChangeBatch, NoSuchHostedZone};
use aws_sdk_route53::types::{
    Change, ChangeAction, ChangeBatch, ChangeInfo, ChangeStatus, ResourceRecord, ResourceRecordSet,
    RrType,
};
use aws_smithy_runtime_api::http::{Response, StatusCode};
use aws_smithy_types::body::SdkBody;
use aws_smithy_types::DateTime;
use shard_elect::error::{api_err, ApiCause};
use shard_elect::record::{LockRecord, StoredRecord};
use shard_elect::route53::find_lock;
use shard_elect::sdk::{is_condition_failed, txt_rrset, Submission};
use shard_elect::zone::RecordSet;
use shard_elect::{Error, Route53Locker};

type Outcome = Result<ChangeResourceRecordSetsOutput, SdkError<ChangeResourceRecordSetsError>>;

fn record_set(name: &str, value: &str, ttl: i64) -> ResourceRecordSet {
    ResourceRecordSet::builder()
        .name(name)
        .set_type(Some(RrType::Txt))
        .ttl(ttl)
        .resource_records(ResourceRecord::builder().value(value).build().unwrap())
        .build()
        .unwrap()
}

fn change(action: ChangeAction, set: ResourceRecordSet) -> Change {
    Change::builder().action(action).resource_record_set(set).build().unwrap()
}

fn refused(e: ChangeResourceRecordSetsError) -> SdkError<ChangeResourceRecordSetsError> {
    SdkError::service_error(e, Response::new(StatusCode::try_from(400).unwrap(), SdkBody::empty()))
}

fn invalid_batch() -> SdkError<ChangeResourceRecordSetsError> {
    refused(ChangeResourceRecordSetsError::InvalidChangeBatch(
        InvalidChangeBatch::builder().build(),
    ))
}

fn no_zone() -> SdkError<ChangeResourceRecordSetsError> {
    refused(ChangeResourceRecordSetsError::NoSuchHostedZone(NoSuchHostedZone::builder().build()))
}

fn accepted() -> Outcome {
    let info = ChangeInfo::builder()
        .id("C1")
        .status(ChangeStatus::Insync)
        .submitted_at(DateTime::from_secs(0))
        .build()
        .unwrap();
    Ok(ChangeResourceRecordSetsOutput::builder().change_info(info).build())
}

#[test]
fn txt_record_set_has_one_quoted_value() {
    assert_eq!(txt_rrset("a.b.", "o 1", 60), record_set("a.b.", "\"o 1\"", 60));
}

#[test]
fn swap_batch_of_the_client() {
    let record = LockRecord { owner_id: "worker-1".to_string(), expires_unix: 1000 };
    let old = StoredRecord { record, ttl: Some(300) };
    let new = LockRecord { owner_id: "worker-2".to_string(), expires_unix: 2000 };
    let batch = Route53Locker::new("Z1", "d").atomic_swap("s", Some(&old), &new).batch();
    let expected = ChangeBatch::builder()
        .changes(change(ChangeAction::Delete, record_set("s.d.", "\"worker-1 1000\"", 300)))
        .changes(change(ChangeAction::Create, record_set("s.d.", "\"worker-2 2000\"", 60)))
        .build()
        .unwrap();
    assert_eq!(batch, expected);
}

#[test]
fn record_set_of_the_client_is_taken_over() {
    let set = ResourceRecordSet::builder()
        .name("S.d")
        .set_type(Some(RrType::Txt))
        .ttl(300)
        .resource_records(ResourceRecord::builder().value("x").build().unwrap())
        .resource_records(ResourceRecord::builder().value("\"o 7\"").build().unwrap())
        .build()
        .unwrap();
    let taken = RecordSet::from_sdk(&set, RrType::Txt.as_str());
    assert_eq!(taken.name, "S.d");
    assert_eq!(taken.record_type, "TXT");
    assert_eq!(taken.ttl, Some(300));
    assert_eq!(taken.values, vec!["x".to_string(), "\"o 7\"".to_string()]);

    let alias = ResourceRecordSet::builder().name("d").set_type(Some(RrType::A)).build().unwrap();
    let taken = RecordSet::from_sdk(&alias, RrType::A.as_str());
    assert!(taken.values.is_empty());
    assert_eq!(taken.ttl, None);
}

#[test]
fn written_record_set_is_read_back() {
    let lock = LockRecord { owner_id: "host-1".to_string(), expires_unix: 42 };
    let set = txt_rrset("s.d.", &lock.encode(), 90);
    let sets = vec![RecordSet::from_sdk(&set, "TXT")];
    let read = find_lock(&sets, "s.d.").unwrap();
    assert_eq!((read.record.owner_id.as_str(), read.record.expires_unix), ("host-1", 42));
    assert_eq!(read.ttl, Some(90));
}

#[test]
fn only_an_invalid_batch_is_contention() {
    assert!(is_condition_failed(&invalid_batch()));
    assert!(!is_condition_failed(&no_zone()));
    assert!(!is_condition_failed(&SdkError::construction_failure("x")));
    assert!(!is_condition_failed(&SdkError::timeout_error("x")));
}

#[test]
fn swap_outcomes() {
    assert!(matches!(Submission::of(accepted()).swapped(), Ok(true)));
    assert!(matches!(Submission::of(Err(invalid_batch())).swapped(), Ok(false)));
    match Submission::of(Err(no_zone())).swapped() {
        Err(Error::Api(ApiCause::Change(e))) => {
            assert!(e.as_service_error().is_some_and(|s| s.is_no_such_hosted_zone()));
        }
        other => panic!("{other:?}"),
    }
    match Submission::of(Err(SdkError::construction_failure("x"))).swapped() {
        Err(e) => assert_eq!(e.message(), "Route53 API error: failed to construct request"),
        other => panic!("{other:?}"),
    }
}

#[test]
fn failure_keeps_its_cause() {
    let text = no_zone().to_string();
    assert_eq!(ApiCause::Change(no_zone()).shown(), text);
    let list = SdkError::<ListResourceRecordSetsError>::timeout_error("slow");
    assert_eq!(
        api_err(ApiCause::List(list)).message(),
        "Route53 API error: request has timed out"
    );
    let other = api_err(ApiCause::Other(std::io::Error::other("disk full")));
    assert_eq!(other.message(), "Route53 API error: disk full");
    match other {
        Error::Api(ApiCause::Other(e)) => {
            assert_eq!(e.into_inner().unwrap().to_string(), "disk full");
        }
        other => panic!("{other:?}"),
    }
}

#[test]
fn release_outcomes() {
    assert!(Submission::of(accepted()).released().is_ok());
    assert!(Submission::of(Err(invalid_batch())).released().is_ok());
    assert!(matches!(Submission::of(Err(no_zone())).released(), Err(Error::Api(_))));
}
