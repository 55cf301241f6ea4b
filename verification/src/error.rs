//! What can go wrong.

use aws_sdk_route53::error::SdkError;
use aws_sdk_route53::operation::change_resource_record_sets::ChangeResourceRecordSetsError;
use aws_sdk_route53::operation::list_resource_record_sets::ListResourceRecordSetsError;

use vstd::prelude::*;
use vstd::string::to_string_from_display_ensures;

verus! {

/// An error of an I/O operation, or any other error in the guise of one.
#[verifier::external_type_specification]
#[verifier::external_body]
pub struct ExIoError(std::io::Error);

/// The service's reason for refusing to list record sets.
#[verifier::external_type_specification]
#[verifier::external_body]
pub struct ExListResourceRecordSetsError(ListResourceRecordSetsError);

/// Why a call of a backend failed.
#[derive(Debug)]
pub enum ApiCause {
    /// Route53 did not list record sets.
    List(SdkError<ListResourceRecordSetsError>),
    /// Route53 did not accept a batch of changes.
    Change(SdkError<ChangeResourceRecordSetsError>),
    /// Another backend failed; `std::io::Error::other` takes any error.
    Other(std::io::Error),
}

impl ApiCause {
    /// Whether the cause may be displayed as `shown`.
    pub open spec fn displays(self, shown: String) -> bool {
        match self {
            ApiCause::List(e) => to_string_from_display_ensures::<
                SdkError<ListResourceRecordSetsError>,
            >(&e, shown),
            ApiCause::Change(e) => to_string_from_display_ensures::<
                SdkError<ChangeResourceRecordSetsError>,
            >(&e, shown),
            ApiCause::Other(e) => to_string_from_display_ensures::<std::io::Error>(&e, shown),
        }
    }

    /// What the cause displays.
    pub fn shown(&self) -> (shown: String)
        ensures
            self.displays(shown),
    {
        match self {
            ApiCause::List(e) => e.to_string(),
            ApiCause::Change(e) => e.to_string(),
            ApiCause::Other(e) => e.to_string(),
        }
    }
}

/// An error of the lock backend or of the coordinator.
#[derive(Debug)]
pub enum Error {
    /// Another node won the compare-and-swap race; the caller did not acquire leadership.
    ConditionFailed,
    /// An API call failed for a reason other than contention; holds the failure.
    Api(ApiCause),
    /// The coordinator background task has already stopped.
    Shutdown,
    /// The lock record stored in Route53 is malformed; holds the record.
    MalformedRecord(String),
}

impl Error {
    /// Whether a text describes the error.
    pub open spec fn described_by(self, text: Seq<char>) -> bool {
        match self {
            Error::ConditionFailed => text
                == "condition check failed: another node holds the lock"@,
            Error::Api(cause) => exists|shown: String| #[trigger]
                cause.displays(shown) && text == "Route53 API error: "@ + shown@,
            Error::Shutdown => text == "coordinator is shut down"@,
            Error::MalformedRecord(record) => text == "malformed lock record: "@ + record@,
        }
    }

    /// Describes the error.
    pub fn message(&self) -> (text: String)
        ensures
            self.described_by(text@),
    {
        match self {
            Error::ConditionFailed => {
                "condition check failed: another node holds the lock".to_owned()
            },
            Error::Api(cause) => {
                let shown = cause.shown();
                "Route53 API error: ".to_owned().concat(shown.as_str())
            },
            Error::Shutdown => "coordinator is shut down".to_owned(),
            Error::MalformedRecord(record) => {
                "malformed lock record: ".to_owned().concat(record.as_str())
            },
        }
    }
}

/// Reports a failed API call, and keeps the failure.
pub fn api_err(e: ApiCause) -> (error: Error)
    ensures
        error == Error::Api(e),
{
    Error::Api(e)
}

/// Every error is described by one sentence of its own, followed by what its cause displays or by
/// the record, where it holds one.
pub proof fn law_messages(cause: ApiCause, shown: String, record: String, text: Seq<char>)
    ensures
        Error::ConditionFailed.described_by(text) <==> text
            == "condition check failed: another node holds the lock"@,
        Error::Shutdown.described_by(text) <==> text == "coordinator is shut down"@,
        Error::MalformedRecord(record).described_by(text) <==> text == "malformed lock record: "@
            + record@,
        cause.displays(shown) ==> Error::Api(cause).described_by("Route53 API error: "@ + shown@),
        Error::Api(cause).described_by(text) ==> exists|s: String| #[trigger]
            cause.displays(s) && text == "Route53 API error: "@ + s@,
{
}

/// A cause displays what the failure that it keeps displays.
pub proof fn law_cause_is_displayed(
    list: SdkError<ListResourceRecordSetsError>,
    change: SdkError<ChangeResourceRecordSetsError>,
    other: std::io::Error,
    shown: String,
)
    ensures
        ApiCause::List(list).displays(shown) <==> to_string_from_display_ensures::<
            SdkError<ListResourceRecordSetsError>,
        >(&list, shown),
        ApiCause::Change(change).displays(shown) <==> to_string_from_display_ensures::<
            SdkError<ChangeResourceRecordSetsError>,
        >(&change, shown),
        ApiCause::Other(other).displays(shown) <==> to_string_from_display_ensures::<
            std::io::Error,
        >(&other, shown),
{
}

} // verus!
