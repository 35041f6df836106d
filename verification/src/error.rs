//! Error taxonomy for the polling client.
//!
//! Every failure that a poll cycle can meet is classified into a
//! [`FailureKind`] with a stable numeric code.  Classification is pure: it
//! maps the boolean facts reported by the transport (or task) layer to
//! exactly one kind, with a fixed priority order.  The codes are:
//!
//! * `1` — the request timed out
//! * `2` — a connection could not be established
//! * `3` — the HTTP status indicated failure
//! * `4` — an unexpected or forbidden redirect
//! * `5` — the outgoing request was malformed
//! * `6` — the response body was unreadable or undecodable
//! * `7` — request construction itself failed
//! * `8` — an unclassified transport error
//! * `9` — the check task was cancelled
//! * `10` — the check task panicked
//! * `11` — an unclassified task error
//! * `12` — the write-back of a new session start failed
//! * `13`–`15` — fatal construction errors (missing credential or delay)

use vstd::prelude::*;

verus! {

/// The classified cause of a failed status check.  All kinds are non-fatal
/// to the cycle loop: the engine reports them and continues with the next
/// entity.
#[derive(Clone, Copy, PartialEq, Eq, Structural, Debug)]
pub enum FailureKind {
    /// The request exceeded its deadline.
    Timeout,
    /// A connection could not be established.
    ConnectFailure,
    /// The HTTP status indicated failure.
    StatusFailure,
    /// An unexpected or forbidden redirect.
    RedirectFailure,
    /// The outgoing request was malformed.
    RequestFailure,
    /// The response body was unreadable or undecodable.
    BodyFailure,
    /// Request construction itself failed.
    BuilderFailure,
    /// None of the transport classifications matched.
    Unknown,
    /// The write-back of a new session start failed.
    PersistenceFailure,
    /// The check's own execution was cancelled or crashed.
    TaskFailure,
}

/// The boolean facts a transport error reports about itself; the
/// classification consults them in this fixed priority order.
#[derive(Clone, Copy, PartialEq, Eq, Structural, Debug)]
pub struct TransportFlags {
    pub timeout: bool,
    pub connect: bool,
    pub status: bool,
    pub redirect: bool,
    pub request: bool,
    pub body: bool,
    pub builder: bool,
}

/// The boolean facts a failed check task reports about itself.
#[derive(Clone, Copy, PartialEq, Eq, Structural, Debug)]
pub struct TaskFlags {
    pub cancelled: bool,
    pub panicked: bool,
}

/// A classified failure: the taxonomy kind and its stable numeric code.
/// Values are built only by the classification functions below, so the code
/// always agrees with the kind; the descriptive message is a function of the
/// code, see [`Failure::message`].
#[derive(Clone, Copy, PartialEq, Eq, Structural, Debug)]
pub struct Failure {
    pub kind: FailureKind,
    pub code: u16,
}

/// Error value handed to event handlers: a numeric code with a description.
#[derive(Debug)]
pub struct Error {
    pub code: u16,
    pub description: String,
}

impl Error {
    /// Builds an error from a description and its numeric code.
    pub fn new(description: &str, code: u16) -> (e: Error)
        ensures
            e.code == code,
            e.description@ == description@,
    {
        Error { code, description: description.to_owned() }
    }
}

/// The kind a transport error classifies to, by priority.
pub open spec fn transport_kind(f: TransportFlags) -> FailureKind {
    if f.timeout {
        FailureKind::Timeout
    } else if f.connect {
        FailureKind::ConnectFailure
    } else if f.status {
        FailureKind::StatusFailure
    } else if f.redirect {
        FailureKind::RedirectFailure
    } else if f.request {
        FailureKind::RequestFailure
    } else if f.body {
        FailureKind::BodyFailure
    } else if f.builder {
        FailureKind::BuilderFailure
    } else {
        FailureKind::Unknown
    }
}

/// The numeric code of each transport classification.
pub open spec fn transport_code(f: TransportFlags) -> u16 {
    if f.timeout {
        1u16
    } else if f.connect {
        2u16
    } else if f.status {
        3u16
    } else if f.redirect {
        4u16
    } else if f.request {
        5u16
    } else if f.body {
        6u16
    } else if f.builder {
        7u16
    } else {
        8u16
    }
}

/// The classified failure of a transport error.
pub open spec fn spec_classify_transport(f: TransportFlags) -> Failure {
    Failure { kind: transport_kind(f), code: transport_code(f) }
}

/// Classifies a transport error from its reported facts.
pub fn classify_transport(f: TransportFlags) -> (fail: Failure)
    ensures
        fail == spec_classify_transport(f),
{
    let code: u16 = if f.timeout {
        1
    } else if f.connect {
        2
    } else if f.status {
        3
    } else if f.redirect {
        4
    } else if f.request {
        5
    } else if f.body {
        6
    } else if f.builder {
        7
    } else {
        8
    };
    let kind = if f.timeout {
        FailureKind::Timeout
    } else if f.connect {
        FailureKind::ConnectFailure
    } else if f.status {
        FailureKind::StatusFailure
    } else if f.redirect {
        FailureKind::RedirectFailure
    } else if f.request {
        FailureKind::RequestFailure
    } else if f.body {
        FailureKind::BodyFailure
    } else if f.builder {
        FailureKind::BuilderFailure
    } else {
        FailureKind::Unknown
    };
    Failure { kind, code }
}

/// The numeric code of a failed check task, by priority.
pub open spec fn task_code(t: TaskFlags) -> u16 {
    if t.cancelled {
        9u16
    } else if t.panicked {
        10u16
    } else {
        11u16
    }
}

/// The classified failure of a failed check task.
pub open spec fn spec_classify_task(t: TaskFlags) -> Failure {
    Failure { kind: FailureKind::TaskFailure, code: task_code(t) }
}

/// Classifies a failed check task from its reported facts.
pub fn classify_task(t: TaskFlags) -> (fail: Failure)
    ensures
        fail == spec_classify_task(t),
{
    let code: u16 = if t.cancelled {
        9
    } else if t.panicked {
        10
    } else {
        11
    };
    Failure { kind: FailureKind::TaskFailure, code }
}

/// The failure reported when the write-back of a new session start fails.
pub open spec fn spec_persistence_failure() -> Failure {
    Failure { kind: FailureKind::PersistenceFailure, code: 12u16 }
}

/// Builds the failure reported when a write-back fails.
pub fn persistence_failure() -> (fail: Failure)
    ensures
        fail == spec_persistence_failure(),
{
    Failure { kind: FailureKind::PersistenceFailure, code: 12 }
}

/// The descriptive message of each failure code.
pub open spec fn spec_failure_message(code: u16) -> Seq<char> {
    if code == 1 {
        "An error occurred due to timing out..."@
    } else if code == 2 {
        "An error occurred when trying to connect..."@
    } else if code == 3 {
        "Status returned as an Error..."@
    } else if code == 4 {
        "An error occurred due to an attempted redirect..."@
    } else if code == 5 {
        "An error occurred due to the request..."@
    } else if code == 6 {
        "An error occurred with the request or response body..."@
    } else if code == 7 {
        "An error occurred with the type builder..."@
    } else if code == 8 {
        "An unknown error occurred with the request"@
    } else if code == 9 {
        "A Tokio error occurred which resulted in a check being cancelled..."@
    } else if code == 10 {
        "An error occurred causing the Tokio task to panic..."@
    } else if code == 11 {
        "An unknown Tokio Error Occurred..."@
    } else if code == 12 {
        "An error occurred persisting the new live session start..."@
    } else {
        "An unrecognized error occurred..."@
    }
}

/// The descriptive message for a failure code.
pub fn failure_message(code: u16) -> (m: String)
    ensures
        m@ == spec_failure_message(code),
{
    if code == 1 {
        "An error occurred due to timing out...".to_owned()
    } else if code == 2 {
        "An error occurred when trying to connect...".to_owned()
    } else if code == 3 {
        "Status returned as an Error...".to_owned()
    } else if code == 4 {
        "An error occurred due to an attempted redirect...".to_owned()
    } else if code == 5 {
        "An error occurred due to the request...".to_owned()
    } else if code == 6 {
        "An error occurred with the request or response body...".to_owned()
    } else if code == 7 {
        "An error occurred with the type builder...".to_owned()
    } else if code == 8 {
        "An unknown error occurred with the request".to_owned()
    } else if code == 9 {
        "A Tokio error occurred which resulted in a check being cancelled...".to_owned()
    } else if code == 10 {
        "An error occurred causing the Tokio task to panic...".to_owned()
    } else if code == 11 {
        "An unknown Tokio Error Occurred...".to_owned()
    } else if code == 12 {
        "An error occurred persisting the new live session start...".to_owned()
    } else {
        "An unrecognized error occurred...".to_owned()
    }
}

impl Failure {
    /// The descriptive message of this failure.
    pub fn message(&self) -> (m: String)
        ensures
            m@ == spec_failure_message(self.code),
    {
        failure_message(self.code)
    }

    /// The handler-facing error value for this failure.
    pub fn to_error(&self) -> (e: Error)
        ensures
            e.code == self.code,
            e.description@ == spec_failure_message(self.code),
    {
        let m = failure_message(self.code);
        Error { code: self.code, description: m }
    }
}

} // verus!
