use twitchalerts::error::{
    classify_task, classify_transport, failure_message, persistence_failure, Error, FailureKind,
    TaskFlags, TransportFlags,
};

fn flags_none() -> TransportFlags {
    TransportFlags {
        timeout: false,
        connect: false,
        status: false,
        redirect: false,
        request: false,
        body: false,
        builder: false,
    }
}

#[test]
fn error_new_keeps_code_and_description() {
    let err: Error = Error::new("An error occurred due to an attempted redirect...", 4);
    assert_eq!(err.code, 4);
    assert_eq!(err.description, "An error occurred due to an attempted redirect...");
}

#[test]
fn transport_classification_codes() {
    let f = TransportFlags { timeout: true, ..flags_none() };
    let fail = classify_transport(f);
    assert_eq!(fail.kind, FailureKind::Timeout);
    assert_eq!(fail.code, 1);

    let f = TransportFlags { connect: true, ..flags_none() };
    assert_eq!(classify_transport(f).code, 2);
    assert_eq!(classify_transport(f).kind, FailureKind::ConnectFailure);

    let f = TransportFlags { status: true, ..flags_none() };
    assert_eq!(classify_transport(f).code, 3);

    let f = TransportFlags { redirect: true, ..flags_none() };
    assert_eq!(classify_transport(f).code, 4);

    let f = TransportFlags { request: true, ..flags_none() };
    assert_eq!(classify_transport(f).code, 5);

    let f = TransportFlags { body: true, ..flags_none() };
    assert_eq!(classify_transport(f).code, 6);

    let f = TransportFlags { builder: true, ..flags_none() };
    assert_eq!(classify_transport(f).code, 7);
    assert_eq!(classify_transport(f).kind, FailureKind::BuilderFailure);
}

#[test]
fn transport_classification_priority_order() {
    // Timeout outranks every other reported fact.
    let f = TransportFlags {
        timeout: true,
        connect: true,
        status: true,
        redirect: true,
        request: true,
        body: true,
        builder: true,
    };
    let fail = classify_transport(f);
    assert_eq!(fail.kind, FailureKind::Timeout);
    assert_eq!(fail.code, 1);

    // Connect outranks status and the rest.
    let f = TransportFlags { connect: true, status: true, builder: true, ..flags_none() };
    assert_eq!(classify_transport(f).kind, FailureKind::ConnectFailure);
}

#[test]
fn transport_classification_unknown_when_nothing_matches() {
    let fail = classify_transport(flags_none());
    assert_eq!(fail.kind, FailureKind::Unknown);
    assert_eq!(fail.code, 8);
    assert_eq!(fail.message(), "An unknown error occurred with the request");
}

#[test]
fn task_classification() {
    let fail = classify_task(TaskFlags { cancelled: true, panicked: false });
    assert_eq!(fail.kind, FailureKind::TaskFailure);
    assert_eq!(fail.code, 9);

    let fail = classify_task(TaskFlags { cancelled: false, panicked: true });
    assert_eq!(fail.kind, FailureKind::TaskFailure);
    assert_eq!(fail.code, 10);

    let fail = classify_task(TaskFlags { cancelled: false, panicked: false });
    assert_eq!(fail.kind, FailureKind::TaskFailure);
    assert_eq!(fail.code, 11);

    // Cancellation outranks panic when both are reported.
    let fail = classify_task(TaskFlags { cancelled: true, panicked: true });
    assert_eq!(fail.code, 9);
}

#[test]
fn persistence_failure_classification() {
    let fail = persistence_failure();
    assert_eq!(fail.kind, FailureKind::PersistenceFailure);
    assert_eq!(fail.code, 12);
    assert_eq!(fail.message(), "An error occurred persisting the new live session start...");
}

#[test]
fn failure_messages_match_codes() {
    assert_eq!(failure_message(1), "An error occurred due to timing out...");
    assert_eq!(failure_message(2), "An error occurred when trying to connect...");
    assert_eq!(failure_message(3), "Status returned as an Error...");
    assert_eq!(failure_message(9), "A Tokio error occurred which resulted in a check being cancelled...");
    assert_eq!(failure_message(10), "An error occurred causing the Tokio task to panic...");
    assert_eq!(failure_message(11), "An unknown Tokio Error Occurred...");
}

#[test]
fn failure_to_error_carries_code_and_message() {
    let f = TransportFlags { timeout: true, ..flags_none() };
    let err = classify_transport(f).to_error();
    assert_eq!(err.code, 1);
    assert_eq!(err.description, "An error occurred due to timing out...");
}
