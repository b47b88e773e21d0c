use process_inventory::error::ApiError;

#[test]
fn message_is_label_and_detail() {
    assert_eq!(ApiError::Error("boom".to_string()).message(), "Error: boom");
    assert_eq!(ApiError::JsonError("boom".to_string()).message(), "JSON error: boom");
    assert_eq!(ApiError::TokioError("boom".to_string()).message(), "Tokio error: boom");
    assert_eq!(ApiError::IoError("boom".to_string()).message(), "IoError: boom");
    assert_eq!(ApiError::NetstatError("boom".to_string()).message(), "NetstatError: boom");
    assert_eq!(
        ApiError::ProcessEnumerationFailed("boom".to_string()).message(),
        "Process enumeration failed: boom"
    );
    assert_eq!(
        ApiError::UptimeQueryFailed("boom".to_string()).message(),
        "Uptime query failed: boom"
    );
    assert_eq!(
        ApiError::InternalInvariantViolation("boom".to_string()).message(),
        "Internal invariant violation: boom"
    );
    assert_eq!(ApiError::Error(String::new()).message(), "Error: ");
}

#[test]
fn closed_channel_becomes_tokio_error() {
    let (sender, receiver) = tokio::sync::oneshot::channel::<u8>();
    drop(sender);
    let failure = receiver.blocking_recv().unwrap_err();
    assert_eq!(ApiError::from(failure), ApiError::TokioError("channel closed".to_string()));
}

#[test]
fn json_failure_becomes_json_error() {
    let failure = serde_json::from_str::<serde_json::Value>("{").unwrap_err();
    let text = failure.to_string();
    assert!(!text.is_empty());
    assert_eq!(ApiError::from(failure), ApiError::JsonError(text));
}

#[test]
fn io_failure_becomes_io_error() {
    let failure = std::io::Error::new(std::io::ErrorKind::NotFound, "nothing there");
    assert_eq!(ApiError::from(failure), ApiError::IoError("nothing there".to_string()));
}

#[test]
fn socket_inventory_failure_becomes_netstat_error() {
    assert_eq!(
        ApiError::from(netstat2::error::Error::NotAValidSocket),
        ApiError::NetstatError("Not a valid socket".to_string())
    );
    assert_eq!(
        ApiError::from(netstat2::error::Error::UnknownProtocol(7)),
        ApiError::NetstatError("Found unknown protocol 7".to_string())
    );
}
