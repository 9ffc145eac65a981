use rustracing::log::{LogBuilder, LogField};

#[test]
fn empty_log_builder_yields_no_record() {
    assert!(LogBuilder::new().finish().is_none());
}

#[test]
fn log_fields_are_deduplicated_and_sorted() {
    let log = LogBuilder::new()
        .field(LogField::new("m", "1"))
        .field(LogField::new("a", "2"))
        .field(LogField::new("m", "3"))
        .finish()
        .unwrap();
    let pairs: Vec<(String, String)> =
        log.fields().iter().map(|f| (f.name().to_string(), f.value().to_string())).collect();
    assert_eq!(
        pairs,
        vec![("a".to_string(), "2".to_string()), ("m".to_string(), "3".to_string())]
    );
}

#[test]
fn explicit_log_time_is_kept() {
    let time = std::time::SystemTime::UNIX_EPOCH + std::time::Duration::from_secs(123);
    let log = LogBuilder::new().field(LogField::new("k", "v")).time(time).finish().unwrap();
    assert_eq!(log.time(), time);
}

#[test]
fn standard_builder_adds_event_and_message() {
    let log = LogBuilder::new()
        .standard()
        .event("initialized")
        .message("ready")
        .done()
        .finish()
        .unwrap();
    assert!(log.fields().iter().any(|f| f.name() == "event" && f.value() == "initialized"));
    assert!(log.fields().iter().any(|f| f.name() == "message" && f.value() == "ready"));
}

#[test]
fn error_builder_always_carries_the_error_event() {
    let log = LogBuilder::new().error().kind("io").message("broken").done().finish().unwrap();
    let pairs: Vec<(String, String)> =
        log.fields().iter().map(|f| (f.name().to_string(), f.value().to_string())).collect();
    assert_eq!(
        pairs,
        vec![
            ("error.kind".to_string(), "io".to_string()),
            ("event".to_string(), "error".to_string()),
            ("message".to_string(), "broken".to_string()),
        ]
    );
}

#[test]
fn log_field_accessors_echo_the_inputs() {
    let field = LogField::new("name", "value");
    assert_eq!(field.name(), "name");
    assert_eq!(field.value(), "value");
}
