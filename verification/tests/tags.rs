use rustracing::tag::{StdTag, Tag, TagValue};

#[test]
fn tag_new_keeps_name_and_value() {
    let tag = Tag::new("foo", TagValue::String("bar".to_string()));
    assert_eq!(tag.name(), "foo");
    assert_eq!(tag.value(), &TagValue::String("bar".to_string()));
}

#[test]
fn std_tags_carry_the_standard_names() {
    assert_eq!(StdTag::component("grpc").name(), "component");
    assert_eq!(StdTag::db_instance("customers").name(), "db.instance");
    assert_eq!(StdTag::db_statement("SELECT 1").name(), "db.statement");
    assert_eq!(StdTag::db_type("sql").name(), "db.type");
    assert_eq!(StdTag::db_user("reporting_user").name(), "db.user");
    assert_eq!(StdTag::http_method("GET").name(), "http.method");
    assert_eq!(StdTag::http_url("https://example.net/path").name(), "http.url");
    assert_eq!(StdTag::message_bus_destination("topic").name(), "message_bus.destination");
    assert_eq!(StdTag::peer_address("mysql://prod-db:3306").name(), "peer.address");
    assert_eq!(StdTag::peer_hostname("example.net").name(), "peer.hostname");
    assert_eq!(StdTag::peer_service("memcache").name(), "peer.service");
    assert_eq!(StdTag::span_kind("client").name(), "span.kind");
}

#[test]
fn error_tag_is_boolean_true() {
    let tag = StdTag::error();
    assert_eq!(tag.name(), "error");
    assert_eq!(tag.value(), &TagValue::Boolean(true));
}

#[test]
fn numeric_std_tags_become_integers() {
    let status = StdTag::http_status_code(404);
    assert_eq!(status.name(), "http.status_code");
    assert_eq!(status.value(), &TagValue::Integer(404));

    let port = StdTag::peer_port(80);
    assert_eq!(port.name(), "peer.port");
    assert_eq!(port.value(), &TagValue::Integer(80));

    let priority = StdTag::sampling_priority(3);
    assert_eq!(priority.name(), "sampling.priority");
    assert_eq!(priority.value(), &TagValue::Integer(3));
}
