//! Span tag.
use crate::order::NamedItem;
use vstd::prelude::*;

verus! {

/// Span tag.
#[derive(Debug)]
pub struct Tag {
    name: String,
    value: TagValue,
}

impl Tag {
    /// The spec-level value of this tag.
    pub closed spec fn value_spec(&self) -> TagValue {
        self.value
    }

    /// Makes a new `Tag` instance.
    pub fn new(name: &str, value: TagValue) -> (t: Self)
        ensures
            t.key() == name@,
            t.value_spec() == value,
    {
        Tag { name: name.to_owned(), value }
    }

    /// Returns the name of this tag.
    pub fn name(&self) -> (r: &str)
        ensures
            r@ == self.key(),
    {
        self.name.as_str()
    }

    /// Returns the value of this tag.
    pub fn value(&self) -> (r: &TagValue)
        ensures
            *r == self.value_spec(),
    {
        &self.value
    }
}

impl NamedItem for Tag {
    closed spec fn key(&self) -> Seq<char> {
        self.name@
    }

    fn key_ref(&self) -> (s: &str) {
        self.name.as_str()
    }
}

impl Clone for Tag {
    fn clone(&self) -> (r: Self)
        ensures
            r == *self,
    {
        Tag { name: self.name.clone(), value: self.value.clone() }
    }
}

/// Span tag value.
#[derive(Debug, PartialEq)]
#[allow(missing_docs)]
pub enum TagValue {
    String(String),
    Boolean(bool),
    Integer(i64),
}

impl Clone for TagValue {
    fn clone(&self) -> (r: Self)
        ensures
            r == *self,
    {
        match self {
            TagValue::String(s) => TagValue::String(s.clone()),
            TagValue::Boolean(b) => TagValue::Boolean(*b),
            TagValue::Integer(n) => TagValue::Integer(*n),
        }
    }
}

/// Standard span tags.
#[derive(Debug)]
pub struct StdTag;

impl StdTag {
    /// Makes a `"component"` tag.
    ///
    /// It indicates the software package, framework, library,
    /// or module that generated the associated span.
    pub fn component(value: &str) -> (t: Tag)
        ensures
            t.key() == "component"@,
            t.value_spec() matches TagValue::String(v) && v@ == value@,
    {
        Tag::new("component", TagValue::String(value.to_owned()))
    }

    /// Makes a `"db.instance"` tag.
    ///
    /// It indicates the database instance name.
    pub fn db_instance(value: &str) -> (t: Tag)
        ensures
            t.key() == "db.instance"@,
            t.value_spec() matches TagValue::String(v) && v@ == value@,
    {
        Tag::new("db.instance", TagValue::String(value.to_owned()))
    }

    /// Makes a `"db.statement"` tag.
    ///
    /// It indicates a database statement for the given database type.
    pub fn db_statement(value: &str) -> (t: Tag)
        ensures
            t.key() == "db.statement"@,
            t.value_spec() matches TagValue::String(v) && v@ == value@,
    {
        Tag::new("db.statement", TagValue::String(value.to_owned()))
    }

    /// Makes a `"db.type"` tag.
    ///
    /// It indicates the database type.
    pub fn db_type(value: &str) -> (t: Tag)
        ensures
            t.key() == "db.type"@,
            t.value_spec() matches TagValue::String(v) && v@ == value@,
    {
        Tag::new("db.type", TagValue::String(value.to_owned()))
    }

    /// Makes a `"db.user"` tag.
    ///
    /// It indicates the username for accessing the database.
    pub fn db_user(value: &str) -> (t: Tag)
        ensures
            t.key() == "db.user"@,
            t.value_spec() matches TagValue::String(v) && v@ == value@,
    {
        Tag::new("db.user", TagValue::String(value.to_owned()))
    }

    /// Makes a `"error"` tag that has the value `true`.
    ///
    /// It indicates the application considers the operation represented by
    /// the span to have failed.
    pub fn error() -> (t: Tag)
        ensures
            t.key() == "error"@,
            t.value_spec() == TagValue::Boolean(true),
    {
        Tag::new("error", TagValue::Boolean(true))
    }

    /// Makes a `"http.method"` tag.
    ///
    /// It indicates the HTTP method of the request for the associated span.
    pub fn http_method(value: &str) -> (t: Tag)
        ensures
            t.key() == "http.method"@,
            t.value_spec() matches TagValue::String(v) && v@ == value@,
    {
        Tag::new("http.method", TagValue::String(value.to_owned()))
    }

    /// Makes a `"http.status_code"` tag.
    ///
    /// It indicates the HTTP response status code for the associated span.
    pub fn http_status_code(value: u16) -> (t: Tag)
        ensures
            t.key() == "http.status_code"@,
            t.value_spec() == TagValue::Integer(value as i64),
    {
        Tag::new("http.status_code", TagValue::Integer(value as i64))
    }

    /// Makes a `"http.url"` tag.
    ///
    /// It indicates the URL of the request being handled in this segment of
    /// the trace, in standard URI format.
    pub fn http_url(value: &str) -> (t: Tag)
        ensures
            t.key() == "http.url"@,
            t.value_spec() matches TagValue::String(v) && v@ == value@,
    {
        Tag::new("http.url", TagValue::String(value.to_owned()))
    }

    /// Makes a `"message_bus.destination"` tag.
    ///
    /// It indicates an address at which messages can be exchanged.
    pub fn message_bus_destination(value: &str) -> (t: Tag)
        ensures
            t.key() == "message_bus.destination"@,
            t.value_spec() matches TagValue::String(v) && v@ == value@,
    {
        Tag::new("message_bus.destination", TagValue::String(value.to_owned()))
    }

    /// Makes a `"peer.address"` tag.
    ///
    /// It indicates a remote address, suitable for use in a networking
    /// client library.
    pub fn peer_address(value: &str) -> (t: Tag)
        ensures
            t.key() == "peer.address"@,
            t.value_spec() matches TagValue::String(v) && v@ == value@,
    {
        Tag::new("peer.address", TagValue::String(value.to_owned()))
    }

    /// Makes a `"peer.hostname"` tag.
    ///
    /// It indicates the remote hostname.
    pub fn peer_hostname(value: &str) -> (t: Tag)
        ensures
            t.key() == "peer.hostname"@,
            t.value_spec() matches TagValue::String(v) && v@ == value@,
    {
        Tag::new("peer.hostname", TagValue::String(value.to_owned()))
    }

    /// Makes a `"peer.port"` tag.
    ///
    /// It indicates the remote port.
    pub fn peer_port(value: u16) -> (t: Tag)
        ensures
            t.key() == "peer.port"@,
            t.value_spec() == TagValue::Integer(value as i64),
    {
        Tag::new("peer.port", TagValue::Integer(value as i64))
    }

    /// Makes a `"peer.service"` tag.
    ///
    /// It indicates the remote service name.
    pub fn peer_service(value: &str) -> (t: Tag)
        ensures
            t.key() == "peer.service"@,
            t.value_spec() matches TagValue::String(v) && v@ == value@,
    {
        Tag::new("peer.service", TagValue::String(value.to_owned()))
    }

    /// Makes a `"sampling.priority"` tag.
    ///
    /// If greater than `0`, a hint to the tracer to do its best to capture
    /// the trace. Otherwise the tracer uses its configured sampler.
    pub fn sampling_priority(value: u32) -> (t: Tag)
        ensures
            t.key() == "sampling.priority"@,
            t.value_spec() == TagValue::Integer(value as i64),
    {
        Tag::new("sampling.priority", TagValue::Integer(value as i64))
    }

    /// Makes a `"span.kind"` tag.
    ///
    /// Either `"client"` or `"server"` for the appropriate roles in an RPC,
    /// and `"producer"` or `"consumer"` for the appropriate roles in a
    /// messaging scenario.
    pub fn span_kind(value: &str) -> (t: Tag)
        ensures
            t.key() == "span.kind"@,
            t.value_spec() matches TagValue::String(v) && v@ == value@,
    {
        Tag::new("span.kind", TagValue::String(value.to_owned()))
    }
}

} // verus!
