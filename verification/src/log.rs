//! Span log.
use crate::clock::system_time_now;
use crate::order::{first_entry, last_entry, lemma_normalized, normalize_by_name, normalized, sorted_unique, NamedItem};
use std::time::SystemTime;
use vstd::prelude::*;

verus! {

/// Span log field.
#[derive(Debug)]
pub struct LogField {
    name: String,
    value: String,
}

impl LogField {
    /// The spec-level value of this field.
    pub closed spec fn value_spec(&self) -> Seq<char> {
        self.value@
    }

    /// Makes a new `LogField` instance.
    pub fn new(name: &str, value: &str) -> (f: Self)
        ensures
            f.key() == name@,
            f.value_spec() == value@,
    {
        LogField { name: name.to_owned(), value: value.to_owned() }
    }

    /// Returns the name of this field.
    pub fn name(&self) -> (r: &str)
        ensures
            r@ == self.key(),
    {
        self.name.as_str()
    }

    /// Returns the value of this field.
    pub fn value(&self) -> (r: &str)
        ensures
            r@ == self.value_spec(),
    {
        self.value.as_str()
    }
}

impl NamedItem for LogField {
    closed spec fn key(&self) -> Seq<char> {
        self.name@
    }

    fn key_ref(&self) -> (s: &str) {
        self.name.as_str()
    }
}

impl Clone for LogField {
    fn clone(&self) -> (r: Self)
        ensures
            r == *self,
    {
        LogField { name: self.name.clone(), value: self.value.clone() }
    }
}

/// Span log: one record, with its fields normalized (unique names, sorted by
/// name) and a timestamp.
#[derive(Debug)]
pub struct Log {
    fields: Vec<LogField>,
    time: SystemTime,
}

impl Log {
    /// Every record's fields are sorted by name, with no duplicate names.
    #[verifier::type_invariant]
    closed spec fn wf(self) -> bool {
        sorted_unique(self.fields@)
    }
}

impl Clone for Log {
    fn clone(&self) -> (r: Self)
        ensures
            r.fields_spec() == self.fields_spec(),
            r.time_spec() == self.time_spec(),
    {
        proof {
            use_type_invariant(&*self);
        }
        let fields = self.fields.clone();
        proof {
            assert forall|i: int| 0 <= i < self.fields@.len() implies fields@[i]
                == self.fields@[i] by {
                assert(cloned::<LogField>(self.fields@[i], fields@[i]));
            }
            assert(fields@ =~= self.fields@);
        }
        Log { fields, time: self.time.clone() }
    }
}

impl Log {
    /// The spec-level fields of this log.
    pub closed spec fn fields_spec(&self) -> Seq<LogField> {
        self.fields@
    }

    /// The spec-level timestamp of this log.
    pub closed spec fn time_spec(&self) -> SystemTime {
        self.time
    }

    /// Returns the fields of this log: sorted by name, each name unique.
    pub fn fields(&self) -> (r: &[LogField])
        ensures
            r@ == self.fields_spec(),
            sorted_unique(r@),
    {
        proof {
            use_type_invariant(&*self);
        }
        self.fields.as_slice()
    }

    /// Returns the timestamp of this log.
    pub fn time(&self) -> (r: SystemTime)
        ensures
            r == self.time_spec(),
    {
        self.time
    }
}

/// Span log builder.
///
/// A builder accumulates fields by value: each method consumes the builder
/// and returns the extended one.
#[derive(Debug)]
pub struct LogBuilder {
    fields: Vec<LogField>,
    time: Option<SystemTime>,
}

impl LogBuilder {
    /// The spec-level fields accumulated so far.
    pub closed spec fn fields_spec(&self) -> Seq<LogField> {
        self.fields@
    }

    /// The spec-level explicit timestamp, if one was set.
    pub closed spec fn time_spec(&self) -> Option<SystemTime> {
        self.time
    }

    /// Makes a new, empty `LogBuilder` instance.
    pub fn new() -> (b: Self)
        ensures
            b.fields_spec() == Seq::<LogField>::empty(),
            b.time_spec() is None,
    {
        LogBuilder { fields: Vec::new(), time: None }
    }

    /// Adds the field.
    pub fn field(self, field: LogField) -> (b: Self)
        ensures
            b.fields_spec() == self.fields_spec().push(field),
            b.time_spec() == self.time_spec(),
    {
        let mut fields = self.fields;
        fields.push(field);
        LogBuilder { fields, time: self.time }
    }

    /// Sets the value of the timestamp to `time`.
    pub fn time(self, time: SystemTime) -> (b: Self)
        ensures
            b.fields_spec() == self.fields_spec(),
            b.time_spec() == Some(time),
    {
        LogBuilder { fields: self.fields, time: Some(time) }
    }

    /// Returns a specialized builder for the standard log fields.
    pub fn standard(self) -> (b: StdLogFieldsBuilder)
        ensures
            b.fields_spec() == self.fields_spec(),
            b.time_spec() == self.time_spec(),
    {
        StdLogFieldsBuilder { inner: self }
    }

    /// Returns a specialized builder for the standard error log fields.
    ///
    /// The field `("event", "error")` is added here, so every record built
    /// through the returned builder carries it.
    pub fn error(self) -> (b: StdErrorLogFieldsBuilder)
        ensures
            b.fields_spec().len() == self.fields_spec().len() + 1,
            b.fields_spec().drop_last() == self.fields_spec(),
            b.fields_spec().last().key() == "event"@,
            b.fields_spec().last().value_spec() == "error"@,
            b.time_spec() == self.time_spec(),
    {
        let ghost prior = self.fields_spec();
        let b = self.field(LogField::new("event", "error"));
        proof {
            assert(b.fields_spec().drop_last() =~= prior);
            let fs = b.fields_spec();
            assert(fs[fs.len() - 1].key() == "event"@ && fs[fs.len() - 1].value_spec()
                == "error"@);
            assert(has_error_event(fs));
        }
        StdErrorLogFieldsBuilder { inner: b }
    }

    /// Finishes building, normalizing the fields; a record with no fields
    /// yields nothing. The timestamp defaults to the present time if it was
    /// never set.
    pub fn finish(self) -> (r: Option<Log>)
        ensures
            (self.fields_spec().len() == 0) <==> (r is None),
            r matches Some(l) ==> l.fields_spec() == normalized(self.fields_spec()) && (
            self.time_spec() matches Some(t) ==> l.time_spec() == t),
    {
        if self.fields.is_empty() {
            None
        } else {
            let fields = normalize_by_name(self.fields);
            let time = match self.time {
                Some(t) => t,
                None => system_time_now(),
            };
            Some(Log { fields, time })
        }
    }
}

/// Whether the fields contain an `("event", "error")` entry that no later
/// `"event"` field overrides.
pub open spec fn has_error_event(s: Seq<LogField>) -> bool {
    exists|i: int|
        0 <= i < s.len() && (#[trigger] s[i].key()) == "event"@ && s[i].value_spec() == "error"@
            && forall|j: int| i < j < s.len() ==> s[j].key() != "event"@
}

/// In fields with an unoverridden `("event", "error")` entry, the last
/// `"event"` field carries the value `"error"`, and normalization keeps it.
pub proof fn lemma_error_event_survives(s: Seq<LogField>)
    requires
        has_error_event(s),
    ensures
        last_entry(s, "event"@) matches Some(t) && t.value_spec() == "error"@,
        first_entry(normalized(s), "event"@) matches Some(t) && t.value_spec() == "error"@,
        s.len() > 0,
    decreases s.len(),
{
    let i = choose|i: int|
        0 <= i < s.len() && (#[trigger] s[i].key()) == "event"@ && s[i].value_spec() == "error"@
            && forall|j: int| i < j < s.len() ==> s[j].key() != "event"@;
    if i == s.len() - 1 {
        assert(s.last().key() == "event"@);
    } else {
        assert(s.last() == s[s.len() - 1]);
        assert(s.last().key() != "event"@);
        assert(has_error_event(s.drop_last())) by {
            let t = s.drop_last();
            assert(t[i] == s[i]);
            assert(t[i].key() == "event"@ && t[i].value_spec() == "error"@);
            assert forall|j: int| i < j < t.len() implies t[j].key() != "event"@ by {
                assert(t[j] == s[j]);
            }
        }
        lemma_error_event_survives(s.drop_last());
    }
    lemma_normalized(s);
}

/// A specialized span log builder for the standard log fields.
#[derive(Debug)]
pub struct StdLogFieldsBuilder {
    inner: LogBuilder,
}

impl StdLogFieldsBuilder {
    /// The spec-level fields accumulated so far.
    pub closed spec fn fields_spec(&self) -> Seq<LogField> {
        self.inner.fields_spec()
    }

    /// The spec-level explicit timestamp, if one was set.
    pub closed spec fn time_spec(&self) -> Option<SystemTime> {
        self.inner.time_spec()
    }

    /// Adds the field `("event", event)`.
    ///
    /// `event` is a stable identifier for some notable moment in the
    /// lifetime of a span, e.g. `"initialized"` or `"timed out"`.
    pub fn event(self, event: &str) -> (b: Self)
        ensures
            b.fields_spec().len() == self.fields_spec().len() + 1,
            b.fields_spec().drop_last() == self.fields_spec(),
            b.fields_spec().last().key() == "event"@,
            b.fields_spec().last().value_spec() == event@,
            b.time_spec() == self.time_spec(),
    {
        let b = StdLogFieldsBuilder { inner: self.inner.field(LogField::new("event", event)) };
        proof {
            assert(b.fields_spec().drop_last() =~= self.fields_spec());
        }
        b
    }

    /// Adds the field `("message", message)`.
    ///
    /// `message` is a concise, human-readable, one-line message explaining
    /// the event.
    pub fn message(self, message: &str) -> (b: Self)
        ensures
            b.fields_spec().len() == self.fields_spec().len() + 1,
            b.fields_spec().drop_last() == self.fields_spec(),
            b.fields_spec().last().key() == "message"@,
            b.fields_spec().last().value_spec() == message@,
            b.time_spec() == self.time_spec(),
    {
        let b = StdLogFieldsBuilder { inner: self.inner.field(LogField::new("message", message)) };
        proof {
            assert(b.fields_spec().drop_last() =~= self.fields_spec());
        }
        b
    }

    /// Gives the underlying log builder back.
    pub fn done(self) -> (b: LogBuilder)
        ensures
            b.fields_spec() == self.fields_spec(),
            b.time_spec() == self.time_spec(),
    {
        self.inner
    }
}

/// A specialized span log builder for the standard error log fields.
///
/// Every value of this type holds a `("event", "error")` field that none of
/// its methods overrides.
#[derive(Debug)]
pub struct StdErrorLogFieldsBuilder {
    inner: LogBuilder,
}

impl StdErrorLogFieldsBuilder {
    /// Every record built through this builder carries `("event", "error")`.
    #[verifier::type_invariant]
    pub closed spec fn wf(self) -> bool {
        has_error_event(self.inner.fields_spec())
    }

    /// The spec-level fields accumulated so far.
    pub closed spec fn fields_spec(&self) -> Seq<LogField> {
        self.inner.fields_spec()
    }

    /// The spec-level explicit timestamp, if one was set.
    pub closed spec fn time_spec(&self) -> Option<SystemTime> {
        self.inner.time_spec()
    }

    /// Adds the field `("error.kind", kind)`.
    ///
    /// `kind` is the type or "kind" of an error, e.g. `"Exception"`.
    pub fn kind(self, kind: &str) -> (b: Self)
        ensures
            b.fields_spec().len() == self.fields_spec().len() + 1,
            b.fields_spec().drop_last() == self.fields_spec(),
            b.fields_spec().last().key() == "error.kind"@,
            b.fields_spec().last().value_spec() == kind@,
            b.time_spec() == self.time_spec(),
    {
        proof {
            use_type_invariant(&self);
            reveal_strlit("error.kind");
            reveal_strlit("event");
        }
        let ghost prior = self.fields_spec();
        let inner = self.inner.field(LogField::new("error.kind", kind));
        proof {
            assert(inner.fields_spec().drop_last() =~= prior);
            assert("error.kind"@ != "event"@) by {
                assert("error.kind"@.len() == 10);
                assert("event"@.len() == 5);
            }
            lemma_error_event_push(prior, inner.fields_spec());
        }
        StdErrorLogFieldsBuilder { inner }
    }

    /// Adds the field `("message", message)`.
    ///
    /// `message` is a concise, human-readable, one-line message explaining
    /// the event.
    pub fn message(self, message: &str) -> (b: Self)
        ensures
            b.fields_spec().len() == self.fields_spec().len() + 1,
            b.fields_spec().drop_last() == self.fields_spec(),
            b.fields_spec().last().key() == "message"@,
            b.fields_spec().last().value_spec() == message@,
            b.time_spec() == self.time_spec(),
    {
        proof {
            use_type_invariant(&self);
            reveal_strlit("message");
            reveal_strlit("event");
        }
        let ghost prior = self.fields_spec();
        let inner = self.inner.field(LogField::new("message", message));
        proof {
            assert(inner.fields_spec().drop_last() =~= prior);
            assert("message"@ != "event"@) by {
                assert("message"@.len() == 7);
                assert("event"@.len() == 5);
            }
            lemma_error_event_push(prior, inner.fields_spec());
        }
        StdErrorLogFieldsBuilder { inner }
    }

    /// Gives the underlying log builder back.
    pub fn done(self) -> (b: LogBuilder)
        ensures
            b.fields_spec() == self.fields_spec(),
            b.time_spec() == self.time_spec(),
            has_error_event(b.fields_spec()),
    {
        proof {
            use_type_invariant(&self);
        }
        self.inner
    }
}

/// Pushing a field whose name is not `"event"` preserves the unoverridden
/// `("event", "error")` entry.
proof fn lemma_error_event_push(s: Seq<LogField>, t: Seq<LogField>)
    requires
        has_error_event(s),
        t.len() == s.len() + 1,
        t.drop_last() == s,
        t.last().key() != "event"@,
    ensures
        has_error_event(t),
{
    let i = choose|i: int|
        0 <= i < s.len() && (#[trigger] s[i].key()) == "event"@ && s[i].value_spec() == "error"@
            && forall|j: int| i < j < s.len() ==> s[j].key() != "event"@;
    assert(t[i] == s[i]);
    assert(t[i].key() == "event"@ && t[i].value_spec() == "error"@);
    assert forall|j: int| i < j < t.len() implies t[j].key() != "event"@ by {
        if j < s.len() {
            assert(t[j] == s[j]);
        } else {
            assert(t[j] == t.last());
        }
    }
}

} // verus!
