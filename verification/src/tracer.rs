//! Tracer.
use crate::sampler::Sampler;
use crate::span::{clone_sender, unbounded_channel, SpanReceiver, SpanSender, StartSpanOptions};
use std::sync::Arc;
use vstd::prelude::*;

verus! {

/// Relies on `Arc::clone`: another handle to the same value.
#[verifier::external_body]
fn clone_arc<S>(a: &Arc<S>) -> (r: Arc<S>)
    ensures
        r == *a,
{
    Arc::clone(a)
}

/// Tracer: the factory for span builders. It owns the sampler consulted at
/// every span start and the sender that finished spans are handed to, and
/// its clones share both.
#[derive(Debug)]
#[verifier::reject_recursive_types(T)]
pub struct Tracer<S, T> {
    sampler: Arc<S>,
    span_tx: SpanSender<T>,
}

impl<S: Sampler<T>, T> Tracer<S, T> {
    /// Makes a new `Tracer` instance with a fresh, unlimited finished-span
    /// channel, returning the receiving half beside it.
    pub fn new(sampler: S) -> (r: (Self, SpanReceiver<T>))
        ensures
            r.0.sampler_spec() == sampler,
    {
        let (span_tx, span_rx) = unbounded_channel();
        (Tracer { sampler: Arc::new(sampler), span_tx }, span_rx)
    }

    /// Makes a new `Tracer` instance against a caller-supplied sender,
    /// which may belong to a channel of limited capacity: a finished span
    /// that does not fit is then silently dropped.
    pub fn with_sender(sampler: S, span_tx: SpanSender<T>) -> (r: Self)
        ensures
            r.sampler_spec() == sampler,
    {
        Tracer { sampler: Arc::new(sampler), span_tx }
    }

    /// Returns `StartSpanOptions` for starting a span which has the name
    /// `operation_name`.
    pub fn span(&self, operation_name: &str) -> (o: StartSpanOptions<'_, S, T>)
        ensures
            o.operation_name_spec() == operation_name@,
            o.start_time_spec() is None,
            o.tags_spec() == Seq::<crate::tag::Tag>::empty(),
            o.references_spec() == Seq::<crate::span::SpanReference<T>>::empty(),
            o.baggage_spec() == Seq::<crate::span::BaggageItem>::empty(),
            o.sampler_spec() == self.sampler_spec(),
    {
        StartSpanOptions::new(operation_name, &self.span_tx, &*self.sampler)
    }
}

impl<S, T> Tracer<S, T> {
    /// The spec-level sampler of this tracer.
    pub closed spec fn sampler_spec(&self) -> S {
        *self.sampler
    }

    /// Clone with the given `sampler`: the new tracer shares this one's
    /// sender, so the spans it starts go to the same consumer, but decides
    /// sampling by `sampler`.
    pub fn clone_with_sampler<U: Sampler<T>>(&self, sampler: U) -> (t: Tracer<U, T>)
        ensures
            t.sampler_spec() == sampler,
    {
        Tracer { sampler: Arc::new(sampler), span_tx: clone_sender(&self.span_tx) }
    }
}

impl<S, T> Clone for Tracer<S, T> {
    /// Clones share the sampler and the sender.
    fn clone(&self) -> (r: Self)
        ensures
            r.sampler_spec() == self.sampler_spec(),
    {
        Tracer { sampler: clone_arc(&self.sampler), span_tx: clone_sender(&self.span_tx) }
    }
}

} // verus!
