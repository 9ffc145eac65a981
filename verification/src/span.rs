//! Span.
use crate::clock::system_time_now;
use crate::convert::MaybeAsRef;
use crate::sampler::{AllSampler, Sampler};
use crate::log::{Log, LogBuilder, StdErrorLogFieldsBuilder};
use crate::log::lemma_error_event_survives;
use crate::order::{
    contains_key, find_by_key, first_entry, insert_named, insert_sorted, lemma_normalized,
    lemma_sorted_unique_keys, normalize_by_name, normalized, set_all, set_in_place, set_key,
    sorted_unique, unique_keys, NamedItem,
};
use crate::tag::{StdTag, Tag, TagValue};
use std::time::SystemTime;
use vstd::prelude::*;

verus! {

/// `crossbeam_channel::Sender`, declared so that spans can hold the sending
/// half of the finished-span channel. Its state is opaque here: what a send
/// does depends on the channel's capacity, its receiver and every other
/// sender handle.
#[verifier::external_type_specification]
#[verifier::external_body]
#[verifier::reject_recursive_types(T)]
pub struct ExSender<T>(crossbeam_channel::Sender<T>);

/// `crossbeam_channel::Receiver`, declared so that `Tracer::new` can hand
/// the receiving half back to the caller.
#[verifier::external_type_specification]
#[verifier::external_body]
#[verifier::reject_recursive_types(T)]
pub struct ExReceiver<T>(crossbeam_channel::Receiver<T>);

/// Finished span receiver.
pub type SpanReceiver<T> = crossbeam_channel::Receiver<FinishedSpan<T>>;

/// Sender of finished spans to the destination channel.
pub type SpanSender<T> = crossbeam_channel::Sender<FinishedSpan<T>>;

/// Relies on `crossbeam_channel::unbounded`: a channel whose capacity is
/// unlimited, returned as its sender and receiver halves.
#[verifier::external_body]
pub(crate) fn unbounded_channel<T>() -> (crossbeam_channel::Sender<T>, crossbeam_channel::Receiver<
    T,
>) {
    crossbeam_channel::unbounded()
}

/// Relies on `crossbeam_channel::Sender::try_send`: a non-blocking send
/// that, instead of waiting, gives the message back when the channel is
/// full or disconnected. Which of the two outcomes happens depends on the
/// channel's state, so nothing is promised of the result.
#[verifier::external_body]
fn try_send_finished<T>(tx: &SpanSender<T>, span: FinishedSpan<T>) -> bool {
    tx.try_send(span).is_ok()
}

/// Relies on `crossbeam_channel::Sender::clone`: another handle sending
/// into the same channel.
#[verifier::external_body]
pub(crate) fn clone_sender<T>(tx: &SpanSender<T>) -> SpanSender<T> {
    tx.clone()
}

/// Baggage item.
///
/// `BaggageItem`s are key:value string pairs that apply to a `Span`, its
/// `SpanContext`, and all `Span`s which directly or transitively reference
/// the local `Span`. That is, they propagate in-band along with the trace.
#[derive(Debug)]
pub struct BaggageItem {
    name: String,
    value: String,
}

impl BaggageItem {
    /// The spec-level value of this item.
    pub closed spec fn value_spec(&self) -> Seq<char> {
        self.value@
    }

    /// Makes a new `BaggageItem` instance.
    pub fn new(name: &str, value: &str) -> (b: Self)
        ensures
            b.key() == name@,
            b.value_spec() == value@,
    {
        BaggageItem { name: name.to_owned(), value: value.to_owned() }
    }

    /// Returns the name of this item.
    pub fn name(&self) -> (r: &str)
        ensures
            r@ == self.key(),
    {
        self.name.as_str()
    }

    /// Returns the value of this item.
    pub fn value(&self) -> (r: &str)
        ensures
            r@ == self.value_spec(),
    {
        self.value.as_str()
    }
}

impl NamedItem for BaggageItem {
    closed spec fn key(&self) -> Seq<char> {
        self.name@
    }

    fn key_ref(&self) -> (s: &str) {
        self.name.as_str()
    }
}

impl Clone for BaggageItem {
    fn clone(&self) -> (r: Self)
        ensures
            r == *self,
    {
        BaggageItem { name: self.name.clone(), value: self.value.clone() }
    }
}

/// Span reference: a causal relationship to another trace's state. It
/// carries no ownership of the referenced span.
#[derive(Debug)]
#[allow(missing_docs)]
pub enum SpanReference<T> {
    ChildOf(T),
    FollowsFrom(T),
}

impl<T> SpanReference<T> {
    /// The spec-level state of the referenced span.
    pub open spec fn state_spec(&self) -> T {
        match self {
            SpanReference::ChildOf(x) => *x,
            SpanReference::FollowsFrom(x) => *x,
        }
    }

    /// Returns the span context state of this reference.
    pub fn span(&self) -> (r: &T)
        ensures
            *r == self.state_spec(),
    {
        match self {
            SpanReference::ChildOf(x) => x,
            SpanReference::FollowsFrom(x) => x,
        }
    }

    /// Returns `true` if this is a `ChildOf` reference.
    pub fn is_child_of(&self) -> (r: bool)
        ensures
            r == (self matches SpanReference::ChildOf(_)),
    {
        match self {
            SpanReference::ChildOf(_) => true,
            SpanReference::FollowsFrom(_) => false,
        }
    }

    /// Returns `true` if this is a `FollowsFrom` reference.
    pub fn is_follows_from(&self) -> (r: bool)
        ensures
            r == (self matches SpanReference::FollowsFrom(_)),
    {
        match self {
            SpanReference::ChildOf(_) => false,
            SpanReference::FollowsFrom(_) => true,
        }
    }
}

impl<T: Clone> Clone for SpanReference<T> {
    fn clone(&self) -> (r: Self)
        ensures
            (r matches SpanReference::ChildOf(_)) == (self matches SpanReference::ChildOf(_)),
            cloned::<T>(self.state_spec(), r.state_spec()),
    {
        match self {
            SpanReference::ChildOf(x) => SpanReference::ChildOf(x.clone()),
            SpanReference::FollowsFrom(x) => SpanReference::FollowsFrom(x.clone()),
        }
    }
}

/// Span context.
///
/// Each `SpanContext` encapsulates the following state:
///
/// - `T`: implementation-dependent state (for example, trace and span ids)
///   needed to refer to a distinct `Span` across a process boundary
/// - `BaggageItem`s: key:value pairs that cross process boundaries, kept
///   normalized (sorted by name, one entry per name)
#[derive(Debug)]
pub struct SpanContext<T> {
    state: T,
    baggage_items: Vec<BaggageItem>,
}

impl<T> SpanContext<T> {
    /// The spec-level state of this context.
    pub closed spec fn state_spec(&self) -> T {
        self.state
    }

    /// The spec-level baggage items of this context.
    pub closed spec fn baggage_spec(&self) -> Seq<BaggageItem> {
        self.baggage_items@
    }

    /// The baggage items are sorted by name, with no duplicate names.
    pub open spec fn well_formed(&self) -> bool {
        sorted_unique(self.baggage_spec())
    }

    /// Makes a new `SpanContext` instance, normalizing the baggage items:
    /// they come out sorted by name and deduplicated, the last entry added
    /// for a name surviving.
    pub fn new(state: T, baggage_items: Vec<BaggageItem>) -> (c: Self)
        ensures
            c.state_spec() == state,
            c.baggage_spec() == normalized(baggage_items@),
            c.well_formed(),
    {
        let items = normalize_by_name(baggage_items);
        SpanContext { state, baggage_items: items }
    }

    /// Returns the implementation-dependent state of this context.
    pub fn state(&self) -> (r: &T)
        ensures
            *r == self.state_spec(),
    {
        &self.state
    }

    /// Returns the baggage items associated with this context.
    pub fn baggage_items(&self) -> (r: &[BaggageItem])
        ensures
            r@ == self.baggage_spec(),
    {
        self.baggage_items.as_slice()
    }

    /// Replaces the baggage item sharing `item`'s name, keeping the order.
    pub(crate) fn set_baggage_item(&mut self, item: BaggageItem)
        requires
            old(self).well_formed(),
        ensures
            final(self).well_formed(),
            final(self).state_spec() == old(self).state_spec(),
            final(self).baggage_spec() == insert_named(old(self).baggage_spec(), item),
    {
        proof {
            crate::order::lemma_insert_named(self.baggage_items@, item);
        }
        insert_sorted(&mut self.baggage_items, item);
    }
}

impl<T: Clone> Clone for SpanContext<T> {
    fn clone(&self) -> (r: Self)
        ensures
            cloned::<T>(self.state_spec(), r.state_spec()),
            r.baggage_spec() == self.baggage_spec(),
    {
        let items = self.baggage_items.clone();
        proof {
            assert forall|i: int| 0 <= i < self.baggage_items@.len() implies items@[i]
                == self.baggage_items@[i] by {
                assert(cloned::<BaggageItem>(self.baggage_items@[i], items@[i]));
            }
            assert(items@ =~= self.baggage_items@);
        }
        SpanContext { state: self.state.clone(), baggage_items: items }
    }
}

impl<T> MaybeAsRef<SpanContext<T>> for SpanContext<T> {
    open spec fn maybe_view(&self) -> Option<SpanContext<T>> {
        Some(*self)
    }

    fn maybe_as_ref(&self) -> (r: Option<&SpanContext<T>>) {
        Some(self)
    }
}

/// Candidate span for tracing: the read-only pre-sampling view of a span's
/// accumulated tags, references and baggage items, handed to a `Sampler`.
#[derive(Debug)]
pub struct CandidateSpan<'a, T> {
    tags: &'a [Tag],
    references: &'a [SpanReference<T>],
    baggage_items: &'a [BaggageItem],
}

impl<'a, T> CandidateSpan<'a, T> {
    /// The spec-level tags of this candidate.
    pub closed spec fn tags_spec(&self) -> Seq<Tag> {
        self.tags@
    }

    /// The spec-level references of this candidate.
    pub closed spec fn references_spec(&self) -> Seq<SpanReference<T>> {
        self.references@
    }

    /// The spec-level baggage items of this candidate.
    pub closed spec fn baggage_spec(&self) -> Seq<BaggageItem> {
        self.baggage_items@
    }

    pub(crate) fn new(
        tags: &'a [Tag],
        references: &'a [SpanReference<T>],
        baggage_items: &'a [BaggageItem],
    ) -> (c: Self)
        ensures
            c.tags_spec() == tags@,
            c.references_spec() == references@,
            c.baggage_spec() == baggage_items@,
    {
        CandidateSpan { tags, references, baggage_items }
    }

    /// Returns the tags of this span.
    pub fn tags(&self) -> (r: &[Tag])
        ensures
            r@ == self.tags_spec(),
    {
        self.tags
    }

    /// Returns the references of this span.
    pub fn references(&self) -> (r: &[SpanReference<T>])
        ensures
            r@ == self.references_spec(),
    {
        self.references
    }

    /// Returns the baggage items of this span.
    pub fn baggage_items(&self) -> (r: &[BaggageItem])
        ensures
            r@ == self.baggage_spec(),
    {
        self.baggage_items
    }
}

/// The ghost projection of an active span's state.
pub struct SpanData<T> {
    /// The operation name.
    pub operation_name: Seq<char>,
    /// When the operation started.
    pub start_time: SystemTime,
    /// When the operation finished, if already set.
    pub finish_time: Option<SystemTime>,
    /// The causal references to other spans.
    pub references: Seq<SpanReference<T>>,
    /// The span's tags, unique by name.
    pub tags: Seq<Tag>,
    /// The log records, in the order they were appended.
    pub logs: Seq<Log>,
    /// The context's implementation-dependent state.
    pub state: T,
    /// The context's baggage items, sorted by name and unique.
    pub baggage: Seq<BaggageItem>,
}

#[derive(Debug)]
#[verifier::reject_recursive_types(T)]
struct SpanInner<T> {
    operation_name: String,
    start_time: SystemTime,
    finish_time: Option<SystemTime>,
    references: Vec<SpanReference<T>>,
    tags: Vec<Tag>,
    logs: Vec<Log>,
    context: SpanContext<T>,
    span_tx: SpanSender<T>,
}

impl<T> SpanInner<T> {
    spec fn data_spec(&self) -> SpanData<T> {
        SpanData {
            operation_name: self.operation_name@,
            start_time: self.start_time,
            finish_time: self.finish_time,
            references: self.references@,
            tags: self.tags@,
            logs: self.logs@,
            state: self.context.state_spec(),
            baggage: self.context.baggage_spec(),
        }
    }
}

/// Span.
///
/// A span is either active, accumulating tags and logs, or inactive: an
/// inert value on which every mutation is a no-op and whose end of life
/// produces nothing.
///
/// Its view is `None` for an inactive span and `Some` of the accumulated
/// state for an active one.
///
/// An active span is finished by [`Span::finish`], which consumes it,
/// snapshots it into a `FinishedSpan` exactly once and hands that to the
/// associated channel without blocking.
#[derive(Debug)]
#[verifier::reject_recursive_types(T)]
pub struct Span<T>(Option<SpanInner<T>>);

impl<T> View for Span<T> {
    type V = Option<SpanData<T>>;

    closed spec fn view(&self) -> Option<SpanData<T>> {
        match self.0 {
            Some(inner) => Some(inner.data_spec()),
            None => None,
        }
    }
}

impl<T> Span<T> {
    /// Whether this span is active.
    pub open spec fn is_sampled_spec(&self) -> bool {
        self@ is Some
    }

    /// An active span's tags are unique by name and its baggage is sorted
    /// by name without duplicates.
    pub open spec fn well_formed(&self) -> bool {
        self@ matches Some(d) ==> unique_keys(d.tags) && sorted_unique(d.baggage)
    }

    /// Makes an inactive span.
    ///
    /// This span is never traced: every mutation on it is a no-op, and no
    /// `FinishedSpan` is ever produced from it.
    pub fn inactive() -> (s: Self)
        ensures
            s@ is None,
            s.well_formed(),
    {
        Span(None)
    }

    /// Returns a handle of this span.
    pub fn handle(&self) -> (h: SpanHandle<T>) where T: Clone
        ensures
            h.is_sampled_spec() == self.is_sampled_spec(),
            self@ matches Some(d) ==> h@ matches Some(c) && cloned::<T>(d.state, c.state_spec())
                && c.baggage_spec() == d.baggage,
            self@ is None ==> h@ is None,
    {
        match &self.0 {
            Some(inner) => SpanHandle(
                Some((inner.context.clone(), clone_sender(&inner.span_tx))),
            ),
            None => SpanHandle(None),
        }
    }

    /// Returns `true` if this span is sampled (i.e., being traced).
    pub fn is_sampled(&self) -> (r: bool)
        ensures
            r == self.is_sampled_spec(),
    {
        self.0.is_some()
    }

    /// Returns the context of this span, or nothing for an inactive span.
    pub fn context(&self) -> (r: Option<&SpanContext<T>>)
        ensures
            match r {
                Some(c) => self@ matches Some(d) && c.state_spec() == d.state && c.baggage_spec()
                    == d.baggage,
                None => self@ is None,
            },
    {
        match &self.0 {
            Some(inner) => Some(&inner.context),
            None => None,
        }
    }

    /// Sets the operation name of this span; a no-op on an inactive span,
    /// whose `f` is never called.
    pub fn set_operation_name<F: FnOnce() -> String>(&mut self, f: F)
        requires
            old(self).well_formed(),
            call_requires(f, ()),
        ensures
            final(self).well_formed(),
            old(self)@ is None ==> final(self)@ == old(self)@,
            old(self)@ matches Some(d) ==> exists|n: String|
                #[trigger] call_ensures(f, (), n) && final(self)@ == Some(
                    SpanData { operation_name: n@, ..d },
                ),
    {
        match self.0.take() {
            Some(mut inner) => {
                let n = f();
                inner.operation_name = n;
                self.0 = Some(inner);
            },
            None => {},
        }
    }

    /// Sets the start time of this span; a no-op on an inactive span.
    pub fn set_start_time<F: FnOnce() -> SystemTime>(&mut self, f: F)
        requires
            old(self).well_formed(),
            call_requires(f, ()),
        ensures
            final(self).well_formed(),
            old(self)@ is None ==> final(self)@ == old(self)@,
            old(self)@ matches Some(d) ==> exists|t: SystemTime|
                #[trigger] call_ensures(f, (), t) && final(self)@ == Some(
                    SpanData { start_time: t, ..d },
                ),
    {
        match self.0.take() {
            Some(mut inner) => {
                let t = f();
                inner.start_time = t;
                self.0 = Some(inner);
            },
            None => {},
        }
    }

    /// Sets the finish time of this span; a no-op on an inactive span.
    pub fn set_finish_time<F: FnOnce() -> SystemTime>(&mut self, f: F)
        requires
            old(self).well_formed(),
            call_requires(f, ()),
        ensures
            final(self).well_formed(),
            old(self)@ is None ==> final(self)@ == old(self)@,
            old(self)@ matches Some(d) ==> exists|t: SystemTime|
                #[trigger] call_ensures(f, (), t) && final(self)@ == Some(
                    SpanData { finish_time: Some(t), ..d },
                ),
    {
        match self.0.take() {
            Some(mut inner) => {
                let t = f();
                inner.finish_time = Some(t);
                self.0 = Some(inner);
            },
            None => {},
        }
    }

    /// Sets the tag to this span: of several tags sharing a name the last
    /// one set wins. A no-op on an inactive span, whose `f` is never
    /// called.
    pub fn set_tag<F: FnOnce() -> Tag>(&mut self, f: F)
        requires
            old(self).well_formed(),
            call_requires(f, ()),
        ensures
            final(self).well_formed(),
            old(self)@ is None ==> final(self)@ == old(self)@,
            old(self)@ matches Some(d) ==> exists|t: Tag|
                #[trigger] call_ensures(f, (), t) && final(self)@ == Some(
                    SpanData { tags: set_key(d.tags, t), ..d },
                ),
    {
        match self.0.take() {
            Some(mut inner) => {
                let t = f();
                set_in_place(&mut inner.tags, t);
                self.0 = Some(inner);
            },
            None => {},
        }
    }

    /// Sets the tags to this span, in order: within the batch and against
    /// the existing tags, the last value set for a name wins. A no-op on an
    /// inactive span, whose `f` is never called.
    pub fn set_tags<F: FnOnce() -> Vec<Tag>>(&mut self, f: F)
        requires
            old(self).well_formed(),
            call_requires(f, ()),
        ensures
            final(self).well_formed(),
            old(self)@ is None ==> final(self)@ == old(self)@,
            old(self)@ matches Some(d) ==> exists|ts: Vec<Tag>|
                #[trigger] call_ensures(f, (), ts) && final(self)@ == Some(
                    SpanData { tags: set_all(d.tags, ts@), ..d },
                ),
    {
        match self.0.take() {
            Some(mut inner) => {
                let ts = f();
                let ghost tseq = ts@;
                let mut rest = ts;
                let ghost mut i: int = 0;
                proof {
                    assert(tseq.skip(0) =~= tseq);
                    assert(set_all(inner.tags@, tseq.take(0)) =~= inner.tags@) by {
                        assert(tseq.take(0).len() == 0);
                    }
                }
                let ghost tags0 = inner.tags@;
                let ghost d0 = inner.data_spec();
                while rest.len() > 0
                    invariant
                        0 <= i <= tseq.len(),
                        rest@ == tseq.skip(i),
                        inner.tags@ == set_all(tags0, tseq.take(i)),
                        inner.data_spec() == (SpanData { tags: inner.tags@, ..d0 }),
                        unique_keys(inner.tags@),
                    decreases rest.len(),
                {
                    let t = rest.remove(0);
                    proof {
                        assert(t == tseq[i]);
                        assert(rest@ =~= tseq.skip(i + 1));
                        assert(tseq.take(i + 1).drop_last() =~= tseq.take(i));
                        assert(tseq.take(i + 1).last() == tseq[i]);
                    }
                    set_in_place(&mut inner.tags, t);
                    proof {
                        i = i + 1;
                    }
                }
                proof {
                    assert(tseq.take(tseq.len() as int) =~= tseq);
                }
                self.0 = Some(inner);
            },
            None => {},
        }
    }

    /// Sets the baggage item to this span, keeping the context's baggage
    /// sorted by name and unique; a no-op on an inactive span.
    pub fn set_baggage_item<F: FnOnce() -> BaggageItem>(&mut self, f: F)
        requires
            old(self).well_formed(),
            call_requires(f, ()),
        ensures
            final(self).well_formed(),
            old(self)@ is None ==> final(self)@ == old(self)@,
            old(self)@ matches Some(d) ==> exists|b: BaggageItem|
                #[trigger] call_ensures(f, (), b) && final(self)@ == Some(
                    SpanData { baggage: insert_named(d.baggage, b), ..d },
                ),
    {
        match self.0.take() {
            Some(mut inner) => {
                let b = f();
                inner.context.set_baggage_item(b);
                self.0 = Some(inner);
            },
            None => {},
        }
    }

    /// Gets the baggage item that has the name `name`.
    pub fn get_baggage_item(&self, name: &str) -> (r: Option<&BaggageItem>)
        ensures
            match r {
                Some(b) => self@ matches Some(d) && first_entry(d.baggage, name@) == Some(*b),
                None => self@ is None || (self@ matches Some(d) && first_entry(d.baggage, name@)
                    is None),
            },
    {
        match &self.0 {
            Some(inner) => find_by_key(inner.context.baggage_items(), name),
            None => None,
        }
    }

    /// Logs structured data: `f` receives an empty log builder, and the
    /// record it builds is appended, unless it has no fields, in which case
    /// it is discarded. A no-op on an inactive span, whose `f` is never
    /// called.
    pub fn log<F: FnOnce(LogBuilder) -> LogBuilder>(&mut self, f: F)
        requires
            old(self).well_formed(),
            forall|b: LogBuilder|
                b.fields_spec() == Seq::<crate::log::LogField>::empty() && b.time_spec() is None
                    ==> #[trigger] call_requires(f, (b,)),
        ensures
            final(self).well_formed(),
            old(self)@ is None ==> final(self)@ == old(self)@,
            old(self)@ matches Some(d) ==> exists|seed: LogBuilder, b: LogBuilder|
                {
                    &&& seed.fields_spec() == Seq::<crate::log::LogField>::empty()
                    &&& seed.time_spec() is None
                    &&& #[trigger] call_ensures(f, (seed,), b)
                    &&& if b.fields_spec().len() == 0 {
                        final(self)@ == old(self)@
                    } else {
                        exists|l: Log|
                            {
                                &&& (#[trigger] l.fields_spec()) == normalized(b.fields_spec())
                                &&& (b.time_spec() matches Some(t) ==> l.time_spec() == t)
                                &&& final(self)@ == Some(SpanData { logs: d.logs.push(l), ..d })
                            }
                    }
                },
    {
        match self.0.take() {
            Some(mut inner) => {
                let b = f(LogBuilder::new());
                match b.finish() {
                    Some(log) => {
                        inner.logs.push(log);
                    },
                    None => {},
                }
                self.0 = Some(inner);
            },
            None => {},
        }
    }

    /// Logs an error: `f` receives a builder pre-seeded with the field
    /// `("event", "error")`, and the record it builds is appended — it is
    /// never empty. A span-level `"error"` tag with the value `true` is set
    /// unless one is already present, so that any number of calls leaves
    /// exactly one. A no-op on an inactive span, whose `f` is never called.
    pub fn error_log<F: FnOnce(StdErrorLogFieldsBuilder) -> StdErrorLogFieldsBuilder>(
        &mut self,
        f: F,
    )
        requires
            old(self).well_formed(),
            forall|b: StdErrorLogFieldsBuilder|
                b.fields_spec().len() == 1 && b.fields_spec()[0].key() == "event"@
                    && b.fields_spec()[0].value_spec() == "error"@ && b.time_spec() is None
                    ==> #[trigger] call_requires(f, (b,)),
        ensures
            final(self).well_formed(),
            old(self)@ is None ==> final(self)@ == old(self)@,
            old(self)@ matches Some(d) ==> exists|
                seed: StdErrorLogFieldsBuilder,
                b: StdErrorLogFieldsBuilder,
                l: Log,
            |
                #![trigger call_ensures(f, (seed,), b), l.fields_spec()]
                {
                    &&& seed.fields_spec().len() == 1
                    &&& seed.fields_spec()[0].key() == "event"@
                    &&& seed.fields_spec()[0].value_spec() == "error"@
                    &&& seed.time_spec() is None
                    &&& call_ensures(f, (seed,), b)
                    &&& l.fields_spec() == normalized(b.fields_spec())
                    &&& (b.time_spec() matches Some(t) ==> l.time_spec() == t)
                    &&& (first_entry(l.fields_spec(), "event"@) matches Some(fv)
                        && fv.value_spec() == "error"@)
                    &&& (final(self)@ matches Some(dd) && dd.operation_name == d.operation_name
                        && dd.start_time == d.start_time && dd.finish_time == d.finish_time
                        && dd.references == d.references && dd.state == d.state && dd.baggage
                        == d.baggage && dd.logs == d.logs.push(l))
                    &&& (contains_key(d.tags, "error"@) ==> (final(self)@ matches Some(dd)
                        && dd.tags == d.tags))
                    &&& (!contains_key(d.tags, "error"@) ==> exists|te: Tag|
                        {
                            &&& (#[trigger] te.key()) == "error"@
                            &&& te.value_spec() == TagValue::Boolean(true)
                            &&& (final(self)@ matches Some(dd) && dd.tags == d.tags.push(te))
                        })
                },
    {
        match self.0.take() {
            Some(mut inner) => {
                let b = f(LogBuilder::new().error());
                proof {
                    use_type_invariant(&b);
                }
                let lb = b.done();
                let ghost bfields = lb.fields_spec();
                match lb.finish() {
                    Some(log) => {
                        proof {
                            lemma_error_event_survives(bfields);
                        }
                        inner.logs.push(log);
                    },
                    None => {
                        proof {
                            lemma_error_event_survives(bfields);
                            assert(false);
                        }
                    },
                }
                let found = find_by_key(inner.tags.as_slice(), "error").is_some();
                if !found {
                    let te = StdTag::error();
                    proof {
                        let tags = inner.tags@;
                        assert(!contains_key(tags, "error"@)) by {
                            crate::order::lemma_first_entry_some(tags, "error"@);
                        }
                        assert forall|i: int, j: int|
                            0 <= i < j < tags.push(te).len() implies (
                        #[trigger] tags.push(te)[i].key()) != (#[trigger] tags.push(te)[j].key()) by {
                            if j == tags.len() {
                                if tags.push(te)[i].key() == "error"@ {
                                    assert(tags[i].key() == "error"@);
                                    assert(contains_key(tags, "error"@));
                                }
                            } else {
                                assert(tags.push(te)[i] == tags[i] && tags.push(te)[j] == tags[j]);
                            }
                        }
                    }
                    inner.tags.push(te);
                } else {
                    proof {
                        crate::order::lemma_first_entry_some(inner.tags@, "error"@);
                    }
                }
                self.0 = Some(inner);
            },
            None => {},
        }
    }

    pub(crate) fn new(
        operation_name: String,
        start_time: SystemTime,
        references: Vec<SpanReference<T>>,
        tags: Vec<Tag>,
        state: T,
        baggage_items: Vec<BaggageItem>,
        span_tx: SpanSender<T>,
    ) -> (s: Self)
        requires
            unique_keys(tags@),
        ensures
            s@ == Some(
                SpanData {
                    operation_name: operation_name@,
                    start_time: start_time,
                    finish_time: None::<SystemTime>,
                    references: references@,
                    tags: tags@,
                    logs: Seq::<Log>::empty(),
                    state: state,
                    baggage: normalized(baggage_items@),
                },
            ),
            s.well_formed(),
    {
        let context = SpanContext::new(state, baggage_items);
        let inner = SpanInner {
            operation_name,
            start_time,
            finish_time: None,
            references,
            tags,
            logs: Vec::new(),
            context,
            span_tx,
        };
        proof {
            lemma_normalized(baggage_items@);
        }
        Span(Some(inner))
    }

    /// Finishes this span.
    ///
    /// An active span is snapshotted into a `FinishedSpan` — the finish
    /// time defaulting to the present — and handed to the associated
    /// channel by a non-blocking send; when the channel is full or its
    /// receiver is gone, the snapshot is silently dropped. An inactive span
    /// produces nothing. Finishing consumes the span, so no span can emit
    /// more than one `FinishedSpan`.
    pub fn finish(self)
        requires
            self.well_formed(),
    {
        let Span(opt) = self;
        match opt {
            Some(inner) => {
                let (finished, tx) = inner.into_finished();
                let _ = try_send_finished(&tx, finished);
            },
            None => {},
        }
    }
}

impl<T> SpanInner<T> {
    /// Snapshots the accumulated state, resolving the finish time.
    fn into_finished(self) -> (r: (FinishedSpan<T>, SpanSender<T>))
        requires
            unique_keys(self.tags@),
            sorted_unique(self.context.baggage_spec()),
        ensures
            ({
                let d = self.data_spec();
                &&& r.0.operation_name_spec() == d.operation_name
                &&& r.0.start_time_spec() == d.start_time
                &&& (d.finish_time matches Some(t) ==> r.0.finish_time_spec() == t)
                &&& r.0.references_spec() == d.references
                &&& r.0.tags_spec() == d.tags
                &&& r.0.logs_spec() == d.logs
                &&& r.0.state_spec() == d.state
                &&& r.0.baggage_spec() == d.baggage
            }),
    {
        let SpanInner { operation_name, start_time, finish_time, references, tags, logs, context, span_tx } =
            self;
        let finish_time = match finish_time {
            Some(t) => t,
            None => system_time_now(),
        };
        let finished = FinishedSpan {
            operation_name,
            start_time,
            finish_time,
            references,
            tags,
            logs,
            context,
        };
        (finished, span_tx)
    }
}

impl<T> MaybeAsRef<SpanContext<T>> for Span<T> {
    closed spec fn maybe_view(&self) -> Option<SpanContext<T>> {
        match self.0 {
            Some(inner) => Some(inner.context),
            None => None,
        }
    }

    fn maybe_as_ref(&self) -> (r: Option<&SpanContext<T>>) {
        match &self.0 {
            Some(inner) => Some(&inner.context),
            None => None,
        }
    }
}

/// The context a span yields to `child_of` and `follows_from`: present
/// exactly for a sampled span, carrying the span's state and baggage.
pub proof fn lemma_span_maybe_view<T>(span: &Span<T>)
    ensures
        (span.maybe_view() is Some) == (span@ is Some),
        span.maybe_view() matches Some(c) ==> span@ matches Some(d) && c.state_spec() == d.state
            && c.baggage_spec() == d.baggage,
{
}

/// Finished span: the immutable snapshot of an active span's state at
/// finalization time, with the finish time resolved.
#[derive(Debug)]
#[verifier::reject_recursive_types(T)]
pub struct FinishedSpan<T> {
    operation_name: String,
    start_time: SystemTime,
    finish_time: SystemTime,
    references: Vec<SpanReference<T>>,
    tags: Vec<Tag>,
    logs: Vec<Log>,
    context: SpanContext<T>,
}

impl<T> FinishedSpan<T> {
    /// A finished span's tags are unique by name and its baggage is sorted
    /// by name without duplicates.
    #[verifier::type_invariant]
    closed spec fn wf(self) -> bool {
        unique_keys(self.tags@) && sorted_unique(self.context.baggage_spec())
    }

    /// The spec-level operation name.
    pub closed spec fn operation_name_spec(&self) -> Seq<char> {
        self.operation_name@
    }

    /// The spec-level start time.
    pub closed spec fn start_time_spec(&self) -> SystemTime {
        self.start_time
    }

    /// The spec-level finish time.
    pub closed spec fn finish_time_spec(&self) -> SystemTime {
        self.finish_time
    }

    /// The spec-level references.
    pub closed spec fn references_spec(&self) -> Seq<SpanReference<T>> {
        self.references@
    }

    /// The spec-level tags.
    pub closed spec fn tags_spec(&self) -> Seq<Tag> {
        self.tags@
    }

    /// The spec-level log records.
    pub closed spec fn logs_spec(&self) -> Seq<Log> {
        self.logs@
    }

    /// The spec-level context state.
    pub closed spec fn state_spec(&self) -> T {
        self.context.state_spec()
    }

    /// The spec-level baggage items.
    pub closed spec fn baggage_spec(&self) -> Seq<BaggageItem> {
        self.context.baggage_spec()
    }

    /// Returns the operation name of this span.
    pub fn operation_name(&self) -> (r: &str)
        ensures
            r@ == self.operation_name_spec(),
    {
        self.operation_name.as_str()
    }

    /// Returns the start time of this span.
    pub fn start_time(&self) -> (r: SystemTime)
        ensures
            r == self.start_time_spec(),
    {
        self.start_time
    }

    /// Returns the finish time of this span.
    pub fn finish_time(&self) -> (r: SystemTime)
        ensures
            r == self.finish_time_spec(),
    {
        self.finish_time
    }

    /// Returns the logs recorded during this span.
    pub fn logs(&self) -> (r: &[Log])
        ensures
            r@ == self.logs_spec(),
    {
        self.logs.as_slice()
    }

    /// Returns the tags of this span: each name has exactly one entry.
    pub fn tags(&self) -> (r: &[Tag])
        ensures
            r@ == self.tags_spec(),
            unique_keys(r@),
    {
        proof {
            use_type_invariant(&*self);
        }
        self.tags.as_slice()
    }

    /// Returns the references of this span.
    pub fn references(&self) -> (r: &[SpanReference<T>])
        ensures
            r@ == self.references_spec(),
    {
        self.references.as_slice()
    }

    /// Returns the context of this span; its baggage is sorted by name,
    /// with no duplicate names.
    pub fn context(&self) -> (r: &SpanContext<T>)
        ensures
            r.state_spec() == self.state_spec(),
            r.baggage_spec() == self.baggage_spec(),
            r.well_formed(),
    {
        proof {
            use_type_invariant(&*self);
        }
        &self.context
    }
}

/// Immutable handle of `Span`: the context and the sender of a sampled
/// span, or nothing for an inactive one.
#[derive(Debug)]
#[verifier::reject_recursive_types(T)]
pub struct SpanHandle<T>(Option<(SpanContext<T>, SpanSender<T>)>);

impl<T> View for SpanHandle<T> {
    type V = Option<SpanContext<T>>;

    closed spec fn view(&self) -> Option<SpanContext<T>> {
        match self.0 {
            Some(pair) => Some(pair.0),
            None => None,
        }
    }
}

impl<T> SpanHandle<T> {
    /// Whether this handle was taken from a sampled span.
    pub open spec fn is_sampled_spec(&self) -> bool {
        self@ is Some
    }

    /// Returns `true` if this span is sampled (i.e., being traced).
    pub fn is_sampled(&self) -> (r: bool)
        ensures
            r == self.is_sampled_spec(),
    {
        self.0.is_some()
    }

    /// Returns the context of this span, or nothing for an inactive span.
    pub fn context(&self) -> (r: Option<&SpanContext<T>>)
        ensures
            match r {
                Some(c) => self@ == Some(*c),
                None => self@ is None,
            },
    {
        match &self.0 {
            Some(pair) => Some(&pair.0),
            None => None,
        }
    }

    /// Gets the baggage item that has the name `name`.
    pub fn get_baggage_item(&self, name: &str) -> (r: Option<&BaggageItem>)
        ensures
            match r {
                Some(b) => self@ matches Some(c) && first_entry(c.baggage_spec(), name@) == Some(
                    *b,
                ),
                None => self@ is None || (self@ matches Some(c) && first_entry(
                    c.baggage_spec(),
                    name@,
                ) is None),
            },
    {
        match &self.0 {
            Some(pair) => find_by_key(pair.0.baggage_items(), name),
            None => None,
        }
    }
}


/// Whether the tags carry a `"sampling.priority"` tag with a positive
/// integer value, which forces the span to be sampled whatever the
/// configured sampler would decide.
pub open spec fn priority_forces(tags: Seq<Tag>) -> bool {
    match first_entry(tags, "sampling.priority"@) {
        Some(t) => match t.value_spec() {
            TagValue::Integer(n) => n > 0,
            _ => false,
        },
        None => false,
    }
}

/// The policy by which `StartSpanOptions::start` derives a fresh
/// implementation-dependent state from the candidate span's view.
pub trait FromCandidate: Sized {
    /// Derives a fresh state from the candidate span.
    fn from_candidate<'a>(candidate: &CandidateSpan<'a, Self>) -> Self;
}

/// Options for starting a span: the builder that accumulates tags,
/// references and inherited baggage before the sampling decision.
#[derive(Debug)]
#[verifier::reject_recursive_types(T)]
pub struct StartSpanOptions<'a, S, T> {
    operation_name: String,
    start_time: Option<SystemTime>,
    tags: Vec<Tag>,
    references: Vec<SpanReference<T>>,
    baggage_items: Vec<BaggageItem>,
    span_tx: &'a SpanSender<T>,
    sampler: &'a S,
}

impl<'a, S: Sampler<T>, T> StartSpanOptions<'a, S, T> {
    /// The spec-level operation name.
    pub closed spec fn operation_name_spec(&self) -> Seq<char> {
        self.operation_name@
    }

    /// The spec-level explicit start time, if one was set.
    pub closed spec fn start_time_spec(&self) -> Option<SystemTime> {
        self.start_time
    }

    /// The spec-level tags accumulated so far.
    pub closed spec fn tags_spec(&self) -> Seq<Tag> {
        self.tags@
    }

    /// The spec-level references accumulated so far.
    pub closed spec fn references_spec(&self) -> Seq<SpanReference<T>> {
        self.references@
    }

    /// The spec-level baggage items accumulated so far.
    pub closed spec fn baggage_spec(&self) -> Seq<BaggageItem> {
        self.baggage_items@
    }

    /// The spec-level sampler consulted at start.
    pub closed spec fn sampler_spec(&self) -> S {
        *self.sampler
    }

    pub(crate) fn new(operation_name: &str, span_tx: &'a SpanSender<T>, sampler: &'a S) -> (r:
        Self)
        ensures
            r.operation_name_spec() == operation_name@,
            r.start_time_spec() is None,
            r.tags_spec() == Seq::<Tag>::empty(),
            r.references_spec() == Seq::<SpanReference<T>>::empty(),
            r.baggage_spec() == Seq::<BaggageItem>::empty(),
            r.sampler_spec() == *sampler,
    {
        StartSpanOptions {
            operation_name: operation_name.to_owned(),
            start_time: None,
            tags: Vec::new(),
            references: Vec::new(),
            baggage_items: Vec::new(),
            span_tx,
            sampler,
        }
    }

    /// Sets the start time of this span.
    pub fn start_time(self, time: SystemTime) -> (r: Self)
        ensures
            r.operation_name_spec() == self.operation_name_spec(),
            r.start_time_spec() == Some(time),
            r.tags_spec() == self.tags_spec(),
            r.references_spec() == self.references_spec(),
            r.baggage_spec() == self.baggage_spec(),
            r.sampler_spec() == self.sampler_spec(),
    {
        StartSpanOptions { start_time: Some(time), ..self }
    }

    /// Sets the tag to this span.
    pub fn tag(self, tag: Tag) -> (r: Self)
        ensures
            r.operation_name_spec() == self.operation_name_spec(),
            r.start_time_spec() == self.start_time_spec(),
            r.tags_spec() == self.tags_spec().push(tag),
            r.references_spec() == self.references_spec(),
            r.baggage_spec() == self.baggage_spec(),
            r.sampler_spec() == self.sampler_spec(),
    {
        let mut tags = self.tags;
        tags.push(tag);
        StartSpanOptions { tags, ..self }
    }

    /// Appends a reference to `context` and inherits its baggage items.
    pub(crate) fn with_reference(self, context: &SpanContext<T>, child: bool) -> (r: Self) where
        T: Clone,

        ensures
            r.operation_name_spec() == self.operation_name_spec(),
            r.start_time_spec() == self.start_time_spec(),
            r.tags_spec() == self.tags_spec(),
            r.sampler_spec() == self.sampler_spec(),
            r.references_spec().len() == self.references_spec().len() + 1,
            r.references_spec().drop_last() == self.references_spec(),
            child ==> (r.references_spec().last() matches SpanReference::ChildOf(st)
                && cloned::<T>(context.state_spec(), st)),
            !child ==> (r.references_spec().last() matches SpanReference::FollowsFrom(st)
                && cloned::<T>(context.state_spec(), st)),
            r.baggage_spec() == self.baggage_spec() + context.baggage_spec(),
    {
        let st = context.state().clone();
        let reference = if child {
            SpanReference::ChildOf(st)
        } else {
            SpanReference::FollowsFrom(st)
        };
        let mut references = self.references;
        references.push(reference);
        let mut baggage_items = self.baggage_items;
        let ghost bg0 = baggage_items@;
        let items = context.baggage_items();
        let n = items.len();
        let mut i: usize = 0;
        proof {
            assert(bg0 + items@.take(0) =~= bg0);
        }
        while i < n
            invariant
                i <= n,
                n == items@.len(),
                items@ == context.baggage_spec(),
                baggage_items@ == bg0 + items@.take(i as int),
            decreases n - i,
        {
            let item = items[i].clone();
            baggage_items.push(item);
            proof {
                assert(bg0 + items@.take(i + 1) =~= (bg0 + items@.take(i as int)).push(
                    items@[i as int],
                ));
            }
            i = i + 1;
        }
        proof {
            assert(items@.take(n as int) =~= items@);
            assert(references@.drop_last() =~= self.references_spec());
        }
        StartSpanOptions { references, baggage_items, ..self }
    }

    /// Adds the `ChildOf` reference to this span, if the supplied value
    /// yields a context — its reference with a clone of the context's
    /// state, and the context's baggage items inherited into the candidate
    /// baggage. An inactive span yields no context, and then nothing
    /// changes.
    pub fn child_of<C: MaybeAsRef<SpanContext<T>>>(self, context: &C) -> (r: Self) where
        T: Clone,

        ensures
            r.operation_name_spec() == self.operation_name_spec(),
            r.start_time_spec() == self.start_time_spec(),
            r.tags_spec() == self.tags_spec(),
            r.sampler_spec() == self.sampler_spec(),
            context.maybe_view() is None ==> (r.references_spec() == self.references_spec()
                && r.baggage_spec() == self.baggage_spec()),
            context.maybe_view() matches Some(c) ==> (r.references_spec().len()
                == self.references_spec().len() + 1 && r.references_spec().drop_last()
                == self.references_spec() && (r.references_spec().last()
                matches SpanReference::ChildOf(st) && cloned::<T>(c.state_spec(), st))
                && r.baggage_spec() == self.baggage_spec() + c.baggage_spec()),
    {
        match context.maybe_as_ref() {
            Some(ctx) => self.with_reference(ctx, true),
            None => self,
        }
    }

    /// Adds the `FollowsFrom` reference to this span, if the supplied
    /// value yields a context — its reference with a clone of the
    /// context's state, and the context's baggage items inherited into the
    /// candidate baggage. An inactive span yields no context, and then
    /// nothing changes.
    pub fn follows_from<C: MaybeAsRef<SpanContext<T>>>(self, context: &C) -> (r: Self) where
        T: Clone,

        ensures
            r.operation_name_spec() == self.operation_name_spec(),
            r.start_time_spec() == self.start_time_spec(),
            r.tags_spec() == self.tags_spec(),
            r.sampler_spec() == self.sampler_spec(),
            context.maybe_view() is None ==> (r.references_spec() == self.references_spec()
                && r.baggage_spec() == self.baggage_spec()),
            context.maybe_view() matches Some(c) ==> (r.references_spec().len()
                == self.references_spec().len() + 1 && r.references_spec().drop_last()
                == self.references_spec() && (r.references_spec().last()
                matches SpanReference::FollowsFrom(st) && cloned::<T>(c.state_spec(), st))
                && r.baggage_spec() == self.baggage_spec() + c.baggage_spec()),
    {
        match context.maybe_as_ref() {
            Some(ctx) => self.with_reference(ctx, false),
            None => self,
        }
    }

    /// Starts a new span, deriving its state from the candidate span.
    ///
    /// The accumulated tags and baggage items are first normalized: sorted
    /// by name, one entry per name, the last entry added for a name
    /// winning. A `"sampling.priority"` tag with a positive integer value
    /// forces the sampling decision; otherwise the configured sampler is
    /// consulted on the candidate span. An unsampled start yields an
    /// inactive span.
    pub fn start(self) -> (span: Span<T>) where T: FromCandidate
        ensures
            span.well_formed(),
            priority_forces(normalized(self.tags_spec())) ==> span@ is Some,
            (!priority_forces(normalized(self.tags_spec()))
                && self.sampler_spec().is_deterministic()) ==> (span@ is Some
                <==> self.sampler_spec().sampled_spec(
                normalized(self.tags_spec()),
                self.references_spec(),
                normalized(self.baggage_spec()),
            )),
            span@ matches Some(d) ==> {
                &&& d.operation_name == self.operation_name_spec()
                &&& (self.start_time_spec() matches Some(t) ==> d.start_time == t)
                &&& d.finish_time is None
                &&& d.references == self.references_spec()
                &&& d.tags == normalized(self.tags_spec())
                &&& d.logs == Seq::<Log>::empty()
                &&& d.baggage == normalized(self.baggage_spec())
            },
    {
        let StartSpanOptions {
            operation_name,
            start_time,
            tags,
            references,
            baggage_items,
            span_tx,
            sampler,
        } = self;
        let tags = normalize_by_name(tags);
        let baggage_items = normalize_by_name(baggage_items);
        let candidate = CandidateSpan::new(
            tags.as_slice(),
            references.as_slice(),
            baggage_items.as_slice(),
        );
        let sampled = resolve_sampling(sampler, &candidate);
        if !sampled {
            return Span::inactive();
        }
        let state = T::from_candidate(&candidate);
        let time = match start_time {
            Some(t) => t,
            None => system_time_now(),
        };
        proof {
            lemma_sorted_unique_keys(tags@);
            crate::order::lemma_normalized_of_sorted(baggage_items@);
        }
        Span::new(
            operation_name,
            time,
            references,
            tags,
            state,
            baggage_items,
            clone_sender(span_tx),
        )
    }

    /// Starts a new span with the explicit `state`.
    ///
    /// The accumulated tags and baggage items are first normalized: sorted
    /// by name, one entry per name, the last entry added for a name
    /// winning. A `"sampling.priority"` tag with a positive integer value
    /// forces the sampling decision; otherwise the configured sampler is
    /// consulted on the candidate span. An unsampled start yields an
    /// inactive span.
    pub fn start_with_state(self, state: T) -> (span: Span<T>)
        ensures
            span.well_formed(),
            priority_forces(normalized(self.tags_spec())) ==> span@ is Some,
            (!priority_forces(normalized(self.tags_spec()))
                && self.sampler_spec().is_deterministic()) ==> (span@ is Some
                <==> self.sampler_spec().sampled_spec(
                normalized(self.tags_spec()),
                self.references_spec(),
                normalized(self.baggage_spec()),
            )),
            span@ matches Some(d) ==> {
                &&& d.operation_name == self.operation_name_spec()
                &&& (self.start_time_spec() matches Some(t) ==> d.start_time == t)
                &&& d.finish_time is None
                &&& d.references == self.references_spec()
                &&& d.tags == normalized(self.tags_spec())
                &&& d.logs == Seq::<Log>::empty()
                &&& d.state == state
                &&& d.baggage == normalized(self.baggage_spec())
            },
    {
        let StartSpanOptions {
            operation_name,
            start_time,
            tags,
            references,
            baggage_items,
            span_tx,
            sampler,
        } = self;
        let tags = normalize_by_name(tags);
        let baggage_items = normalize_by_name(baggage_items);
        let candidate = CandidateSpan::new(
            tags.as_slice(),
            references.as_slice(),
            baggage_items.as_slice(),
        );
        let sampled = resolve_sampling(sampler, &candidate);
        if !sampled {
            return Span::inactive();
        }
        let time = match start_time {
            Some(t) => t,
            None => system_time_now(),
        };
        proof {
            lemma_sorted_unique_keys(tags@);
            crate::order::lemma_normalized_of_sorted(baggage_items@);
        }
        Span::new(
            operation_name,
            time,
            references,
            tags,
            state,
            baggage_items,
            clone_sender(span_tx),
        )
    }
}

/// Resolves the sampling decision on a candidate span: a positive integer
/// `"sampling.priority"` tag forces it; otherwise the sampler decides.
fn resolve_sampling<S: Sampler<T>, T>(sampler: &S, candidate: &CandidateSpan<'_, T>) -> (r: bool)
    ensures
        priority_forces(candidate.tags_spec()) ==> r,
        !priority_forces(candidate.tags_spec()) && sampler.is_deterministic() ==> r
            == sampler.sampled_spec(
            candidate.tags_spec(),
            candidate.references_spec(),
            candidate.baggage_spec(),
        ),
{
    let forced = match find_by_key(candidate.tags(), "sampling.priority") {
        Some(t) => match t.value() {
            TagValue::Integer(n) => *n > 0,
            _ => false,
        },
        None => false,
    };
    if forced {
        true
    } else {
        sampler.is_sampled(candidate)
    }
}

impl<T> SpanHandle<T> {
    /// Starts a `ChildOf` span if this span is sampled; otherwise `f` is
    /// not called and an inactive span comes back.
    pub fn child<F: FnOnce(StartSpanOptions<AllSampler, T>) -> Span<T>>(
        &self,
        operation_name: &str,
        f: F,
    ) -> (r: Span<T>) where T: Clone
        requires
            self@ matches Some(c) ==> forall|opts: StartSpanOptions<AllSampler, T>|
                (opts.operation_name_spec() == operation_name@ && opts.start_time_spec() is None
                    && opts.tags_spec() == Seq::<Tag>::empty() && opts.baggage_spec()
                    == c.baggage_spec() && opts.references_spec().len() == 1 && opts.sampler_spec()
                    == AllSampler) ==> #[trigger] call_requires(f, (opts,)),
        ensures
            self@ is None ==> r@ is None,
            self@ matches Some(c) ==> exists|opts: StartSpanOptions<AllSampler, T>|
                {
                    &&& #[trigger] call_ensures(f, (opts,), r)
                    &&& opts.operation_name_spec() == operation_name@
                    &&& opts.start_time_spec() is None
                    &&& opts.tags_spec() == Seq::<Tag>::empty()
                    &&& opts.baggage_spec() == c.baggage_spec()
                    &&& opts.references_spec().len() == 1
                    &&& (opts.references_spec()[0] matches SpanReference::ChildOf(st) && cloned::<
                        T,
                    >(c.state_spec(), st))
                    &&& opts.sampler_spec() == AllSampler
                },
    {
        match &self.0 {
            Some(pair) => {
                let options = StartSpanOptions::new(operation_name, &pair.1, &AllSampler)
                    .with_reference(&pair.0, true);
                proof {
                    assert(options.references_spec()[0] == options.references_spec().last());
                    assert(options.baggage_spec() =~= pair.0.baggage_spec());
                }
                f(options)
            },
            None => Span::inactive(),
        }
    }

    /// Starts a `FollowsFrom` span if this span is sampled; otherwise `f`
    /// is not called and an inactive span comes back.
    pub fn follower<F: FnOnce(StartSpanOptions<AllSampler, T>) -> Span<T>>(
        &self,
        operation_name: &str,
        f: F,
    ) -> (r: Span<T>) where T: Clone
        requires
            self@ matches Some(c) ==> forall|opts: StartSpanOptions<AllSampler, T>|
                (opts.operation_name_spec() == operation_name@ && opts.start_time_spec() is None
                    && opts.tags_spec() == Seq::<Tag>::empty() && opts.baggage_spec()
                    == c.baggage_spec() && opts.references_spec().len() == 1 && opts.sampler_spec()
                    == AllSampler) ==> #[trigger] call_requires(f, (opts,)),
        ensures
            self@ is None ==> r@ is None,
            self@ matches Some(c) ==> exists|opts: StartSpanOptions<AllSampler, T>|
                {
                    &&& #[trigger] call_ensures(f, (opts,), r)
                    &&& opts.operation_name_spec() == operation_name@
                    &&& opts.start_time_spec() is None
                    &&& opts.tags_spec() == Seq::<Tag>::empty()
                    &&& opts.baggage_spec() == c.baggage_spec()
                    &&& opts.references_spec().len() == 1
                    &&& (opts.references_spec()[0] matches SpanReference::FollowsFrom(st)
                        && cloned::<T>(c.state_spec(), st))
                    &&& opts.sampler_spec() == AllSampler
                },
    {
        match &self.0 {
            Some(pair) => {
                let options = StartSpanOptions::new(operation_name, &pair.1, &AllSampler)
                    .with_reference(&pair.0, false);
                proof {
                    assert(options.references_spec()[0] == options.references_spec().last());
                    assert(options.baggage_spec() =~= pair.0.baggage_spec());
                }
                f(options)
            },
            None => Span::inactive(),
        }
    }
}

impl<T> Span<T> {
    /// Starts a `ChildOf` span if this span is sampled; otherwise `f` is
    /// not called and an inactive span comes back.
    pub fn child<F: FnOnce(StartSpanOptions<AllSampler, T>) -> Span<T>>(
        &self,
        operation_name: &str,
        f: F,
    ) -> (r: Span<T>) where T: Clone
        requires
            self@ matches Some(d) ==> forall|opts: StartSpanOptions<AllSampler, T>|
                (opts.operation_name_spec() == operation_name@ && opts.start_time_spec() is None
                    && opts.tags_spec() == Seq::<Tag>::empty() && opts.baggage_spec() == d.baggage
                    && opts.references_spec().len() == 1 && opts.sampler_spec() == AllSampler)
                    ==> #[trigger] call_requires(f, (opts,)),
        ensures
            self@ is None ==> r@ is None,
            self@ matches Some(d) ==> exists|opts: StartSpanOptions<AllSampler, T>|
                {
                    &&& #[trigger] call_ensures(f, (opts,), r)
                    &&& opts.operation_name_spec() == operation_name@
                    &&& opts.start_time_spec() is None
                    &&& opts.tags_spec() == Seq::<Tag>::empty()
                    &&& opts.baggage_spec() == d.baggage
                    &&& opts.references_spec().len() == 1
                    &&& (opts.references_spec()[0] matches SpanReference::ChildOf(st) && exists|
                        mid: T,
                    | #[trigger] cloned::<T>(d.state, mid) && cloned::<T>(mid, st))
                    &&& opts.sampler_spec() == AllSampler
                },
    {
        let handle = self.handle();
        handle.child(operation_name, f)
    }

    /// Starts a `FollowsFrom` span if this span is sampled; otherwise `f`
    /// is not called and an inactive span comes back.
    pub fn follower<F: FnOnce(StartSpanOptions<AllSampler, T>) -> Span<T>>(
        &self,
        operation_name: &str,
        f: F,
    ) -> (r: Span<T>) where T: Clone
        requires
            self@ matches Some(d) ==> forall|opts: StartSpanOptions<AllSampler, T>|
                (opts.operation_name_spec() == operation_name@ && opts.start_time_spec() is None
                    && opts.tags_spec() == Seq::<Tag>::empty() && opts.baggage_spec() == d.baggage
                    && opts.references_spec().len() == 1 && opts.sampler_spec() == AllSampler)
                    ==> #[trigger] call_requires(f, (opts,)),
        ensures
            self@ is None ==> r@ is None,
            self@ matches Some(d) ==> exists|opts: StartSpanOptions<AllSampler, T>|
                {
                    &&& #[trigger] call_ensures(f, (opts,), r)
                    &&& opts.operation_name_spec() == operation_name@
                    &&& opts.start_time_spec() is None
                    &&& opts.tags_spec() == Seq::<Tag>::empty()
                    &&& opts.baggage_spec() == d.baggage
                    &&& opts.references_spec().len() == 1
                    &&& (opts.references_spec()[0] matches SpanReference::FollowsFrom(st)
                        && exists|mid: T| #[trigger] cloned::<T>(d.state, mid) && cloned::<T>(
                        mid,
                        st,
                    ))
                    &&& opts.sampler_spec() == AllSampler
                },
    {
        let handle = self.handle();
        handle.follower(operation_name, f)
    }
}

impl<T> SpanContext<T> {
    /// Injects this context to the **Text Map** `carrier`, routing to the
    /// codec that `T` supplies and propagating its error unchanged.
    pub fn inject_to_text_map<C: crate::carrier::TextMap>(&self, carrier: &mut C) -> crate::Result<
        (),
    > where T: crate::carrier::InjectToTextMap<C> {
        T::inject_to_text_map(self, carrier)
    }

    /// Injects this context to the **HTTP Header** `carrier`, routing to
    /// the codec that `T` supplies and propagating its error unchanged.
    pub fn inject_to_http_header<C: crate::carrier::SetHttpHeaderField>(
        &self,
        carrier: &mut C,
    ) -> crate::Result<()> where T: crate::carrier::InjectToHttpHeader<C> {
        T::inject_to_http_header(self, carrier)
    }

    /// Injects this context to the **Binary** `carrier`, routing to the
    /// codec that `T` supplies and propagating its error unchanged.
    pub fn inject_to_binary<C>(&self, carrier: &mut C) -> crate::Result<()> where
        T: crate::carrier::InjectToBinary<C>,
     {
        T::inject_to_binary(self, carrier)
    }

    /// Extracts a context from the **Text Map** `carrier`, routing to the
    /// codec that `T` supplies; `Ok(None)` means the carrier holds no span
    /// context.
    pub fn extract_from_text_map<C: crate::carrier::TextMap>(carrier: &C) -> crate::Result<
        Option<SpanContext<T>>,
    > where T: crate::carrier::ExtractFromTextMap<C> {
        T::extract_from_text_map(carrier)
    }

    /// Extracts a context from the **HTTP Header** `carrier`, routing to
    /// the codec that `T` supplies; `Ok(None)` means the carrier holds no
    /// span context.
    pub fn extract_from_http_header<C: crate::carrier::GetHttpHeaderField>(carrier: &C) -> crate::Result<
        Option<SpanContext<T>>,
    > where T: crate::carrier::ExtractFromHttpHeader<C> {
        T::extract_from_http_header(carrier)
    }

    /// Extracts a context from the **Binary** `carrier`, routing to the
    /// codec that `T` supplies; `Ok(None)` means the carrier holds no span
    /// context.
    pub fn extract_from_binary<C>(carrier: &mut C) -> crate::Result<Option<SpanContext<T>>> where
        T: crate::carrier::ExtractFromBinary<C>,
     {
        T::extract_from_binary(carrier)
    }
}

} // verus!
