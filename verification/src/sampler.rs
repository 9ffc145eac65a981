//! `Sampler` trait and its built-in implementations.
use crate::span::{BaggageItem, CandidateSpan, SpanReference};
use crate::tag::Tag;
use crate::{Error, ErrorKind};
use vstd::prelude::*;

verus! {

/// How many parts make up the whole in a sampling rate: a rate of
/// `SAMPLING_RATE_SCALE` parts means every trace is sampled.
pub const SAMPLING_RATE_SCALE: u64 = 1000000;

/// `Sampler` decides whether a new trace should be sampled or not.
///
/// A sampler whose decision is a function of the candidate span alone says
/// so through `is_deterministic`, and `sampled_spec` then describes the
/// decision; a probabilistic sampler's decision is not, and nothing is
/// promised of it.
pub trait Sampler<T>: Sized {
    /// The decision this sampler makes on a candidate span, where the
    /// decision is deterministic.
    spec fn sampled_spec(
        &self,
        tags: Seq<Tag>,
        references: Seq<SpanReference<T>>,
        baggage: Seq<BaggageItem>,
    ) -> bool;

    /// Whether the decision is a function of the candidate span alone.
    spec fn is_deterministic(&self) -> bool;

    /// This method decides whether a trace with given `span` should be
    /// sampled.
    fn is_sampled(&self, span: &CandidateSpan<T>) -> (r: bool)
        ensures
            self.is_deterministic() ==> r == self.sampled_spec(
                span.tags_spec(),
                span.references_spec(),
                span.baggage_spec(),
            ),
    ;

}

/// Relies on `rand::random`: a value drawn from the thread's random number
/// generator. Nothing is promised of it.
#[verifier::external_body]
fn random_u64() -> u64 {
    rand::random()
}

/// This samples a certain proportion of traces: `sampling_rate` parts in
/// `SAMPLING_RATE_SCALE`.
#[derive(Debug, Clone, Copy)]
pub struct ProbabilisticSampler {
    sampling_rate: u64,
}

impl ProbabilisticSampler {
    /// The spec-level sampling rate.
    pub closed spec fn rate_spec(&self) -> u64 {
        self.sampling_rate
    }

    /// Makes a new `ProbabilisticSampler` instance.
    ///
    /// # Errors
    ///
    /// If `sampling_rate` exceeds `SAMPLING_RATE_SCALE`, it will return an
    /// error with the kind `ErrorKind::InvalidInput`.
    pub fn new(sampling_rate: u64) -> (r: Result<Self, Error>)
        ensures
            sampling_rate <= SAMPLING_RATE_SCALE <==> r is Ok,
            r matches Ok(s) ==> s.rate_spec() == sampling_rate,
            r matches Err(e) ==> e.kind_spec() == ErrorKind::InvalidInput,
    {
        if sampling_rate <= SAMPLING_RATE_SCALE {
            Ok(ProbabilisticSampler { sampling_rate })
        } else {
            Err(Error::new(ErrorKind::InvalidInput))
        }
    }
}

impl<T> Sampler<T> for ProbabilisticSampler {
    /// Deterministic only at the ends of the range: a zero rate never
    /// samples and a full rate always does.
    open spec fn sampled_spec(
        &self,
        tags: Seq<Tag>,
        references: Seq<SpanReference<T>>,
        baggage: Seq<BaggageItem>,
    ) -> bool {
        self.rate_spec() >= SAMPLING_RATE_SCALE
    }

    open spec fn is_deterministic(&self) -> bool {
        self.rate_spec() == 0 || self.rate_spec() >= SAMPLING_RATE_SCALE
    }

    fn is_sampled(&self, _span: &CandidateSpan<T>) -> (r: bool) {
        let draw = random_u64() % SAMPLING_RATE_SCALE;
        draw < self.sampling_rate
    }
}

/// This samples traces which have one or more references.
#[derive(Debug, Clone, Copy)]
pub struct PassiveSampler;

impl<T> Sampler<T> for PassiveSampler {
    open spec fn sampled_spec(
        &self,
        tags: Seq<Tag>,
        references: Seq<SpanReference<T>>,
        baggage: Seq<BaggageItem>,
    ) -> bool {
        references.len() > 0
    }

    open spec fn is_deterministic(&self) -> bool {
        true
    }

    fn is_sampled(&self, span: &CandidateSpan<T>) -> (r: bool) {
        let refs = span.references();
        refs.len() > 0
    }
}

/// This samples no traces.
#[derive(Debug, Clone, Copy)]
pub struct NullSampler;

impl<T> Sampler<T> for NullSampler {
    open spec fn sampled_spec(
        &self,
        tags: Seq<Tag>,
        references: Seq<SpanReference<T>>,
        baggage: Seq<BaggageItem>,
    ) -> bool {
        false
    }

    open spec fn is_deterministic(&self) -> bool {
        true
    }

    fn is_sampled(&self, _span: &CandidateSpan<T>) -> (r: bool) {
        false
    }
}

/// This samples all traces.
#[derive(Debug, Clone, Copy)]
pub struct AllSampler;

impl<T> Sampler<T> for AllSampler {
    open spec fn sampled_spec(
        &self,
        tags: Seq<Tag>,
        references: Seq<SpanReference<T>>,
        baggage: Seq<BaggageItem>,
    ) -> bool {
        true
    }

    open spec fn is_deterministic(&self) -> bool {
        true
    }

    fn is_sampled(&self, _span: &CandidateSpan<T>) -> (r: bool) {
        true
    }
}

/// `or` combinator.
#[derive(Debug, Clone, Copy)]
pub struct OrSampler<A, B> {
    /// The left sampler.
    pub first: A,
    /// The right sampler.
    pub second: B,
}

impl<A, B> OrSampler<A, B> {
    /// Returns the sampler that samples a trace if `first` or `second`
    /// decides to sample it.
    pub fn new(first: A, second: B) -> (r: Self)
        ensures
            r == (OrSampler { first, second }),
    {
        OrSampler { first, second }
    }
}

impl<A: Sampler<T>, B: Sampler<T>, T> Sampler<T> for OrSampler<A, B> {
    open spec fn sampled_spec(
        &self,
        tags: Seq<Tag>,
        references: Seq<SpanReference<T>>,
        baggage: Seq<BaggageItem>,
    ) -> bool {
        self.first.sampled_spec(tags, references, baggage) || self.second.sampled_spec(
            tags,
            references,
            baggage,
        )
    }

    open spec fn is_deterministic(&self) -> bool {
        self.first.is_deterministic() && self.second.is_deterministic()
    }

    fn is_sampled(&self, span: &CandidateSpan<T>) -> (r: bool) {
        let a = self.first.is_sampled(span);
        let b = self.second.is_sampled(span);
        a || b
    }
}

/// `and` combinator.
#[derive(Debug, Clone, Copy)]
pub struct AndSampler<A, B> {
    /// The left sampler.
    pub first: A,
    /// The right sampler.
    pub second: B,
}

impl<A, B> AndSampler<A, B> {
    /// Returns the sampler that samples a trace if both of `first` and
    /// `second` decide to sample it.
    pub fn new(first: A, second: B) -> (r: Self)
        ensures
            r == (AndSampler { first, second }),
    {
        AndSampler { first, second }
    }
}

impl<A: Sampler<T>, B: Sampler<T>, T> Sampler<T> for AndSampler<A, B> {
    open spec fn sampled_spec(
        &self,
        tags: Seq<Tag>,
        references: Seq<SpanReference<T>>,
        baggage: Seq<BaggageItem>,
    ) -> bool {
        self.first.sampled_spec(tags, references, baggage) && self.second.sampled_spec(
            tags,
            references,
            baggage,
        )
    }

    open spec fn is_deterministic(&self) -> bool {
        self.first.is_deterministic() && self.second.is_deterministic()
    }

    fn is_sampled(&self, span: &CandidateSpan<T>) -> (r: bool) {
        let a = self.first.is_sampled(span);
        let b = self.second.is_sampled(span);
        a && b
    }
}

} // verus!
