use rustracing::sampler::{
    AllSampler, AndSampler, NullSampler, OrSampler, PassiveSampler, ProbabilisticSampler,
    SAMPLING_RATE_SCALE,
};
use rustracing::{ErrorKind, Tracer};

#[test]
fn probabilistic_sampler_rejects_rates_over_the_scale() {
    let result = ProbabilisticSampler::new(SAMPLING_RATE_SCALE + SAMPLING_RATE_SCALE / 2);
    assert_eq!(result.unwrap_err().kind(), ErrorKind::InvalidInput);
}

#[test]
fn probabilistic_sampler_at_zero_never_samples() {
    let sampler = ProbabilisticSampler::new(0).unwrap();
    let (tracer, _span_rx) = Tracer::new(sampler);
    for _ in 0..32 {
        let span = tracer.span("never").start_with_state(0u8);
        assert!(!span.is_sampled());
        span.finish();
    }
}

#[test]
fn probabilistic_sampler_at_the_scale_always_samples() {
    let sampler = ProbabilisticSampler::new(SAMPLING_RATE_SCALE).unwrap();
    let (tracer, _span_rx) = Tracer::new(sampler);
    for _ in 0..32 {
        let span = tracer.span("always").start_with_state(0u8);
        assert!(span.is_sampled());
        span.finish();
    }
}

#[test]
fn passive_sampler_only_continues_traces() {
    let (tracer, _span_rx) = Tracer::new(PassiveSampler);
    let fresh = tracer.span("fresh").start_with_state(1u64);
    assert!(!fresh.is_sampled());

    let (all_tracer, _rx) = Tracer::new(AllSampler);
    let parent = all_tracer.span("parent").start_with_state(1u64);
    let continued = tracer.span("continued").child_of(&parent).start_with_state(2u64);
    assert!(continued.is_sampled());
    continued.finish();
    parent.finish();
    fresh.finish();
}

#[test]
fn sampler_combinators_compose_decisions() {
    let (or_tracer, _rx1) = Tracer::new(OrSampler::new(NullSampler, AllSampler));
    assert!(or_tracer.span("s").start_with_state(0u8).is_sampled());

    let (or_none, _rx2) = Tracer::new(OrSampler::new(NullSampler, NullSampler));
    assert!(!or_none.span("s").start_with_state(0u8).is_sampled());

    let (and_tracer, _rx3) = Tracer::new(AndSampler::new(AllSampler, NullSampler));
    assert!(!and_tracer.span("s").start_with_state(0u8).is_sampled());

    let (and_all, _rx4) = Tracer::new(AndSampler::new(AllSampler, AllSampler));
    assert!(and_all.span("s").start_with_state(0u8).is_sampled());
}

#[test]
fn clone_with_sampler_shares_the_sender() {
    let (tracer, span_rx) = Tracer::new(NullSampler);
    let all = tracer.clone_with_sampler(AllSampler);
    let span = all.span("shared").start_with_state(0u8);
    span.finish();
    assert_eq!(span_rx.recv().unwrap().operation_name(), "shared");

    let silent = tracer.span("silent").start_with_state(0u8);
    silent.finish();
    assert!(span_rx.try_recv().is_err());

    let clone = all.clone();
    let span = clone.span("cloned").start_with_state(0u8);
    span.finish();
    assert_eq!(span_rx.recv().unwrap().operation_name(), "cloned");
}
