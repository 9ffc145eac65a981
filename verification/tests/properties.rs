use rustracing::sampler::{AllSampler, NullSampler};
use rustracing::span::{BaggageItem, Span};
use rustracing::tag::{StdTag, Tag, TagValue};
use rustracing::Tracer;

#[test]
fn set_tag_keeps_one_entry_per_name_with_the_last_value() {
    let (tracer, span_rx) = Tracer::new(AllSampler);
    let mut span = tracer.span("tags").start_with_state(0u8);
    span.set_tag(|| Tag::new("k", TagValue::Integer(1)));
    span.set_tag(|| Tag::new("k", TagValue::Integer(2)));
    span.set_tag(|| Tag::new("j", TagValue::Integer(3)));
    span.set_tag(|| Tag::new("k", TagValue::Integer(4)));
    span.finish();
    let finished = span_rx.recv().unwrap();
    assert_eq!(finished.tags().len(), 2);
    let ks: Vec<&Tag> = finished.tags().iter().filter(|t| t.name() == "k").collect();
    assert_eq!(ks.len(), 1);
    assert_eq!(ks[0].value(), &TagValue::Integer(4));
    let js: Vec<&Tag> = finished.tags().iter().filter(|t| t.name() == "j").collect();
    assert_eq!(js.len(), 1);
    assert_eq!(js[0].value(), &TagValue::Integer(3));
}

#[test]
fn baggage_is_sorted_by_name_without_duplicates() {
    let (tracer, span_rx) = Tracer::new(AllSampler);
    let mut parent = tracer.span("p").start_with_state(1u64);
    parent.set_baggage_item(|| BaggageItem::new("zeta", "1"));
    parent.set_baggage_item(|| BaggageItem::new("alpha", "2"));
    parent.set_baggage_item(|| BaggageItem::new("zeta", "3"));
    let mut child = parent.child("c", |options| options.start_with_state(2u64));
    child.set_baggage_item(|| BaggageItem::new("mid", "4"));
    {
        let context = child.context().unwrap();
        let names: Vec<String> =
            context.baggage_items().iter().map(|b| b.name().to_string()).collect();
        assert_eq!(names, vec!["alpha", "mid", "zeta"]);
    }
    assert_eq!(child.get_baggage_item("zeta").unwrap().value(), "3");
    child.finish();
    parent.finish();
    let finished = span_rx.recv().unwrap();
    let names: Vec<String> =
        finished.context().baggage_items().iter().map(|b| b.name().to_string()).collect();
    assert_eq!(names, vec!["alpha", "mid", "zeta"]);
}

#[test]
fn inactive_span_mutators_are_no_ops_and_emit_nothing() {
    let span = Span::<u64>::inactive();
    assert!(!span.is_sampled());
    assert!(span.context().is_none());
    span.finish();

    let (tracer, span_rx) = Tracer::new(NullSampler);
    let mut span = tracer.span("silent").start_with_state(7u64);
    assert!(!span.is_sampled());
    let mut called = false;
    span.set_tag(|| {
        called = true;
        Tag::new("a", TagValue::Boolean(true))
    });
    assert!(!called);
    span.set_operation_name(|| "renamed".to_string());
    span.log(|log| log.standard().message("m").done());
    assert!(span.get_baggage_item("a").is_none());
    span.finish();
    assert!(span_rx.try_recv().is_err());
}

#[test]
fn finishing_emits_exactly_one_span() {
    let (tracer, span_rx) = Tracer::new(AllSampler);
    let span = tracer.span("once").start_with_state(0u8);
    span.finish();
    assert_eq!(span_rx.try_recv().unwrap().operation_name(), "once");
    assert!(span_rx.try_recv().is_err());
}

#[test]
fn sampling_priority_overrides_the_sampler() {
    let (tracer, _span_rx) = Tracer::new(NullSampler);
    let forced = tracer.span("s").tag(StdTag::sampling_priority(1)).start_with_state(0u8);
    assert!(forced.is_sampled());

    let fell_through = tracer.span("s").tag(StdTag::sampling_priority(0)).start_with_state(0u8);
    assert!(!fell_through.is_sampled());

    let (all_tracer, _rx) = Tracer::new(AllSampler);
    let zero_does_not_reject =
        all_tracer.span("s").tag(StdTag::sampling_priority(0)).start_with_state(0u8);
    assert!(zero_does_not_reject.is_sampled());
}

#[test]
fn bounded_channel_drops_the_overflowing_span() {
    let (span_tx, span_rx) = crossbeam_channel::bounded(2);
    let tracer = Tracer::with_sender(AllSampler, span_tx);
    let outer = tracer.span("outer").start_with_state(1u32);
    let middle = tracer.span("middle").start_with_state(2u32);
    let inner = tracer.span("inner").start_with_state(3u32);
    inner.finish();
    middle.finish();
    outer.finish();
    assert_eq!(span_rx.len(), 2);
    assert_eq!(span_rx.try_recv().unwrap().operation_name(), "inner");
    assert_eq!(span_rx.try_recv().unwrap().operation_name(), "middle");
    assert!(span_rx.try_recv().is_err());
}

#[test]
fn child_is_observed_before_parent() {
    let (tracer, span_rx) = Tracer::new(AllSampler);
    let parent = tracer.span("parent").start_with_state(1u64);
    let child = parent.child("child", |options| options.start_with_state(2u64));
    child.finish();
    parent.finish();
    assert_eq!(span_rx.recv().unwrap().operation_name(), "child");
    assert_eq!(span_rx.recv().unwrap().operation_name(), "parent");
}

#[test]
fn error_log_twice_sets_one_error_tag_and_two_records() {
    let (tracer, span_rx) = Tracer::new(AllSampler);
    let mut span = tracer.span("errs").start_with_state(0u8);
    span.error_log(|log| log.message("first"));
    span.error_log(|log| log.kind("io").message("second"));
    span.finish();
    let finished = span_rx.recv().unwrap();

    let error_tags: Vec<&Tag> = finished.tags().iter().filter(|t| t.name() == "error").collect();
    assert_eq!(error_tags.len(), 1);
    assert_eq!(error_tags[0].value(), &TagValue::Boolean(true));

    assert_eq!(finished.logs().len(), 2);
    for log in finished.logs() {
        let events: Vec<&rustracing::log::LogField> =
            log.fields().iter().filter(|f| f.name() == "event").collect();
        assert_eq!(events.len(), 1);
        assert_eq!(events[0].value(), "error");
    }
    assert!(finished.logs()[1].fields().iter().any(|f| f.name() == "error.kind" && f.value() == "io"));
}

#[test]
fn inactive_handle_starts_no_children() {
    let span = Span::<u64>::inactive();
    let handle = span.handle();
    assert!(!handle.is_sampled());
    assert!(handle.context().is_none());
    let mut called = false;
    let child = handle.child("c", |options| {
        called = true;
        options.start_with_state(1u64)
    });
    assert!(!called);
    assert!(!child.is_sampled());
    let follower = span.follower("f", |options| options.start_with_state(2u64));
    assert!(!follower.is_sampled());
}
