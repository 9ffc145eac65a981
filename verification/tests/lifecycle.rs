use rustracing::sampler::AllSampler;
use rustracing::tag::{StdTag, Tag, TagValue};
use rustracing::Tracer;

#[test]
fn lib_it_works() {
    let (tracer, span_rx) = Tracer::new(AllSampler);
    {
        let span = tracer.span("it_works").start_with_state(());
        let mut child = span.child("child", |options| options.start_with_state(()));
        child.set_tags(|| {
            vec![
                Tag::new("peer.ipv4", TagValue::String("127.0.0.1".to_string())),
                StdTag::peer_port(80),
            ]
        });
        child.finish();
        span.finish();
    }

    let span = span_rx.recv().unwrap();
    assert_eq!(span.operation_name(), "child");
    assert_eq!(span.tags().len(), 2);

    let span = span_rx.recv().unwrap();
    assert_eq!(span.operation_name(), "it_works");
}

#[test]
fn example_code_works() {
    // Creates a tracer
    let (tracer, span_rx) = Tracer::new(AllSampler);
    {
        // Starts "parent" span
        let parent_span = tracer.span("parent").start_with_state(());
        {
            // Starts "child" span
            let mut child_span = tracer
                .span("child_span")
                .child_of(&parent_span)
                .tag(Tag::new("key", TagValue::String("value".to_string())))
                .start_with_state(());

            child_span.log(|log| log.error().message("a log message").done());
            child_span.finish();
        }
        parent_span.finish();
    }

    let span = span_rx.recv().unwrap();
    assert_eq!(span.operation_name(), "child_span");
    assert_eq!(span.logs().len(), 1);
    let fields = span.logs()[0].fields();
    assert!(fields.iter().any(|f| f.name() == "event" && f.value() == "error"));
    assert!(fields.iter().any(|f| f.name() == "message" && f.value() == "a log message"));

    let span = span_rx.recv().unwrap();
    assert_eq!(span.operation_name(), "parent");
}

#[test]
fn start_and_finish_times_are_kept() {
    let start = std::time::SystemTime::UNIX_EPOCH + std::time::Duration::from_secs(5);
    let end = std::time::SystemTime::UNIX_EPOCH + std::time::Duration::from_secs(9);
    let (tracer, span_rx) = Tracer::new(AllSampler);
    let mut span = tracer.span("timed").start_time(start).start_with_state(0u8);
    span.set_finish_time(move || end);
    span.finish();
    let finished = span_rx.recv().unwrap();
    assert_eq!(finished.start_time(), start);
    assert_eq!(finished.finish_time(), end);
}

#[test]
fn set_operation_name_renames_the_span() {
    let (tracer, span_rx) = Tracer::new(AllSampler);
    let mut span = tracer.span("before").start_with_state(0u8);
    span.set_operation_name(|| "after".to_string());
    span.finish();
    assert_eq!(span_rx.recv().unwrap().operation_name(), "after");
}

#[test]
fn builder_tags_are_sorted_and_last_write_wins() {
    let (tracer, span_rx) = Tracer::new(AllSampler);
    let span = tracer
        .span("t")
        .tag(Tag::new("b", TagValue::Integer(1)))
        .tag(Tag::new("a", TagValue::Integer(2)))
        .tag(Tag::new("b", TagValue::Integer(3)))
        .start_with_state(0u8);
    span.finish();
    let finished = span_rx.recv().unwrap();
    let names: Vec<&str> = finished.tags().iter().map(|t| t.name()).collect();
    assert_eq!(names, vec!["a", "b"]);
    assert_eq!(finished.tags()[1].value(), &TagValue::Integer(3));
}

#[test]
fn follower_reference_kind_is_kept() {
    let (tracer, span_rx) = Tracer::new(AllSampler);
    let parent = tracer.span("parent").start_with_state(7u64);
    let follower = parent.follower("follower", |options| options.start_with_state(8u64));
    follower.finish();
    parent.finish();
    let finished = span_rx.recv().unwrap();
    assert_eq!(finished.operation_name(), "follower");
    assert_eq!(finished.references().len(), 1);
    assert!(finished.references()[0].is_follows_from());
    assert_eq!(*finished.references()[0].span(), 7u64);
}

#[test]
fn child_of_records_reference_and_state() {
    let (tracer, span_rx) = Tracer::new(AllSampler);
    let parent = tracer.span("parent").start_with_state(41u64);
    let child = tracer.span("child").child_of(&parent).start_with_state(42u64);
    child.finish();
    parent.finish();
    let finished = span_rx.recv().unwrap();
    assert_eq!(finished.references().len(), 1);
    assert!(finished.references()[0].is_child_of());
    assert_eq!(*finished.references()[0].span(), 41u64);
    assert_eq!(*finished.context().state(), 42u64);
}

#[test]
fn span_handle_exposes_the_context() {
    let (tracer, _span_rx) = Tracer::new(AllSampler);
    let mut span = tracer.span("handled").start_with_state(5u32);
    span.set_baggage_item(|| rustracing::span::BaggageItem::new("k", "v"));
    let handle = span.handle();
    assert!(handle.is_sampled());
    assert_eq!(*handle.context().unwrap().state(), 5u32);
    assert_eq!(handle.get_baggage_item("k").unwrap().value(), "v");
    assert!(handle.get_baggage_item("missing").is_none());
    span.finish();
}

#[test]
fn set_start_time_replaces_the_start() {
    let time = std::time::SystemTime::UNIX_EPOCH + std::time::Duration::from_secs(77);
    let (tracer, span_rx) = Tracer::new(AllSampler);
    let mut span = tracer.span("restarted").start_with_state(0u8);
    span.set_start_time(move || time);
    span.finish();
    assert_eq!(span_rx.recv().unwrap().start_time(), time);
}

#[test]
fn a_log_record_without_fields_is_discarded() {
    let (tracer, span_rx) = Tracer::new(AllSampler);
    let mut span = tracer.span("quiet").start_with_state(0u8);
    span.log(|log| log);
    span.finish();
    assert_eq!(span_rx.recv().unwrap().logs().len(), 0);
}
