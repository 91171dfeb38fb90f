use signal_dispatch::{
    Accumulator, ArgumentTuple, ConnectDetails, Dispatcher, DynamicValue, OncePoll, SelfPoll,
    SignalFlags, SignalStream, StreamPoll, TypeTag,
};

const WIDGET: u64 = 7;

fn bus_with_stream(detailed: bool) -> (Dispatcher, usize, u64) {
    let mut bus = Dispatcher::new();
    let signal = bus.register_signal(
        "changed",
        WIDGET,
        vec![TypeTag::Int],
        TypeTag::Unit,
        SignalFlags { detailed },
        Accumulator::Replace,
    );
    let instance = bus.create_instance(WIDGET);
    (bus, signal, instance)
}

fn tuple_of(i: i64) -> ArgumentTuple {
    ArgumentTuple::from_values(&[DynamicValue::Int(i)], &[TypeTag::Int]).unwrap()
}

#[test]
fn stream_yields_tuples_in_emission_order() {
    let (mut bus, signal, instance) = bus_with_stream(false);
    let details = ConnectDetails::with_parts(signal, None, false);
    let mut stream = SignalStream::connect(&mut bus, instance, &details).unwrap();
    // Back-to-back deliveries before any poll.
    assert!(stream.deliver(tuple_of(1)));
    assert!(stream.deliver(tuple_of(2)));
    assert!(stream.deliver(tuple_of(3)));
    assert_eq!(stream.poll_next(), StreamPoll::Item(tuple_of(1)));
    assert_eq!(stream.poll_next(), StreamPoll::Item(tuple_of(2)));
    assert_eq!(stream.poll_next(), StreamPoll::Item(tuple_of(3)));
    assert_eq!(stream.poll_next(), StreamPoll::Pending);
    stream.disconnect(&mut bus);
}

#[test]
fn disconnect_happens_exactly_once() {
    let (mut bus, signal, instance) = bus_with_stream(false);
    let details = ConnectDetails::with_parts(signal, None, false);
    let mut stream = SignalStream::connect(&mut bus, instance, &details).unwrap();
    let handle = stream.handle.unwrap();
    assert!(bus.is_connected(handle));
    stream.disconnect(&mut bus);
    assert!(!bus.is_connected(handle));
    assert_eq!(stream.handle, None);
    // A second explicit disconnect is a no-op and does not error.
    stream.disconnect(&mut bus);
    assert_eq!(stream.handle, None);
    // The channel no longer accepts deliveries.
    assert!(!stream.deliver(tuple_of(9)));
}

#[test]
fn ended_stream_drains_buffer_then_ends() {
    let (mut bus, signal, instance) = bus_with_stream(false);
    let details = ConnectDetails::with_parts(signal, None, false);
    let mut stream = SignalStream::connect(&mut bus, instance, &details).unwrap();
    assert!(stream.deliver(tuple_of(5)));
    stream.disconnect(&mut bus);
    assert_eq!(stream.poll_next(), StreamPoll::Item(tuple_of(5)));
    assert_eq!(stream.poll_next(), StreamPoll::Ended);
    assert!(stream.is_terminated());
    assert_eq!(stream.poll_next(), StreamPoll::Ended);
}

#[test]
fn once_future_reports_end_of_stream_and_stays_there() {
    let (mut bus, signal, instance) = bus_with_stream(false);
    let details = ConnectDetails::with_parts(signal, None, false);
    let mut stream = SignalStream::connect(&mut bus, instance, &details).unwrap();
    stream.disconnect(&mut bus);
    let mut once = stream.once();
    assert_eq!(once.poll_once(&mut bus), OncePoll::EndOfStream);
    assert!(once.is_terminated());
    assert_eq!(once.poll_once(&mut bus), OncePoll::EndOfStream);
    assert_eq!(once.poll_once(&mut bus), OncePoll::EndOfStream);
}

#[test]
fn once_future_resolves_with_first_tuple() {
    let (mut bus, signal, instance) = bus_with_stream(false);
    let details = ConnectDetails::with_parts(signal, None, false);
    let mut stream = SignalStream::connect(&mut bus, instance, &details).unwrap();
    let handle = stream.handle.unwrap();
    let mut once = stream.once();
    assert_eq!(once.poll_once(&mut bus), OncePoll::Pending);
    // Delivery happens through the stream held inside the pending future.
    assert!(!once.is_terminated());
    let mut inner = once.into_inner();
    assert!(inner.deliver(tuple_of(11)));
    let mut once = inner.once();
    match once.poll_once(&mut bus) {
        OncePoll::Ready(args, weak) => {
            assert_eq!(args, tuple_of(11));
            assert_eq!(weak.id, instance);
        }
        other => panic!("expected the first tuple, got {:?}", other),
    }
    // Resolving disconnected the listener.
    assert!(!bus.is_connected(handle));
    // The terminal state repeats.
    match once.poll_once(&mut bus) {
        OncePoll::Ready(args, weak) => {
            assert_eq!(args, tuple_of(11));
            assert_eq!(weak.id, instance);
        }
        other => panic!("expected the terminal state again, got {:?}", other),
    }
}

#[test]
fn into_target_keeps_the_weak_reference() {
    let (mut bus, signal, instance) = bus_with_stream(false);
    let details = ConnectDetails::with_parts(signal, None, false);
    let stream = SignalStream::connect(&mut bus, instance, &details).unwrap();
    let handle = stream.handle.unwrap();
    let weak = stream.into_target(&mut bus);
    assert_eq!(weak.id, instance);
    assert!(!bus.is_connected(handle));
    assert_eq!(bus.upgrade(weak), Some(instance));
}

#[test]
fn attached_stream_resolves_the_target_per_item() {
    let (mut bus, signal, instance) = bus_with_stream(false);
    let details = ConnectDetails::with_parts(signal, None, false);
    let mut stream = SignalStream::connect(&mut bus, instance, &details).unwrap();
    assert!(stream.deliver(tuple_of(1)));
    assert!(stream.deliver(tuple_of(2)));
    let mut attached = stream.attach_target();
    assert_eq!(
        attached.poll_next(&bus),
        SelfPoll::Item(Some(instance), tuple_of(1))
    );
    // Destroying the target leaves buffered tuples deliverable, but the
    // weak reference no longer resolves.
    bus.destroy_instance(instance);
    assert_eq!(attached.poll_next(&bus), SelfPoll::Item(None, tuple_of(2)));
    assert_eq!(attached.poll_next(&bus), SelfPoll::Pending);
    let mut inner = attached.into_inner();
    inner.disconnect(&mut bus);
}

#[test]
fn stream_connect_is_rejected_like_connect() {
    let (mut bus, signal, instance) = bus_with_stream(false);
    let detail = bus.create_detail("else");
    let err = SignalStream::connect(
        &mut bus,
        instance,
        &ConnectDetails::with_parts(signal, Some(detail), false),
    );
    assert!(err.is_err());
}
