use signal_dispatch::{
    Accumulator, ArgumentTuple, ConnectDetails, ConnectError, DetailedSignal, Dispatcher,
    DynamicValue, MarshalError, SignalFlags, TypeTag,
};

const WIDGET: u64 = 7;

fn bus_with_sum_signal() -> (Dispatcher, usize, u64) {
    let mut bus = Dispatcher::new();
    let signal = bus.register_signal(
        "value-request",
        WIDGET,
        vec![],
        TypeTag::Int,
        SignalFlags::empty(),
        Accumulator::Sum { weight_detail: None, weight: 1 },
    );
    let instance = bus.create_instance(WIDGET);
    (bus, signal, instance)
}

fn run_emission<F: FnMut(u64) -> Option<DynamicValue>>(
    bus: &Dispatcher,
    instance: u64,
    signal: usize,
    detail: Option<usize>,
    args: &[DynamicValue],
    mut listener: F,
) -> Option<DynamicValue> {
    let mut emission = bus.begin_emit(instance, signal, detail, args).unwrap();
    while let Some(handle) = emission.next_listener() {
        let ret = listener(handle);
        emission.deliver(ret);
    }
    emission.finish()
}

#[test]
fn two_listeners_sum_in_connection_order() {
    let (mut bus, signal, instance) = bus_with_sum_signal();
    let details = ConnectDetails::with_parts(signal, None, false);
    let first = bus.connect(instance, &details).unwrap();
    let second = bus.connect(instance, &details).unwrap();
    let mut order = Vec::new();
    let combined = run_emission(&bus, instance, signal, None, &[], |handle| {
        order.push(handle);
        Some(DynamicValue::Int(4))
    });
    assert_eq!(order, vec![first, second]);
    assert_eq!(combined, Some(DynamicValue::Int(8)));
}

#[test]
fn run_after_listener_is_delivered_last() {
    let (mut bus, signal, instance) = bus_with_sum_signal();
    let late = bus
        .connect(instance, &ConnectDetails::with_parts(signal, None, true))
        .unwrap();
    let early = bus
        .connect(instance, &ConnectDetails::with_parts(signal, None, false))
        .unwrap();
    let mut order = Vec::new();
    run_emission(&bus, instance, signal, None, &[], |handle| {
        order.push(handle);
        Some(DynamicValue::Int(1))
    });
    assert_eq!(order, vec![early, late]);
}

#[test]
fn detailed_listener_is_skipped_without_detail() {
    let mut bus = Dispatcher::new();
    let signal = bus.register_signal(
        "notify",
        WIDGET,
        vec![],
        TypeTag::Int,
        SignalFlags { detailed: true },
        Accumulator::Sum { weight_detail: None, weight: 1 },
    );
    let instance = bus.create_instance(WIDGET);
    let detail = bus.create_detail("else");
    bus.connect(instance, &ConnectDetails::with_parts(signal, Some(detail), false))
        .unwrap();
    let plain = bus
        .connect(instance, &ConnectDetails::with_parts(signal, None, false))
        .unwrap();

    // Emission without detail: only the non-detailed listener receives it.
    let mut seen = Vec::new();
    run_emission(&bus, instance, signal, None, &[], |handle| {
        seen.push(handle);
        Some(DynamicValue::Int(1))
    });
    assert_eq!(seen, vec![plain]);

    // Emission with another detail: still only the non-detailed listener.
    let other = bus.create_detail("other");
    let mut seen = Vec::new();
    run_emission(&bus, instance, signal, Some(other), &[], |handle| {
        seen.push(handle);
        Some(DynamicValue::Int(1))
    });
    assert_eq!(seen, vec![plain]);
}

#[test]
fn detailed_listener_receives_matching_detail() {
    let mut bus = Dispatcher::new();
    let signal = bus.register_signal(
        "notify",
        WIDGET,
        vec![],
        TypeTag::Int,
        SignalFlags { detailed: true },
        Accumulator::Replace,
    );
    let instance = bus.create_instance(WIDGET);
    let detail = bus.create_detail("else");
    let narrowed = bus
        .connect(instance, &ConnectDetails::with_parts(signal, Some(detail), false))
        .unwrap();
    let plain = bus
        .connect(instance, &ConnectDetails::with_parts(signal, None, false))
        .unwrap();
    let mut seen = Vec::new();
    run_emission(&bus, instance, signal, Some(detail), &[], |handle| {
        seen.push(handle);
        Some(DynamicValue::Int(2))
    });
    assert_eq!(seen, vec![narrowed, plain]);
}

#[test]
fn removing_listeners_restores_the_default() {
    let (mut bus, signal, instance) = bus_with_sum_signal();
    let details = ConnectDetails::with_parts(signal, None, false);
    let first = bus.connect(instance, &details).unwrap();
    let second = bus.connect(instance, &details).unwrap();
    let combined = run_emission(&bus, instance, signal, None, &[], |_| {
        Some(DynamicValue::Int(21))
    });
    assert_eq!(combined, Some(DynamicValue::Int(42)));

    bus.remove_handle(first);
    bus.remove_handle(second);
    assert!(!bus.is_connected(first));
    assert!(!bus.is_connected(second));
    let mut invoked = 0usize;
    let combined = run_emission(&bus, instance, signal, None, &[], |_| {
        invoked += 1;
        Some(DynamicValue::Int(21))
    });
    assert_eq!(invoked, 0);
    assert_eq!(combined, Some(DynamicValue::Int(0)));
}

#[test]
fn void_emission_returns_no_value() {
    let mut bus = Dispatcher::new();
    let signal = bus.register_signal(
        "closed",
        WIDGET,
        vec![],
        TypeTag::Unit,
        SignalFlags::empty(),
        Accumulator::Replace,
    );
    let instance = bus.create_instance(WIDGET);
    bus.connect(instance, &ConnectDetails::with_parts(signal, None, false))
        .unwrap();
    let mut invoked = 0usize;
    let combined = run_emission(&bus, instance, signal, None, &[], |_| {
        invoked += 1;
        None
    });
    assert_eq!(invoked, 1);
    assert_eq!(combined, None);
}

#[test]
fn veto_accumulator_short_circuits() {
    let mut bus = Dispatcher::new();
    let signal = bus.register_signal(
        "handled",
        WIDGET,
        vec![],
        TypeTag::Int,
        SignalFlags::empty(),
        Accumulator::StopOnNonZero,
    );
    let instance = bus.create_instance(WIDGET);
    let details = ConnectDetails::with_parts(signal, None, false);
    bus.connect(instance, &details).unwrap();
    bus.connect(instance, &details).unwrap();
    let mut invoked = 0usize;
    let combined = run_emission(&bus, instance, signal, None, &[], |_| {
        invoked += 1;
        Some(DynamicValue::Int(1))
    });
    assert_eq!(invoked, 1);
    assert_eq!(combined, Some(DynamicValue::Int(1)));
}

#[test]
fn weighted_sum_applies_only_under_its_detail() {
    let mut bus = Dispatcher::new();
    let weighted = bus.create_detail("boost");
    let signal = bus.register_signal(
        "score",
        WIDGET,
        vec![],
        TypeTag::Int,
        SignalFlags { detailed: true },
        Accumulator::Sum { weight_detail: Some(weighted), weight: 3 },
    );
    let instance = bus.create_instance(WIDGET);
    bus.connect(instance, &ConnectDetails::with_parts(signal, None, false))
        .unwrap();
    let plainly = run_emission(&bus, instance, signal, None, &[], |_| {
        Some(DynamicValue::Int(5))
    });
    assert_eq!(plainly, Some(DynamicValue::Int(5)));
    let boosted = run_emission(&bus, instance, signal, Some(weighted), &[], |_| {
        Some(DynamicValue::Int(5))
    });
    assert_eq!(boosted, Some(DynamicValue::Int(15)));
}

#[test]
fn emit_with_drives_the_whole_fold() {
    let (mut bus, signal, instance) = bus_with_sum_signal();
    let details = ConnectDetails::with_parts(signal, None, false);
    bus.connect(instance, &details).unwrap();
    bus.connect(instance, &details).unwrap();
    let combined = bus
        .emit_with(instance, signal, None, &[], |_handle, _args: ArgumentTuple| {
            Some(DynamicValue::Int(4))
        })
        .unwrap();
    assert_eq!(combined, Some(DynamicValue::Int(8)));
}

#[test]
fn emission_surfaces_marshal_errors() {
    let mut bus = Dispatcher::new();
    let signal = bus.register_signal(
        "sized",
        WIDGET,
        vec![TypeTag::Int, TypeTag::Str],
        TypeTag::Unit,
        SignalFlags::empty(),
        Accumulator::Replace,
    );
    let instance = bus.create_instance(WIDGET);
    let err = bus
        .begin_emit(instance, signal, None, &[DynamicValue::Int(1)])
        .unwrap_err();
    assert_eq!(err, MarshalError::ArityMismatch { expected: 2, actual: 1 });
    let err = bus
        .begin_emit(
            instance,
            signal,
            None,
            &[DynamicValue::Int(1), DynamicValue::Int(2)],
        )
        .unwrap_err();
    assert_eq!(
        err,
        MarshalError::TypeMismatch { position: 1, expected: TypeTag::Str, actual: TypeTag::Int }
    );
}

#[test]
fn connect_is_rejected_off_contract() {
    let (mut bus, signal, instance) = bus_with_sum_signal();
    // Unknown signal id.
    let err = bus
        .connect(instance, &ConnectDetails::with_parts(signal + 1, None, false))
        .unwrap_err();
    assert_eq!(err, ConnectError::ConnectionRejected);
    // Wrong owner type.
    let stranger = bus.create_instance(WIDGET + 1);
    let err = bus
        .connect(stranger, &ConnectDetails::with_parts(signal, None, false))
        .unwrap_err();
    assert_eq!(err, ConnectError::ConnectionRejected);
    // Detail on a signal that admits none.
    let detail = bus.create_detail("else");
    let err = bus
        .connect(instance, &ConnectDetails::with_parts(signal, Some(detail), false))
        .unwrap_err();
    assert_eq!(err, ConnectError::ConnectionRejected);
    // Destroyed instance.
    bus.destroy_instance(instance);
    let err = bus
        .connect(instance, &ConnectDetails::with_parts(signal, None, false))
        .unwrap_err();
    assert_eq!(err, ConnectError::ConnectionRejected);
}

#[test]
fn destroying_an_instance_removes_its_listeners() {
    let (mut bus, signal, instance) = bus_with_sum_signal();
    let handle = bus
        .connect(instance, &ConnectDetails::with_parts(signal, None, false))
        .unwrap();
    assert!(bus.is_connected(handle));
    let weak = bus.downgrade(instance);
    bus.destroy_instance(instance);
    assert!(!bus.is_connected(handle));
    assert_eq!(bus.upgrade(weak), None);
}

#[test]
fn interning_is_idempotent() {
    let mut bus = Dispatcher::new();
    let a = bus.create_detail("else");
    let b = bus.create_detail("other");
    let again = bus.create_detail("else");
    assert_eq!(a, again);
    assert_ne!(a, b);
    assert_eq!(bus.try_detail("else"), Some(a));
    assert_eq!(bus.try_detail("missing"), None);
}

#[test]
fn lookup_resolves_registered_pairs_only() {
    let (bus, signal, _) = bus_with_sum_signal();
    assert_eq!(bus.lookup("value-request", WIDGET), Some(signal));
    assert_eq!(bus.lookup("value-request", WIDGET + 1), None);
    assert_eq!(bus.lookup("missing", WIDGET), None);
}

#[test]
fn with_name_parses_plain_and_detailed_specifications() {
    let mut bus = Dispatcher::new();
    let signal = bus.register_signal(
        "notify",
        WIDGET,
        vec![],
        TypeTag::Unit,
        SignalFlags { detailed: true },
        Accumulator::Replace,
    );
    let detail = bus.create_detail("label");

    let plain = ConnectDetails::with_name(&bus, WIDGET, "notify", false).unwrap();
    assert_eq!(plain.signal(), signal);
    assert_eq!(plain.detail(), None);
    assert!(!plain.run_after);

    let narrowed = ConnectDetails::with_name(&bus, WIDGET, "notify::label", true).unwrap();
    assert_eq!(narrowed.signal(), signal);
    assert_eq!(narrowed.detail(), Some(detail));
    assert!(narrowed.run_after);

    assert!(ConnectDetails::with_name(&bus, WIDGET, "missing", false).is_none());
    assert!(ConnectDetails::with_name(&bus, WIDGET, "notify::missing", false).is_none());
    assert!(ConnectDetails::with_name(&bus, WIDGET + 1, "notify", false).is_none());
}

#[test]
fn with_name_demands_a_detailable_signal() {
    let mut bus = Dispatcher::new();
    bus.register_signal(
        "plain",
        WIDGET,
        vec![],
        TypeTag::Unit,
        SignalFlags::empty(),
        Accumulator::Replace,
    );
    bus.create_detail("label");
    assert!(ConnectDetails::with_name(&bus, WIDGET, "plain", false).is_some());
    assert!(ConnectDetails::with_name(&bus, WIDGET, "plain::label", false).is_none());
}

#[test]
fn connect_details_builders_agree() {
    let view = DetailedSignal { signal: 3, detail: Some(5) };
    let a = ConnectDetails::new(view);
    assert_eq!(a.signal(), 3);
    assert_eq!(a.detail(), Some(5));
    assert!(!a.run_after);
    let b = ConnectDetails::with_after(view, true);
    assert!(b.run_after);
    let mut c = ConnectDetails::with_detail(3, None);
    assert_eq!(c.detail(), None);
    c.set_detail(5);
    assert_eq!(c.detail(), Some(5));
}
