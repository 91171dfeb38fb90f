//! The connection registry: the bus state the typed facade works against.
//!
//! A `Dispatcher` owns the registered signal descriptors, the interned
//! detail strings, the alive object instances, and the listener
//! registrations in connection order. Connecting yields an opaque handle;
//! an emission is planned against the registered listeners by the routing
//! rule and folded by the descriptor's accumulator.

use vstd::prelude::*;

use crate::descriptor::{
    accumulate, accumulator_fits, return_fits, spec_accumulate, Accumulator, ConnectDetails,
    SignalDescriptor, SignalFlags,
};
use crate::marshal::{matches_shape, ArgumentTuple, MarshalError};
use crate::value::{default_value, is_default_value, DynamicValue, TypeTag};

verus! {

/// Why the bus refused a connect operation.
#[derive(Copy, Clone, Debug, PartialEq, Eq, Structural)]
pub enum ConnectError {
    /// The instance is gone, the signal is not registered for the
    /// instance's type, or the carried detail is not admissible there.
    ConnectionRejected,
}

/// One live listener registration: an opaque handle, the instance and
/// routing triple it was connected with.
#[derive(Copy, Clone, Debug)]
pub struct Listener {
    /// The opaque token identifying this registration.
    pub handle: u64,
    /// The instance the listener is connected to.
    pub instance: u64,
    /// The signal the listener receives.
    pub signal: usize,
    /// The detail narrowing delivery: a listener with no detail receives
    /// every emission of its signal, one with detail `d` only emissions
    /// carrying exactly `d`.
    pub detail: Option<usize>,
    /// Whether the listener runs after all run-before listeners.
    pub run_after: bool,
}

/// The routing rule: whether an emission of `signal` on `instance` carrying
/// `detail` is delivered to listener `l`.
pub open spec fn listener_matches(
    l: Listener,
    instance: u64,
    signal: usize,
    detail: Option<usize>,
) -> bool {
    &&& l.instance == instance
    &&& l.signal == signal
    &&& (l.detail is None || l.detail == detail)
}

/// The instance pairs that survive destroying `instance`.
pub open spec fn keeps_other_instances(instance: u64) -> spec_fn((u64, u64)) -> bool {
    |p: (u64, u64)| p.0 != instance
}

/// The listeners that survive destroying `instance`.
pub open spec fn keeps_other_listeners(instance: u64) -> spec_fn(Listener) -> bool {
    |l: Listener| l.instance != instance
}

/// The listeners that survive removing `handle`.
pub open spec fn keeps_other_handles(handle: u64) -> spec_fn(Listener) -> bool {
    |l: Listener| l.handle != handle
}

/// The untyped notification bus state: descriptors, interned details,
/// alive instances, and listener registrations in connection order.
pub struct Dispatcher {
    /// The registered signals; a signal id is an index into this sequence.
    pub descriptors: Vec<SignalDescriptor>,
    /// The interned detail strings; a detail id is an index into this
    /// sequence. Interning the same string twice yields the same id.
    pub details: Vec<String>,
    /// The alive instances as (instance id, type id) pairs.
    pub instances: Vec<(u64, u64)>,
    /// The live listener registrations, in connection order.
    pub listeners: Vec<Listener>,
    /// The handle the next connect operation returns.
    pub next_handle: u64,
    /// The id the next created instance receives.
    pub next_instance: u64,
}

impl Dispatcher {
    /// Whether a signal named `name` is registered for `owner_type`.
    pub open spec fn has_signal(&self, name: Seq<char>, owner_type: u64) -> bool {
        exists|i: int|
            0 <= i < self.descriptors@.len() && (#[trigger] self.descriptors@[i]).name@ == name
                && self.descriptors@[i].owner_type == owner_type
    }

    /// Whether the string `s` is interned as a detail.
    pub open spec fn has_detail(&self, s: Seq<char>) -> bool {
        exists|i: int| 0 <= i < self.details@.len() && (#[trigger] self.details@[i])@ == s
    }

    /// Whether instance `instance` is alive.
    pub open spec fn alive(&self, instance: u64) -> bool {
        exists|i: int|
            0 <= i < self.instances@.len() && (#[trigger] self.instances@[i]).0 == instance
    }

    /// Whether instance `instance` is alive and of type `type_id`.
    pub open spec fn instance_of_type(&self, instance: u64, type_id: u64) -> bool {
        exists|i: int|
            0 <= i < self.instances@.len() && #[trigger] self.instances@[i] == (instance, type_id)
    }

    /// Whether handle `handle` names a live listener registration.
    pub open spec fn spec_is_connected(&self, handle: u64) -> bool {
        exists|k: int|
            0 <= k < self.listeners@.len() && (#[trigger] self.listeners@[k]).handle == handle
    }

    /// Whether one listener registration is admissible in this state.
    pub open spec fn listener_wf(&self, l: Listener) -> bool {
        &&& l.handle < self.next_handle
        &&& l.signal < self.descriptors@.len()
        &&& self.alive(l.instance)
        &&& (l.detail matches Some(d) ==> self.descriptors@[l.signal as int].flags.detailed && d
            < self.details@.len())
    }

    /// Well-formedness of the bus state: one descriptor per (name, owner
    /// type) pair, accumulators that fit their return tag, uniquely
    /// interned details, unique instance ids and listener handles, and
    /// admissible listeners.
    pub open spec fn wf(&self) -> bool {
        &&& forall|i: int, j: int|
            0 <= i < j < self.descriptors@.len() ==> !((#[trigger] self.descriptors@[i]).name@
                == (#[trigger] self.descriptors@[j]).name@ && self.descriptors@[i].owner_type
                == self.descriptors@[j].owner_type)
        &&& forall|i: int|
            0 <= i < self.descriptors@.len() ==> accumulator_fits(
                (#[trigger] self.descriptors@[i]).accumulator,
                self.descriptors@[i].return_tag,
            )
        &&& forall|i: int|
            0 <= i < self.descriptors@.len()
                ==> ((#[trigger] self.descriptors@[i]).accumulator matches Accumulator::Sum {
                weight_detail: Some(d),
                ..
            } ==> d < self.details@.len())
        &&& forall|i: int, j: int|
            0 <= i < j < self.details@.len() ==> (#[trigger] self.details@[i])@
                != (#[trigger] self.details@[j])@
        &&& forall|i: int, j: int|
            0 <= i < j < self.instances@.len() ==> (#[trigger] self.instances@[i]).0
                != (#[trigger] self.instances@[j]).0
        &&& forall|i: int|
            0 <= i < self.instances@.len() ==> (#[trigger] self.instances@[i]).0
                < self.next_instance
        &&& forall|k: int|
            0 <= k < self.listeners@.len() ==> self.listener_wf(#[trigger] self.listeners@[k])
        &&& forall|k: int, l: int|
            0 <= k < l < self.listeners@.len() ==> (#[trigger] self.listeners@[k]).handle
                != (#[trigger] self.listeners@[l]).handle
    }

    /// An empty bus: no signals, no details, no instances, no listeners.
    pub fn new() -> (r: Dispatcher)
        ensures
            r.wf(),
            r.descriptors@.len() == 0,
            r.details@.len() == 0,
            r.instances@.len() == 0,
            r.listeners@.len() == 0,
            r.next_handle == 0,
            r.next_instance == 0,
    {
        Dispatcher {
            descriptors: Vec::new(),
            details: Vec::new(),
            instances: Vec::new(),
            listeners: Vec::new(),
            next_handle: 0,
            next_instance: 0,
        }
    }

    /// Registers a signal for an owner type: name, argument shape, return
    /// tag, flags and accumulator are fixed from here on. Registration
    /// happens once per (name, owner type) pair, at type construction;
    /// re-registering the same pair is a programming error and excluded.
    pub fn register_signal(
        &mut self,
        name: &str,
        owner_type: u64,
        param_tags: Vec<TypeTag>,
        return_tag: TypeTag,
        flags: SignalFlags,
        accumulator: Accumulator,
    ) -> (id: usize)
        requires
            old(self).wf(),
            !old(self).has_signal(name@, owner_type),
            accumulator_fits(accumulator, return_tag),
            accumulator matches Accumulator::Sum { weight_detail: Some(d), .. } ==> d < old(self).details@.len(),
        ensures
            final(self).wf(),
            id == old(self).descriptors@.len(),
            final(self).descriptors@.len() == old(self).descriptors@.len() + 1,
            forall|i: int|
                0 <= i < old(self).descriptors@.len() ==> final(self).descriptors@[i] == old(self).descriptors@[i],
            final(self).descriptors@[id as int].name@ == name@,
            final(self).descriptors@[id as int].owner_type == owner_type,
            final(self).descriptors@[id as int].param_tags@ == param_tags@,
            final(self).descriptors@[id as int].return_tag == return_tag,
            final(self).descriptors@[id as int].flags == flags,
            final(self).descriptors@[id as int].accumulator == accumulator,
            final(self).details@ == old(self).details@,
            final(self).instances@ == old(self).instances@,
            final(self).listeners@ == old(self).listeners@,
            final(self).next_handle == old(self).next_handle,
            final(self).next_instance == old(self).next_instance,
    {
        let id = self.descriptors.len();
        let descriptor = SignalDescriptor {
            name: name.to_owned(),
            owner_type,
            param_tags,
            return_tag,
            flags,
            accumulator,
        };
        self.descriptors.push(descriptor);
        proof {
            let prev = old(self).descriptors@;
            let now = self.descriptors@;
            assert forall|i: int, j: int| 0 <= i < j < now.len() implies !((#[trigger] now[i]).name@
                == (#[trigger] now[j]).name@ && now[i].owner_type == now[j].owner_type) by {
                if j == now.len() - 1 {
                    if now[i].name@ == now[j].name@ && now[i].owner_type == now[j].owner_type {
                        assert(prev[i].name@ == name@ && prev[i].owner_type == owner_type);
                        assert(old(self).has_signal(name@, owner_type));
                    }
                }
            }
            assert forall|k: int| 0 <= k < self.listeners@.len() implies self.listener_wf(
                #[trigger] self.listeners@[k],
            ) by {
                assert(old(self).listener_wf(old(self).listeners@[k]));
                let l = self.listeners@[k];
                let w = choose|i: int|
                    0 <= i < old(self).instances@.len() && (#[trigger] old(self).instances@[i]).0 == l.instance;
                assert(self.instances@[w].0 == l.instance);
            }
        }
        id
    }

    /// Resolves a (name, owner type) pair to the id of its registered
    /// descriptor, or none when no such signal was registered.
    pub fn lookup(&self, name: &str, owner_type: u64) -> (r: Option<usize>)
        requires
            self.wf(),
        ensures
            r matches Some(i) ==> i < self.descriptors@.len() && self.descriptors@[i as int].name@
                == name@ && self.descriptors@[i as int].owner_type == owner_type,
            r is None <==> !self.has_signal(name@, owner_type),
    {
        let key: String = name.to_owned();
        let n = self.descriptors.len();
        let mut i: usize = 0;
        while i < n
            invariant
                n == self.descriptors@.len(),
                i <= n,
                key@ == name@,
                forall|j: int|
                    0 <= j < i ==> !((#[trigger] self.descriptors@[j]).name@ == name@
                        && self.descriptors@[j].owner_type == owner_type),
            decreases n - i,
        {
            if self.descriptors[i].name == key && self.descriptors[i].owner_type == owner_type {
                return Some(i);
            }
            i = i + 1;
        }
        None
    }

    /// Interns a detail string, creating it if it is new: the same string
    /// always yields the same detail id.
    pub fn create_detail(&mut self, s: &str) -> (id: usize)
        requires
            old(self).wf(),
        ensures
            final(self).wf(),
            id < final(self).details@.len(),
            final(self).details@[id as int]@ == s@,
            old(self).has_detail(s@) ==> final(self).details@ == old(self).details@,
            !old(self).has_detail(s@) ==> final(self).details@ == old(self).details@.push(
                final(self).details@[id as int],
            ) && id == old(self).details@.len(),
            final(self).descriptors@ == old(self).descriptors@,
            final(self).instances@ == old(self).instances@,
            final(self).listeners@ == old(self).listeners@,
            final(self).next_handle == old(self).next_handle,
            final(self).next_instance == old(self).next_instance,
    {
        let key: String = s.to_owned();
        let n = self.details.len();
        let mut i: usize = 0;
        while i < n
            invariant
                *self == *old(self),
                old(self).wf(),
                n == self.details@.len(),
                i <= n,
                key@ == s@,
                forall|j: int| 0 <= j < i ==> (#[trigger] self.details@[j])@ != s@,
            decreases n - i,
        {
            if self.details[i] == key {
                return i;
            }
            i = i + 1;
        }
        self.details.push(key);
        proof {
            assert forall|k: int| 0 <= k < self.listeners@.len() implies self.listener_wf(
                #[trigger] self.listeners@[k],
            ) by {
                assert(old(self).listener_wf(old(self).listeners@[k]));
                let l = self.listeners@[k];
                let w = choose|i: int|
                    0 <= i < old(self).instances@.len() && (#[trigger] old(self).instances@[i]).0 == l.instance;
                assert(self.instances@[w].0 == l.instance);
            }
        }
        n
    }

    /// Resolves an already interned detail string to its id, or none when
    /// the string was never interned.
    pub fn try_detail(&self, s: &str) -> (r: Option<usize>)
        requires
            self.wf(),
        ensures
            r matches Some(d) ==> d < self.details@.len() && self.details@[d as int]@ == s@,
            r is None <==> !self.has_detail(s@),
    {
        let key: String = s.to_owned();
        let n = self.details.len();
        let mut i: usize = 0;
        while i < n
            invariant
                n == self.details@.len(),
                i <= n,
                key@ == s@,
                forall|j: int| 0 <= j < i ==> (#[trigger] self.details@[j])@ != s@,
            decreases n - i,
        {
            if self.details[i] == key {
                return Some(i);
            }
            i = i + 1;
        }
        None
    }

    /// Creates an alive instance of type `type_id` and returns its fresh id.
    pub fn create_instance(&mut self, type_id: u64) -> (id: u64)
        requires
            old(self).wf(),
            old(self).next_instance < u64::MAX,
        ensures
            final(self).wf(),
            id == old(self).next_instance,
            final(self).instances@ == old(self).instances@.push((id, type_id)),
            final(self).descriptors@ == old(self).descriptors@,
            final(self).details@ == old(self).details@,
            final(self).listeners@ == old(self).listeners@,
            final(self).next_handle == old(self).next_handle,
            final(self).next_instance == old(self).next_instance + 1,
    {
        let id = self.next_instance;
        self.instances.push((id, type_id));
        self.next_instance = self.next_instance + 1;
        proof {
            assert forall|k: int| 0 <= k < self.listeners@.len() implies self.listener_wf(
                #[trigger] self.listeners@[k],
            ) by {
                assert(old(self).listener_wf(old(self).listeners@[k]));
                let l = self.listeners@[k];
                let w = choose|i: int|
                    0 <= i < old(self).instances@.len() && (#[trigger] old(self).instances@[i]).0 == l.instance;
                assert(self.instances@[w].0 == l.instance);
            }
        }
        id
    }

    /// Destroys an instance: it is no longer alive, and every listener
    /// connected to it is removed, the others keeping their connection
    /// order.
    pub fn destroy_instance(&mut self, instance: u64)
        requires
            old(self).wf(),
        ensures
            final(self).wf(),
            final(self).instances@ == old(self).instances@.filter(
                keeps_other_instances(instance),
            ),
            final(self).listeners@ == old(self).listeners@.filter(
                keeps_other_listeners(instance),
            ),
            !final(self).alive(instance),
            final(self).descriptors@ == old(self).descriptors@,
            final(self).details@ == old(self).details@,
            final(self).next_handle == old(self).next_handle,
            final(self).next_instance == old(self).next_instance,
    {
        let ghost ipred = keeps_other_instances(instance);
        let ghost lpred = keeps_other_listeners(instance);
        let mut kept_instances: Vec<(u64, u64)> = Vec::new();
        let n = self.instances.len();
        let mut i: usize = 0;
        while i < n
            invariant
                *self == *old(self),
                n == self.instances@.len(),
                i <= n,
                kept_instances@ == self.instances@.take(i as int).filter(
                    keeps_other_instances(instance),
                ),
            decreases n - i,
        {
            proof {
                lemma_filter_step(self.instances@, keeps_other_instances(instance), i as int);
            }
            let p = self.instances[i];
            if !(p.0 == instance) {
                kept_instances.push(p);
            }
            i = i + 1;
        }
        let mut kept_listeners: Vec<Listener> = Vec::new();
        let m = self.listeners.len();
        let mut k: usize = 0;
        while k < m
            invariant
                *self == *old(self),
                m == self.listeners@.len(),
                k <= m,
                kept_listeners@ == self.listeners@.take(k as int).filter(
                    keeps_other_listeners(instance),
                ),
            decreases m - k,
        {
            proof {
                lemma_filter_step(self.listeners@, keeps_other_listeners(instance), k as int);
            }
            let l = self.listeners[k];
            if !(l.instance == instance) {
                kept_listeners.push(l);
            }
            k = k + 1;
        }
        proof {
            assert(self.instances@.take(n as int) =~= self.instances@);
            assert(self.listeners@.take(m as int) =~= self.listeners@);
        }
        self.instances = kept_instances;
        self.listeners = kept_listeners;
        proof {
            broadcast use vstd::seq_lib::group_filter_ensures;

            let prev = *old(self);
            lemma_filter_distinct_by_key(prev.instances@, ipred, |p: (u64, u64)| p.0);
            lemma_filter_distinct_by_key(prev.listeners@, lpred, |l: Listener| l.handle);
            assert forall|x: int| 0 <= x < self.instances@.len() implies (
            #[trigger] self.instances@[x]).0 != instance && self.instances@[x].0
                < self.next_instance by {
                assert(ipred(self.instances@[x]));
                let j = choose|j: int|
                    0 <= j < prev.instances@.len() && prev.instances@[j] == self.instances@[x];
                assert(prev.instances@[j].0 < prev.next_instance);
            }
            assert forall|x: int| 0 <= x < self.listeners@.len() implies self.listener_wf(
                #[trigger] self.listeners@[x],
            ) by {
                let l = self.listeners@[x];
                assert(lpred(l));
                let j = choose|j: int|
                    0 <= j < prev.listeners@.len() && prev.listeners@[j] == l;
                assert(prev.listener_wf(l));
                let w = choose|w: int|
                    0 <= w < prev.instances@.len() && (#[trigger] prev.instances@[w]).0
                        == l.instance;
                assert(ipred(prev.instances@[w]));
                assert(prev.instances@.filter(ipred).contains(prev.instances@[w]));
                let y = choose|y: int|
                    0 <= y < self.instances@.len() && self.instances@[y] == prev.instances@[w];
                assert(self.instances@[y].0 == l.instance);
            }
        }
    }

    /// Connects a listener registration: the routing triple is bound to the
    /// instance and a fresh opaque handle is returned. The bus rejects the
    /// connection exactly when the instance is not alive, the signal is not
    /// registered for the instance's type, or the triple carries a detail
    /// the descriptor does not admit.
    pub fn connect(&mut self, instance: u64, details: &ConnectDetails) -> (r: Result<
        u64,
        ConnectError,
    >)
        requires
            old(self).wf(),
            old(self).next_handle < u64::MAX,
        ensures
            final(self).wf(),
            r is Ok <==> old(self).connect_ok(instance, *details),
            r matches Ok(h) ==> {
                &&& h == old(self).next_handle
                &&& final(self).listeners@ == old(self).listeners@.push(
                    Listener {
                        handle: h,
                        instance,
                        signal: details.signal,
                        detail: details.detail,
                        run_after: details.run_after,
                    },
                )
                &&& final(self).next_handle == old(self).next_handle + 1
                &&& final(self).descriptors@ == old(self).descriptors@
                &&& final(self).details@ == old(self).details@
                &&& final(self).instances@ == old(self).instances@
                &&& final(self).next_instance == old(self).next_instance
            },
            r is Err ==> *final(self) == *old(self) && r == Err::<u64, ConnectError>(
                ConnectError::ConnectionRejected,
            ),
    {
        if details.signal >= self.descriptors.len() {
            return Err(ConnectError::ConnectionRejected);
        }
        let owner = self.descriptors[details.signal].owner_type;
        if !self.find_instance_of_type(instance, owner) {
            return Err(ConnectError::ConnectionRejected);
        }
        if let Some(d) = details.detail {
            if !self.descriptors[details.signal].flags.detailed {
                return Err(ConnectError::ConnectionRejected);
            }
            if d >= self.details.len() {
                return Err(ConnectError::ConnectionRejected);
            }
        }
        let handle = self.next_handle;
        self.listeners.push(
            Listener {
                handle,
                instance,
                signal: details.signal,
                detail: details.detail,
                run_after: details.run_after,
            },
        );
        self.next_handle = self.next_handle + 1;
        proof {
            assert forall|k: int| 0 <= k < self.listeners@.len() implies self.listener_wf(
                #[trigger] self.listeners@[k],
            ) by {
                let l = self.listeners@[k];
                if k < self.listeners@.len() - 1 {
                    assert(old(self).listener_wf(old(self).listeners@[k]));
                }
                let w = choose|i: int|
                    0 <= i < old(self).instances@.len() && (#[trigger] old(self).instances@[i]).0 == l.instance;
                assert(self.instances@[w].0 == l.instance);
            }
        }
        Ok(handle)
    }

    /// Whether the bus accepts a connect operation of `details` on
    /// `instance` in this state.
    pub open spec fn connect_ok(&self, instance: u64, details: ConnectDetails) -> bool {
        &&& details.signal < self.descriptors@.len()
        &&& self.instance_of_type(instance, self.descriptors@[details.signal as int].owner_type)
        &&& (details.detail matches Some(d) ==> self.descriptors@[
            details.signal as int
        ].flags.detailed && d < self.details@.len())
    }

    /// Whether `instance` is alive with type `type_id`.
    pub fn find_instance_of_type(&self, instance: u64, type_id: u64) -> (b: bool)
        ensures
            b == self.instance_of_type(instance, type_id),
    {
        let n = self.instances.len();
        let mut i: usize = 0;
        while i < n
            invariant
                n == self.instances@.len(),
                i <= n,
                forall|j: int| 0 <= j < i ==> #[trigger] self.instances@[j] != (instance, type_id),
            decreases n - i,
        {
            let p = self.instances[i];
            if p.0 == instance && p.1 == type_id {
                return true;
            }
            i = i + 1;
        }
        false
    }

    /// Whether `handle` names a live listener registration.
    pub fn is_connected(&self, handle: u64) -> (b: bool)
        ensures
            b == self.spec_is_connected(handle),
    {
        let n = self.listeners.len();
        let mut i: usize = 0;
        while i < n
            invariant
                n == self.listeners@.len(),
                i <= n,
                forall|j: int| 0 <= j < i ==> (#[trigger] self.listeners@[j]).handle != handle,
            decreases n - i,
        {
            if self.listeners[i].handle == handle {
                return true;
            }
            i = i + 1;
        }
        false
    }

    /// Removes the listener registration `handle` names, the other
    /// listeners keeping their connection order. A handle is consumed by
    /// exactly one removal; removing a handle that is not connected is a
    /// programming error and excluded.
    pub fn remove_handle(&mut self, handle: u64)
        requires
            old(self).wf(),
            old(self).spec_is_connected(handle),
        ensures
            final(self).wf(),
            final(self).listeners@ == old(self).listeners@.filter(
                keeps_other_handles(handle),
            ),
            !final(self).spec_is_connected(handle),
            final(self).descriptors@ == old(self).descriptors@,
            final(self).details@ == old(self).details@,
            final(self).instances@ == old(self).instances@,
            final(self).next_handle == old(self).next_handle,
            final(self).next_instance == old(self).next_instance,
    {
        let ghost lpred = keeps_other_handles(handle);
        let mut kept: Vec<Listener> = Vec::new();
        let m = self.listeners.len();
        let mut k: usize = 0;
        while k < m
            invariant
                *self == *old(self),
                m == self.listeners@.len(),
                k <= m,
                kept@ == self.listeners@.take(k as int).filter(keeps_other_handles(handle)),
            decreases m - k,
        {
            proof {
                lemma_filter_step(self.listeners@, keeps_other_handles(handle), k as int);
            }
            let l = self.listeners[k];
            if !(l.handle == handle) {
                kept.push(l);
            }
            k = k + 1;
        }
        proof {
            assert(self.listeners@.take(m as int) =~= self.listeners@);
        }
        self.listeners = kept;
        proof {
            broadcast use vstd::seq_lib::group_filter_ensures;

            let prev = *old(self);
            lemma_filter_distinct_by_key(prev.listeners@, lpred, |l: Listener| l.handle);
            assert forall|x: int| 0 <= x < self.listeners@.len() implies self.listener_wf(
                #[trigger] self.listeners@[x],
            ) && self.listeners@[x].handle != handle by {
                let l = self.listeners@[x];
                assert(l == prev.listeners@.filter(lpred)[x]);
                assert(lpred(l));
                assert(exists|j: int|
                    0 <= j < prev.listeners@.len() && prev.listeners@[j] == #[trigger] prev.listeners@.filter(lpred)[x]);
                let j = choose|j: int|
                    0 <= j < prev.listeners@.len() && prev.listeners@[j] == l;
                assert(prev.listeners@[j] == l);
                assert(prev.listener_wf(l));
                let w = choose|w: int|
                    0 <= w < prev.instances@.len() && (#[trigger] prev.instances@[w]).0
                        == l.instance;
                assert(self.instances@[w].0 == l.instance);
            }
        }
    }
}

/// One scan step of `Seq::filter`: filtering one element more keeps the
/// filtered prefix and appends the element exactly when it satisfies the
/// predicate.
proof fn lemma_filter_step<A>(s: Seq<A>, pred: spec_fn(A) -> bool, i: int)
    requires
        0 <= i < s.len(),
    ensures
        pred(s[i]) ==> s.take(i + 1).filter(pred) == s.take(i).filter(pred).push(s[i]),
        !pred(s[i]) ==> s.take(i + 1).filter(pred) == s.take(i).filter(pred),
{
    reveal(Seq::filter);
    assert(s.take(i + 1).drop_last() =~= s.take(i));
    assert(s.take(i + 1).last() == s[i]);
}

/// Filtering keeps every element an element of the source, and keeps
/// elements pairwise distinct under a key that is pairwise distinct in the
/// source.
proof fn lemma_filter_distinct_by_key<A>(s: Seq<A>, pred: spec_fn(A) -> bool, key: spec_fn(A) -> u64)
    requires
        forall|k: int, l: int| 0 <= k < l < s.len() ==> key(#[trigger] s[k]) != key(
            #[trigger] s[l],
        ),
    ensures
        forall|k: int|
            0 <= k < s.filter(pred).len() ==> exists|j: int|
                0 <= j < s.len() && s[j] == #[trigger] s.filter(pred)[k],
        forall|k: int, l: int|
            0 <= k < l < s.filter(pred).len() ==> key(#[trigger] s.filter(pred)[k]) != key(
                #[trigger] s.filter(pred)[l],
            ),
    decreases s.len(),
{
    reveal(Seq::filter);
    if s.len() > 0 {
        let d = s.drop_last();
        let f = s.filter(pred);
        let fd = d.filter(pred);
        assert forall|k: int, l: int| 0 <= k < l < d.len() implies key(#[trigger] d[k]) != key(
            #[trigger] d[l],
        ) by {
            assert(d[k] == s[k] && d[l] == s[l]);
        }
        lemma_filter_distinct_by_key(d, pred, key);
        assert forall|k: int| 0 <= k < f.len() implies exists|j: int|
            0 <= j < s.len() && s[j] == #[trigger] f[k] by {
            if pred(s.last()) && k == f.len() - 1 {
                assert(s[s.len() - 1] == f[k]);
            } else {
                assert(f[k] == fd[k]);
                let j = choose|j: int| 0 <= j < d.len() && d[j] == fd[k];
                assert(s[j] == f[k]);
            }
        }
        assert forall|k: int, l: int| 0 <= k < l < f.len() implies key(#[trigger] f[k]) != key(
            #[trigger] f[l],
        ) by {
            if pred(s.last()) && l == f.len() - 1 {
                assert(f[k] == fd[k]);
                let j = choose|j: int| 0 <= j < d.len() && d[j] == fd[k];
                assert(key(s[j]) != key(s[s.len() - 1]));
            } else {
                assert(f[k] == fd[k] && f[l] == fd[l]);
            }
        }
    }
}


/// The handles of the listeners an emission of `signal` on `instance`
/// carrying `detail` delivers to, restricted to the given `run_after`
/// class, in connection order.
pub open spec fn matching_handles(
    ls: Seq<Listener>,
    instance: u64,
    signal: usize,
    detail: Option<usize>,
    run_after: bool,
) -> Seq<u64>
    decreases ls.len(),
{
    if ls.len() == 0 {
        Seq::empty()
    } else {
        let rest = matching_handles(ls.drop_last(), instance, signal, detail, run_after);
        if listener_matches(ls.last(), instance, signal, detail) && ls.last().run_after
            == run_after {
            rest.push(ls.last().handle)
        } else {
            rest
        }
    }
}

/// The delivery plan of one emission: every matching run-before listener in
/// connection order, then every matching run-after listener in connection
/// order.
pub open spec fn emission_plan(
    ls: Seq<Listener>,
    instance: u64,
    signal: usize,
    detail: Option<usize>,
) -> Seq<u64> {
    matching_handles(ls, instance, signal, detail, false) + matching_handles(
        ls,
        instance,
        signal,
        detail,
        true,
    )
}

/// One scan step of `matching_handles`.
proof fn lemma_matching_step(
    ls: Seq<Listener>,
    instance: u64,
    signal: usize,
    detail: Option<usize>,
    run_after: bool,
    i: int,
)
    requires
        0 <= i < ls.len(),
    ensures
        listener_matches(ls[i], instance, signal, detail) && ls[i].run_after == run_after
            ==> matching_handles(ls.take(i + 1), instance, signal, detail, run_after)
            == matching_handles(ls.take(i), instance, signal, detail, run_after).push(
            ls[i].handle,
        ),
        !(listener_matches(ls[i], instance, signal, detail) && ls[i].run_after == run_after)
            ==> matching_handles(ls.take(i + 1), instance, signal, detail, run_after)
            == matching_handles(ls.take(i), instance, signal, detail, run_after),
{
    assert(ls.take(i + 1).drop_last() =~= ls.take(i));
    assert(ls.take(i + 1).last() == ls[i]);
}

/// Every handle in `matching_handles` is the handle of a listener of `ls`
/// that the routing rule delivers to, in the named run class; and every such
/// listener's handle is in it.
pub proof fn lemma_matching_handles_membership(
    ls: Seq<Listener>,
    instance: u64,
    signal: usize,
    detail: Option<usize>,
    run_after: bool,
)
    ensures
        forall|h: u64|
            matching_handles(ls, instance, signal, detail, run_after).contains(h) ==> exists|
                k: int,
            |
                0 <= k < ls.len() && (#[trigger] ls[k]).handle == h && listener_matches(
                    ls[k],
                    instance,
                    signal,
                    detail,
                ) && ls[k].run_after == run_after,
        forall|k: int|
            0 <= k < ls.len() && listener_matches(#[trigger] ls[k], instance, signal, detail)
                && ls[k].run_after == run_after ==> matching_handles(
                ls,
                instance,
                signal,
                detail,
                run_after,
            ).contains(ls[k].handle),
    decreases ls.len(),
{
    if ls.len() > 0 {
        let d = ls.drop_last();
        lemma_matching_handles_membership(d, instance, signal, detail, run_after);
        let m = matching_handles(ls, instance, signal, detail, run_after);
        let md = matching_handles(d, instance, signal, detail, run_after);
        assert forall|h: u64| m.contains(h) implies exists|k: int|
            0 <= k < ls.len() && (#[trigger] ls[k]).handle == h && listener_matches(
                ls[k],
                instance,
                signal,
                detail,
            ) && ls[k].run_after == run_after by {
            let x = choose|x: int| 0 <= x < m.len() && m[x] == h;
            if listener_matches(ls.last(), instance, signal, detail) && ls.last().run_after
                == run_after && x == m.len() - 1 {
                assert(ls[ls.len() - 1].handle == h);
            } else {
                assert(md.contains(h));
                let k = choose|k: int|
                    0 <= k < d.len() && (#[trigger] d[k]).handle == h && listener_matches(
                        d[k],
                        instance,
                        signal,
                        detail,
                    ) && d[k].run_after == run_after;
                assert(ls[k].handle == h && listener_matches(ls[k], instance, signal, detail)
                    && ls[k].run_after == run_after);
            }
        }
        assert forall|k: int|
            0 <= k < ls.len() && listener_matches(#[trigger] ls[k], instance, signal, detail)
                && ls[k].run_after == run_after implies m.contains(ls[k].handle) by {
            if k == ls.len() - 1 {
                assert(m[m.len() - 1] == ls[k].handle);
            } else {
                assert(d[k] == ls[k]);
                assert(md.contains(ls[k].handle));
                let x = choose|x: int| 0 <= x < md.len() && md[x] == ls[k].handle;
                assert(m[x] == ls[k].handle);
            }
        }
    }
}

impl Dispatcher {
    /// Whether an emission of `signal` on `instance` carrying `detail` is
    /// admissible in this state: the signal is registered for the
    /// instance's type and a carried detail is one the descriptor admits.
    /// Emitting outside these bounds is a programming error and excluded.
    pub open spec fn emit_ok(&self, instance: u64, signal: usize, detail: Option<usize>) -> bool {
        &&& signal < self.descriptors@.len()
        &&& self.instance_of_type(instance, self.descriptors@[signal as int].owner_type)
        &&& (detail matches Some(d) ==> self.descriptors@[signal as int].flags.detailed && d
            < self.details@.len())
    }

    /// The delivery plan of an emission in this state, as a vector of
    /// handles in delivery order.
    fn collect_plan(&self, instance: u64, signal: usize, detail: Option<usize>) -> (plan: Vec<
        u64,
    >)
        ensures
            plan@ == emission_plan(self.listeners@, instance, signal, detail),
    {
        let n = self.listeners.len();
        let mut plan: Vec<u64> = Vec::new();
        let mut i: usize = 0;
        while i < n
            invariant
                n == self.listeners@.len(),
                i <= n,
                plan@ == matching_handles(
                    self.listeners@.take(i as int),
                    instance,
                    signal,
                    detail,
                    false,
                ),
            decreases n - i,
        {
            proof {
                lemma_matching_step(self.listeners@, instance, signal, detail, false, i as int);
            }
            let l = self.listeners[i];
            if listener_matches_exec(&l, instance, signal, detail) && !l.run_after {
                plan.push(l.handle);
            }
            i = i + 1;
        }
        proof {
            assert(self.listeners@.take(n as int) =~= self.listeners@);
            assert(matching_handles(self.listeners@.take(0), instance, signal, detail, true)
                =~= Seq::<u64>::empty());
            assert(plan@ =~= matching_handles(self.listeners@, instance, signal, detail, false)
                + matching_handles(self.listeners@.take(0), instance, signal, detail, true));
        }
        let mut k: usize = 0;
        while k < n
            invariant
                n == self.listeners@.len(),
                k <= n,
                plan@ == matching_handles(self.listeners@, instance, signal, detail, false)
                    + matching_handles(
                    self.listeners@.take(k as int),
                    instance,
                    signal,
                    detail,
                    true,
                ),
            decreases n - k,
        {
            proof {
                lemma_matching_step(self.listeners@, instance, signal, detail, true, k as int);
            }
            let l = self.listeners[k];
            if listener_matches_exec(&l, instance, signal, detail) && l.run_after {
                plan.push(l.handle);
            }
            k = k + 1;
        }
        proof {
            assert(self.listeners@.take(n as int) =~= self.listeners@);
        }
        plan
    }

    /// Starts one emission: validates the argument slice against the
    /// declared shape and plans delivery by the routing rule. The result is
    /// the emission's fold state; delivery itself is driven by
    /// `next_listener` and `deliver`, and `finish` yields the combined
    /// return value. Failure surfaces the marshaling error and delivers to
    /// no listener: `ArityMismatch` when the slice length differs from the
    /// declared arity, else `TypeMismatch` at the first disagreeing
    /// position.
    pub fn begin_emit(
        &self,
        instance: u64,
        signal: usize,
        detail: Option<usize>,
        args: &[DynamicValue],
    ) -> (r: Result<Emission, MarshalError>)
        requires
            self.wf(),
            self.emit_ok(instance, signal, detail),
        ensures
            r is Ok <==> matches_shape(args@, self.descriptors@[signal as int].param_tags@),
            r matches Ok(em) ==> {
                &&& em.wf()
                &&& em.plan@ == emission_plan(self.listeners@, instance, signal, detail)
                &&& em.idx == 0
                &&& em.args@ == args@
                &&& em.detail == detail
                &&& em.accumulator == self.descriptors@[signal as int].accumulator
                &&& em.return_tag == self.descriptors@[signal as int].return_tag
                &&& em.acc is None
                &&& em.delivered == 0
                &&& !em.stopped
            },
            r == Err::<Emission, MarshalError>(
                MarshalError::ArityMismatch {
                    expected: self.descriptors@[signal as int].param_tags@.len() as usize,
                    actual: args@.len() as usize,
                },
            ) <==> args@.len() != self.descriptors@[signal as int].param_tags@.len(),
            r matches Err(e) ==> e matches MarshalError::TypeMismatch {
                position,
                expected,
                actual,
            } ==> {
                &&& args@.len() == self.descriptors@[signal as int].param_tags@.len()
                &&& position < args@.len()
                &&& expected == self.descriptors@[signal as int].param_tags@[position as int]
                &&& actual == args@[position as int].tag()
                &&& expected != actual
                &&& forall|j: int|
                    0 <= j < position ==> #[trigger] args@[j].tag() == self.descriptors@[
                        signal as int
                    ].param_tags@[j]
            },
    {
        let descriptor = &self.descriptors[signal];
        let args_tuple = match ArgumentTuple::from_values(args, descriptor.param_tags.as_slice()) {
            Ok(t) => t,
            Err(e) => {
                return Err(e);
            },
        };
        let plan = self.collect_plan(instance, signal, detail);
        Ok(
            Emission {
                plan,
                idx: 0,
                args: args_tuple,
                detail,
                accumulator: descriptor.accumulator,
                return_tag: descriptor.return_tag,
                acc: None,
                delivered: 0,
                stopped: false,
            },
        )
    }
}

/// Runs the routing rule.
fn listener_matches_exec(
    l: &Listener,
    instance: u64,
    signal: usize,
    detail: Option<usize>,
) -> (b: bool)
    ensures
        b == listener_matches(*l, instance, signal, detail),
{
    l.instance == instance && l.signal == signal && (match (l.detail, detail) {
        (Option::None, _) => true,
        (Option::Some(a), Option::Some(b)) => a == b,
        (Option::Some(_), Option::None) => false,
    })
}

/// The fold state of one emission: the delivery plan, the marshaled
/// argument tuple, and the running accumulated value. The emission is
/// driven one listener at a time: `next_listener` names who is delivered to
/// next, `deliver` folds that listener's return value in, and `finish`
/// yields the combined value of the emission.
#[derive(Debug)]
pub struct Emission {
    /// The handles to deliver to, in delivery order.
    pub plan: Vec<u64>,
    /// How many plan entries have been handed out.
    pub idx: usize,
    /// The marshaled argument tuple of the emission.
    pub args: ArgumentTuple,
    /// The detail the emission carries, if any.
    pub detail: Option<usize>,
    /// The fold of the emitted signal's descriptor.
    pub accumulator: Accumulator,
    /// The return tag of the emitted signal's descriptor.
    pub return_tag: TypeTag,
    /// The running accumulated value; none before any delivery.
    pub acc: Option<DynamicValue>,
    /// How many return values have been folded in.
    pub delivered: usize,
    /// Whether the fold has requested early termination.
    pub stopped: bool,
}

impl Emission {
    /// Well-formedness of the fold state: the plan cursor is in bounds, the
    /// accumulator fits the return tag, and the running value fits it too.
    pub open spec fn wf(&self) -> bool {
        &&& self.idx <= self.plan@.len()
        &&& accumulator_fits(self.accumulator, self.return_tag)
        &&& return_fits(self.acc, self.return_tag)
    }

    /// The handle of the next listener to deliver to, in plan order, or
    /// none when the plan is exhausted or the fold short-circuited.
    pub fn next_listener(&mut self) -> (r: Option<u64>)
        requires
            old(self).wf(),
        ensures
            final(self).wf(),
            old(self).stopped || old(self).idx == old(self).plan@.len() ==> r is None && *final(self) == *old(self),
            !old(self).stopped && old(self).idx < old(self).plan@.len() ==> r == Some(
                old(self).plan@[old(self).idx as int],
            ) && final(self).idx == old(self).idx + 1 && final(self).plan@ == old(self).plan@
                && final(self).args == old(self).args && final(self).detail == old(self).detail
                && final(self).accumulator == old(self).accumulator && final(self).return_tag
                == old(self).return_tag && final(self).acc == old(self).acc && final(self).delivered == old(self).delivered && final(self).stopped == old(self).stopped,
    {
        if self.stopped || self.idx >= self.plan.len() {
            return None;
        }
        let h = self.plan[self.idx];
        self.idx = self.idx + 1;
        Some(h)
    }

    /// Folds one listener's return value into the running total by the
    /// accumulator protocol; a fold step may request early termination,
    /// after which `next_listener` hands out no further handle.
    pub fn deliver(&mut self, ret: Option<DynamicValue>)
        requires
            old(self).wf(),
            old(self).delivered < usize::MAX,
            return_fits(ret, old(self).return_tag),
        ensures
            final(self).wf(),
            final(self).acc == spec_accumulate(
                old(self).accumulator,
                old(self).detail,
                old(self).acc,
                ret,
            ).0,
            final(self).stopped == (old(self).stopped || !spec_accumulate(
                old(self).accumulator,
                old(self).detail,
                old(self).acc,
                ret,
            ).1),
            final(self).delivered == old(self).delivered + 1,
            final(self).plan@ == old(self).plan@,
            final(self).idx == old(self).idx,
            final(self).args == old(self).args,
            final(self).detail == old(self).detail,
            final(self).accumulator == old(self).accumulator,
            final(self).return_tag == old(self).return_tag,
    {
        let (total, cont) = accumulate(&self.accumulator, self.detail, self.acc.take(), ret);
        self.acc = total;
        if !cont {
            self.stopped = true;
        }
        self.delivered = self.delivered + 1;
    }

    /// Ends the emission and yields its combined return value: the
    /// accumulated value once anything was delivered, and the return tag's
    /// default value when no listener was delivered to. A void signal
    /// yields no value to the emitting caller either way.
    pub fn finish(self) -> (r: Option<DynamicValue>)
        requires
            self.wf(),
        ensures
            self.delivered == 0 ==> is_default_value(self.return_tag, r),
            self.delivered > 0 ==> r == self.acc,
            self.return_tag == TypeTag::Unit ==> r is None,
    {
        if self.delivered == 0 {
            default_value(self.return_tag)
        } else {
            self.acc
        }
    }
}


/// Membership in an emission's delivery plan: a handle is delivered to
/// exactly when it is the handle of a registered listener that the routing
/// rule matches.
pub proof fn lemma_plan_membership(
    ls: Seq<Listener>,
    instance: u64,
    signal: usize,
    detail: Option<usize>,
)
    ensures
        forall|h: u64|
            #[trigger] emission_plan(ls, instance, signal, detail).contains(h) <==> exists|k: int|
                0 <= k < ls.len() && (#[trigger] ls[k]).handle == h && listener_matches(
                    ls[k],
                    instance,
                    signal,
                    detail,
                ),
{
    lemma_matching_handles_membership(ls, instance, signal, detail, false);
    lemma_matching_handles_membership(ls, instance, signal, detail, true);
    let before = matching_handles(ls, instance, signal, detail, false);
    let after = matching_handles(ls, instance, signal, detail, true);
    let plan = emission_plan(ls, instance, signal, detail);
    assert forall|h: u64| #[trigger] plan.contains(h) implies exists|k: int|
        0 <= k < ls.len() && (#[trigger] ls[k]).handle == h && listener_matches(
            ls[k],
            instance,
            signal,
            detail,
        ) by {
        let x = choose|x: int| 0 <= x < plan.len() && plan[x] == h;
        if x < before.len() {
            assert(before[x] == h);
            assert(before.contains(h));
        } else {
            assert(after[x - before.len()] == h);
            assert(after.contains(h));
        }
    }
    assert forall|h: u64|
        exists|k: int|
            0 <= k < ls.len() && (#[trigger] ls[k]).handle == h && listener_matches(
                ls[k],
                instance,
                signal,
                detail,
            ) implies #[trigger] plan.contains(h) by {
        let k = choose|k: int|
            0 <= k < ls.len() && (#[trigger] ls[k]).handle == h && listener_matches(
                ls[k],
                instance,
                signal,
                detail,
            );
        if ls[k].run_after {
            assert(after.contains(h));
            let x = choose|x: int| 0 <= x < after.len() && after[x] == h;
            assert(plan[before.len() + x] == h);
        } else {
            assert(before.contains(h));
            let x = choose|x: int| 0 <= x < before.len() && before[x] == h;
            assert(plan[x] == h);
        }
    }
}

/// Detail routing: a listener connected with no detail is delivered to by
/// every emission of its signal on its instance, whatever detail the
/// emission carries; a listener connected with detail `d` is delivered to
/// by emissions carrying exactly `d`, and by no emission carrying no
/// detail or a different one.
pub proof fn lemma_detail_routing(
    ls: Seq<Listener>,
    instance: u64,
    signal: usize,
    k: int,
    d: usize,
    emitted: Option<usize>,
)
    requires
        0 <= k < ls.len(),
        forall|x: int, y: int|
            0 <= x < y < ls.len() ==> (#[trigger] ls[x]).handle != (#[trigger] ls[y]).handle,
        ls[k].instance == instance,
        ls[k].signal == signal,
    ensures
        ls[k].detail is None ==> emission_plan(ls, instance, signal, emitted).contains(
            ls[k].handle,
        ),
        ls[k].detail == Some(d) && emitted == Some(d) ==> emission_plan(
            ls,
            instance,
            signal,
            emitted,
        ).contains(ls[k].handle),
        ls[k].detail == Some(d) && emitted != Some(d) ==> !emission_plan(
            ls,
            instance,
            signal,
            emitted,
        ).contains(ls[k].handle),
{
    lemma_plan_membership(ls, instance, signal, emitted);
    if ls[k].detail == Some(d) && emitted != Some(d) {
        if emission_plan(ls, instance, signal, emitted).contains(ls[k].handle) {
            let j = choose|j: int|
                0 <= j < ls.len() && (#[trigger] ls[j]).handle == ls[k].handle
                    && listener_matches(ls[j], instance, signal, emitted);
            assert(j == k);
        }
    }
}

/// Removing a listener's handle excludes that listener from every later
/// emission's delivery plan.
pub proof fn lemma_removed_handle_excluded(
    ls: Seq<Listener>,
    handle: u64,
    instance: u64,
    signal: usize,
    detail: Option<usize>,
)
    ensures
        !emission_plan(
            ls.filter(keeps_other_handles(handle)),
            instance,
            signal,
            detail,
        ).contains(handle),
{
    broadcast use vstd::seq_lib::group_filter_ensures;

    let kept = ls.filter(keeps_other_handles(handle));
    lemma_plan_membership(kept, instance, signal, detail);
    if emission_plan(kept, instance, signal, detail).contains(handle) {
        let k = choose|k: int|
            0 <= k < kept.len() && (#[trigger] kept[k]).handle == handle && listener_matches(
                kept[k],
                instance,
                signal,
                detail,
            );
        assert(keeps_other_handles(handle)(kept[k]));
    }
}

/// Connection order: a newly connected listener that the routing rule
/// matches is delivered to directly after the previously connected
/// listeners of its run class; with run-after delivery it comes last of
/// all, with run-before delivery it still precedes every run-after
/// listener. A listener the rule does not match leaves the plan unchanged.
pub proof fn lemma_plan_connection_order(
    ls: Seq<Listener>,
    l: Listener,
    instance: u64,
    signal: usize,
    detail: Option<usize>,
)
    ensures
        listener_matches(l, instance, signal, detail) && l.run_after ==> emission_plan(
            ls.push(l),
            instance,
            signal,
            detail,
        ) == emission_plan(ls, instance, signal, detail).push(l.handle),
        listener_matches(l, instance, signal, detail) && !l.run_after ==> emission_plan(
            ls.push(l),
            instance,
            signal,
            detail,
        ) == matching_handles(ls, instance, signal, detail, false).push(l.handle)
            + matching_handles(ls, instance, signal, detail, true),
        !listener_matches(l, instance, signal, detail) ==> emission_plan(
            ls.push(l),
            instance,
            signal,
            detail,
        ) == emission_plan(ls, instance, signal, detail),
{
    let pushed = ls.push(l);
    assert(pushed.drop_last() =~= ls);
    assert(pushed.last() == l);
    let before = matching_handles(ls, instance, signal, detail, false);
    let after = matching_handles(ls, instance, signal, detail, true);
    if listener_matches(l, instance, signal, detail) && l.run_after {
        assert(before + after.push(l.handle) =~= (before + after).push(l.handle));
    }
}


/// A non-owning reference to an object instance: holding one never keeps
/// the instance alive; whether it still names a live instance is learned
/// by upgrading it against the bus.
#[derive(Copy, Clone, Debug, PartialEq, Eq, Structural)]
pub struct WeakRef {
    /// The id of the instance referred to.
    pub id: u64,
}

impl Dispatcher {
    /// A non-owning reference to `instance`.
    pub fn downgrade(&self, instance: u64) -> (r: WeakRef)
        ensures
            r == (WeakRef { id: instance }),
    {
        WeakRef { id: instance }
    }

    /// Resolves a non-owning reference to the instance it names, or none
    /// when that instance has been destroyed.
    pub fn upgrade(&self, weak: WeakRef) -> (r: Option<u64>)
        ensures
            r == (if self.alive(weak.id) {
                Some(weak.id)
            } else {
                None::<u64>
            }),
    {
        let n = self.instances.len();
        let mut i: usize = 0;
        while i < n
            invariant
                n == self.instances@.len(),
                i <= n,
                forall|j: int| 0 <= j < i ==> (#[trigger] self.instances@[j]).0 != weak.id,
            decreases n - i,
        {
            if self.instances[i].0 == weak.id {
                return Some(weak.id);
            }
            i = i + 1;
        }
        None
    }
}


/// Whether positions `i` and `i + 1` of `s` hold the two-colon separator
/// of a textual signal specification.
pub open spec fn is_sep_at(s: Seq<char>, i: int) -> bool {
    &&& 0 <= i
    &&& i + 2 <= s.len()
    &&& s[i] == ':'
    &&& s[i + 1] == ':'
}

impl ConnectDetails {
    /// The convenience path from a raw textual signal specification to a
    /// routing triple: `"name"` addresses the signal plainly, and
    /// `"name::detail"` splits at the first two-colon separator and narrows
    /// to the named detail. The parse fails when the name is unknown for
    /// the owner type; a detail part also demands a detailable signal and
    /// an already interned detail string.
    pub fn with_name(bus: &Dispatcher, owner_type: u64, what: &str, run_after: bool) -> (r:
        Option<ConnectDetails>)
        requires
            bus.wf(),
        ensures
            (forall|j: int| !is_sep_at(what@, j)) ==> {
                &&& (r is Some <==> bus.has_signal(what@, owner_type))
                &&& (r matches Some(cd) ==> cd.detail is None && cd.run_after == run_after
                    && cd.signal < bus.descriptors@.len() && bus.descriptors@[
                    cd.signal as int
                ].name@ == what@ && bus.descriptors@[cd.signal as int].owner_type == owner_type)
            },
            forall|i: int|
                is_sep_at(what@, i) && (forall|j: int| 0 <= j < i ==> !is_sep_at(what@, j)) ==> {
                    &&& (r is Some <==> exists|k: int|
                        0 <= k < bus.descriptors@.len() && (#[trigger] bus.descriptors@[k]).name@
                            == what@.subrange(0, i) && bus.descriptors@[k].owner_type == owner_type
                            && bus.descriptors@[k].flags.detailed && bus.has_detail(
                            what@.subrange(i + 2, what@.len() as int),
                        ))
                    &&& (r matches Some(cd) ==> cd.run_after == run_after && cd.signal
                        < bus.descriptors@.len() && bus.descriptors@[cd.signal as int].name@
                        == what@.subrange(0, i) && bus.descriptors@[cd.signal as int].owner_type
                        == owner_type && bus.descriptors@[cd.signal as int].flags.detailed && (
                    cd.detail matches Some(d) && d < bus.details@.len() && bus.details@[d as int]@
                        == what@.subrange(i + 2, what@.len() as int)))
                },
    {
        let s_len = what.unicode_len();
        let sep = find_sep(what);
        match sep {
            None => {
                match bus.lookup(what, owner_type) {
                    Some(signal) => Some(ConnectDetails { signal, detail: None, run_after }),
                    None => None,
                }
            },
            Some(p) => {
                let name = what.substring_char(0, p);
                let detail_str = what.substring_char(p + 2, s_len);
                let signal = match bus.lookup(name, owner_type) {
                    Some(signal) => signal,
                    None => {
                        return None;
                    },
                };
                if !bus.descriptors[signal].flags.detailed {
                    return None;
                }
                match bus.try_detail(detail_str) {
                    Some(d) => Some(ConnectDetails { signal, detail: Some(d), run_after }),
                    None => None,
                }
            },
        }
    }
}


/// The position of the first two-colon separator of a textual signal
/// specification, if there is one.
fn find_sep(what: &str) -> (sep: Option<usize>)
    ensures
        sep matches Some(p) ==> is_sep_at(what@, p as int) && (forall|j: int|
            0 <= j < p ==> !is_sep_at(what@, j)),
        sep is None ==> forall|j: int| !is_sep_at(what@, j),
{
    let s_len = what.unicode_len();
    let mut i: usize = 0;
    while i < s_len && i + 1 < s_len
        invariant
            s_len == what@.len(),
            i <= s_len,
            forall|j: int| 0 <= j < i ==> !is_sep_at(what@, j),
        decreases s_len - i,
    {
        if what.get_char(i) == ':' && what.get_char(i + 1) == ':' {
            return Some(i);
        }
        i = i + 1;
    }
    proof {
        assert forall|j: int| !is_sep_at(what@, j) by {
            if 0 <= j < s_len - 1 {
                assert(!is_sep_at(what@, j));
            }
        }
    }
    None
}


/// Whether `ret` is a possible return of the invoker `f` for listener
/// handle `h` on an argument tuple whose contents are `args_view`.
pub open spec fn witnessed_call<F: Fn(u64, ArgumentTuple) -> Option<DynamicValue>>(
    f: F,
    args_view: Seq<DynamicValue>,
    h: u64,
    ret: Option<DynamicValue>,
) -> bool {
    exists|t: ArgumentTuple| t@ == args_view && #[trigger] call_ensures(f, (h, t), ret)
}

/// The fold of a whole emission over the sequence of listener return
/// values actually delivered, starting from no running value: the
/// accumulated value and whether the fold requested early termination.
pub open spec fn fold_returns(
    acc: Accumulator,
    detail: Option<usize>,
    rs: Seq<Option<DynamicValue>>,
) -> (Option<DynamicValue>, bool)
    decreases rs.len(),
{
    if rs.len() == 0 {
        (None, false)
    } else {
        let prev = fold_returns(acc, detail, rs.drop_last());
        if prev.1 {
            prev
        } else {
            let step = spec_accumulate(acc, detail, prev.0, rs.last());
            (step.0, !step.1)
        }
    }
}

impl Dispatcher {
    /// Emits a signal, invoking `f` once per listener of the delivery plan,
    /// in plan order, and folding the returned values by the descriptor's
    /// accumulator; the fold may short-circuit, ending delivery early. The
    /// combined value is the fold of the values actually returned, or the
    /// return tag's default when no listener was delivered to; a void
    /// signal hands no value back. Marshaling failures surface as with
    /// `begin_emit`, and nothing is delivered then.
    pub fn emit_with<F: Fn(u64, ArgumentTuple) -> Option<DynamicValue>>(
        &self,
        instance: u64,
        signal: usize,
        detail: Option<usize>,
        args: &[DynamicValue],
        f: F,
    ) -> (r: Result<Option<DynamicValue>, MarshalError>)
        requires
            self.wf(),
            self.emit_ok(instance, signal, detail),
            forall|x: (u64, ArgumentTuple)| #[trigger] call_requires(f, x),
            forall|x: (u64, ArgumentTuple), ret: Option<DynamicValue>|
                #[trigger] call_ensures(f, x, ret) ==> return_fits(
                    ret,
                    self.descriptors@[signal as int].return_tag,
                ),
        ensures
            r is Ok <==> matches_shape(args@, self.descriptors@[signal as int].param_tags@),
            r matches Ok(v) ==> exists|rs: Seq<Option<DynamicValue>>|
                #![trigger fold_returns(self.descriptors@[signal as int].accumulator, detail, rs)]
                {
                    let plan = emission_plan(self.listeners@, instance, signal, detail);
                    let tag = self.descriptors@[signal as int].return_tag;
                    let acc = self.descriptors@[signal as int].accumulator;
                    &&& rs.len() <= plan.len()
                    &&& rs.len() < plan.len() ==> fold_returns(acc, detail, rs).1
                    &&& forall|i: int|
                        0 <= i < rs.len() ==> #[trigger] witnessed_call(f, args@, plan[i], rs[i])
                    &&& rs.len() == 0 ==> is_default_value(tag, v)
                    &&& rs.len() > 0 && tag != TypeTag::Unit ==> v == fold_returns(
                        acc,
                        detail,
                        rs,
                    ).0
                    &&& tag == TypeTag::Unit ==> v is None
                },
            r == Err::<Option<DynamicValue>, MarshalError>(
                MarshalError::ArityMismatch {
                    expected: self.descriptors@[signal as int].param_tags@.len() as usize,
                    actual: args@.len() as usize,
                },
            ) <==> args@.len() != self.descriptors@[signal as int].param_tags@.len(),
            r matches Err(e) ==> e matches MarshalError::TypeMismatch {
                position,
                expected,
                actual,
            } ==> {
                &&& args@.len() == self.descriptors@[signal as int].param_tags@.len()
                &&& position < args@.len()
                &&& expected == self.descriptors@[signal as int].param_tags@[position as int]
                &&& actual == args@[position as int].tag()
                &&& expected != actual
                &&& forall|j: int|
                    0 <= j < position ==> #[trigger] args@[j].tag() == self.descriptors@[
                        signal as int
                    ].param_tags@[j]
            },
    {
        let ghost plan0 = emission_plan(self.listeners@, instance, signal, detail);
        let ghost acc0 = self.descriptors@[signal as int].accumulator;
        let ghost tag0 = self.descriptors@[signal as int].return_tag;
        let mut em = match self.begin_emit(instance, signal, detail, args) {
            Ok(em) => em,
            Err(e) => {
                return Err(e);
            },
        };
        let ghost mut rs: Seq<Option<DynamicValue>> = Seq::empty();
        while !em.stopped && em.idx < em.plan.len()
            invariant
                em.wf(),
                em.plan@ == plan0,
                em.args@ == args@,
                em.detail == detail,
                em.accumulator == acc0,
                em.return_tag == tag0,
                em.idx == em.delivered,
                em.delivered == rs.len(),
                (em.acc, em.stopped) == fold_returns(acc0, detail, rs),
                forall|i: int|
                    0 <= i < rs.len() ==> #[trigger] witnessed_call(f, args@, plan0[i], rs[i]),
                forall|x: (u64, ArgumentTuple)| #[trigger] call_requires(f, x),
                forall|x: (u64, ArgumentTuple), ret: Option<DynamicValue>|
                    #[trigger] call_ensures(f, x, ret) ==> return_fits(ret, tag0),
            decreases em.plan@.len() - em.idx,
        {
            match em.next_listener() {
                Some(h) => {
                    let a = em.args.clone();
                    let ghost a_snapshot = a;
                    let ret = f(h, a);
                    em.deliver(ret);
                    proof {
                        let prev_rs = rs;
                        rs = rs.push(ret);
                        assert(rs.drop_last() =~= prev_rs);
                        assert(rs.last() == ret);
                        assert(call_ensures(f, (plan0[prev_rs.len() as int], a_snapshot), ret));
                        assert forall|i: int| 0 <= i < rs.len() implies #[trigger] witnessed_call(
                            f,
                            args@,
                            plan0[i],
                            rs[i],
                        ) by {
                            if i < rs.len() - 1 {
                                assert(rs[i] == prev_rs[i]);
                                assert(witnessed_call(f, args@, plan0[i], rs[i]));
                            } else {
                                assert(a_snapshot@ == args@ && call_ensures(
                                    f,
                                    (plan0[i], a_snapshot),
                                    rs[i],
                                ));
                            }
                        }
                    }
                },
                None => {
                    proof {
                        assert(false);
                    }
                },
            }
        }
        let ghost rs_final = rs;
        let ghost em_final = em;
        let result = em.finish();
        proof {
            let plan = emission_plan(self.listeners@, instance, signal, detail);
            let tag = self.descriptors@[signal as int].return_tag;
            let acc = self.descriptors@[signal as int].accumulator;
            assert(plan == plan0 && tag == tag0 && acc == acc0);
            assert(fold_returns(acc, detail, rs_final) == (em_final.acc, em_final.stopped));
            assert(rs_final.len() <= plan.len());
            assert(rs_final.len() < plan.len() ==> fold_returns(acc, detail, rs_final).1);
            assert(rs_final.len() == 0 ==> is_default_value(tag, result));
            assert(rs_final.len() > 0 && tag != TypeTag::Unit ==> result == fold_returns(
                acc,
                detail,
                rs_final,
            ).0);
            assert(tag == TypeTag::Unit ==> result is None);
        }
        Ok(result)
    }
}

} // verus!
