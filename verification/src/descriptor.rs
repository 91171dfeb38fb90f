//! Signal descriptors and routing triples.
//!
//! A descriptor binds a signal name, its owner type, the declared argument
//! shape, the return tag, flags, and the accumulator that combines listener
//! return values. A `ConnectDetails` is the normalized routing triple every
//! connect or emit operation carries: signal id, optional detail, run-after
//! flag.

use vstd::prelude::*;

use crate::value::{DynamicValue, TypeTag};

verus! {

/// Flags a descriptor carries from declaration time on, never mutated.
#[derive(Copy, Clone, Debug, PartialEq, Eq, Structural)]
pub struct SignalFlags {
    /// Whether connect and emit operations on this signal may carry a
    /// per-emission detail qualifier.
    pub detailed: bool,
}

impl SignalFlags {
    /// No flags set.
    pub fn empty() -> (r: SignalFlags)
        ensures
            r == (SignalFlags { detailed: false }),
    {
        SignalFlags { detailed: false }
    }
}

/// The fold combining the return values of the listeners of one emission
/// into a single accumulated value, registered at descriptor-build time.
#[derive(Copy, Clone, Debug)]
pub enum Accumulator {
    /// The default policy: the latest listener's return value replaces the
    /// running total.
    Replace,
    /// Integer sum of the listener returns. When the emission carries the
    /// detail `weight_detail`, each contribution is first multiplied by
    /// `weight`; otherwise it is added as it is. Arithmetic wraps.
    Sum { weight_detail: Option<usize>, weight: i64 },
    /// Veto semantics: the latest return replaces the running total, and the
    /// fold short-circuits as soon as a listener returns a non-zero integer,
    /// delivering to no further listener.
    StopOnNonZero,
}

/// The integer a listener return value contributes to an integer fold:
/// its value for an integer, zero for no value or any other tag.
pub open spec fn opt_int(v: Option<DynamicValue>) -> i64 {
    match v {
        Some(d) => d.int_value(),
        None => 0,
    }
}

/// One step of the accumulator protocol: folds a listener's return value
/// `new` into the running total `running` of an emission carrying `detail`,
/// and decides whether delivery continues to further listeners.
pub open spec fn spec_accumulate(
    acc: Accumulator,
    detail: Option<usize>,
    running: Option<DynamicValue>,
    new: Option<DynamicValue>,
) -> (Option<DynamicValue>, bool) {
    match acc {
        Accumulator::Replace => (new, true),
        Accumulator::Sum { weight_detail, weight } => {
            let w = if weight_detail is Some && weight_detail == detail {
                weight
            } else {
                1i64
            };
            let contribution = vstd::wrapping::i64_specs::wrapping_mul(opt_int(new), w);
            let total = vstd::wrapping::i64_specs::wrapping_add(opt_int(running), contribution);
            (Some(DynamicValue::Int(total)), true)
        },
        Accumulator::StopOnNonZero => (new, opt_int(new) == 0),
    }
}

/// Runs one step of the accumulator protocol.
pub fn accumulate(
    acc: &Accumulator,
    detail: Option<usize>,
    running: Option<DynamicValue>,
    new: Option<DynamicValue>,
) -> (r: (Option<DynamicValue>, bool))
    ensures
        r == spec_accumulate(*acc, detail, running, new),
{
    match acc {
        Accumulator::Replace => (new, true),
        Accumulator::Sum { weight_detail, weight } => {
            let same = match (weight_detail, detail) {
                (Some(wd), Some(d)) => *wd == d,
                _ => false,
            };
            let w: i64 = if same {
                *weight
            } else {
                1
            };
            let new_int = match &new {
                Some(d) => d.runtime_int_value(),
                None => 0,
            };
            let running_int = match &running {
                Some(d) => d.runtime_int_value(),
                None => 0,
            };
            let total = running_int.wrapping_add(new_int.wrapping_mul(w));
            (Some(DynamicValue::Int(total)), true)
        },
        Accumulator::StopOnNonZero => {
            let new_int = match &new {
                Some(d) => d.runtime_int_value(),
                None => 0,
            };
            let cont = new_int == 0;
            (new, cont)
        },
    }
}

/// Whether a listener's return value fits a signal returning `tag`: a
/// listener may always contribute no value; a contributed value must carry
/// the declared tag, and a void signal never carries one.
pub open spec fn return_fits(v: Option<DynamicValue>, tag: TypeTag) -> bool {
    match v {
        None => true,
        Some(d) => d.tag() == tag && tag != TypeTag::Unit,
    }
}

/// Whether an accumulator fits a signal returning `tag`: the integer folds
/// demand an integer return; the default replace policy fits every tag.
pub open spec fn accumulator_fits(acc: Accumulator, tag: TypeTag) -> bool {
    match acc {
        Accumulator::Replace => true,
        Accumulator::Sum { .. } => tag == TypeTag::Int,
        Accumulator::StopOnNonZero => tag == TypeTag::Int,
    }
}

/// An immutable, registered signal: name and owner type identify it; the
/// argument shape, return tag, flags and accumulator are fixed at
/// registration and never change.
pub struct SignalDescriptor {
    /// The signal name, unique per owner type.
    pub name: String,
    /// The owner type the signal belongs to.
    pub owner_type: u64,
    /// The declared argument shape, one tag per position.
    pub param_tags: Vec<TypeTag>,
    /// The declared return tag.
    pub return_tag: TypeTag,
    /// The declared flags.
    pub flags: SignalFlags,
    /// The fold combining listener return values per emission.
    pub accumulator: Accumulator,
}

/// A typed view of a registered signal that fixes a routing detail: several
/// such views may address one underlying signal, differing only in the
/// detail their connections and emissions carry.
#[derive(Copy, Clone, Debug)]
pub struct DetailedSignal {
    /// The registered signal the view addresses.
    pub signal: usize,
    /// The fixed detail of the view, or none for the plain signal.
    pub detail: Option<usize>,
}

/// The normalized routing triple carried by every connect or emit
/// operation: the signal, an optional detail narrowing delivery, and
/// whether the listener runs after the ordinary ones.
#[derive(Copy, Clone, Debug)]
pub struct ConnectDetails {
    /// The registered signal addressed.
    pub signal: usize,
    /// The detail the operation carries, if any.
    pub detail: Option<usize>,
    /// Whether the listener is delivered to after all run-before listeners.
    pub run_after: bool,
}

impl ConnectDetails {
    /// Assembles a routing triple from its parts.
    pub fn with_parts(signal: usize, detail: Option<usize>, run_after: bool) -> (r:
        ConnectDetails)
        ensures
            r == (ConnectDetails { signal, detail, run_after }),
    {
        ConnectDetails { signal, detail, run_after }
    }

    /// The signal addressed.
    pub fn signal(&self) -> (r: usize)
        ensures
            r == self.signal,
    {
        self.signal
    }

    /// The detail carried, if any.
    pub fn detail(&self) -> (r: Option<usize>)
        ensures
            r == self.detail,
    {
        self.detail
    }

    /// The triple of a detailed signal view, with run-before delivery.
    pub fn new(signal: DetailedSignal) -> (r: ConnectDetails)
        ensures
            r == (ConnectDetails { signal: signal.signal, detail: signal.detail, run_after: false }),
    {
        Self::with_after(signal, false)
    }

    /// The triple of a detailed signal view, choosing run-after delivery.
    pub fn with_after(signal: DetailedSignal, run_after: bool) -> (r: ConnectDetails)
        ensures
            r == (ConnectDetails { signal: signal.signal, detail: signal.detail, run_after }),
    {
        ConnectDetails { signal: signal.signal, detail: signal.detail, run_after }
    }

    /// The triple of a plain signal narrowed to `detail`, with run-before
    /// delivery.
    pub fn with_detail(signal: usize, detail: Option<usize>) -> (r: ConnectDetails)
        ensures
            r == (ConnectDetails { signal, detail, run_after: false }),
    {
        ConnectDetails { signal, detail, run_after: false }
    }

    /// Supplies the detail of a triple built without one.
    pub fn set_detail(&mut self, detail: usize)
        requires
            old(self).detail is None,
        ensures
            *final(self) == (ConnectDetails {
                signal: old(self).signal,
                detail: Some(detail),
                run_after: old(self).run_after,
            }),
    {
        self.detail = Some(detail);
    }
}

} // verus!
