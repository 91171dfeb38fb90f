//! The value marshaling layer: converting an ordered slice of runtime-tagged
//! values into a fixed-arity argument tuple whose shape a signal descriptor
//! declared, and back.
//!
//! Conversion is total and side-effect-free. It fails with `ArityMismatch`
//! when the slice length differs from the declared arity, and with
//! `TypeMismatch` at the first position whose runtime tag disagrees with the
//! declared tag.

use vstd::prelude::*;

use crate::value::{DynamicValue, TypeTag};

verus! {

/// Why a slice of dynamic values could not be converted into a tuple.
#[derive(Copy, Clone, Debug, PartialEq, Eq, Structural)]
pub enum MarshalError {
    /// The slice length differs from the declared arity.
    ArityMismatch { expected: usize, actual: usize },
    /// The value at `position` carries `actual` where the declared shape
    /// demands `expected`; every earlier position matched.
    TypeMismatch { position: usize, expected: TypeTag, actual: TypeTag },
}

/// Whether the values `vals` fit the declared shape `shape`: equal length
/// and, position by position, an equal runtime tag.
pub open spec fn matches_shape(vals: Seq<DynamicValue>, shape: Seq<TypeTag>) -> bool {
    &&& vals.len() == shape.len()
    &&& forall|i: int| 0 <= i < vals.len() ==> #[trigger] vals[i].tag() == shape[i]
}

/// A fixed-arity, statically shaped tuple of argument values, produced from
/// a slice of dynamic values by `from_values`. Its contents are exactly the
/// converted slice, in order.
#[derive(Debug, PartialEq, Eq)]
pub struct ArgumentTuple {
    values: Vec<DynamicValue>,
}

impl View for ArgumentTuple {
    type V = Seq<DynamicValue>;

    closed spec fn view(&self) -> Seq<DynamicValue> {
        self.values@
    }
}

impl Clone for ArgumentTuple {
    /// An equal copy of the tuple.
    fn clone(&self) -> (r: Self)
        ensures
            r@ == self@,
    {
        ArgumentTuple { values: clone_values(self.values.as_slice()) }
    }
}

/// An equal copy of a slice of dynamic values.
fn clone_values(vals: &[DynamicValue]) -> (r: Vec<DynamicValue>)
    ensures
        r@ == vals@,
{
    let mut out: Vec<DynamicValue> = Vec::new();
    let mut i: usize = 0;
    while i < vals.len()
        invariant
            i <= vals.len(),
            out@ == vals@.take(i as int),
        decreases vals.len() - i,
    {
        out.push(vals[i].clone());
        proof {
            assert(vals@.take(i as int + 1) =~= vals@.take(i as int).push(vals@[i as int]));
        }
        i = i + 1;
    }
    proof {
        assert(vals@.take(vals@.len() as int) =~= vals@);
    }
    out
}

impl ArgumentTuple {
    /// Converts an ordered slice of dynamic values into a tuple of the
    /// declared shape. The conversion succeeds exactly when the slice fits
    /// the shape; it fails with `ArityMismatch` on a length difference and
    /// otherwise with `TypeMismatch` at the first disagreeing position,
    /// converting nothing. A zero-argument shape always succeeds.
    pub fn from_values(args: &[DynamicValue], shape: &[TypeTag]) -> (r: Result<
        ArgumentTuple,
        MarshalError,
    >)
        ensures
            r matches Ok(t) ==> matches_shape(args@, shape@) && t@ == args@,
            matches_shape(args@, shape@) ==> r is Ok,
            r == Err::<ArgumentTuple, MarshalError>(
                MarshalError::ArityMismatch { expected: shape@.len() as usize, actual: args@.len() as usize },
            ) <==> args@.len() != shape@.len(),
            r matches Err(e) ==> e matches MarshalError::TypeMismatch {
                position,
                expected,
                actual,
            } ==> {
                &&& args@.len() == shape@.len()
                &&& position < args@.len()
                &&& expected == shape@[position as int]
                &&& actual == args@[position as int].tag()
                &&& expected != actual
                &&& forall|j: int| 0 <= j < position ==> #[trigger] args@[j].tag() == shape@[j]
            },
    {
        if args.len() != shape.len() {
            return Err(MarshalError::ArityMismatch { expected: shape.len(), actual: args.len() });
        }
        let mut i: usize = 0;
        while i < args.len()
            invariant
                i <= args.len(),
                args@.len() == shape@.len(),
                forall|j: int| 0 <= j < i ==> #[trigger] args@[j].tag() == shape@[j],
            decreases args.len() - i,
        {
            let actual = args[i].runtime_tag();
            if actual != shape[i] {
                return Err(MarshalError::TypeMismatch {
                    position: i,
                    expected: shape[i],
                    actual,
                });
            }
            i = i + 1;
        }
        Ok(ArgumentTuple { values: clone_values(args) })
    }

    /// The arity of the tuple.
    pub fn len(&self) -> (n: usize)
        ensures
            n == self@.len(),
    {
        self.values.len()
    }

    /// The value at position `i`.
    pub fn get(&self, i: usize) -> (v: &DynamicValue)
        requires
            i < self@.len(),
        ensures
            *v == self@[i as int],
    {
        &self.values[i]
    }

    /// Reconstructs the dynamic value slice the tuple was converted from:
    /// the inverse of `from_values`.
    pub fn to_values(&self) -> (r: Vec<DynamicValue>)
        ensures
            r@ == self@,
    {
        clone_values(self.values.as_slice())
    }
}

/// Round trip of the marshaling layer: a tuple converted out of a slice that
/// fits the declared shape reconstructs a slice that re-marshals to an equal
/// tuple.
pub proof fn lemma_from_values_round_trip(
    args: Seq<DynamicValue>,
    shape: Seq<TypeTag>,
    t: ArgumentTuple,
)
    requires
        matches_shape(args, shape),
        t@ == args,
    ensures
        matches_shape(t@, shape),
{
}

} // verus!
