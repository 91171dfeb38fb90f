//! Runtime-tagged values: the dynamic side of the marshaling layer.
//!
//! A `DynamicValue` carries one value whose type is known only at runtime;
//! a `TypeTag` names such a runtime type. Conversion between dynamic values
//! and statically shaped argument tuples lives in `marshal`.

use vstd::prelude::*;

verus! {

/// The runtime type of a `DynamicValue`: the tag a signal descriptor declares
/// for each argument position and for its return value.
#[derive(Copy, Clone, Debug, PartialEq, Eq, Structural)]
pub enum TypeTag {
    /// The unit (void) type; a return of this tag carries no value.
    Unit,
    /// A signed 64-bit integer.
    Int,
    /// An owned string.
    Str,
    /// A reference to an object instance, named by its instance id.
    Object,
    /// An untyped address-sized pointer value.
    Pointer,
}

/// A runtime-tagged container holding one value of a type known only at
/// runtime. The bus passes argument lists and return values as these.
#[derive(Debug, PartialEq, Eq)]
pub enum DynamicValue {
    /// The unit value.
    Unit,
    /// A signed 64-bit integer.
    Int(i64),
    /// An owned string.
    Str(String),
    /// An object reference, by instance id.
    Object(u64),
    /// An untyped pointer value, by address.
    Pointer(usize),
}

impl DynamicValue {
    /// The runtime type of this value.
    pub open spec fn tag(&self) -> TypeTag {
        match self {
            DynamicValue::Unit => TypeTag::Unit,
            DynamicValue::Int(_) => TypeTag::Int,
            DynamicValue::Str(_) => TypeTag::Str,
            DynamicValue::Object(_) => TypeTag::Object,
            DynamicValue::Pointer(_) => TypeTag::Pointer,
        }
    }

    /// Reads the runtime tag of this value.
    pub fn runtime_tag(&self) -> (t: TypeTag)
        ensures
            t == self.tag(),
    {
        match self {
            DynamicValue::Unit => TypeTag::Unit,
            DynamicValue::Int(_) => TypeTag::Int,
            DynamicValue::Str(_) => TypeTag::Str,
            DynamicValue::Object(_) => TypeTag::Object,
            DynamicValue::Pointer(_) => TypeTag::Pointer,
        }
    }

    /// The integer carried by this value, or zero when it is not an integer.
    /// The accumulator protocol folds integer returns through this reading.
    pub open spec fn int_value(&self) -> i64 {
        match self {
            DynamicValue::Int(i) => *i,
            _ => 0,
        }
    }

    /// Reads `int_value`.
    pub fn runtime_int_value(&self) -> (i: i64)
        ensures
            i == self.int_value(),
    {
        match self {
            DynamicValue::Int(i) => *i,
            _ => 0,
        }
    }
}

impl Clone for DynamicValue {
    /// An equal copy of the value.
    fn clone(&self) -> (r: Self)
        ensures
            r == *self,
    {
        match self {
            DynamicValue::Unit => DynamicValue::Unit,
            DynamicValue::Int(i) => DynamicValue::Int(*i),
            DynamicValue::Str(s) => DynamicValue::Str(s.clone()),
            DynamicValue::Object(o) => DynamicValue::Object(*o),
            DynamicValue::Pointer(p) => DynamicValue::Pointer(*p),
        }
    }
}

/// Whether `r` is the default combined value of an emission that delivered
/// to no listener of a signal returning `tag`: no value for void, zero for
/// an integer, the empty string for a string, the null address for a
/// pointer, and no value for an object reference.
pub open spec fn is_default_value(tag: TypeTag, r: Option<DynamicValue>) -> bool {
    match tag {
        TypeTag::Unit => r is None,
        TypeTag::Int => r == Some(DynamicValue::Int(0)),
        TypeTag::Str => r matches Some(DynamicValue::Str(s)) && s@ == Seq::<char>::empty(),
        TypeTag::Object => r is None,
        TypeTag::Pointer => r == Some(DynamicValue::Pointer(0)),
    }
}

/// Builds the default combined value for a signal returning `tag`.
pub fn default_value(tag: TypeTag) -> (r: Option<DynamicValue>)
    ensures
        is_default_value(tag, r),
{
    match tag {
        TypeTag::Unit => None,
        TypeTag::Int => Some(DynamicValue::Int(0)),
        TypeTag::Str => Some(DynamicValue::Str(String::new())),
        TypeTag::Object => None,
        TypeTag::Pointer => Some(DynamicValue::Pointer(0)),
    }
}

/// A typed return value on its way back to the bus. Wrapping a plain value
/// gives it the conversion into an optional `DynamicValue`: the unit type
/// converts to "no value" unconditionally, everything else to a tagged value.
pub struct PrimitiveValue<T>(pub T);

impl PrimitiveValue<()> {
    /// A void return delivers no value to the bus.
    pub fn to_value_option(self) -> (r: Option<DynamicValue>)
        ensures
            r is None,
    {
        None
    }
}

impl PrimitiveValue<i64> {
    /// An integer return delivers its value.
    pub fn to_value_option(self) -> (r: Option<DynamicValue>)
        ensures
            r == Some(DynamicValue::Int(self.0)),
    {
        Some(DynamicValue::Int(self.0))
    }
}

impl PrimitiveValue<usize> {
    /// A length-like return delivers its value as an integer.
    pub fn to_value_option(self) -> (r: Option<DynamicValue>)
        requires
            self.0 <= i64::MAX,
        ensures
            r == Some(DynamicValue::Int(self.0 as i64)),
    {
        Some(DynamicValue::Int(self.0 as i64))
    }
}

} // verus!
