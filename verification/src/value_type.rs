//! The numeric element types that the sample-store files hold.
use vstd::prelude::*;

verus! {

/// The type of the values (or index elements) stored in a file; its code in a
/// file header is its position in this list, starting at 0.
#[derive(Clone, Copy, PartialEq, Eq, Debug, Structural)]
pub enum ValueType {
    UNKNOWN,
    INT16,
    UINT16,
    INT32,
    UINT32,
    INT64,
}

/// The header code of a value type.
pub open spec fn value_type_code(t: ValueType) -> i8 {
    match t {
        ValueType::UNKNOWN => 0,
        ValueType::INT16 => 1,
        ValueType::UINT16 => 2,
        ValueType::INT32 => 3,
        ValueType::UINT32 => 4,
        ValueType::INT64 => 5,
    }
}

/// The value type with header code `code`, if there is one.
pub open spec fn value_type_of_code(code: i8) -> Option<ValueType> {
    if code == 0 {
        Some(ValueType::UNKNOWN)
    } else if code == 1 {
        Some(ValueType::INT16)
    } else if code == 2 {
        Some(ValueType::UINT16)
    } else if code == 3 {
        Some(ValueType::INT32)
    } else if code == 4 {
        Some(ValueType::UINT32)
    } else if code == 5 {
        Some(ValueType::INT64)
    } else {
        None
    }
}

/// The number of bytes one value of the type takes in a data segment.
pub open spec fn value_width(t: ValueType) -> int {
    match t {
        ValueType::UNKNOWN => 0,
        ValueType::INT16 => 2,
        ValueType::UINT16 => 2,
        ValueType::INT32 => 4,
        ValueType::UINT32 => 4,
        ValueType::INT64 => 8,
    }
}

impl ValueType {
    /// The header code of this type (`value_type as i8`).
    pub fn as_i8(&self) -> (r: i8)
        ensures
            r == value_type_code(*self),
    {
        match self {
            ValueType::UNKNOWN => 0,
            ValueType::INT16 => 1,
            ValueType::UINT16 => 2,
            ValueType::INT32 => 3,
            ValueType::UINT32 => 4,
            ValueType::INT64 => 5,
        }
    }

    /// The type with the given header code (`FromPrimitive::from_i8`).
    pub fn from_i8(code: i8) -> (r: Option<ValueType>)
        ensures
            r == value_type_of_code(code),
    {
        if code == 0 {
            Some(ValueType::UNKNOWN)
        } else if code == 1 {
            Some(ValueType::INT16)
        } else if code == 2 {
            Some(ValueType::UINT16)
        } else if code == 3 {
            Some(ValueType::INT32)
        } else if code == 4 {
            Some(ValueType::UINT32)
        } else if code == 5 {
            Some(ValueType::INT64)
        } else {
            None
        }
    }
}

/// Reading a code back gives the type that wrote it.
pub proof fn lemma_value_type_code_roundtrip(t: ValueType)
    ensures
        value_type_of_code(value_type_code(t)) == Some(t),
{
}

/// The unit length recorded in a file header for a value type: every type
/// is recorded with 2, whatever its width. This is not the type's width:
/// the stores already written carry 2 in that field for every type, and
/// the value is kept as they have it, so that files stay alike.
pub fn get_unit_len(value_type: ValueType) -> (r: i8)
    ensures
        r == 2,
{
    2
}

} // verus!
