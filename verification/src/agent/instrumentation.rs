//! The agent's model of a Java class for instrumentation: its methods and
//! fields with their types.
use vstd::prelude::*;

verus! {

/// The type of a field or a method's result.
#[derive(Clone, Copy, PartialEq, Eq, Structural)]
pub enum JavaType {
    Boolean,
    String,
    Integer,
    Long,
    Float,
    Double,
    Array,
    Reference,
    Void,
}

/// A field: its name and type.
pub struct Field {
    pub name: String,
    pub field_type: JavaType,
}

impl Field {
    /// A field of the given name and type.
    pub fn new(name: String, field_type: JavaType) -> (r: Field)
        ensures
            r.name@ == name@,
            r.field_type == field_type,
    {
        Field { name: name, field_type: field_type }
    }
}

/// A method: its name and the type of its result.
pub struct Method {
    pub name: String,
    pub return_type: JavaType,
}

impl Method {
    /// A method of the given name that returns nothing.
    pub fn new(name: String) -> (r: Method)
        ensures
            r.name@ == name@,
            r.return_type == JavaType::Void,
    {
        Method { name: name, return_type: JavaType::Void }
    }
}

/// A class being instrumented: its methods and fields.
pub struct JavaClass {
    pub methods: Vec<Method>,
    pub fields: Vec<Field>,
}

impl JavaClass {
    /// A class without methods or fields.
    pub fn new() -> (r: JavaClass)
        ensures
            r.methods@.len() == 0,
            r.fields@.len() == 0,
    {
        JavaClass { methods: Vec::new(), fields: Vec::new() }
    }

    /// Takes a method for the class; methods are not recorded yet, so the
    /// method is dropped.
    pub fn add_method(method: Method) {
    }
}

} // verus!
