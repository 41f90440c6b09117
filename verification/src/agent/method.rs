//! Java methods as the agent names them.
use super::native::JavaMethod;
use vstd::prelude::*;

verus! {

/// A native method identifier.
#[derive(Clone, Copy, PartialEq, Eq, Hash, Debug, Structural)]
pub struct MethodId {
    pub native_id: JavaMethod,
}

/// A Java method.
pub struct Method {
    pub id: MethodId,
}

/// The name, type signature and generic signature of a method.
pub struct MethodSignature {
    pub name: String,
    pub signature: String,
    pub generic: String,
}

impl MethodSignature {
    /// A signature made of the given parts.
    pub fn new(raw_name: String, raw_signature: String, raw_generic: String) -> (r: MethodSignature)
        ensures
            r.name@ == raw_name@,
            r.signature@ == raw_signature@,
            r.generic@ == raw_generic@,
    {
        MethodSignature { name: raw_name, signature: raw_signature, generic: raw_generic }
    }

    /// The signature of a method the JVM could not name.
    pub fn unknown() -> (r: MethodSignature)
        ensures
            r.name@ == "<UNKNOWN METHOD>"@,
            r.signature@ == "<UNKNOWN>"@,
            r.generic@ == "<UNKNOWN>"@,
    {
        MethodSignature {
            name: "<UNKNOWN METHOD>".to_owned(),
            signature: "<UNKNOWN>".to_owned(),
            generic: "<UNKNOWN>".to_owned(),
        }
    }
}

} // verus!
