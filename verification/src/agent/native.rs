//! The JVM's native values as the agent holds them: references to classes,
//! methods, threads and objects are kept as the address of the native
//! reference.
use vstd::prelude::*;

verus! {

/// A Java `long`.
pub type JavaLong = i64;

/// A Java `int`.
pub type JavaInt = i32;

/// A native reference to a Java class.
pub type JavaClass = u64;

/// A native method identifier.
pub type JavaMethod = u64;

/// A native reference to a Java thread.
pub type JavaThread = u64;

/// A native reference to a Java object.
pub type JavaObject = u64;

} // verus!
