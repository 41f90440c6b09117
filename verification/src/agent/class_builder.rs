//! A class the agent generates: its class-file version and its constant
//! pool.
use vstd::prelude::*;

verus! {

/// The class-file versions a generated class can have.
#[derive(Clone, Copy, PartialEq, Eq, Structural)]
pub enum ClassfileVersion {
    Java1_5,
    Java1_6,
    Java1_7,
    Java1_8,
    Java1_9,
}

/// The constant pool of a generated class; constants are not recorded
/// yet.
pub struct ConstantPool {}

impl ConstantPool {
    /// An empty pool.
    pub fn new() -> (r: ConstantPool) {
        ConstantPool {  }
    }

    /// Takes a UTF-8 constant; it is not recorded yet.
    pub fn add_utf8_constant(&mut self, content: String) {
    }

    /// Takes a string constant; it is not recorded yet.
    pub fn add_string_constant(&mut self, content: String) {
    }
}

/// A class to generate: its class-file version and its constant pool.
pub struct Class {
    pub version: ClassfileVersion,
    pub constant_pool: ConstantPool,
}

impl Class {
    /// A class for Java 1.8 with an empty constant pool.
    pub fn new() -> (r: Class)
        ensures
            r.version == ClassfileVersion::Java1_8,
    {
        Class { version: ClassfileVersion::Java1_8, constant_pool: ConstantPool::new() }
    }

    /// Sets the class-file version.
    pub fn set_version(&mut self, new_version: ClassfileVersion)
        ensures
            final(self).version == new_version,
    {
        self.version = new_version;
    }

    /// The constant pool, to add constants to.
    pub fn constant_pool(&mut self) -> (r: &mut ConstantPool)
        ensures
            *r == old(self).constant_pool,
            final(self).version == old(self).version,
            final(self).constant_pool == *final(r),
    {
        &mut self.constant_pool
    }

    /// The version numbers of the class file for this class: major version
    /// 49 (Java 5) and minor version 0, whatever version was set. The
    /// version chosen with `set_version` is not carried into the class file;
    /// that is the behaviour kept here, not a mapping of versions.
    pub fn to_classfile(&self) -> (r: ClassfileVersionInfo)
        ensures
            r.major_version == 49,
            r.minor_version == 0,
    {
        ClassfileVersionInfo { major_version: 49, minor_version: 0 }
    }
}

/// The version numbers of a class file.
pub struct ClassfileVersionInfo {
    pub major_version: u16,
    pub minor_version: u16,
}

/// A method of a generated class; it carries nothing yet.
pub struct Method {}

impl Method {
    /// A method.
    pub fn new() -> (r: Method) {
        Method {  }
    }
}

} // verus!
