//! Memory the JVM hands to the agent.
use vstd::prelude::*;

verus! {

/// A block of JVM-allocated memory: its address and its length in bytes.
pub struct MemoryAllocation {
    pub ptr: u64,
    pub len: usize,
}

} // verus!
