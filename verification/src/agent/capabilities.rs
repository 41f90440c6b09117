//! The optional JVM features an agent asks for: the events it needs the JVM
//! to be able to generate.
use vstd::prelude::*;

verus! {

/// The capabilities an agent holds or asks for; each is a feature the JVM
/// may or may not provide.
#[derive(Clone, Copy, PartialEq, Eq, Debug, Structural)]
pub struct Capabilities {
    pub can_generate_method_entry_events: bool,
    pub can_generate_method_exit_events: bool,
    pub can_generate_vm_object_alloc_events: bool,
    pub can_generate_object_free_events: bool,
    pub can_generate_exception_events: bool,
    pub can_generate_monitor_events: bool,
    pub can_generate_field_access_events: bool,
    pub can_generate_field_modification_events: bool,
    pub can_generate_garbage_collection_events: bool,
}

impl Capabilities {
    /// Whether no capability is set.
    pub open spec fn is_none(&self) -> bool {
        &&& !self.can_generate_method_entry_events
        &&& !self.can_generate_method_exit_events
        &&& !self.can_generate_vm_object_alloc_events
        &&& !self.can_generate_object_free_events
        &&& !self.can_generate_exception_events
        &&& !self.can_generate_monitor_events
        &&& !self.can_generate_field_access_events
        &&& !self.can_generate_field_modification_events
        &&& !self.can_generate_garbage_collection_events
    }

    /// The capabilities set in `a` or in `b`.
    pub open spec fn either(a: Capabilities, b: Capabilities) -> Capabilities {
        Capabilities {
            can_generate_method_entry_events: a.can_generate_method_entry_events || b.can_generate_method_entry_events,
            can_generate_method_exit_events: a.can_generate_method_exit_events || b.can_generate_method_exit_events,
            can_generate_vm_object_alloc_events: a.can_generate_vm_object_alloc_events || b.can_generate_vm_object_alloc_events,
            can_generate_object_free_events: a.can_generate_object_free_events || b.can_generate_object_free_events,
            can_generate_exception_events: a.can_generate_exception_events || b.can_generate_exception_events,
            can_generate_monitor_events: a.can_generate_monitor_events || b.can_generate_monitor_events,
            can_generate_field_access_events: a.can_generate_field_access_events || b.can_generate_field_access_events,
            can_generate_field_modification_events: a.can_generate_field_modification_events || b.can_generate_field_modification_events,
            can_generate_garbage_collection_events: a.can_generate_garbage_collection_events || b.can_generate_garbage_collection_events,
        }
    }

    /// The capabilities set in both `a` and `b`.
    pub open spec fn both(a: Capabilities, b: Capabilities) -> Capabilities {
        Capabilities {
            can_generate_method_entry_events: a.can_generate_method_entry_events && b.can_generate_method_entry_events,
            can_generate_method_exit_events: a.can_generate_method_exit_events && b.can_generate_method_exit_events,
            can_generate_vm_object_alloc_events: a.can_generate_vm_object_alloc_events && b.can_generate_vm_object_alloc_events,
            can_generate_object_free_events: a.can_generate_object_free_events && b.can_generate_object_free_events,
            can_generate_exception_events: a.can_generate_exception_events && b.can_generate_exception_events,
            can_generate_monitor_events: a.can_generate_monitor_events && b.can_generate_monitor_events,
            can_generate_field_access_events: a.can_generate_field_access_events && b.can_generate_field_access_events,
            can_generate_field_modification_events: a.can_generate_field_modification_events && b.can_generate_field_modification_events,
            can_generate_garbage_collection_events: a.can_generate_garbage_collection_events && b.can_generate_garbage_collection_events,
        }
    }

    /// No capability at all.
    pub fn new() -> (r: Capabilities)
        ensures
            r.is_none(),
    {
        Capabilities {
            can_generate_method_entry_events: false,
            can_generate_method_exit_events: false,
            can_generate_vm_object_alloc_events: false,
            can_generate_object_free_events: false,
            can_generate_exception_events: false,
            can_generate_monitor_events: false,
            can_generate_field_access_events: false,
            can_generate_field_modification_events: false,
            can_generate_garbage_collection_events: false,
        }
    }

    /// The capabilities set both here and in `other`.
    pub fn intersect(&self, other: &Capabilities) -> (r: Capabilities)
        ensures
            r == Capabilities::both(*self, *other),
    {
        Capabilities {
            can_generate_method_entry_events: self.can_generate_method_entry_events && other.can_generate_method_entry_events,
            can_generate_method_exit_events: self.can_generate_method_exit_events && other.can_generate_method_exit_events,
            can_generate_vm_object_alloc_events: self.can_generate_vm_object_alloc_events && other.can_generate_vm_object_alloc_events,
            can_generate_object_free_events: self.can_generate_object_free_events && other.can_generate_object_free_events,
            can_generate_exception_events: self.can_generate_exception_events && other.can_generate_exception_events,
            can_generate_monitor_events: self.can_generate_monitor_events && other.can_generate_monitor_events,
            can_generate_field_access_events: self.can_generate_field_access_events && other.can_generate_field_access_events,
            can_generate_field_modification_events: self.can_generate_field_modification_events && other.can_generate_field_modification_events,
            can_generate_garbage_collection_events: self.can_generate_garbage_collection_events && other.can_generate_garbage_collection_events,
        }
    }
}

} // verus!
