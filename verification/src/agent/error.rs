//! The errors that the JVM tool interface reports, by their native codes.
use vstd::prelude::*;

verus! {

/// A type-safe representation of the errors a JVMTI call can report.
#[derive(Clone, Copy, PartialEq, Eq, Debug, Structural)]
pub enum NativeError {
    NoError,
    NotAvailable,
    MustPossessCapability,
    NullPointer,
    OutOfMemory,
    NotEnabled,
    WrongPhase,
    UnexpectedInternalError,
    ThreadNotAttached,
    Disconnected,
    NotImplemented,
    UnknownError,
}

/// The native code of each error.
pub open spec fn native_code(e: NativeError) -> u32 {
    match e {
        NativeError::NoError => 0,
        NativeError::NotAvailable => 98,
        NativeError::MustPossessCapability => 99,
        NativeError::NullPointer => 100,
        NativeError::OutOfMemory => 110,
        NativeError::NotEnabled => 111,
        NativeError::WrongPhase => 112,
        NativeError::UnexpectedInternalError => 113,
        NativeError::ThreadNotAttached => 115,
        NativeError::Disconnected => 116,
        NativeError::NotImplemented => 999999,
        NativeError::UnknownError => 1000000,
    }
}

/// The error that a native code stands for: codes that name no error are
/// `UnknownError`.
pub open spec fn error_of_code(code: u32) -> NativeError {
    if code == 0 {
        NativeError::NoError
    } else if code == 98 {
        NativeError::NotAvailable
    } else if code == 99 {
        NativeError::MustPossessCapability
    } else if code == 100 {
        NativeError::NullPointer
    } else if code == 110 {
        NativeError::OutOfMemory
    } else if code == 111 {
        NativeError::NotEnabled
    } else if code == 112 {
        NativeError::WrongPhase
    } else if code == 113 {
        NativeError::UnexpectedInternalError
    } else if code == 115 {
        NativeError::ThreadNotAttached
    } else if code == 116 {
        NativeError::Disconnected
    } else if code == 999999 {
        NativeError::NotImplemented
    } else {
        NativeError::UnknownError
    }
}

impl NativeError {
    /// The native code of this error.
    pub fn code(&self) -> (r: u32)
        ensures
            r == native_code(*self),
    {
        match self {
            NativeError::NoError => 0,
            NativeError::NotAvailable => 98,
            NativeError::MustPossessCapability => 99,
            NativeError::NullPointer => 100,
            NativeError::OutOfMemory => 110,
            NativeError::NotEnabled => 111,
            NativeError::WrongPhase => 112,
            NativeError::UnexpectedInternalError => 113,
            NativeError::ThreadNotAttached => 115,
            NativeError::Disconnected => 116,
            NativeError::NotImplemented => 999999,
            NativeError::UnknownError => 1000000,
        }
    }
}

/// Turns a native error code into a type-safe error.
pub fn wrap_error(code: u32) -> (r: NativeError)
    ensures
        r == error_of_code(code),
{
    match code {
        0 => NativeError::NoError,
        98 => NativeError::NotAvailable,
        99 => NativeError::MustPossessCapability,
        100 => NativeError::NullPointer,
        110 => NativeError::OutOfMemory,
        111 => NativeError::NotEnabled,
        112 => NativeError::WrongPhase,
        113 => NativeError::UnexpectedInternalError,
        115 => NativeError::ThreadNotAttached,
        116 => NativeError::Disconnected,
        999999 => NativeError::NotImplemented,
        _ => NativeError::UnknownError,
    }
}

/// Every error survives the trip through its native code.
pub proof fn lemma_error_code_roundtrip(e: NativeError)
    ensures
        error_of_code(native_code(e)) == e,
{
}

/// The user-readable text of each error.
pub open spec fn error_text(e: NativeError) -> Seq<char> {
    match e {
        NativeError::NoError => "No error has occurred."@,
        NativeError::NotAvailable => "The functionality is not available in this virtual machine."@,
        NativeError::MustPossessCapability => "The capability being used is false in this environment."@,
        NativeError::NullPointer => "Pointer is unexpectedly NULL."@,
        NativeError::OutOfMemory => "The function attempted to allocate memory and no more memory was available for allocation."@,
        NativeError::NotEnabled => "The desired functionality has not been enabled in this virtual machine."@,
        NativeError::WrongPhase => "The desired functionality is not available in the current phase. Always returned if the virtual machine has completed running."@,
        NativeError::UnexpectedInternalError => "An unexpected internal error has occurred."@,
        NativeError::ThreadNotAttached => "The thread being used to call this function is not attached to the virtual machine. Calls must be made from attached threads."@,
        NativeError::Disconnected => "The JVM TI environment provided is no longer connected or is not an environment."@,
        NativeError::NotImplemented => "This function is not implemented yet"@,
        NativeError::UnknownError => "Unknown error."@,
    }
}

/// Turns an error into a meaningful, user-readable string.
pub fn translate_error(code: &NativeError) -> (r: String)
    ensures
        r@ == error_text(*code),
{
    let text: &str = match code {
        NativeError::NoError => "No error has occurred.",
        NativeError::NotAvailable => "The functionality is not available in this virtual machine.",
        NativeError::MustPossessCapability => "The capability being used is false in this environment.",
        NativeError::NullPointer => "Pointer is unexpectedly NULL.",
        NativeError::OutOfMemory => "The function attempted to allocate memory and no more memory was available for allocation.",
        NativeError::NotEnabled => "The desired functionality has not been enabled in this virtual machine.",
        NativeError::WrongPhase => "The desired functionality is not available in the current phase. Always returned if the virtual machine has completed running.",
        NativeError::UnexpectedInternalError => "An unexpected internal error has occurred.",
        NativeError::ThreadNotAttached => "The thread being used to call this function is not attached to the virtual machine. Calls must be made from attached threads.",
        NativeError::Disconnected => "The JVM TI environment provided is no longer connected or is not an environment.",
        NativeError::NotImplemented => "This function is not implemented yet",
        NativeError::UnknownError => "Unknown error.",
    };
    text.to_owned()
}

} // verus!
