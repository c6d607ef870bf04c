//! Which failures of the platform end a scan, and which are lived with.

use vstd::prelude::*;

verus! {

/// What is asked of the platform.
#[derive(Clone, Copy, Debug, PartialEq, Eq, Structural)]
pub enum Operation {
    /// Initialise the connection to the platform.
    InitializeConnection,
    /// Create the device enumerator.
    CreateEnumerator,
    /// List the active render devices.
    EnumerateDevices,
    /// Count the listed devices.
    CountDevices,
    /// Take one device out of the list.
    OpenDevice,
    /// Activate a device's session manager.
    ActivateSessionManager,
    /// Get the session enumerator of a session manager.
    OpenSessionEnumerator,
    /// Count the sessions of a device.
    CountSessions,
    /// Get the control of one session.
    OpenSessionControl,
    /// Get the extended interface of a session's control.
    ExtendSessionControl,
    /// Read the id of the process that owns a session.
    ReadProcessId,
    /// Resolve the owning process to a name.
    ResolveProcess,
    /// Get the volume handle of a session.
    ObtainSessionVolume,
    /// Resolve a default device.
    ResolveDefaultDevice,
    /// Activate the volume of a default device that was resolved.
    ActivateEndpointVolume,
    /// Read the file description out of an executable's version resource.
    ReadFileDescription,
}

/// What a failure means for the work at hand.
#[derive(Clone, Copy, Debug, PartialEq, Eq, Structural)]
pub enum Severity {
    /// The platform cannot be used: the work ends.
    Fatal,
    /// The one session is passed over; the scan goes on.
    SessionSkipped,
    /// The one endpoint session is left out; the other is not affected.
    EndpointOmitted,
    /// No failure at all: the name falls back to the stem of the file name.
    NameFallback,
}

/// What the failure of `operation` means.
pub open spec fn spec_severity(operation: Operation) -> Severity {
    match operation {
        Operation::OpenSessionControl
        | Operation::ExtendSessionControl
        | Operation::ReadProcessId
        | Operation::ResolveProcess
        | Operation::ObtainSessionVolume => Severity::SessionSkipped,
        Operation::ResolveDefaultDevice => Severity::EndpointOmitted,
        Operation::ReadFileDescription => Severity::NameFallback,
        _ => Severity::Fatal,
    }
}

/// Tells what the failure of `operation` means.
#[verifier::when_used_as_spec(spec_severity)]
pub fn severity(operation: Operation) -> (severity: Severity)
    ensures
        severity == spec_severity(operation),
{
    match operation {
        Operation::OpenSessionControl
        | Operation::ExtendSessionControl
        | Operation::ReadProcessId
        | Operation::ResolveProcess
        | Operation::ObtainSessionVolume => Severity::SessionSkipped,
        Operation::ResolveDefaultDevice => Severity::EndpointOmitted,
        Operation::ReadFileDescription => Severity::NameFallback,
        _ => Severity::Fatal,
    }
}

} // verus!
