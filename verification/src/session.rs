//! Sessions, and how one session of a device is examined before it may be
//! registered.
//!
//! A [`SessionProbe`] is a conversation like the resolver's: each value names
//! what to ask the platform next about one session, and
//! [`SessionProbe::advance`] takes the answer. It ends in a [`SessionReport`].

use crate::failure::{spec_severity, Operation, Severity};
use crate::process_api::{ProcessInfo, ResolveError};
use vstd::prelude::*;

verus! {

/// A session of one process, with the handle that controls its volume.
#[derive(Debug)]
pub struct ApplicationSession<A> {
    pub name: String,
    pub volume_control: A,
}

/// A session of a whole device, with the handle that controls its volume.
#[derive(Debug)]
pub struct EndPointSession<B> {
    pub name: String,
    pub volume_control: B,
}

/// Something whose volume can be controlled under a name.
#[derive(Debug)]
pub enum Session<A, B> {
    Application(ApplicationSession<A>),
    Endpoint(EndPointSession<B>),
}

/// A session with its name as a sequence of characters.
#[allow(inconsistent_fields)]
pub enum SessionView<A, B> {
    Application { name: Seq<char>, volume_control: A },
    Endpoint { name: Seq<char>, volume_control: B },
}

impl<A, B> SessionView<A, B> {
    pub open spec fn name(self) -> Seq<char> {
        match self {
            SessionView::Application { name, .. } => name,
            SessionView::Endpoint { name, .. } => name,
        }
    }
}

impl<A> ApplicationSession<A> {
    pub fn new(audio_control: A, name: String) -> (session: Self)
        ensures
            session.name == name,
            session.volume_control == audio_control,
    {
        ApplicationSession { name, volume_control: audio_control }
    }
}

impl<B> EndPointSession<B> {
    pub fn new(audio_control: B, name: String) -> (session: Self)
        ensures
            session.name == name,
            session.volume_control == audio_control,
    {
        EndPointSession { name, volume_control: audio_control }
    }
}

impl<A, B> View for Session<A, B> {
    type V = SessionView<A, B>;

    open spec fn view(&self) -> SessionView<A, B> {
        match *self {
            Session::Application(session) => SessionView::Application {
                name: session.name@,
                volume_control: session.volume_control,
            },
            Session::Endpoint(session) => SessionView::Endpoint {
                name: session.name@,
                volume_control: session.volume_control,
            },
        }
    }
}

impl<A, B> Session<A, B> {
    /// The name under which the session is registered.
    #[allow(non_snake_case)]
    pub fn getName(&self) -> (name: String)
        ensures
            name@ == self@.name(),
    {
        match self {
            Session::Application(session) => session.name.clone(),
            Session::Endpoint(session) => session.name.clone(),
        }
    }

    /// The registered name, borrowed.
    pub fn name(&self) -> (name: &String)
        ensures
            name@ == self@.name(),
    {
        match self {
            Session::Application(session) => &session.name,
            Session::Endpoint(session) => &session.name,
        }
    }
}

/// What examining one session of a device found out.
#[derive(Debug)]
pub enum SessionReport<A> {
    /// The enumerator did not hand out the session's control.
    ControlUnavailable,
    /// The control does not offer the extended interface that tells the owner.
    ExtendedControlUnavailable,
    /// The owning process could not be read.
    ProcessIdUnavailable,
    /// The owning process is known and nothing else.
    Owned { process_id: u32 },
    /// The owning process could not be resolved to a name.
    Unresolved { process_id: u32, error: ResolveError },
    /// The owning process has a name; `volume_control` is the session's
    /// volume handle where the session offers one.
    Resolved { process_id: u32, info: ProcessInfo, volume_control: Option<A> },
}

/// What becomes of a reported session.
#[derive(Clone, Copy, Debug, PartialEq, Eq, Structural)]
pub enum Verdict {
    /// It enters the registry.
    Registered,
    /// It belongs to the platform itself (process id 0) and is passed over.
    System,
    /// Something about it could not be had; it is skipped.
    Failed,
}

impl<A> SessionReport<A> {
    /// The owning process, as far as the report tells it.
    pub open spec fn owner(self) -> Option<u32> {
        match self {
            SessionReport::Owned { process_id } => Some(process_id),
            SessionReport::Unresolved { process_id, .. } => Some(process_id),
            SessionReport::Resolved { process_id, .. } => Some(process_id),
            _ => None,
        }
    }

    /// Whether the session enters the registry: its owner is a process other
    /// than 0 that was resolved, and it offers a volume handle.
    pub open spec fn accepted(self) -> bool {
        self matches SessionReport::Resolved { process_id, volume_control: Some(_), .. }
            && process_id != 0
    }

    /// What becomes of the session.
    pub open spec fn spec_verdict(&self) -> Verdict {
        if self.owner() == Some(0u32) {
            Verdict::System
        } else if self.accepted() {
            Verdict::Registered
        } else {
            Verdict::Failed
        }
    }

    /// The operation whose failure keeps the session out, if one does: none
    /// for a session that is registered and none for one of process 0, which
    /// is passed over without any failure.
    pub open spec fn spec_failed_operation(&self) -> Option<Operation> {
        match *self {
            SessionReport::ControlUnavailable => Some(Operation::OpenSessionControl),
            SessionReport::ExtendedControlUnavailable => Some(Operation::ExtendSessionControl),
            SessionReport::ProcessIdUnavailable => Some(Operation::ReadProcessId),
            SessionReport::Owned { process_id } => if process_id == 0 {
                None
            } else {
                Some(Operation::ResolveProcess)
            },
            SessionReport::Unresolved { process_id, .. } => if process_id == 0 {
                None
            } else {
                Some(Operation::ResolveProcess)
            },
            SessionReport::Resolved { process_id, volume_control, .. } => if process_id == 0
                || volume_control is Some {
                None
            } else {
                Some(Operation::ObtainSessionVolume)
            },
        }
    }

    /// Tells the operation whose failure keeps the session out, if one does.
    #[verifier::when_used_as_spec(spec_failed_operation)]
    pub fn failed_operation(&self) -> (operation: Option<Operation>)
        ensures
            operation == self.spec_failed_operation(),
    {
        match self {
            SessionReport::ControlUnavailable => Some(Operation::OpenSessionControl),
            SessionReport::ExtendedControlUnavailable => Some(Operation::ExtendSessionControl),
            SessionReport::ProcessIdUnavailable => Some(Operation::ReadProcessId),
            SessionReport::Owned { process_id } => if *process_id == 0 {
                None
            } else {
                Some(Operation::ResolveProcess)
            },
            SessionReport::Unresolved { process_id, .. } => if *process_id == 0 {
                None
            } else {
                Some(Operation::ResolveProcess)
            },
            SessionReport::Resolved { process_id, volume_control, .. } => if *process_id == 0
                || volume_control.is_some() {
                None
            } else {
                Some(Operation::ObtainSessionVolume)
            },
        }
    }

    /// Tells what becomes of the session.
    #[verifier::when_used_as_spec(spec_verdict)]
    pub fn verdict(&self) -> (verdict: Verdict)
        ensures
            verdict == self.spec_verdict(),
    {
        match self {
            SessionReport::Owned { process_id } => if *process_id == 0 {
                Verdict::System
            } else {
                Verdict::Failed
            },
            SessionReport::Unresolved { process_id, .. } => if *process_id == 0 {
                Verdict::System
            } else {
                Verdict::Failed
            },
            SessionReport::Resolved { process_id, volume_control, .. } => if *process_id == 0 {
                Verdict::System
            } else if volume_control.is_some() {
                Verdict::Registered
            } else {
                Verdict::Failed
            },
            _ => Verdict::Failed,
        }
    }
}

/// What the platform answered to a request of a session probe.
#[derive(Debug)]
pub enum ProbeReply<A> {
    /// The request succeeded; there is nothing to hand back.
    Done,
    /// The request failed.
    Failed,
    /// The id of the owning process.
    ProcessId(u32),
    /// The resolver's result for the owning process.
    Process(ProcessInfo),
    /// The resolver's failure for the owning process.
    Unresolved(ResolveError),
    /// The session's volume handle.
    VolumeControl(A),
}

/// The state of examining one session, named after the request that is pending.
#[derive(Debug)]
pub enum SessionProbe<A> {
    /// Ask the session enumerator for the session's control.
    OpenControl,
    /// Ask the control for its extended interface.
    ExtendControl,
    /// Read the id of the owning process.
    ReadProcessId,
    /// Resolve the owning process to a name.
    ResolveProcess { process_id: u32 },
    /// Ask the control for the session's volume handle.
    ObtainVolume { process_id: u32, info: ProcessInfo },
    /// Nothing is left to ask.
    Finished { report: SessionReport<A> },
}

impl<A> SessionProbe<A> {
    /// The state that follows `self` on `reply`.
    pub open spec fn next(self, reply: ProbeReply<A>) -> SessionProbe<A> {
        match self {
            SessionProbe::OpenControl => match reply {
                ProbeReply::Done => SessionProbe::ExtendControl,
                _ => SessionProbe::Finished { report: SessionReport::ControlUnavailable },
            },
            SessionProbe::ExtendControl => match reply {
                ProbeReply::Done => SessionProbe::ReadProcessId,
                _ => SessionProbe::Finished { report: SessionReport::ExtendedControlUnavailable },
            },
            SessionProbe::ReadProcessId => match reply {
                ProbeReply::ProcessId(process_id) => if process_id == 0 {
                    SessionProbe::Finished { report: SessionReport::Owned { process_id } }
                } else {
                    SessionProbe::ResolveProcess { process_id }
                },
                _ => SessionProbe::Finished { report: SessionReport::ProcessIdUnavailable },
            },
            SessionProbe::ResolveProcess { process_id } => match reply {
                ProbeReply::Process(info) => SessionProbe::ObtainVolume { process_id, info },
                ProbeReply::Unresolved(error) => SessionProbe::Finished {
                    report: SessionReport::Unresolved { process_id, error },
                },
                _ => SessionProbe::Finished {
                    report: SessionReport::Unresolved {
                        process_id,
                        error: ResolveError::ProcessUnavailable,
                    },
                },
            },
            SessionProbe::ObtainVolume { process_id, info } => match reply {
                ProbeReply::VolumeControl(volume_control) => SessionProbe::Finished {
                    report: SessionReport::Resolved {
                        process_id,
                        info,
                        volume_control: Some(volume_control),
                    },
                },
                _ => SessionProbe::Finished {
                    report: SessionReport::Resolved { process_id, info, volume_control: None },
                },
            },
            SessionProbe::Finished { report } => SessionProbe::Finished { report },
        }
    }

    /// Where the probe holds an owner to ask about, it is not process 0; and
    /// where it has ended with a report that went that far, the owner in the
    /// report is not process 0.
    pub open spec fn spares_process_zero(self) -> bool {
        match self {
            SessionProbe::ResolveProcess { process_id } => process_id != 0,
            SessionProbe::ObtainVolume { process_id, .. } => process_id != 0,
            SessionProbe::Finished { report } => match report {
                SessionReport::Unresolved { process_id, .. } => process_id != 0,
                SessionReport::Resolved { process_id, .. } => process_id != 0,
                _ => true,
            },
            _ => true,
        }
    }

    /// An upper bound on the number of requests that are still to come,
    /// the pending one included.
    pub open spec fn pending(self) -> nat {
        match self {
            SessionProbe::OpenControl => 5,
            SessionProbe::ExtendControl => 4,
            SessionProbe::ReadProcessId => 3,
            SessionProbe::ResolveProcess { .. } => 2,
            SessionProbe::ObtainVolume { .. } => 1,
            SessionProbe::Finished { .. } => 0,
        }
    }

    /// Begins to examine a session.
    pub fn begin() -> (probe: Self)
        ensures
            probe == SessionProbe::<A>::OpenControl,
    {
        SessionProbe::OpenControl
    }

    /// Takes the platform's answer to the pending request and gives the probe
    /// in its next state. A finished probe stays as it is.
    pub fn advance(self, reply: ProbeReply<A>) -> (next: Self)
        ensures
            next == self.next(reply),
    {
        match self {
            SessionProbe::OpenControl => match reply {
                ProbeReply::Done => SessionProbe::ExtendControl,
                _ => SessionProbe::Finished { report: SessionReport::ControlUnavailable },
            },
            SessionProbe::ExtendControl => match reply {
                ProbeReply::Done => SessionProbe::ReadProcessId,
                _ => SessionProbe::Finished { report: SessionReport::ExtendedControlUnavailable },
            },
            SessionProbe::ReadProcessId => match reply {
                ProbeReply::ProcessId(process_id) => if process_id == 0 {
                    SessionProbe::Finished { report: SessionReport::Owned { process_id } }
                } else {
                    SessionProbe::ResolveProcess { process_id }
                },
                _ => SessionProbe::Finished { report: SessionReport::ProcessIdUnavailable },
            },
            SessionProbe::ResolveProcess { process_id } => match reply {
                ProbeReply::Process(info) => SessionProbe::ObtainVolume { process_id, info },
                ProbeReply::Unresolved(error) => SessionProbe::Finished {
                    report: SessionReport::Unresolved { process_id, error },
                },
                _ => SessionProbe::Finished {
                    report: SessionReport::Unresolved {
                        process_id,
                        error: ResolveError::ProcessUnavailable,
                    },
                },
            },
            SessionProbe::ObtainVolume { process_id, info } => match reply {
                ProbeReply::VolumeControl(volume_control) => SessionProbe::Finished {
                    report: SessionReport::Resolved {
                        process_id,
                        info,
                        volume_control: Some(volume_control),
                    },
                },
                _ => SessionProbe::Finished {
                    report: SessionReport::Resolved { process_id, info, volume_control: None },
                },
            },
            SessionProbe::Finished { report } => SessionProbe::Finished { report },
        }
    }
}

/// A session is skipped exactly when an operation on it failed, and such a
/// failure never ends the scan.
pub proof fn lemma_failed_sessions_are_skipped<A>(report: SessionReport<A>)
    ensures
        report.spec_failed_operation() is Some <==> report.spec_verdict() == Verdict::Failed,
        report.spec_failed_operation() matches Some(operation) ==> spec_severity(operation)
            == Severity::SessionSkipped,
{
}

/// Every answer brings a probe nearer to its end.
pub proof fn lemma_probe_progresses<A>(probe: SessionProbe<A>, reply: ProbeReply<A>)
    requires
        !(probe is Finished),
    ensures
        probe.next(reply).pending() < probe.pending(),
{
}

/// A session owned by process 0 is not examined further: the probe ends
/// with a report that the registry passes over, and no failure is told of it.
pub proof fn lemma_probe_ends_at_process_zero<A>(probe: SessionProbe<A>)
    requires
        probe is ReadProcessId,
    ensures
        probe.next(ProbeReply::ProcessId(0)) == (SessionProbe::<A>::Finished {
            report: SessionReport::Owned { process_id: 0 },
        }),
        (SessionReport::<A>::Owned { process_id: 0 }).spec_verdict() == Verdict::System,
        (SessionReport::<A>::Owned { process_id: 0 }).spec_failed_operation() is None,
{
}

/// A probe ends with an accepted report only when the last thing it asked
/// for, the volume handle, was given.
pub proof fn lemma_probe_accepts_last<A>(probe: SessionProbe<A>, reply: ProbeReply<A>)
    requires
        !(probe is Finished),
        probe.next(reply) matches SessionProbe::Finished { report } && report.accepted(),
    ensures
        probe is ObtainVolume,
        reply is VolumeControl,
{
}

/// A probe never puts process 0 forward for resolution or for a volume
/// handle: this holds when it begins, and every answer keeps it.
pub proof fn lemma_probe_spares_process_zero<A>(probe: SessionProbe<A>, reply: ProbeReply<A>)
    requires
        probe.spares_process_zero(),
    ensures
        SessionProbe::<A>::OpenControl.spares_process_zero(),
        probe.next(reply).spares_process_zero(),
{
}

} // verus!
