//! A directory of volume-controllable audio sessions, addressed by unique names.
//!
//! The library holds the rules: which sessions enter the directory, under
//! which names, and in which order. It never calls the platform. Its callers
//! ask the platform what the probes and the resolver request, and hand the
//! answers in as plain values.

pub mod failure;
pub mod laws;
pub mod naming;
pub mod path;
pub mod process_api;
pub mod session;
pub mod text;

use crate::failure::Operation;
use crate::laws::{
    lemma_endpoints_keep_names_distinct, lemma_registered_keeps_names_distinct,
    lemma_scan_keeps_names_distinct,
};
use crate::naming::{
    candidate, distinct, lemma_occupied_run_bounded, lemma_rank_is, suffixed_name, unique_name,
};
use crate::session::{ApplicationSession, EndPointSession, Session, SessionReport, SessionView};
use crate::text::{chars_of, occurs, occurs_in};
use vstd::prelude::*;
use vstd::string::StringExecFns;

verus! {

/// The threading model of the platform connection.
#[derive(Clone, Copy, Debug, PartialEq, Eq, Structural)]
pub enum CoinitMode {
    MultiTreaded,
    ApartmentThreaded,
}

/// The sessions of a list, each with its name as a sequence of characters.
pub open spec fn views<A, B>(sessions: Seq<Session<A, B>>) -> Seq<SessionView<A, B>> {
    sessions.map_values(|session: Session<A, B>| session@)
}

/// The names of the sessions of a list, in its order.
pub open spec fn names_of<A, B>(sessions: Seq<SessionView<A, B>>) -> Seq<Seq<char>> {
    sessions.map_values(|session: SessionView<A, B>| session.name())
}

/// The list after one reported session: an accepted one is appended under
/// the unique name for its process name, any other leaves the list as it is.
pub open spec fn registered<A, B>(
    sessions: Seq<SessionView<A, B>>,
    report: SessionReport<A>,
) -> Seq<SessionView<A, B>> {
    match report {
        SessionReport::Resolved { process_id, info, volume_control: Some(volume_control) } => {
            if process_id != 0 {
                sessions.push(
                    SessionView::Application {
                        name: unique_name(names_of(sessions), info.process_name@),
                        volume_control,
                    },
                )
            } else {
                sessions
            }
        },
        _ => sessions,
    }
}

/// The list after a run of reported sessions, taken in their order.
pub open spec fn registered_all<A, B>(
    sessions: Seq<SessionView<A, B>>,
    reports: Seq<SessionReport<A>>,
) -> Seq<SessionView<A, B>>
    decreases reports.len(),
{
    if reports.len() == 0 {
        sessions
    } else {
        registered(registered_all(sessions, reports.drop_last()), reports.last())
    }
}

/// The reports of a scan in discovery order: device by device, and for each
/// device in the order of its session enumerator.
pub open spec fn discovered<A>(devices: Seq<Vec<SessionReport<A>>>) -> Seq<SessionReport<A>>
    decreases devices.len(),
{
    if devices.len() == 0 {
        Seq::empty()
    } else {
        discovered(devices.drop_last()) + devices.last()@
    }
}

/// Registering a run of reports is registering its first part, then the rest.
pub proof fn lemma_registered_all_concat<A, B>(
    sessions: Seq<SessionView<A, B>>,
    first: Seq<SessionReport<A>>,
    rest: Seq<SessionReport<A>>,
)
    ensures
        registered_all(sessions, first + rest) == registered_all(
            registered_all(sessions, first),
            rest,
        ),
    decreases rest.len(),
{
    if rest.len() == 0 {
        assert(first + rest =~= first);
    } else {
        lemma_registered_all_concat(sessions, first, rest.drop_last());
        assert((first + rest).drop_last() =~= first + rest.drop_last());
        assert((first + rest).last() == rest.last());
    }
}

/// What the platform told of a default device: the device, and the handle
/// of its volume where activating it succeeded.
#[derive(Debug)]
pub struct EndpointReport<D, B> {
    pub device: D,
    pub volume_control: Option<B>,
}

/// Why no endpoint session was added.
#[derive(Clone, Copy, Debug, PartialEq, Eq, Structural)]
pub enum EndpointError {
    /// No device enumerator is bound yet.
    EnumeratorUnbound,
    /// The default output device was resolved, but its volume could not be activated.
    OutputActivationFailed,
    /// The default input device was resolved, but its volume could not be activated.
    InputActivationFailed,
}

impl EndpointError {
    /// The operation that failed, where the error is the failure of one.
    pub open spec fn spec_failed_operation(&self) -> Option<Operation> {
        match *self {
            EndpointError::EnumeratorUnbound => None,
            _ => Some(Operation::ActivateEndpointVolume),
        }
    }

    /// Tells the operation that failed, where the error is the failure of one.
    #[verifier::when_used_as_spec(spec_failed_operation)]
    pub fn failed_operation(&self) -> (operation: Option<Operation>)
        ensures
            operation == self.spec_failed_operation(),
    {
        match self {
            EndpointError::EnumeratorUnbound => None,
            _ => Some(Operation::ActivateEndpointVolume),
        }
    }
}

/// How far a registry has come.
#[derive(Clone, Copy, Debug, PartialEq, Eq, Structural)]
pub enum ControllerStage {
    /// No device enumerator is bound and no session is registered.
    Uninitialized,
    /// A device enumerator is bound and no session is registered.
    DeviceBound,
    /// At least one session is registered.
    Populated,
}

/// The device of a default endpoint, where one was resolved.
pub open spec fn device_of<D, B>(report: Option<EndpointReport<D, B>>) -> Option<D> {
    match report {
        Some(report) => Some(report.device),
        None => None,
    }
}

/// A default device was resolved and its volume could not be activated.
pub open spec fn activation_failed<D, B>(report: Option<EndpointReport<D, B>>) -> bool {
    report matches Some(report) && report.volume_control is None
}

/// The failure of the endpoint resolution, if it fails: an unbound
/// enumerator comes first, then the output device, then the input device.
pub open spec fn endpoint_fault<D, B>(
    bound: bool,
    output: Option<EndpointReport<D, B>>,
    input: Option<EndpointReport<D, B>>,
) -> Option<EndpointError> {
    if !bound {
        Some(EndpointError::EnumeratorUnbound)
    } else if activation_failed(output) {
        Some(EndpointError::OutputActivationFailed)
    } else if activation_failed(input) {
        Some(EndpointError::InputActivationFailed)
    } else {
        None
    }
}

/// The list after the session of one default device: where the device was
/// resolved and its volume activated, a session of exactly the name `name`
/// is appended.
pub open spec fn with_endpoint<A, B, D>(
    sessions: Seq<SessionView<A, B>>,
    name: Seq<char>,
    report: Option<EndpointReport<D, B>>,
) -> Seq<SessionView<A, B>> {
    match report {
        Some(EndpointReport { device, volume_control: Some(volume_control) }) => sessions.push(
            SessionView::Endpoint { name, volume_control },
        ),
        _ => sessions,
    }
}

/// The list after the sessions of both default devices: `master` for the
/// output, then `mic` for the input.
pub open spec fn with_endpoints<A, B, D>(
    sessions: Seq<SessionView<A, B>>,
    output: Option<EndpointReport<D, B>>,
    input: Option<EndpointReport<D, B>>,
) -> Seq<SessionView<A, B>> {
    with_endpoint(with_endpoint(sessions, "master"@, output), "mic"@, input)
}

/// The test of a lookup by pattern: the session's name holds `pattern` as a
/// run of neighbouring characters.
pub open spec fn name_holds<A, B>(pattern: Seq<char>) -> spec_fn(Session<A, B>) -> bool {
    |session: Session<A, B>| occurs_in(pattern, session@.name())
}

/// The names of a list of strings.
pub open spec fn texts(names: Seq<String>) -> Seq<Seq<char>> {
    names.map_values(|name: String| name@)
}

/// The sessions behind a list of references.
pub open spec fn referents<A, B>(found: Seq<&Session<A, B>>) -> Seq<Session<A, B>> {
    found.map_values(|session: &Session<A, B>| *session)
}

/// The registry of sessions. `E` is the handle of the device enumerator, `D`
/// that of a device, `A` the volume handle of a process's session and `B`
/// that of a device.
pub struct AudioController<E, D, A, B> {
    default_device: Option<D>,
    default_input_device: Option<D>,
    imm_device_enumerator: Option<E>,
    sessions: Vec<Session<A, B>>,
    coinit_mode: CoinitMode,
}

impl<E, D, A, B> AudioController<E, D, A, B> {
    /// The registered sessions, in the order of their discovery.
    pub closed spec fn sessions(&self) -> Seq<Session<A, B>> {
        self.sessions@
    }

    /// The registered sessions with their names as sequences of characters.
    pub open spec fn session_views(&self) -> Seq<SessionView<A, B>> {
        views(self.sessions())
    }

    /// The names of the registered sessions, in registry order.
    pub open spec fn names(&self) -> Seq<Seq<char>> {
        names_of(self.session_views())
    }

    /// The device enumerator, once bound.
    pub closed spec fn enumerator(&self) -> Option<E> {
        self.imm_device_enumerator
    }

    /// The default output device, as last resolved.
    pub closed spec fn default_output(&self) -> Option<D> {
        self.default_device
    }

    /// The default input device, as last resolved.
    pub closed spec fn default_input(&self) -> Option<D> {
        self.default_input_device
    }

    /// The threading model chosen at construction.
    pub closed spec fn mode(&self) -> CoinitMode {
        self.coinit_mode
    }

    /// An empty registry for a platform connection in the given threading
    /// model, multi-threaded where none is given.
    pub fn init(coinit_mode: Option<CoinitMode>) -> (controller: Self)
        ensures
            controller.mode() == match coinit_mode {
                Some(mode) => mode,
                None => CoinitMode::MultiTreaded,
            },
            controller.sessions() == Seq::<Session<A, B>>::empty(),
            controller.enumerator() is None,
            controller.default_output() is None,
            controller.default_input() is None,
            distinct(controller.names()),
    {
        let coinit_mode = match coinit_mode {
            Some(mode) => mode,
            None => CoinitMode::MultiTreaded,
        };
        AudioController {
            default_device: None,
            default_input_device: None,
            imm_device_enumerator: None,
            sessions: Vec::new(),
            coinit_mode,
        }
    }

    /// Binds the device enumerator that the platform created.
    #[allow(non_snake_case)]
    pub fn GetSessions(&mut self, enumerator: E)
        ensures
            final(self).enumerator() == Some(enumerator),
            final(self).sessions() == old(self).sessions(),
            final(self).default_output() == old(self).default_output(),
            final(self).default_input() == old(self).default_input(),
            final(self).mode() == old(self).mode(),
    {
        self.imm_device_enumerator = Some(enumerator);
    }

    /// Whether a session is registered under `name`.
    pub fn has_name(&self, name: &String) -> (found: bool)
        ensures
            found == self.names().contains(name@),
    {
        let mut at: usize = 0;
        while at < self.sessions.len()
            invariant
                at <= self.sessions@.len(),
                forall|i: int| 0 <= i < at ==> self.names()[i] != name@,
            decreases self.sessions@.len() - at,
        {
            if *self.sessions[at].name() == *name {
                assert(self.names()[at as int] == name@);
                return true;
            }
            at += 1;
        }
        false
    }

    /// The name under which a session called `base` would be registered now:
    /// `base` itself if no session holds it, else `base(k)` for the least
    /// `k` from 2 on that no session holds.
    pub fn unique_name(&self, base: &String) -> (name: String)
        ensures
            name@ == unique_name(self.names(), base@),
    {
        let count = self.sessions.len();
        let mut counter: u128 = 1;
        let mut name = base.clone();
        while self.has_name(&name)
            invariant
                count == self.names().len(),
                1 <= counter <= count + 1,
                name@ == candidate(base@, counter as nat),
                forall|j: nat|
                    1 <= j < counter ==> self.names().contains(#[trigger] candidate(base@, j)),
            decreases count + 1 - counter,
        {
            proof {
                assert forall|j: nat| 1 <= j <= counter as nat implies self.names().contains(
                    #[trigger] candidate(base@, j),
                ) by {}
                lemma_occupied_run_bounded(self.names(), base@, counter as nat);
            }
            counter += 1;
            name = suffixed_name(base, counter);
        }
        proof {
            lemma_rank_is(self.names(), base@, counter as nat);
        }
        name
    }

    /// Takes one reported session into the registry, if it is an accepted one.
    pub fn register(&mut self, report: SessionReport<A>)
        ensures
            final(self).session_views() == registered(old(self).session_views(), report),
            distinct(old(self).names()) ==> distinct(final(self).names()),
            final(self).enumerator() == old(self).enumerator(),
            final(self).default_output() == old(self).default_output(),
            final(self).default_input() == old(self).default_input(),
            final(self).mode() == old(self).mode(),
    {
        proof {
            if distinct(self.names()) {
                lemma_registered_keeps_names_distinct(self.session_views(), report);
            }
        }
        match report {
            SessionReport::Resolved { process_id, info, volume_control: Some(volume_control) } => {
                if process_id != 0 {
                    let name = self.unique_name(&info.process_name);
                    let session = Session::Application(ApplicationSession::new(volume_control, name));
                    self.sessions.push(session);
                    assert(views(self.sessions@) =~= views(old(self).sessions@).push(session@));
                }
            },
            _ => {},
        }
    }

    /// Takes the sessions that a scan of the active render devices found into
    /// the registry. `devices` holds one list per device, in the order of the
    /// device enumeration; each list holds that device's sessions in the order
    /// of its session enumerator. Sessions that are not accepted are passed
    /// over and never keep a later one out.
    #[allow(non_snake_case)]
    pub fn GetAllProcessSessions(&mut self, devices: Vec<Vec<SessionReport<A>>>)
        ensures
            final(self).session_views() == registered_all(
                old(self).session_views(),
                discovered(devices@),
            ),
            distinct(old(self).names()) ==> distinct(final(self).names()),
            final(self).enumerator() == old(self).enumerator(),
            final(self).default_output() == old(self).default_output(),
            final(self).default_input() == old(self).default_input(),
            final(self).mode() == old(self).mode(),
    {
        let ghost before = self.session_views();
        for device in devices_left: devices.into_iter()
            invariant
                self.session_views() == registered_all(
                    before,
                    discovered(devices@.take(devices_left.index())),
                ),
                self.enumerator() == old(self).enumerator(),
                self.default_output() == old(self).default_output(),
                self.default_input() == old(self).default_input(),
                self.mode() == old(self).mode(),
        {
            let ghost at_device = self.session_views();
            let ghost seen = discovered(devices@.take(devices_left.index()));
            for report in reports_left: device.into_iter()
                invariant
                    self.session_views() == registered_all(
                        at_device,
                        device@.take(reports_left.index()),
                    ),
                    self.enumerator() == old(self).enumerator(),
                    self.default_output() == old(self).default_output(),
                    self.default_input() == old(self).default_input(),
                    self.mode() == old(self).mode(),
            {
                proof {
                    let grown = device@.take(reports_left.index() + 1);
                    assert(grown.drop_last() =~= device@.take(reports_left.index()));
                    assert(grown.last() == report);
                }
                self.register(report);
            }
            proof {
                assert(device@.take(device@.len() as int) =~= device@);
                let grown = devices@.take(devices_left.index() + 1);
                assert(grown.drop_last() =~= devices@.take(devices_left.index()));
                assert(grown.last() == device);
                lemma_registered_all_concat(before, seen, device@);
            }
        }
        proof {
            assert(devices@.take(devices@.len() as int) =~= devices@);
            if distinct(names_of(before)) {
                lemma_scan_keeps_names_distinct(before, discovered(devices@));
            }
        }
    }

    /// Forgets every registered session, those of the default devices
    /// included, and takes the sessions of a new scan in their place. After it
    /// no two sessions share a name.
    pub fn refresh(&mut self, devices: Vec<Vec<SessionReport<A>>>)
        ensures
            final(self).session_views() == registered_all(
                Seq::<SessionView<A, B>>::empty(),
                discovered(devices@),
            ),
            distinct(final(self).names()),
            final(self).enumerator() == old(self).enumerator(),
            final(self).default_output() == old(self).default_output(),
            final(self).default_input() == old(self).default_input(),
            final(self).mode() == old(self).mode(),
    {
        self.sessions.clear();
        assert(self.session_views() =~= Seq::<SessionView<A, B>>::empty());
        self.GetAllProcessSessions(devices);
    }

    /// Takes the default output and input devices into the registry, as the
    /// sessions `master` and `mic`. `output` and `input` are what the platform
    /// told of each: `None` where it resolved no default device.
    ///
    /// Without a bound enumerator this is an error and changes nothing. One
    /// default device that is missing does not keep the other out. A device
    /// that was resolved but whose volume could not be activated is an error
    /// and changes nothing. The two names are not made unique.
    #[allow(non_snake_case)]
    pub fn GetDefaultAudioEnpointVolumeControl(
        &mut self,
        output: Option<EndpointReport<D, B>>,
        input: Option<EndpointReport<D, B>>,
    ) -> (result: Result<(), EndpointError>)
        ensures
            final(self).enumerator() == old(self).enumerator(),
            final(self).mode() == old(self).mode(),
            match result {
                Ok(()) => {
                    &&& endpoint_fault(old(self).enumerator() is Some, output, input) is None
                    &&& final(self).session_views() == with_endpoints(
                        old(self).session_views(),
                        output,
                        input,
                    )
                    &&& final(self).default_output() == device_of(output)
                    &&& final(self).default_input() == device_of(input)
                    &&& distinct(old(self).names()) && !old(self).names().contains("master"@)
                        && !old(self).names().contains("mic"@) ==> distinct(final(self).names())
                },
                Err(error) => {
                    &&& endpoint_fault(old(self).enumerator() is Some, output, input) == Some(
                        error,
                    )
                    &&& final(self).sessions() == old(self).sessions()
                    &&& final(self).default_output() == old(self).default_output()
                    &&& final(self).default_input() == old(self).default_input()
                },
            },
    {
        if self.imm_device_enumerator.is_none() {
            return Err(EndpointError::EnumeratorUnbound);
        }
        let output_failed = match &output {
            Some(report) => report.volume_control.is_none(),
            None => false,
        };
        if output_failed {
            return Err(EndpointError::OutputActivationFailed);
        }
        let input_failed = match &input {
            Some(report) => report.volume_control.is_none(),
            None => false,
        };
        if input_failed {
            return Err(EndpointError::InputActivationFailed);
        }
        let ghost before = self.sessions@;
        proof {
            if distinct(self.names()) && !self.names().contains("master"@)
                && !self.names().contains("mic"@) {
                lemma_endpoints_keep_names_distinct(self.session_views(), output, input);
            }
        }
        match output {
            Some(EndpointReport { device, volume_control: Some(volume_control) }) => {
                self.default_device = Some(device);
                let session = Session::Endpoint(
                    EndPointSession::new(volume_control, String::from_str("master")),
                );
                self.sessions.push(session);
                assert(views(self.sessions@) =~= views(before).push(session@));
            },
            _ => {
                self.default_device = None;
            },
        }
        let ghost between = self.sessions@;
        match input {
            Some(EndpointReport { device, volume_control: Some(volume_control) }) => {
                self.default_input_device = Some(device);
                let session = Session::Endpoint(
                    EndPointSession::new(volume_control, String::from_str("mic")),
                );
                self.sessions.push(session);
                assert(views(self.sessions@) =~= views(between).push(session@));
            },
            _ => {
                self.default_input_device = None;
            },
        }
        Ok(())
    }

    /// The names of the registered sessions, in registry order.
    pub fn get_all_session_names(&self) -> (names: Vec<String>)
        ensures
            texts(names@) == self.names(),
    {
        let mut names: Vec<String> = Vec::new();
        let mut at: usize = 0;
        while at < self.sessions.len()
            invariant
                at <= self.sessions@.len(),
                names@.len() == at,
                forall|i: int| 0 <= i < at ==> names@[i]@ == self.names()[i],
            decreases self.sessions@.len() - at,
        {
            names.push(self.sessions[at].getName());
            at += 1;
        }
        assert(texts(names@) =~= self.names());
        names
    }

    /// The first session registered under exactly `name`, if there is one.
    pub fn get_session_by_name(&self, name: String) -> (found: Option<&Session<A, B>>)
        ensures
            match found {
                Some(session) => exists|at: int|
                    {
                        &&& 0 <= at < self.sessions().len()
                        &&& *session == #[trigger] self.sessions()[at]
                        &&& self.names()[at] == name@
                        &&& forall|before: int| 0 <= before < at ==> self.names()[before] != name@
                    },
                None => !self.names().contains(name@),
            },
    {
        let mut at: usize = 0;
        while at < self.sessions.len()
            invariant
                at <= self.sessions@.len(),
                forall|i: int| 0 <= i < at ==> self.names()[i] != name@,
            decreases self.sessions@.len() - at,
        {
            if *self.sessions[at].name() == name {
                assert(self.names()[at as int] == name@);
                return Some(&self.sessions[at]);
            }
            at += 1;
        }
        None
    }

    /// All sessions whose name holds `name` as a run of neighbouring
    /// characters, in registry order. The empty pattern finds every session.
    pub fn get_sessions_by_name(&self, name: String) -> (found: Vec<&Session<A, B>>)
        ensures
            referents(found@) == self.sessions().filter(name_holds(name@)),
    {
        let pattern = chars_of(name.as_str());
        let mut found: Vec<&Session<A, B>> = Vec::new();
        let mut at: usize = 0;
        proof {
            reveal(Seq::filter);
            assert(self.sessions@.take(0) =~= Seq::<Session<A, B>>::empty());
        }
        while at < self.sessions.len()
            invariant
                at <= self.sessions@.len(),
                pattern@ == name@,
                referents(found@) == self.sessions@.take(at as int).filter(name_holds(name@)),
            decreases self.sessions@.len() - at,
        {
            let session = &self.sessions[at];
            let letters = chars_of(session.name().as_str());
            proof {
                let seen = self.sessions@.take(at as int);
                assert(self.sessions@.take(at + 1) =~= seen.push(*session));
                seen.lemma_filter_push(*session, name_holds(name@));
            }
            if occurs(&pattern, &letters) {
                let ghost kept = found@;
                found.push(session);
                assert(referents(found@) =~= referents(kept).push(*session));
            }
            at += 1;
        }
        assert(self.sessions@.take(at as int) =~= self.sessions@);
        found
    }

    /// How far the registry has come.
    pub open spec fn spec_stage(&self) -> ControllerStage {
        if self.sessions().len() > 0 {
            ControllerStage::Populated
        } else if self.enumerator() is Some {
            ControllerStage::DeviceBound
        } else {
            ControllerStage::Uninitialized
        }
    }

    /// Tells how far the registry has come.
    #[verifier::when_used_as_spec(spec_stage)]
    pub fn stage(&self) -> (stage: ControllerStage)
        ensures
            stage == self.spec_stage(),
    {
        if self.sessions.len() > 0 {
            ControllerStage::Populated
        } else if self.imm_device_enumerator.is_some() {
            ControllerStage::DeviceBound
        } else {
            ControllerStage::Uninitialized
        }
    }

    /// The threading model chosen at construction.
    pub fn coinit_mode(&self) -> (mode: CoinitMode)
        ensures
            mode == self.mode(),
    {
        self.coinit_mode
    }

    /// The bound device enumerator.
    pub fn device_enumerator(&self) -> (enumerator: Option<&E>)
        ensures
            enumerator == match self.enumerator() {
                Some(handle) => Some(&handle),
                None => None,
            },
    {
        self.imm_device_enumerator.as_ref()
    }

    /// The default output device, as last resolved.
    pub fn default_device(&self) -> (device: Option<&D>)
        ensures
            device == match self.default_output() {
                Some(handle) => Some(&handle),
                None => None,
            },
    {
        self.default_device.as_ref()
    }

    /// The default input device, as last resolved.
    pub fn default_input_device(&self) -> (device: Option<&D>)
        ensures
            device == match self.default_input() {
                Some(handle) => Some(&handle),
                None => None,
            },
    {
        self.default_input_device.as_ref()
    }

    /// The number of registered sessions.
    pub fn session_count(&self) -> (count: usize)
        ensures
            count == self.sessions().len(),
    {
        self.sessions.len()
    }
}

} // verus!
