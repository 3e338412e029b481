//! The registry of devices: which there are, what state each is in, and which session each
//! forwarded one belongs to.

use vstd::prelude::*;

use crate::engine::id_map::{Id, IdMap};
use crate::port::types::UsbDevice;

verus! {

/// How many commands may wait for the registry.
pub const DEFAULT_CHANNEL_CAPACITY: usize = 64;

/// The name of a session.
#[derive(Debug, Eq, PartialOrd, Ord, Hash)]
pub struct SessionId(pub String);

/// The name of a device: where it sits on its bus.
#[derive(Debug, Eq, PartialOrd, Ord, Hash)]
pub struct BusId(pub String);

impl PartialEq for SessionId {
    fn eq(&self, other: &Self) -> (equal: bool) {
        self.0 == other.0
    }
}

impl vstd::std_specs::cmp::PartialEqSpecImpl for SessionId {
    open spec fn obeys_eq_spec() -> bool {
        true
    }

    open spec fn eq_spec(&self, other: &Self) -> bool {
        self.0@ == other.0@
    }
}

impl PartialEq for BusId {
    fn eq(&self, other: &Self) -> (equal: bool) {
        self.0 == other.0
    }
}

impl vstd::std_specs::cmp::PartialEqSpecImpl for BusId {
    open spec fn obeys_eq_spec() -> bool {
        true
    }

    open spec fn eq_spec(&self, other: &Self) -> bool {
        self.0@ == other.0@
    }
}

impl Clone for SessionId {
    fn clone(&self) -> (copy: Self)
        ensures
            copy == *self,
    {
        SessionId(self.0.clone())
    }
}

impl Clone for BusId {
    fn clone(&self) -> (copy: Self)
        ensures
            copy == *self,
    {
        BusId(self.0.clone())
    }
}

impl Id for SessionId {
    open spec fn text(&self) -> Seq<char> {
        self.0@
    }

    fn same_as(&self, other: &Self) -> (same: bool) {
        self.0 == other.0
    }

    fn copy(&self) -> (copy: Self) {
        SessionId(self.0.clone())
    }
}

impl Id for BusId {
    open spec fn text(&self) -> Seq<char> {
        self.0@
    }

    fn same_as(&self, other: &Self) -> (same: bool) {
        self.0 == other.0
    }

    fn copy(&self) -> (copy: Self) {
        BusId(self.0.clone())
    }
}

impl SessionId {
    /// The name as text.
    pub fn to_string(&self) -> (text: String)
        ensures
            text@ == self.0@,
    {
        self.0.clone()
    }
}

impl BusId {
    /// The name as text.
    pub fn to_string(&self) -> (text: String)
        ensures
            text@ == self.0@,
    {
        self.0.clone()
    }
}

impl vstd::std_specs::convert::FromSpecImpl<String> for SessionId {
    open spec fn obeys_from_spec() -> bool {
        true
    }

    open spec fn from_spec(text: String) -> Self {
        SessionId(text)
    }
}

impl From<String> for SessionId {
    fn from(text: String) -> (id: Self) {
        SessionId(text)
    }
}

impl vstd::std_specs::convert::FromSpecImpl<String> for BusId {
    open spec fn obeys_from_spec() -> bool {
        true
    }

    open spec fn from_spec(text: String) -> Self {
        BusId(text)
    }
}

impl From<String> for BusId {
    fn from(text: String) -> (id: Self) {
        BusId(text)
    }
}

impl vstd::std_specs::convert::FromSpecImpl<&str> for SessionId {
    open spec fn obeys_from_spec() -> bool {
        false
    }

    open spec fn from_spec(text: &str) -> Self {
        arbitrary()
    }
}

impl From<&str> for SessionId {
    fn from(text: &str) -> (id: Self)
        ensures
            id.0@ == text@,
    {
        SessionId(text.to_string())
    }
}

impl vstd::std_specs::convert::FromSpecImpl<&str> for BusId {
    open spec fn obeys_from_spec() -> bool {
        false
    }

    open spec fn from_spec(text: &str) -> Self {
        arbitrary()
    }
}

impl From<&str> for BusId {
    fn from(text: &str) -> (id: Self)
        ensures
            id.0@ == text@,
    {
        BusId(text.to_string())
    }
}

/// What is being done with a device.
#[derive(Debug, PartialEq, Eq)]
pub enum DeviceState {
    Idle,
    Bound,
    Forwarded(SessionId),
    Disconnected,
}

/// A [`DeviceState`], with the name of the session as a sequence of characters.
pub enum DeviceStateView {
    Idle,
    Bound,
    Forwarded(Seq<char>),
    Disconnected,
}

impl View for DeviceState {
    type V = DeviceStateView;

    open spec fn view(&self) -> DeviceStateView {
        match *self {
            DeviceState::Idle => DeviceStateView::Idle,
            DeviceState::Bound => DeviceStateView::Bound,
            DeviceState::Forwarded(session) => DeviceStateView::Forwarded(session.0@),
            DeviceState::Disconnected => DeviceStateView::Disconnected,
        }
    }
}

impl Clone for DeviceState {
    fn clone(&self) -> (copy: Self)
        ensures
            copy == *self,
    {
        match self {
            DeviceState::Idle => DeviceState::Idle,
            DeviceState::Bound => DeviceState::Bound,
            DeviceState::Forwarded(session) => DeviceState::Forwarded(session.clone()),
            DeviceState::Disconnected => DeviceState::Disconnected,
        }
    }
}

/// What the registry knows of a device.
#[derive(Debug)]
pub struct DeviceEntry {
    pub device: UsbDevice,
    pub state: DeviceState,
}

/// A [`DeviceEntry`], with the view of its state.
pub struct DeviceEntryView {
    pub device: UsbDevice,
    pub state: DeviceStateView,
}

impl View for DeviceEntry {
    type V = DeviceEntryView;

    open spec fn view(&self) -> DeviceEntryView {
        DeviceEntryView { device: self.device, state: self.state@ }
    }
}

impl Clone for DeviceEntry {
    fn clone(&self) -> (copy: Self)
        ensures
            copy == *self,
    {
        DeviceEntry { device: self.device.clone(), state: self.state.clone() }
    }
}

/// All that the registry knows: the devices by their names, and the devices that each session
/// forwards.
#[derive(Debug)]
pub struct RegistrySnapshot {
    pub devices: IdMap<BusId, DeviceEntry>,
    pub forwardings: IdMap<SessionId, Vec<BusId>>,
}

/// The names of devices.
pub open spec fn bus_names(buses: Seq<BusId>) -> Seq<Seq<char>> {
    buses.map_values(|bus: BusId| bus.0@)
}

/// A [`RegistrySnapshot`] as maps of names.
#[verifier::ext_equal]
pub struct RegistryView {
    pub devices: Map<Seq<char>, DeviceEntryView>,
    pub forwardings: Map<Seq<char>, Seq<Seq<char>>>,
}

impl View for RegistrySnapshot {
    type V = RegistryView;

    open spec fn view(&self) -> RegistryView {
        RegistryView {
            devices: self.devices@.map_values(|entry: DeviceEntry| entry@),
            forwardings: self.forwardings@.map_values(|buses: Vec<BusId>| bus_names(buses@)),
        }
    }
}

/// The registry before any command.
pub open spec fn empty_registry() -> RegistryView {
    RegistryView { devices: Map::empty(), forwardings: Map::empty() }
}

impl Default for RegistrySnapshot {
    fn default() -> (snapshot: Self)
        ensures
            snapshot@ == empty_registry(),
    {
        let snapshot = RegistrySnapshot { devices: IdMap::new(), forwardings: IdMap::new() };
        assert(snapshot@ =~= empty_registry());
        snapshot
    }
}

impl Clone for RegistrySnapshot {
    fn clone(&self) -> (copy: Self)
        ensures
            copy@ == self@,
    {
        let copy = RegistrySnapshot {
            devices: self.devices.clone(),
            forwardings: self.forwardings.clone(),
        };
        proof {
            assert forall|text: Seq<char>| #[trigger]
                copy.forwardings@.contains_key(text) implies bus_names(copy.forwardings@[text]@)
                == bus_names(self.forwardings@[text]@) by {
                let before = self.forwardings@[text];
                let after = copy.forwardings@[text];
                assert(cloned::<Vec<BusId>>(before, after));
                assert(bus_names(after@) =~= bus_names(before@));
            }
            assert(copy@.devices =~= self@.devices);
            assert(copy@.forwardings =~= self@.forwardings);
        }
        copy
    }
}

/// What the registry is told.
#[derive(Debug)]
pub enum RegistryCommand {
    AddDevice(UsbDevice),
    RemoveDevice(BusId),
    TransitionState(BusId, DeviceState),
}

/// A [`RegistryCommand`], with names as sequences of characters.
pub enum RegistryCommandView {
    AddDevice(UsbDevice),
    RemoveDevice(Seq<char>),
    TransitionState(Seq<char>, DeviceStateView),
}

impl View for RegistryCommand {
    type V = RegistryCommandView;

    open spec fn view(&self) -> RegistryCommandView {
        match *self {
            RegistryCommand::AddDevice(device) => RegistryCommandView::AddDevice(device),
            RegistryCommand::RemoveDevice(bus) => RegistryCommandView::RemoveDevice(bus.0@),
            RegistryCommand::TransitionState(bus, state) => {
                RegistryCommandView::TransitionState(bus.0@, state@)
            },
        }
    }
}

impl Clone for RegistryCommand {
    fn clone(&self) -> (copy: Self)
        ensures
            copy == *self,
    {
        match self {
            RegistryCommand::AddDevice(device) => RegistryCommand::AddDevice(device.clone()),
            RegistryCommand::RemoveDevice(bus) => RegistryCommand::RemoveDevice(bus.clone()),
            RegistryCommand::TransitionState(bus, state) => {
                RegistryCommand::TransitionState(bus.clone(), state.clone())
            },
        }
    }
}

/// Why a command could not be handed to the registry.
#[derive(Debug, Clone, PartialEq)]
pub enum RegistryError {
    ChannelClosed,
}

impl RegistryError {
    /// The message that is shown for the error.
    pub fn to_string(&self) -> (message: String)
        ensures
            message@ == "channel closed"@,
    {
        match self {
            RegistryError::ChannelClosed => "channel closed".to_string(),
        }
    }
}

/// The changes of state that are allowed.
pub open spec fn valid_transition(from: DeviceStateView, to: DeviceStateView) -> bool {
    match from {
        DeviceStateView::Idle => to is Bound || to is Disconnected,
        DeviceStateView::Bound => to is Forwarded || to is Disconnected,
        DeviceStateView::Forwarded(_) => to is Idle || to is Disconnected,
        DeviceStateView::Disconnected => false,
    }
}

/// Whether a device may go from one state to the other.
pub fn is_valid_transition(from: &DeviceState, to: &DeviceState) -> (valid: bool)
    ensures
        valid == valid_transition(from@, to@),
{
    match (from, to) {
        (DeviceState::Idle, DeviceState::Bound) => true,
        (DeviceState::Idle, DeviceState::Disconnected) => true,
        (DeviceState::Bound, DeviceState::Forwarded(_)) => true,
        (DeviceState::Bound, DeviceState::Disconnected) => true,
        (DeviceState::Forwarded(_), DeviceState::Idle) => true,
        (DeviceState::Forwarded(_), DeviceState::Disconnected) => true,
        _ => false,
    }
}

/// The names in a list but one.
pub open spec fn all_but(list: Seq<Seq<char>>, bus: Seq<char>) -> Seq<Seq<char>> {
    list.filter(|other: Seq<char>| other != bus)
}

/// The forwardings after `bus` left `session`. A session that forwards nothing any more is left
/// out.
pub open spec fn without_forwarding(
    forwardings: Map<Seq<char>, Seq<Seq<char>>>,
    session: Seq<char>,
    bus: Seq<char>,
) -> Map<Seq<char>, Seq<Seq<char>>> {
    if forwardings.contains_key(session) {
        let rest = all_but(forwardings[session], bus);
        if rest.len() == 0 {
            forwardings.remove(session)
        } else {
            forwardings.insert(session, rest)
        }
    } else {
        forwardings
    }
}

/// The forwardings after `session` took on `bus`.
pub open spec fn with_forwarding(
    forwardings: Map<Seq<char>, Seq<Seq<char>>>,
    session: Seq<char>,
    bus: Seq<char>,
) -> Map<Seq<char>, Seq<Seq<char>>> {
    if !forwardings.contains_key(session) {
        forwardings.insert(session, seq![bus])
    } else if forwardings[session].contains(bus) {
        forwardings
    } else {
        forwardings.insert(session, forwardings[session].push(bus))
    }
}

/// The forwardings after `bus` left the state `state`.
pub open spec fn after_leaving(
    forwardings: Map<Seq<char>, Seq<Seq<char>>>,
    state: DeviceStateView,
    bus: Seq<char>,
) -> Map<Seq<char>, Seq<Seq<char>>> {
    match state {
        DeviceStateView::Forwarded(session) => without_forwarding(forwardings, session, bus),
        _ => forwardings,
    }
}

/// The forwardings after `bus` entered the state `state`.
pub open spec fn after_entering(
    forwardings: Map<Seq<char>, Seq<Seq<char>>>,
    state: DeviceStateView,
    bus: Seq<char>,
) -> Map<Seq<char>, Seq<Seq<char>>> {
    match state {
        DeviceStateView::Forwarded(session) => with_forwarding(forwardings, session, bus),
        _ => forwardings,
    }
}

/// The registry after a command. A device is added unless it is there already and not
/// disconnected; commands for unknown devices and changes of state that are not allowed change
/// nothing.
pub open spec fn after_command(registry: RegistryView, cmd: RegistryCommandView) -> RegistryView {
    match cmd {
        RegistryCommandView::AddDevice(device) => {
            let bus = device.busid@;
            if registry.devices.contains_key(bus) && registry.devices[bus].state
                !is Disconnected {
                registry
            } else {
                RegistryView {
                    devices: registry.devices.insert(
                        bus,
                        DeviceEntryView { device, state: DeviceStateView::Idle },
                    ),
                    ..registry
                }
            }
        },
        RegistryCommandView::RemoveDevice(bus) => {
            if registry.devices.contains_key(bus) {
                RegistryView {
                    devices: registry.devices.remove(bus),
                    forwardings: after_leaving(
                        registry.forwardings,
                        registry.devices[bus].state,
                        bus,
                    ),
                }
            } else {
                registry
            }
        },
        RegistryCommandView::TransitionState(bus, state) => {
            if registry.devices.contains_key(bus) && valid_transition(
                registry.devices[bus].state,
                state,
            ) {
                RegistryView {
                    devices: registry.devices.insert(
                        bus,
                        DeviceEntryView { state, ..registry.devices[bus] },
                    ),
                    forwardings: after_entering(
                        after_leaving(registry.forwardings, registry.devices[bus].state, bus),
                        state,
                        bus,
                    ),
                }
            } else {
                registry
            }
        },
    }
}

/// The views of the values of a map, after one was set.
proof fn lemma_devices_insert(
    devices: Map<Seq<char>, DeviceEntry>,
    bus: Seq<char>,
    entry: DeviceEntry,
)
    ensures
        devices.insert(bus, entry).map_values(|e: DeviceEntry| e@) == devices.map_values(
            |e: DeviceEntry| e@,
        ).insert(bus, entry@),
{
    assert(devices.insert(bus, entry).map_values(|e: DeviceEntry| e@) =~= devices.map_values(
        |e: DeviceEntry| e@,
    ).insert(bus, entry@));
}

/// The devices but one.
fn without_bus(buses: &Vec<BusId>, bus: &BusId) -> (rest: Vec<BusId>)
    ensures
        bus_names(rest@) == all_but(bus_names(buses@), bus.0@),
{
    let ghost names = bus_names(buses@);
    let mut rest: Vec<BusId> = Vec::new();
    let mut i: usize = 0;
    proof {
        reveal(Seq::filter);
        assert(all_but(names.take(0), bus.0@) =~= Seq::empty());
        assert(bus_names(rest@) =~= Seq::empty());
    }
    while i < buses.len()
        invariant
            i <= buses@.len(),
            names == bus_names(buses@),
            bus_names(rest@) == all_but(names.take(i as int), bus.0@),
        decreases buses@.len() - i,
    {
        proof {
            reveal(Seq::filter);
            assert(names.take(i + 1).drop_last() =~= names.take(i as int));
            assert(names.take(i + 1).last() == buses@[i as int].0@);
        }
        if buses[i].0 != bus.0 {
            let ghost before = rest@;
            rest.push(buses[i].clone());
            assert(bus_names(rest@) =~= bus_names(before).push(buses@[i as int].0@));
        }
        i = i + 1;
    }
    assert(names.take(names.len() as int) =~= names);
    rest
}

/// Takes `bus` off the devices that `session` forwards.
fn stop_forwarding(forwardings: &mut IdMap<SessionId, Vec<BusId>>, session: &SessionId, bus: &BusId)
    ensures
        final(forwardings)@.map_values(|b: Vec<BusId>| bus_names(b@)) == without_forwarding(
            old(forwardings)@.map_values(|b: Vec<BusId>| bus_names(b@)),
            session.0@,
            bus.0@,
        ),
{
    let ghost names = |b: Vec<BusId>| bus_names(b@);
    let ghost before = forwardings@;
    match forwardings.remove(session) {
        Some(buses) => {
            let rest = without_bus(&buses, bus);
            assert(bus_names(rest@).len() == rest@.len());
            if rest.len() > 0 {
                forwardings.insert(session.clone(), rest);
            }
            proof {
                if rest@.len() > 0 {
                    assert(forwardings@.map_values(names) =~= before.map_values(names).insert(
                        session.0@,
                        bus_names(rest@),
                    ));
                } else {
                    assert(forwardings@.map_values(names) =~= before.map_values(names).remove(
                        session.0@,
                    ));
                }
            }
        },
        None => {
            assert(forwardings@.map_values(names) =~= before.map_values(names));
        },
    }
}

/// Whether `bus` is among `buses`.
fn contains_bus(buses: &Vec<BusId>, bus: &BusId) -> (found: bool)
    ensures
        found == bus_names(buses@).contains(bus.0@),
{
    let mut i: usize = 0;
    while i < buses.len()
        invariant
            i <= buses@.len(),
            forall|j: int| 0 <= j < i ==> (#[trigger] buses@[j]).0@ != bus.0@,
        decreases buses@.len() - i,
    {
        if buses[i].0 == bus.0 {
            assert(bus_names(buses@)[i as int] == bus.0@);
            return true;
        }
        i = i + 1;
    }
    proof {
        assert forall|j: int| 0 <= j < bus_names(buses@).len() implies bus_names(buses@)[j]
            != bus.0@ by {
            assert(buses@[j].0@ != bus.0@);
        }
    }
    false
}

/// Adds `bus` to the devices that `session` forwards.
fn start_forwarding(
    forwardings: &mut IdMap<SessionId, Vec<BusId>>,
    session: &SessionId,
    bus: &BusId,
)
    ensures
        final(forwardings)@.map_values(|b: Vec<BusId>| bus_names(b@)) == with_forwarding(
            old(forwardings)@.map_values(|b: Vec<BusId>| bus_names(b@)),
            session.0@,
            bus.0@,
        ),
{
    let ghost names = |b: Vec<BusId>| bus_names(b@);
    let ghost before = forwardings@;
    let mut buses: Vec<BusId> = match forwardings.remove(session) {
        Some(buses) => buses,
        None => Vec::new(),
    };
    let ghost listed = buses@;
    assert(!before.contains_key(session.0@) ==> bus_names(listed) =~= Seq::empty());
    if !contains_bus(&buses, bus) {
        buses.push(bus.clone());
        assert(bus_names(buses@) =~= bus_names(listed).push(bus.0@));
        assert(!before.contains_key(session.0@) ==> bus_names(buses@) =~= seq![bus.0@]);
    }
    forwardings.insert(session.clone(), buses);
    assert(forwardings@.map_values(names) =~= with_forwarding(
        before.map_values(names),
        session.0@,
        bus.0@,
    ));
}

/// Carries out a command.
pub fn handle_command(cmd: RegistryCommand, state: &mut RegistrySnapshot)
    ensures
        final(state)@ == after_command(old(state)@, cmd@),
{
    let ghost before = *state;
    match cmd {
        RegistryCommand::AddDevice(device) => {
            let bus = BusId(device.busid.clone());
            let occupied = match state.devices.get(&bus) {
                Some(entry) => match entry.state {
                    DeviceState::Disconnected => false,
                    _ => true,
                },
                None => false,
            };
            if !occupied {
                let entry = DeviceEntry { device, state: DeviceState::Idle };
                proof {
                    lemma_devices_insert(before.devices@, bus.0@, entry);
                }
                state.devices.insert(bus, entry);
            }
        },
        RegistryCommand::RemoveDevice(bus) => match state.devices.remove(&bus) {
            Some(entry) => {
                assert(state@.devices =~= before@.devices.remove(bus.0@));
                if let DeviceState::Forwarded(session) = &entry.state {
                    stop_forwarding(&mut state.forwardings, session, &bus);
                }
            },
            None => {
                assert(state@.devices =~= before@.devices);
            },
        },
        RegistryCommand::TransitionState(bus, new_state) => {
            let entry = match state.devices.get(&bus) {
                Some(entry) => entry.clone(),
                None => return,
            };
            if !is_valid_transition(&entry.state, &new_state) {
                return;
            }
            if let DeviceState::Forwarded(session) = &entry.state {
                stop_forwarding(&mut state.forwardings, session, &bus);
            }
            if let DeviceState::Forwarded(session) = &new_state {
                start_forwarding(&mut state.forwardings, session, &bus);
            }
            let updated = DeviceEntry { device: entry.device, state: new_state };
            proof {
                lemma_devices_insert(before.devices@, bus.0@, updated);
            }
            state.devices.insert(bus, updated);
        },
    }
}

/// How far the life of a registry has come.
#[derive(Debug, Clone, Copy, PartialEq, Eq, Structural)]
pub enum Phase {
    /// Commands are taken in.
    Running,
    /// No more commands are taken in, and those that wait already are carried out.
    Draining,
}

/// What a registry finds when it looks for something to do.
pub enum Incoming {
    /// The next command.
    Command(RegistryCommand),
    /// No command waits.
    NothingWaits,
    /// No command waits, and none can come in any more.
    ChannelClosed,
    /// The registry is to stop.
    Shutdown,
}

/// What a registry is to do next.
pub enum Step {
    /// To carry out the command, make the outcome known, and go on in `phase`.
    Publish { cmd: RegistryCommand, phase: Phase },
    /// To let no more commands in, and go on in `phase`.
    CloseAndDrain { phase: Phase },
    /// To go on in `phase`.
    Wait { phase: Phase },
    /// To stop.
    Stop,
}

/// What a registry in `phase` does about `event`. Only where nothing waits does it stop: a
/// shutdown lets the commands that wait be carried out first.
pub open spec fn phase_step(phase: Phase, event: Incoming) -> Step {
    match (phase, event) {
        (_, Incoming::Command(cmd)) => Step::Publish { cmd, phase },
        (_, Incoming::ChannelClosed) => Step::Stop,
        (_, Incoming::Shutdown) => Step::CloseAndDrain { phase: Phase::Draining },
        (Phase::Running, Incoming::NothingWaits) => Step::Wait { phase },
        (Phase::Draining, Incoming::NothingWaits) => Step::Stop,
    }
}

/// Decides what a registry does next.
pub fn next_phase(phase: Phase, event: Incoming) -> (step: Step)
    ensures
        step == phase_step(phase, event),
{
    match event {
        Incoming::Command(cmd) => Step::Publish { cmd, phase },
        Incoming::ChannelClosed => Step::Stop,
        Incoming::Shutdown => Step::CloseAndDrain { phase: Phase::Draining },
        Incoming::NothingWaits => match phase {
            Phase::Running => Step::Wait { phase },
            Phase::Draining => Step::Stop,
        },
    }
}

/// What a registry has done about something it found, and what is left to whoever runs it.
pub enum RegistryAction {
    /// A command was carried out: the snapshot is to be made known.
    Publish { snapshot: RegistrySnapshot, phase: Phase },
    /// No more commands are to be let in.
    CloseAndDrain { phase: Phase },
    /// There is nothing to do but to look again.
    Wait { phase: Phase },
    /// The registry has stopped.
    Stop,
}

/// Reacts to something that the registry found: a command is carried out and its outcome is to
/// be made known, once for each command; nothing else changes the registry.
pub fn run_registry(phase: Phase, event: Incoming, state: &mut RegistrySnapshot) -> (action:
    RegistryAction)
    ensures
        match phase_step(phase, event) {
            Step::Publish { cmd, phase: next } => {
                &&& final(state)@ == after_command(old(state)@, cmd@)
                &&& action matches RegistryAction::Publish { snapshot, phase: reached }
                &&& snapshot@ == final(state)@
                &&& reached == next
            },
            Step::CloseAndDrain { phase: next } => {
                &&& *final(state) == *old(state)
                &&& action == (RegistryAction::CloseAndDrain { phase: next })
            },
            Step::Wait { phase: next } => {
                &&& *final(state) == *old(state)
                &&& action == (RegistryAction::Wait { phase: next })
            },
            Step::Stop => *final(state) == *old(state) && action is Stop,
        },
{
    match next_phase(phase, event) {
        Step::Publish { cmd, phase: next } => {
            handle_command(cmd, state);
            RegistryAction::Publish { snapshot: state.clone(), phase: next }
        },
        Step::CloseAndDrain { phase: next } => RegistryAction::CloseAndDrain { phase: next },
        Step::Wait { phase: next } => RegistryAction::Wait { phase: next },
        Step::Stop => RegistryAction::Stop,
    }
}

} // verus!
