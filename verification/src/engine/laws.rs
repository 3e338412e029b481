//! What holds of the registry as a whole.

use vstd::prelude::*;
use vstd::std_specs::cmp::PartialEqSpec;

use crate::engine::id_map::Id;
use crate::engine::registry::{
    after_command, after_leaving, all_but, empty_registry, phase_step, valid_transition,
    with_forwarding, without_forwarding, BusId, DeviceEntryView, DeviceState, DeviceStateView,
    Incoming, Phase, RegistryCommand, RegistryCommandView, RegistrySnapshot, RegistryView,
    SessionId, Step,
};
use crate::port::types::UsbDevice;

verus! {

/// Whether `session` is said to forward `bus`.
pub open spec fn forwards(
    forwardings: Map<Seq<char>, Seq<Seq<char>>>,
    session: Seq<char>,
    bus: Seq<char>,
) -> bool {
    forwardings.contains_key(session) && forwardings[session].contains(bus)
}

/// Whether the device `bus` is in the state of being forwarded by `session`.
pub open spec fn is_forwarded(
    devices: Map<Seq<char>, DeviceEntryView>,
    session: Seq<char>,
    bus: Seq<char>,
) -> bool {
    devices.contains_key(bus) && devices[bus].state == DeviceStateView::Forwarded(session)
}

/// Whether the lists of forwarded devices are in order: none is empty, and none names a device
/// twice.
pub open spec fn lists_in_order(forwardings: Map<Seq<char>, Seq<Seq<char>>>) -> bool {
    forall|session: Seq<char>| #[trigger]
        forwardings.contains_key(session) ==> forwardings[session].len() > 0
            && forwardings[session].no_duplicates()
}

/// Whether the registry is consistent: each device is kept under its own name, a session lists
/// exactly the devices that are in the state of being forwarded by it, each once, and a session
/// without such devices is not kept.
pub open spec fn consistent(registry: RegistryView) -> bool {
    &&& forall|bus: Seq<char>| #[trigger]
        registry.devices.contains_key(bus) ==> registry.devices[bus].device.busid@ == bus
    &&& forall|session: Seq<char>, bus: Seq<char>|
        #![trigger forwards(registry.forwardings, session, bus)]
        #![trigger is_forwarded(registry.devices, session, bus)]
        forwards(registry.forwardings, session, bus) == is_forwarded(registry.devices, session, bus)
    &&& lists_in_order(registry.forwardings)
}

/// What is left of a list after one name was taken out.
proof fn lemma_list_without(list: Seq<Seq<char>>, bus: Seq<char>)
    ensures
        forall|other: Seq<char>|
            all_but(list, bus).contains(other) <==> list.contains(other) && other
                != bus,
        list.no_duplicates() ==> all_but(list, bus).no_duplicates(),
        !list.contains(bus) ==> all_but(list, bus) == list,
    decreases list.len(),
{
    reveal(Seq::filter);
    if list.len() > 0 {
        let front = list.drop_last();
        let last = list.last();
        lemma_list_without(front, bus);
        assert(list =~= front.push(last));
        assert forall|other: Seq<char>| list.contains(other) <==> front.contains(other) || other
            == last by {
            if list.contains(other) {
                let i = choose|i: int| 0 <= i < list.len() && list[i] == other;
                if i < front.len() {
                    assert(front[i] == other);
                }
            }
            if front.contains(other) {
                let i = choose|i: int| 0 <= i < front.len() && front[i] == other;
                assert(list[i] == other);
            }
            if other == last {
                assert(list[list.len() - 1] == other);
            }
        }
        let rest = all_but(front, bus);
        if last != bus {
            let all = rest.push(last);
            assert(all_but(list, bus) == all);
            assert forall|other: Seq<char>| all.contains(other) <==> rest.contains(other) || other
                == last by {
                if all.contains(other) {
                    let i = choose|i: int| 0 <= i < all.len() && all[i] == other;
                    if i < rest.len() {
                        assert(rest[i] == other);
                    }
                }
                if rest.contains(other) {
                    let i = choose|i: int| 0 <= i < rest.len() && rest[i] == other;
                    assert(all[i] == other);
                }
                if other == last {
                    assert(all[all.len() - 1] == other);
                }
            }
            if list.no_duplicates() {
                assert(!front.contains(last)) by {
                    if front.contains(last) {
                        let i = choose|i: int| 0 <= i < front.len() && front[i] == last;
                        assert(list[i] == list[list.len() - 1]);
                    }
                }
                assert(front.no_duplicates());
                assert(!rest.contains(last));
                assert(all.no_duplicates()) by {
                    assert forall|i: int, j: int|
                        0 <= i < all.len() && 0 <= j < all.len() && i != j implies all[i]
                        != all[j] by {
                        if i == rest.len() {
                            assert(rest.contains(rest[j]));
                        } else if j == rest.len() {
                            assert(rest.contains(rest[i]));
                        }
                    }
                }
            }
        } else {
            assert(all_but(list, bus) == rest);
            assert(list.no_duplicates() ==> front.no_duplicates());
        }
    }
}

/// What a session forwards after a device left it.
proof fn lemma_without_forwarding(
    forwardings: Map<Seq<char>, Seq<Seq<char>>>,
    session: Seq<char>,
    bus: Seq<char>,
)
    requires
        lists_in_order(forwardings),
    ensures
        ({
            let after = without_forwarding(forwardings, session, bus);
            &&& lists_in_order(after)
            &&& forall|s: Seq<char>, b: Seq<char>| #[trigger]
                forwards(after, s, b) == (forwards(forwardings, s, b) && !(s == session && b
                    == bus))
        }),
{
    if forwardings.contains_key(session) {
        let list = forwardings[session];
        let rest = all_but(list, bus);
        lemma_list_without(list, bus);
        let after = without_forwarding(forwardings, session, bus);
        assert forall|s: Seq<char>, b: Seq<char>| #[trigger]
            forwards(after, s, b) == (forwards(forwardings, s, b) && !(s == session && b
                == bus)) by {
            assert(rest.contains(b) <==> list.contains(b) && b != bus);
        }
    }
}

/// What a session forwards after it took on a device.
proof fn lemma_with_forwarding(
    forwardings: Map<Seq<char>, Seq<Seq<char>>>,
    session: Seq<char>,
    bus: Seq<char>,
)
    requires
        lists_in_order(forwardings),
    ensures
        ({
            let after = with_forwarding(forwardings, session, bus);
            &&& lists_in_order(after)
            &&& forall|s: Seq<char>, b: Seq<char>| #[trigger]
                forwards(after, s, b) == (forwards(forwardings, s, b) || (s == session && b == bus))
        }),
{
    let after = with_forwarding(forwardings, session, bus);
    if !forwardings.contains_key(session) {
        let list = seq![bus];
        assert(list[0] == bus);
        assert forall|b: Seq<char>| list.contains(b) <==> b == bus by {}
    } else if !forwardings[session].contains(bus) {
        let list = forwardings[session];
        let all = list.push(bus);
        assert forall|b: Seq<char>| all.contains(b) <==> list.contains(b) || b == bus by {
            if all.contains(b) {
                let i = choose|i: int| 0 <= i < all.len() && all[i] == b;
                if i < list.len() {
                    assert(list[i] == b);
                }
            }
            if list.contains(b) {
                let i = choose|i: int| 0 <= i < list.len() && list[i] == b;
                assert(all[i] == b);
            }
            if b == bus {
                assert(all[all.len() - 1] == b);
            }
        }
        assert forall|i: int, j: int|
            0 <= i < all.len() && 0 <= j < all.len() && i != j implies all[i] != all[j] by {
            if i == list.len() {
                assert(list.contains(list[j]));
            } else if j == list.len() {
                assert(list.contains(list[i]));
            }
        }
    }
    assert forall|s: Seq<char>, b: Seq<char>| #[trigger]
        forwards(after, s, b) == (forwards(forwardings, s, b) || (s == session && b == bus)) by {}
}

/// The registry starts with nothing in it, and so consistent.
pub proof fn law_starts_consistent()
    ensures
        consistent(empty_registry()),
        forall|bus: Seq<char>| !empty_registry().devices.contains_key(bus),
        forall|session: Seq<char>| !empty_registry().forwardings.contains_key(session),
{
}

/// Every command keeps the registry consistent.
pub proof fn law_stays_consistent(registry: RegistryView, cmd: RegistryCommandView)
    requires
        consistent(registry),
    ensures
        consistent(after_command(registry, cmd)),
{
    let after = after_command(registry, cmd);
    let devices = registry.devices;
    match cmd {
        RegistryCommandView::AddDevice(device) => {
            assert forall|session: Seq<char>, bus: Seq<char>|
                forwards(after.forwardings, session, bus) == is_forwarded(
                    after.devices,
                    session,
                    bus,
                ) by {
                assert(forwards(registry.forwardings, session, bus) == is_forwarded(
                    devices,
                    session,
                    bus,
                ));
            }
        },
        RegistryCommandView::RemoveDevice(gone) => {
            if devices.contains_key(gone) {
                if let DeviceStateView::Forwarded(session) = devices[gone].state {
                    lemma_without_forwarding(registry.forwardings, session, gone);
                }
                assert forall|session: Seq<char>, bus: Seq<char>|
                    forwards(after.forwardings, session, bus) == is_forwarded(
                        after.devices,
                        session,
                        bus,
                    ) by {
                    assert(forwards(registry.forwardings, session, bus) == is_forwarded(
                        devices,
                        session,
                        bus,
                    ));
                }
            }
        },
        RegistryCommandView::TransitionState(moved, state) => {
            if devices.contains_key(moved) && valid_transition(devices[moved].state, state) {
                let left = after_leaving(registry.forwardings, devices[moved].state, moved);
                if let DeviceStateView::Forwarded(session) = devices[moved].state {
                    lemma_without_forwarding(registry.forwardings, session, moved);
                }
                if let DeviceStateView::Forwarded(session) = state {
                    lemma_with_forwarding(left, session, moved);
                }
                assert forall|session: Seq<char>, bus: Seq<char>|
                    forwards(after.forwardings, session, bus) == is_forwarded(
                        after.devices,
                        session,
                        bus,
                    ) by {
                    assert(forwards(registry.forwardings, session, bus) == is_forwarded(
                        devices,
                        session,
                        bus,
                    ));
                    assert(forwards(left, session, bus) == (forwards(
                        registry.forwardings,
                        session,
                        bus,
                    ) && !is_forwarded(devices, session, moved) || forwards(
                        registry.forwardings,
                        session,
                        bus,
                    ) && bus != moved));
                }
            }
        },
    }
}

/// The registry after a run of commands.
pub open spec fn after_commands(registry: RegistryView, cmds: Seq<RegistryCommandView>) -> RegistryView
    decreases cmds.len(),
{
    if cmds.len() == 0 {
        registry
    } else {
        after_command(after_commands(registry, cmds.drop_last()), cmds.last())
    }
}

/// Whatever commands it was given, the registry is consistent.
pub proof fn law_always_consistent(cmds: Seq<RegistryCommandView>)
    ensures
        consistent(after_commands(empty_registry(), cmds)),
    decreases cmds.len(),
{
    if cmds.len() == 0 {
        law_starts_consistent();
    } else {
        law_always_consistent(cmds.drop_last());
        law_stays_consistent(after_commands(empty_registry(), cmds.drop_last()), cmds.last());
    }
}

/// The device that a command is about.
pub open spec fn subject(cmd: RegistryCommandView) -> Seq<char> {
    match cmd {
        RegistryCommandView::AddDevice(device) => device.busid@,
        RegistryCommandView::RemoveDevice(bus) => bus,
        RegistryCommandView::TransitionState(bus, _) => bus,
    }
}

/// A command leaves every device but its subject as it was, and every session goes on
/// forwarding the other devices that it forwarded, and no more.
pub proof fn law_others_untouched(
    registry: RegistryView,
    cmd: RegistryCommandView,
    bus: Seq<char>,
    session: Seq<char>,
)
    requires
        consistent(registry),
        bus != subject(cmd),
    ensures
        after_command(registry, cmd).devices.contains_key(bus) == registry.devices.contains_key(
            bus,
        ),
        registry.devices.contains_key(bus) ==> after_command(registry, cmd).devices[bus]
            == registry.devices[bus],
        forwards(after_command(registry, cmd).forwardings, session, bus) == forwards(
            registry.forwardings,
            session,
            bus,
        ),
{
    law_stays_consistent(registry, cmd);
    let after = after_command(registry, cmd);
    assert(forwards(after.forwardings, session, bus) == is_forwarded(after.devices, session, bus));
    assert(forwards(registry.forwardings, session, bus) == is_forwarded(
        registry.devices,
        session,
        bus,
    ));
}

/// Adding a device that is there already and not disconnected changes nothing.
pub proof fn law_duplicate_is_skipped(registry: RegistryView, device: UsbDevice)
    requires
        registry.devices.contains_key(device.busid@),
        registry.devices[device.busid@].state !is Disconnected,
    ensures
        after_command(registry, RegistryCommandView::AddDevice(device)) == registry,
{
}

/// Commands for a device that is not there change nothing.
pub proof fn law_unknown_device_is_ignored(
    registry: RegistryView,
    bus: Seq<char>,
    state: DeviceStateView,
)
    requires
        !registry.devices.contains_key(bus),
    ensures
        after_command(registry, RegistryCommandView::RemoveDevice(bus)) == registry,
        after_command(registry, RegistryCommandView::TransitionState(bus, state)) == registry,
{
}

/// A change of state that is not allowed changes nothing; one that is allowed takes place.
pub proof fn law_transitions(registry: RegistryView, bus: Seq<char>, state: DeviceStateView)
    requires
        registry.devices.contains_key(bus),
    ensures
        ({
            let before = registry.devices[bus];
            let after = after_command(registry, RegistryCommandView::TransitionState(bus, state));
            if valid_transition(before.state, state) {
                &&& after.devices.contains_key(bus)
                &&& after.devices[bus] == (DeviceEntryView { state, ..before })
            } else {
                after == registry
            }
        }),
{
}

/// A disconnected device stays disconnected, whatever state it is told to take.
pub proof fn law_disconnected_is_terminal(
    registry: RegistryView,
    bus: Seq<char>,
    state: DeviceStateView,
)
    requires
        registry.devices.contains_key(bus),
        registry.devices[bus].state is Disconnected,
    ensures
        after_command(registry, RegistryCommandView::TransitionState(bus, state)) == registry,
{
}

/// A disconnected device that is added again is idle, with what is known of it now.
pub proof fn law_disconnected_is_added_again(registry: RegistryView, device: UsbDevice)
    requires
        registry.devices.contains_key(device.busid@),
        registry.devices[device.busid@].state is Disconnected,
    ensures
        ({
            let after = after_command(registry, RegistryCommandView::AddDevice(device));
            &&& after.devices.contains_key(device.busid@)
            &&& after.devices[device.busid@] == (DeviceEntryView {
                device,
                state: DeviceStateView::Idle,
            })
        }),
{
}

/// A removed device is gone: it is neither kept nor forwarded by any session.
pub proof fn law_removed_is_gone(registry: RegistryView, bus: Seq<char>, session: Seq<char>)
    requires
        consistent(registry),
    ensures
        ({
            let after = after_command(registry, RegistryCommandView::RemoveDevice(bus));
            &&& !after.devices.contains_key(bus)
            &&& !forwards(after.forwardings, session, bus)
        }),
{
    let cmd = RegistryCommandView::RemoveDevice(bus);
    law_stays_consistent(registry, cmd);
    let after = after_command(registry, cmd);
    assert(forwards(after.forwardings, session, bus) == is_forwarded(after.devices, session, bus));
}

/// A device that leaves its session is not forwarded any more.
pub proof fn law_left_session_is_cleared(
    registry: RegistryView,
    bus: Seq<char>,
    session: Seq<char>,
    state: DeviceStateView,
)
    requires
        consistent(registry),
        is_forwarded(registry.devices, session, bus),
        state is Idle || state is Disconnected,
    ensures
        ({
            let after = after_command(registry, RegistryCommandView::TransitionState(bus, state));
            &&& after.devices[bus].state == state
            &&& !forwards(after.forwardings, session, bus)
        }),
{
    let cmd = RegistryCommandView::TransitionState(bus, state);
    law_stays_consistent(registry, cmd);
    let after = after_command(registry, cmd);
    assert(forwards(after.forwardings, session, bus) == is_forwarded(after.devices, session, bus));
}

/// Adding a device and removing it again changes nothing.
pub proof fn law_add_then_remove(registry: RegistryView, device: UsbDevice)
    requires
        !registry.devices.contains_key(device.busid@),
    ensures
        after_command(
            after_command(registry, RegistryCommandView::AddDevice(device)),
            RegistryCommandView::RemoveDevice(device.busid@),
        ) == registry,
{
    let added = after_command(registry, RegistryCommandView::AddDevice(device));
    let after = after_command(added, RegistryCommandView::RemoveDevice(device.busid@));
    assert(after =~= registry);
}

/// A device that is bound, forwarded by a session and released again leaves the registry as it
/// was.
pub proof fn law_forwarding_cycle(registry: RegistryView, bus: Seq<char>, session: Seq<char>)
    requires
        consistent(registry),
        registry.devices.contains_key(bus),
        registry.devices[bus].state is Idle,
    ensures
        after_commands(
            registry,
            seq![
                RegistryCommandView::TransitionState(bus, DeviceStateView::Bound),
                RegistryCommandView::TransitionState(bus, DeviceStateView::Forwarded(session)),
                RegistryCommandView::TransitionState(bus, DeviceStateView::Idle),
            ],
        ) == registry,
{
    let bind = RegistryCommandView::TransitionState(bus, DeviceStateView::Bound);
    let forward = RegistryCommandView::TransitionState(bus, DeviceStateView::Forwarded(session));
    let release = RegistryCommandView::TransitionState(bus, DeviceStateView::Idle);
    let cmds = seq![bind, forward, release];
    reveal_with_fuel(after_commands, 4);
    assert(cmds.drop_last() =~= seq![bind, forward]);
    assert(cmds.drop_last().drop_last() =~= seq![bind]);
    assert(cmds.drop_last().drop_last().drop_last() =~= Seq::<RegistryCommandView>::empty());
    let bound = after_command(registry, bind);
    let forwarded = after_command(bound, forward);
    let after = after_command(forwarded, release);
    let f = registry.forwardings;
    assert(forwards(f, session, bus) == is_forwarded(registry.devices, session, bus));
    let list = if f.contains_key(session) {
        f[session]
    } else {
        Seq::empty()
    };
    assert(!list.contains(bus));
    let longer = list.push(bus);
    assert(forwarded.forwardings[session] =~= longer);
    reveal(Seq::filter);
    assert(longer.drop_last() =~= list);
    lemma_list_without(list, bus);
    assert(all_but(longer, bus) =~= list);
    assert(after.forwardings =~= f);
    assert(after.devices =~= registry.devices);
}

/// How far a registry has come: its phase, unless it has stopped, what it knows, and what it
/// has made known, in order.
pub struct RegistryRun {
    pub phase: Option<Phase>,
    pub registry: RegistryView,
    pub published: Seq<RegistryView>,
}

/// How far a registry that starts as `registry` has come once it found `events`. After it has
/// stopped it does nothing more.
pub open spec fn run_of(registry: RegistryView, events: Seq<Incoming>) -> RegistryRun
    decreases events.len(),
{
    if events.len() == 0 {
        RegistryRun { phase: Some(Phase::Running), registry, published: Seq::empty() }
    } else {
        let before = run_of(registry, events.drop_last());
        match before.phase {
            None => before,
            Some(phase) => match phase_step(phase, events.last()) {
                Step::Publish { cmd, phase } => {
                    let after = after_command(before.registry, cmd@);
                    RegistryRun {
                        phase: Some(phase),
                        registry: after,
                        published: before.published.push(after),
                    }
                },
                Step::CloseAndDrain { phase } => RegistryRun { phase: Some(phase), ..before },
                Step::Wait { phase } => RegistryRun { phase: Some(phase), ..before },
                Step::Stop => RegistryRun { phase: None, ..before },
            },
        }
    }
}

/// The commands among events, in order.
pub open spec fn commands_of(events: Seq<Incoming>) -> Seq<RegistryCommandView>
    decreases events.len(),
{
    if events.len() == 0 {
        Seq::empty()
    } else {
        match events.last() {
            Incoming::Command(cmd) => commands_of(events.drop_last()).push(cmd@),
            _ => commands_of(events.drop_last()),
        }
    }
}

/// Every command that a registry found, up to the event on which it stopped, has been carried
/// out, in order, and the outcome of each has been made known once.
pub proof fn law_every_command_is_published(registry: RegistryView, events: Seq<Incoming>)
    requires
        events.len() > 0 ==> run_of(registry, events.drop_last()).phase is Some,
    ensures
        ({
            let cmds = commands_of(events);
            let reached = run_of(registry, events);
            &&& reached.registry == after_commands(registry, cmds)
            &&& reached.published.len() == cmds.len()
            &&& forall|i: int|
                0 <= i < cmds.len() ==> #[trigger] reached.published[i] == after_commands(
                    registry,
                    cmds.take(i + 1),
                )
        }),
    decreases events.len(),
{
    if events.len() > 0 {
        let front = events.drop_last();
        law_every_command_is_published(registry, front);
        let earlier = commands_of(front);
        let cmds = commands_of(events);
        if let Incoming::Command(cmd) = events.last() {
            assert(cmds.drop_last() =~= earlier);
            assert(cmds.take(cmds.len() as int) =~= cmds);
            assert forall|i: int| 0 <= i < earlier.len() implies cmds.take(i + 1)
                == #[trigger] earlier.take(i + 1) by {
                assert(cmds.take(i + 1) =~= earlier.take(i + 1));
            }
        }
    }
}

/// The commands as a registry finds them.
pub open spec fn found(waiting: Seq<RegistryCommand>) -> Seq<Incoming> {
    waiting.map_values(|cmd: RegistryCommand| Incoming::Command(cmd))
}

/// A registry that drains carries out what waits, and goes on draining.
proof fn lemma_draining(
    registry: RegistryView,
    before: Seq<Incoming>,
    waiting: Seq<RegistryCommand>,
)
    requires
        run_of(registry, before).phase == Some(Phase::Draining),
    ensures
        run_of(registry, before + found(waiting)).phase == Some(Phase::Draining),
        commands_of(before + found(waiting)) == commands_of(before) + waiting.map_values(
            |cmd: RegistryCommand| cmd@,
        ),
    decreases waiting.len(),
{
    let views = |cmd: RegistryCommand| cmd@;
    let events = before + found(waiting);
    if waiting.len() == 0 {
        assert(events =~= before);
        assert(commands_of(before) + waiting.map_values(views) =~= commands_of(before));
    } else {
        let front = waiting.drop_last();
        lemma_draining(registry, before, front);
        assert(events.drop_last() =~= before + found(front));
        assert(events.last() == Incoming::Command(waiting.last()));
        assert(commands_of(before) + waiting.map_values(views) =~= (commands_of(before)
            + front.map_values(views)).push(waiting.last()@));
    }
}

/// A shutdown loses no command: a running registry that is told to stop while `waiting` waits
/// carries all of that out after what it found before, makes each outcome known, and stops only
/// when nothing waits any more.
pub proof fn law_shutdown_drains(
    registry: RegistryView,
    before: Seq<Incoming>,
    waiting: Seq<RegistryCommand>,
)
    requires
        run_of(registry, before).phase == Some(Phase::Running),
    ensures
        ({
            let shutdown = before.push(Incoming::Shutdown);
            let drained = shutdown + found(waiting);
            let cmds = commands_of(before) + waiting.map_values(|cmd: RegistryCommand| cmd@);
            let reached = run_of(registry, drained.push(Incoming::NothingWaits));
            &&& run_of(registry, shutdown).phase == Some(Phase::Draining)
            &&& run_of(registry, drained).phase == Some(Phase::Draining)
            &&& reached.phase is None
            &&& reached.registry == after_commands(registry, cmds)
            &&& reached.published.len() == cmds.len()
            &&& forall|i: int|
                0 <= i < cmds.len() ==> #[trigger] reached.published[i] == after_commands(
                    registry,
                    cmds.take(i + 1),
                )
        }),
{
    let shutdown = before.push(Incoming::Shutdown);
    let drained = shutdown + found(waiting);
    let events = drained.push(Incoming::NothingWaits);
    assert(shutdown.drop_last() =~= before);
    lemma_draining(registry, shutdown, waiting);
    assert(events.drop_last() =~= drained);
    law_every_command_is_published(registry, events);
}

/// Adding a device that is not there, or that is disconnected, puts exactly that device under its
/// own name, idle, and changes nothing else; nothing about the device itself counts against it.
pub proof fn law_added(registry: RegistryView, device: UsbDevice)
    ensures
        ({
            let bus = device.busid@;
            let after = after_command(registry, RegistryCommandView::AddDevice(device));
            &&& after.forwardings == registry.forwardings
            &&& after.devices.contains_key(bus)
            &&& !registry.devices.contains_key(bus) || registry.devices[bus].state is Disconnected
                ==> {
                &&& after.devices[bus].device == device
                &&& after.devices[bus].state is Idle
            }
            &&& registry.devices.contains_key(bus) && !(registry.devices[bus].state is Disconnected)
                ==> after.devices[bus] == registry.devices[bus]
            &&& forall|other: Seq<char>|
                other != bus ==> {
                    &&& #[trigger] after.devices.contains_key(other)
                        == registry.devices.contains_key(other)
                    &&& registry.devices.contains_key(other) ==> after.devices[other]
                        == registry.devices[other]
                }
        }),
{
}

/// What a session forwards after the device `bus` left it: the devices that it forwarded before
/// but that one, in the same order; a session that is left with none is gone; and other sessions
/// forward what they did.
pub proof fn law_leaving(registry: RegistryView, bus: Seq<char>, session: Seq<char>)
    ensures
        ({
            let before = registry.forwardings;
            let after = without_forwarding(before, session, bus);
            let kept = before[session].filter(|other: Seq<char>| other != bus);
            &&& before.contains_key(session) && kept.len() > 0 ==> after.contains_key(session)
                && after[session] == kept
            &&& !before.contains_key(session) || kept.len() == 0 ==> !after.contains_key(session)
            &&& forall|s: Seq<char>|
                s != session ==> {
                    &&& #[trigger] after.contains_key(s) == before.contains_key(s)
                    &&& before.contains_key(s) ==> after[s] == before[s]
                }
        }),
{
    lemma_kept(registry.forwardings[session], bus);
}

/// The names that are kept.
proof fn lemma_kept(list: Seq<Seq<char>>, bus: Seq<char>)
    ensures
        all_but(list, bus) == list.filter(|other: Seq<char>| other != bus),
    decreases list.len(),
{
    reveal(Seq::filter);
    if list.len() > 0 {
        lemma_kept(list.drop_last(), bus);
    }
}

/// What a session forwards after it took on the device `bus`: what it did before, and that
/// device behind it, unless it was there already; other sessions forward what they did.
pub proof fn law_entering(registry: RegistryView, bus: Seq<char>, session: Seq<char>)
    ensures
        ({
            let before = registry.forwardings;
            let after = with_forwarding(before, session, bus);
            &&& after.contains_key(session)
            &&& !before.contains_key(session) ==> after[session] == seq![bus]
            &&& before.contains_key(session) && before[session].contains(bus) ==> after[session]
                == before[session]
            &&& before.contains_key(session) && !before[session].contains(bus) ==> after[session]
                == before[session].push(bus)
            &&& forall|s: Seq<char>|
                s != session ==> {
                    &&& #[trigger] after.contains_key(s) == before.contains_key(s)
                    &&& before.contains_key(s) ==> after[s] == before[s]
                }
        }),
{
}

/// Removing a device that is there takes it out, and nothing else; if a session forwarded it, it
/// leaves that session, and otherwise the forwardings stay as they are.
pub proof fn law_removed(registry: RegistryView, bus: Seq<char>)
    requires
        registry.devices.contains_key(bus),
    ensures
        ({
            let after = after_command(registry, RegistryCommandView::RemoveDevice(bus));
            &&& after.devices == registry.devices.remove(bus)
            &&& match registry.devices[bus].state {
                DeviceStateView::Forwarded(session) => after.forwardings == without_forwarding(
                    registry.forwardings,
                    session,
                    bus,
                ),
                _ => after.forwardings == registry.forwardings,
            }
        }),
{
}

/// The six changes of state that take place, and that no other does. The device stays what it is,
/// and all other devices stay as they are; a device that was bound enters the session it is
/// forwarded by, and one that was forwarded leaves its session.
pub proof fn law_state_changes(registry: RegistryView, bus: Seq<char>, state: DeviceStateView)
    requires
        registry.devices.contains_key(bus),
    ensures
        ({
            let before = registry.devices[bus];
            let after = after_command(registry, RegistryCommandView::TransitionState(bus, state));
            match (before.state, state) {
                (DeviceStateView::Idle, DeviceStateView::Bound)
                | (DeviceStateView::Idle, DeviceStateView::Disconnected)
                | (DeviceStateView::Bound, DeviceStateView::Disconnected) => {
                    &&& after.devices == registry.devices.insert(
                        bus,
                        DeviceEntryView { device: before.device, state },
                    )
                    &&& after.forwardings == registry.forwardings
                },
                (DeviceStateView::Bound, DeviceStateView::Forwarded(session)) => {
                    &&& after.devices == registry.devices.insert(
                        bus,
                        DeviceEntryView { device: before.device, state },
                    )
                    &&& after.forwardings == with_forwarding(registry.forwardings, session, bus)
                },
                (DeviceStateView::Forwarded(session), DeviceStateView::Idle)
                | (DeviceStateView::Forwarded(session), DeviceStateView::Disconnected) => {
                    &&& after.devices == registry.devices.insert(
                        bus,
                        DeviceEntryView { device: before.device, state },
                    )
                    &&& after.forwardings == without_forwarding(registry.forwardings, session, bus)
                },
                _ => after == registry,
            }
        }),
{
}

/// Which changes of state are allowed: those six and no others.
pub proof fn law_allowed_changes(from: DeviceState, to: DeviceState)
    ensures
        valid_transition(from@, to@) <==> match (from, to) {
            (DeviceState::Idle, DeviceState::Bound) => true,
            (DeviceState::Idle, DeviceState::Disconnected) => true,
            (DeviceState::Bound, DeviceState::Forwarded(_)) => true,
            (DeviceState::Bound, DeviceState::Disconnected) => true,
            (DeviceState::Forwarded(_), DeviceState::Idle) => true,
            (DeviceState::Forwarded(_), DeviceState::Disconnected) => true,
            _ => false,
        },
{
}

/// A snapshot shows what its maps hold: the same names, the devices as they are, the states with
/// the names of their sessions, and the lists name by name.
pub proof fn law_snapshot_shows_its_maps(
    snapshot: RegistrySnapshot,
    bus: Seq<char>,
    session: Seq<char>,
)
    ensures
        snapshot@.devices.contains_key(bus) == snapshot.devices@.contains_key(bus),
        snapshot.devices@.contains_key(bus) ==> {
            let shown = snapshot@.devices[bus];
            let held = snapshot.devices@[bus];
            &&& shown.device == held.device
            &&& match held.state {
                DeviceState::Idle => shown.state is Idle,
                DeviceState::Bound => shown.state is Bound,
                DeviceState::Forwarded(by) => shown.state == DeviceStateView::Forwarded(by.0@),
                DeviceState::Disconnected => shown.state is Disconnected,
            }
        },
        snapshot@.forwardings.contains_key(session) == snapshot.forwardings@.contains_key(session),
        snapshot.forwardings@.contains_key(session) ==> {
            let shown = snapshot@.forwardings[session];
            let held = snapshot.forwardings@[session];
            &&& shown.len() == held@.len()
            &&& forall|i: int| 0 <= i < held@.len() ==> #[trigger] shown[i] == held@[i].0@
        },
{
}

/// A command is about what it holds: the device, the name, and the state with the name of its
/// session.
pub proof fn law_command_shows_what_it_holds(cmd: RegistryCommand)
    ensures
        match cmd {
            RegistryCommand::AddDevice(device) => cmd@ == RegistryCommandView::AddDevice(device),
            RegistryCommand::RemoveDevice(bus) => cmd@ == RegistryCommandView::RemoveDevice(bus.0@),
            RegistryCommand::TransitionState(bus, DeviceState::Idle) => cmd@
                == RegistryCommandView::TransitionState(bus.0@, DeviceStateView::Idle),
            RegistryCommand::TransitionState(bus, DeviceState::Bound) => cmd@
                == RegistryCommandView::TransitionState(bus.0@, DeviceStateView::Bound),
            RegistryCommand::TransitionState(bus, DeviceState::Forwarded(session)) => cmd@
                == RegistryCommandView::TransitionState(
                bus.0@,
                DeviceStateView::Forwarded(session.0@),
            ),
            RegistryCommand::TransitionState(bus, DeviceState::Disconnected) => cmd@
                == RegistryCommandView::TransitionState(bus.0@, DeviceStateView::Disconnected),
        },
{
}

/// Names are told apart by all of their characters.
pub proof fn law_names(a: BusId, b: BusId, s: SessionId, t: SessionId)
    ensures
        a.text() == b.text() <==> a.0@ == b.0@,
        s.text() == t.text() <==> s.0@ == t.0@,
        a.text() == a.0@,
        s.text() == s.0@,
        a.eq_spec(&b) <==> a.0@ == b.0@,
        s.eq_spec(&t) <==> s.0@ == t.0@,
{
}

/// What a registry does about what it finds: it carries out every command, whatever it is, and
/// stays in its phase; a shutdown makes it drain; it stops when no command can come any more, or
/// when it drains and none waits.
pub proof fn law_steps(phase: Phase, cmd: RegistryCommand)
    ensures
        phase_step(phase, Incoming::Command(cmd)) == (Step::Publish { cmd, phase }),
        phase_step(phase, Incoming::Shutdown) == (Step::CloseAndDrain { phase: Phase::Draining }),
        phase_step(phase, Incoming::ChannelClosed) is Stop,
        phase_step(Phase::Running, Incoming::NothingWaits) == (Step::Wait {
            phase: Phase::Running,
        }),
        phase_step(Phase::Draining, Incoming::NothingWaits) is Stop,
{
}

} // verus!
