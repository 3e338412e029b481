use easy_usb_core::engine::registry::{
    handle_command, is_valid_transition, next_phase, run_registry, BusId, DeviceState, Incoming,
    Phase, RegistryAction, RegistryCommand, RegistryError, RegistrySnapshot, SessionId, Step,
    DEFAULT_CHANNEL_CAPACITY,
};
use easy_usb_core::port::UsbDevice;
use easy_usb_core::protocol::UsbDeviceSpeed;

fn make_device(busid: &str, vid: u16, pid: u16) -> UsbDevice {
    UsbDevice {
        busid: busid.to_string(),
        vid,
        pid,
        manufacturer: None,
        product: None,
        busnum: 1,
        devnum: 1,
        speed: UsbDeviceSpeed::HighSpeed,
        b_device_class: 0,
        b_device_sub_class: 0,
        b_device_protocol: 0,
    }
}

fn busid(s: &str) -> BusId {
    BusId(s.to_string())
}

fn session_id(s: &str) -> SessionId {
    SessionId(s.to_string())
}

/// Hands a command to a running registry, and gives the snapshot that it publishes.
fn send(state: &mut RegistrySnapshot, cmd: RegistryCommand) -> RegistrySnapshot {
    match run_registry(Phase::Running, Incoming::Command(cmd), state) {
        RegistryAction::Publish { snapshot, phase } => {
            assert_eq!(phase, Phase::Running);
            snapshot
        }
        _ => panic!("a command is carried out"),
    }
}

fn transition(state: &mut RegistrySnapshot, bus: &str, to: DeviceState) -> RegistrySnapshot {
    send(state, RegistryCommand::TransitionState(busid(bus), to))
}

fn state_of<'a>(snapshot: &'a RegistrySnapshot, bus: &str) -> &'a DeviceState {
    &snapshot.devices.get(&busid(bus)).unwrap().state
}

#[test]
fn registry_starts_empty() {
    let snap = RegistrySnapshot::default();
    assert!(snap.devices.is_empty());
    assert!(snap.forwardings.is_empty());
    assert_eq!(snap.devices.len(), 0);
}

#[test]
fn add_device_appears_in_snapshot() {
    let mut state = RegistrySnapshot::default();
    let dev = make_device("1-1", 0x1234, 0x5678);
    let snap = send(&mut state, RegistryCommand::AddDevice(dev.clone()));
    assert!(
        snap.devices.contains_key(&busid("1-1")),
        "device should appear in snapshot"
    );

    let entry = snap.devices.get(&busid("1-1")).unwrap();
    assert_eq!(entry.device.busid, "1-1");
    assert_eq!(entry.device.vid, 0x1234);
    assert_eq!(entry.device.pid, 0x5678);
    assert_eq!(entry.state, DeviceState::Idle);
}

#[test]
fn add_duplicate_device_skipped() {
    let mut state = RegistrySnapshot::default();
    let dev1 = make_device("1-1", 0x1234, 0x5678);
    let dev2 = make_device("1-1", 0xAAAA, 0xBBBB);

    let snap = send(&mut state, RegistryCommand::AddDevice(dev1));
    assert!(snap.devices.contains_key(&busid("1-1")));

    let snap = send(&mut state, RegistryCommand::AddDevice(dev2));
    assert_eq!(snap.devices.len(), 1);
    let entry = snap.devices.get(&busid("1-1")).unwrap();
    assert_eq!(entry.device.vid, 0x1234, "original device should be kept");
}

#[test]
fn remove_device_cleans_up() {
    let mut state = RegistrySnapshot::default();
    let dev = make_device("1-1", 0x1234, 0x5678);

    let snap = send(&mut state, RegistryCommand::AddDevice(dev));
    assert!(snap.devices.contains_key(&busid("1-1")));

    let snap = send(&mut state, RegistryCommand::RemoveDevice(busid("1-1")));
    assert!(
        !snap.devices.contains_key(&busid("1-1")),
        "device should be removed from snapshot"
    );
    assert!(snap.devices.is_empty());
}

#[test]
fn remove_unknown_device_no_panic() {
    let mut state = RegistrySnapshot::default();
    let snap = send(&mut state, RegistryCommand::RemoveDevice(busid("nonexistent")));
    assert!(snap.devices.is_empty());
}

#[test]
fn transition_idle_to_bound() {
    let mut state = RegistrySnapshot::default();
    let dev = make_device("1-1", 0x1234, 0x5678);
    let snap = send(&mut state, RegistryCommand::AddDevice(dev));
    assert!(snap.devices.contains_key(&busid("1-1")));

    let snap = transition(&mut state, "1-1", DeviceState::Bound);
    assert_eq!(
        state_of(&snap, "1-1"),
        &DeviceState::Bound,
        "device should transition to Bound"
    );
}

#[test]
fn transition_bound_to_forwarded_updates_forwardings() {
    let mut state = RegistrySnapshot::default();
    let dev = make_device("1-1", 0x1234, 0x5678);
    send(&mut state, RegistryCommand::AddDevice(dev));
    transition(&mut state, "1-1", DeviceState::Bound);
    let snap = transition(&mut state, "1-1", DeviceState::Forwarded(session_id("s1")));

    assert!(
        matches!(state_of(&snap, "1-1"), DeviceState::Forwarded(sid) if sid == &session_id("s1")),
        "device should be Forwarded(s1)"
    );
    let fwd = snap.forwardings.get(&session_id("s1")).unwrap();
    assert!(fwd.contains(&busid("1-1")), "forwardings[s1] should contain busid 1-1");
    assert_eq!(fwd.len(), 1);
}

#[test]
fn transition_forwarded_to_idle_removes_from_forwardings() {
    let mut state = RegistrySnapshot::default();
    let dev = make_device("1-1", 0x1234, 0x5678);
    send(&mut state, RegistryCommand::AddDevice(dev));
    transition(&mut state, "1-1", DeviceState::Bound);
    transition(&mut state, "1-1", DeviceState::Forwarded(session_id("s1")));
    let snap = transition(&mut state, "1-1", DeviceState::Idle);
    assert_eq!(
        state_of(&snap, "1-1"),
        &DeviceState::Idle,
        "device should return to Idle"
    );

    let fwd_empty = snap
        .forwardings
        .get(&session_id("s1"))
        .is_none_or(|buses| buses.is_empty());
    assert!(fwd_empty, "forwardings for s1 should be empty");
}

#[test]
fn transition_cycle() {
    let mut state = RegistrySnapshot::default();
    let dev = make_device("1-1", 0x1234, 0x5678);
    send(&mut state, RegistryCommand::AddDevice(dev));
    transition(&mut state, "1-1", DeviceState::Bound);
    transition(&mut state, "1-1", DeviceState::Forwarded(session_id("s1")));
    let snap = transition(&mut state, "1-1", DeviceState::Idle);

    let fwd_empty = snap
        .forwardings
        .get(&session_id("s1"))
        .is_none_or(|buses| buses.is_empty());
    assert!(fwd_empty, "forwardings should be cleaned up after cycle");
    assert!(snap.forwardings.is_empty());
}

#[test]
fn invalid_transition_idle_to_forwarded_rejected() {
    let mut state = RegistrySnapshot::default();
    let dev = make_device("1-1", 0x1234, 0x5678);
    send(&mut state, RegistryCommand::AddDevice(dev));
    let snap = transition(&mut state, "1-1", DeviceState::Forwarded(session_id("s1")));
    assert_eq!(
        state_of(&snap, "1-1"),
        &DeviceState::Idle,
        "state should remain Idle after invalid transition"
    );
    assert!(snap.forwardings.is_empty());
}

#[test]
fn unknown_device_transition_no_panic() {
    let mut state = RegistrySnapshot::default();
    let snap = transition(&mut state, "nonexistent", DeviceState::Bound);
    assert!(snap.devices.is_empty());
}

#[test]
fn concurrent_commands_no_deadlock() {
    let mut state = RegistrySnapshot::default();
    let mut snap = RegistrySnapshot::default();
    for j in 0..10 {
        for i in 0..5 {
            let busid_str = format!("{}-{}", i, j);
            let dev = make_device(&busid_str, 0x1000 + i as u16, 0x2000 + j as u16);
            send(&mut state, RegistryCommand::AddDevice(dev));
            transition(&mut state, &busid_str, DeviceState::Bound);
            snap = transition(&mut state, &busid_str, DeviceState::Idle);
        }
    }

    assert_eq!(
        snap.devices.len(),
        50,
        "all 50 devices should be registered, got {}",
        snap.devices.len()
    );
    for entry in snap.devices.values() {
        assert!(
            matches!(entry.state, DeviceState::Idle | DeviceState::Bound),
            "each device should be in a valid state"
        );
    }
    assert_eq!(snap.devices.values().len(), 50);
}

#[test]
fn multiple_readers_via_snapshot() {
    let mut state = RegistrySnapshot::default();
    let dev = make_device("1-1", 0x1234, 0x5678);
    let snap1 = send(&mut state, RegistryCommand::AddDevice(dev));
    let snap2 = snap1.clone();

    assert_eq!(snap1.devices.len(), 1);
    assert_eq!(snap2.devices.len(), 1);
    assert_eq!(
        snap1.devices.get(&busid("1-1")).unwrap().device.vid,
        snap2.devices.get(&busid("1-1")).unwrap().device.vid
    );
    // A snapshot does not follow later commands.
    send(&mut state, RegistryCommand::RemoveDevice(busid("1-1")));
    assert_eq!(snap1.devices.len(), 1);
    assert!(state.devices.is_empty());
}

#[test]
fn handle_clone_and_send_from_multiple_tasks() {
    let mut state = RegistrySnapshot::default();
    send(&mut state, RegistryCommand::AddDevice(make_device("1-1", 0x1111, 0x1111)));
    send(&mut state, RegistryCommand::AddDevice(make_device("2-2", 0x2222, 0x2222)));
    let snap = send(&mut state, RegistryCommand::AddDevice(make_device("3-3", 0x3333, 0x3333)));
    assert!(
        snap.devices.contains_key(&busid("1-1"))
            && snap.devices.contains_key(&busid("2-2"))
            && snap.devices.contains_key(&busid("3-3")),
        "all three devices from different tasks should be registered"
    );
}

#[test]
fn disconnect_removes_from_forwardings() {
    let mut state = RegistrySnapshot::default();
    let dev = make_device("1-1", 0x1234, 0x5678);
    send(&mut state, RegistryCommand::AddDevice(dev));
    transition(&mut state, "1-1", DeviceState::Bound);
    transition(&mut state, "1-1", DeviceState::Forwarded(session_id("s1")));
    let snap = transition(&mut state, "1-1", DeviceState::Disconnected);
    assert_eq!(
        state_of(&snap, "1-1"),
        &DeviceState::Disconnected,
        "device should be Disconnected"
    );
    assert!(
        snap.forwardings
            .get(&session_id("s1"))
            .is_none_or(|buses| buses.is_empty()),
        "s1 should be removed from forwardings after disconnect"
    );
}

#[test]
fn remove_forwarded_device_cleans_forwardings() {
    let mut state = RegistrySnapshot::default();
    let dev = make_device("1-1", 0x1234, 0x5678);
    send(&mut state, RegistryCommand::AddDevice(dev));
    transition(&mut state, "1-1", DeviceState::Bound);
    transition(&mut state, "1-1", DeviceState::Forwarded(session_id("s1")));
    let snap = send(&mut state, RegistryCommand::RemoveDevice(busid("1-1")));
    assert!(!snap.devices.contains_key(&busid("1-1")), "device should be removed");

    let not_in_fwd = snap
        .forwardings
        .get(&session_id("s1"))
        .is_none_or(|buses| !buses.contains(&busid("1-1")));
    assert!(not_in_fwd, "device should be removed from forwardings");
    assert!(!snap.forwardings.contains_key(&session_id("s1")));
}

#[test]
fn transition_idle_to_disconnected() {
    let mut state = RegistrySnapshot::default();
    let dev = make_device("1-1", 0x1234, 0x5678);
    send(&mut state, RegistryCommand::AddDevice(dev));
    let snap = transition(&mut state, "1-1", DeviceState::Disconnected);
    assert_eq!(
        state_of(&snap, "1-1"),
        &DeviceState::Disconnected,
        "device should transition to Disconnected"
    );
}

#[test]
fn transition_bound_to_disconnected() {
    let mut state = RegistrySnapshot::default();
    let dev = make_device("1-1", 0x1234, 0x5678);
    send(&mut state, RegistryCommand::AddDevice(dev));
    transition(&mut state, "1-1", DeviceState::Bound);
    let snap = transition(&mut state, "1-1", DeviceState::Disconnected);
    assert_eq!(
        state_of(&snap, "1-1"),
        &DeviceState::Disconnected,
        "device should transition from Bound to Disconnected"
    );
}

#[test]
fn disconnected_is_terminal() {
    let mut state = RegistrySnapshot::default();
    let dev = make_device("1-1", 0x1234, 0x5678);
    send(&mut state, RegistryCommand::AddDevice(dev));
    transition(&mut state, "1-1", DeviceState::Disconnected);
    let snap = transition(&mut state, "1-1", DeviceState::Idle);
    assert_eq!(
        state_of(&snap, "1-1"),
        &DeviceState::Disconnected,
        "state should remain Disconnected (terminal)"
    );
}

#[test]
fn multiple_devices_same_session_partial_disconnect() {
    let mut state = RegistrySnapshot::default();
    let dev1 = make_device("1-1", 0x1111, 0x1111);
    let dev2 = make_device("2-2", 0x2222, 0x2222);

    for (dev, busid_str) in [(dev1, "1-1"), (dev2, "2-2")] {
        send(&mut state, RegistryCommand::AddDevice(dev));
        transition(&mut state, busid_str, DeviceState::Bound);
        transition(&mut state, busid_str, DeviceState::Forwarded(session_id("s1")));
    }

    let snap = transition(&mut state, "1-1", DeviceState::Disconnected);
    assert_eq!(snap.forwardings.get(&session_id("s1")).map(|b| b.len()), Some(1));
    assert!(
        snap.forwardings
            .get(&session_id("s1"))
            .is_some_and(|buses| buses.contains(&busid("2-2"))),
        "2-2 should still be in forwardings"
    );
}

#[test]
fn invalid_transition_bound_to_idle_rejected() {
    let mut state = RegistrySnapshot::default();
    let dev = make_device("1-1", 0x1234, 0x5678);
    send(&mut state, RegistryCommand::AddDevice(dev));
    transition(&mut state, "1-1", DeviceState::Bound);
    let snap = transition(&mut state, "1-1", DeviceState::Idle);
    assert_eq!(
        state_of(&snap, "1-1"),
        &DeviceState::Bound,
        "Bound -> Idle should be rejected"
    );
}

#[test]
fn forwarded_to_different_forwarded_rejected() {
    let mut state = RegistrySnapshot::default();
    let dev = make_device("1-1", 0x1234, 0x5678);
    send(&mut state, RegistryCommand::AddDevice(dev));
    transition(&mut state, "1-1", DeviceState::Bound);
    transition(&mut state, "1-1", DeviceState::Forwarded(session_id("s1")));
    let snap = transition(&mut state, "1-1", DeviceState::Forwarded(session_id("s2")));
    assert!(
        matches!(state_of(&snap, "1-1"), DeviceState::Forwarded(sid) if sid == &session_id("s1")),
        "Forwarded(s1) -> Forwarded(s2) should be rejected"
    );
    assert!(!snap.forwardings.contains_key(&session_id("s2")));
}

#[test]
fn at_most_once_delivery_per_transition() {
    let mut state = RegistrySnapshot::default();
    let dev = make_device("1-1", 0x1234, 0x5678);
    send(&mut state, RegistryCommand::AddDevice(dev));

    let mut transition_count = 0u32;
    let cmd = RegistryCommand::TransitionState(busid("1-1"), DeviceState::Bound);
    let action = run_registry(Phase::Running, Incoming::Command(cmd), &mut state);
    if let RegistryAction::Publish { snapshot: snap, .. } = action {
        transition_count += 1;
        assert_eq!(state_of(&snap, "1-1"), &DeviceState::Bound);
    }
    assert!(
        transition_count > 0,
        "at least one snapshot transition should be delivered"
    );
    assert!(
        transition_count <= 3,
        "should not receive excessive transitions for a single command, got {transition_count}"
    );
}

#[test]
fn the_registry_stops_when_told_or_left_alone() {
    let mut state = RegistrySnapshot::default();
    send(&mut state, RegistryCommand::AddDevice(make_device("1-1", 1, 2)));
    assert!(matches!(
        run_registry(Phase::Running, Incoming::Shutdown, &mut state),
        RegistryAction::CloseAndDrain { phase: Phase::Draining }
    ));
    assert!(matches!(
        run_registry(Phase::Draining, Incoming::NothingWaits, &mut state),
        RegistryAction::Stop
    ));
    assert!(matches!(
        run_registry(Phase::Running, Incoming::NothingWaits, &mut state),
        RegistryAction::Wait { phase: Phase::Running }
    ));
    assert!(matches!(
        run_registry(Phase::Running, Incoming::ChannelClosed, &mut state),
        RegistryAction::Stop
    ));
    assert_eq!(state.devices.len(), 1);
    assert_eq!(DEFAULT_CHANNEL_CAPACITY, 64);
    assert_eq!(RegistryError::ChannelClosed.to_string(), "channel closed");
}

#[test]
fn a_disconnected_device_can_be_added_again() {
    let mut state = RegistrySnapshot::default();
    handle_command(RegistryCommand::AddDevice(make_device("1-1", 1, 2)), &mut state);
    transition(&mut state, "1-1", DeviceState::Disconnected);
    handle_command(RegistryCommand::AddDevice(make_device("1-1", 3, 4)), &mut state);
    assert_eq!(state_of(&state, "1-1"), &DeviceState::Idle);
    assert_eq!(state.devices.get(&busid("1-1")).unwrap().device.vid, 3);
    assert_eq!(state.devices.len(), 1);
}

#[test]
fn forwardings_follow_the_states() {
    let mut state = RegistrySnapshot::default();
    for (bus, session) in [("1-1", "s1"), ("2-2", "s2"), ("3-3", "s1"), ("4-4", "s1")] {
        send(&mut state, RegistryCommand::AddDevice(make_device(bus, 1, 2)));
        transition(&mut state, bus, DeviceState::Bound);
        transition(&mut state, bus, DeviceState::Forwarded(session_id(session)));
    }
    assert_eq!(
        state.forwardings.get(&session_id("s1")),
        Some(&vec![busid("1-1"), busid("3-3"), busid("4-4")])
    );
    transition(&mut state, "3-3", DeviceState::Idle);
    assert_eq!(
        state.forwardings.get(&session_id("s1")),
        Some(&vec![busid("1-1"), busid("4-4")])
    );
    send(&mut state, RegistryCommand::RemoveDevice(busid("2-2")));
    assert_eq!(state.forwardings.get(&session_id("s2")), None);
    assert_eq!(state.forwardings.len(), 1);
    assert_eq!(state.devices.len(), 3);
}

#[test]
fn transitions_that_are_allowed() {
    let states = [
        DeviceState::Idle,
        DeviceState::Bound,
        DeviceState::Forwarded(session_id("s")),
        DeviceState::Disconnected,
    ];
    let allowed = [
        [false, true, false, true],
        [false, false, true, true],
        [true, false, false, true],
        [false, false, false, false],
    ];
    for (i, from) in states.iter().enumerate() {
        for (j, to) in states.iter().enumerate() {
            assert_eq!(is_valid_transition(from, to), allowed[i][j]);
        }
    }
}

#[test]
fn session_id_hash_and_ord() {
    let a = session_id("a");
    let b = session_id("b");
    let a2 = session_id("a");
    assert_eq!(a, a2);
    assert_ne!(a, b);
    assert!(a < b);

    let mut set = std::collections::HashSet::new();
    set.insert(a.clone());
    assert!(set.contains(&a2));
    assert!(!set.contains(&b));
}

#[test]
fn bus_id_hash_and_ord() {
    let a = busid("1-1");
    let b = busid("2-2");
    let a2 = busid("1-1");
    assert_eq!(a, a2);
    assert_ne!(a, b);
    assert!(a < b);

    let mut set = std::collections::HashSet::new();
    set.insert(a.clone());
    assert!(set.contains(&a2));
    assert!(!set.contains(&b));
}

#[test]
fn ids_as_text() {
    assert_eq!(SessionId::from("s1").to_string(), "s1");
    assert_eq!(SessionId::from("s1".to_string()), session_id("s1"));
    assert_eq!(BusId::from("1-1").to_string(), "1-1");
    assert_eq!(BusId::from("1-1".to_string()), busid("1-1"));
}

#[test]
fn a_shutdown_drains_what_waits() {
    let mut waiting: Vec<RegistryCommand> = Vec::new();
    for i in 0..4u16 {
        let bus = format!("{}-{}", i, i);
        waiting.push(RegistryCommand::AddDevice(make_device(&bus, 0x1000 + i, 0x2000 + i)));
    }
    let mut waiting = waiting.into_iter();
    let mut state = RegistrySnapshot::default();
    let mut published: Vec<usize> = Vec::new();
    let mut phase = Phase::Running;
    let mut told = false;
    loop {
        let incoming = if !told && published.len() == 1 {
            told = true;
            Incoming::Shutdown
        } else {
            match waiting.next() {
                Some(cmd) => Incoming::Command(cmd),
                None => Incoming::NothingWaits,
            }
        };
        match run_registry(phase, incoming, &mut state) {
            RegistryAction::Publish { snapshot, phase: next } => {
                published.push(snapshot.devices.len());
                phase = next;
            }
            RegistryAction::CloseAndDrain { phase: next } => {
                assert_eq!(phase, Phase::Running);
                assert_eq!(next, Phase::Draining);
                phase = next;
            }
            RegistryAction::Wait { .. } => panic!("something is waiting until the end"),
            RegistryAction::Stop => break,
        }
    }
    assert_eq!(phase, Phase::Draining);
    assert_eq!(published, vec![1, 2, 3, 4]);
    for i in 0..4 {
        assert!(state.devices.contains_key(&busid(&format!("{}-{}", i, i))));
    }
}

#[test]
fn steps_of_a_registry() {
    assert!(matches!(
        next_phase(Phase::Running, Incoming::NothingWaits),
        Step::Wait { phase: Phase::Running }
    ));
    assert!(matches!(
        next_phase(Phase::Running, Incoming::ChannelClosed),
        Step::Stop
    ));
    assert!(matches!(
        next_phase(Phase::Draining, Incoming::ChannelClosed),
        Step::Stop
    ));
    assert!(matches!(
        next_phase(Phase::Draining, Incoming::NothingWaits),
        Step::Stop
    ));
    assert!(matches!(
        next_phase(Phase::Draining, Incoming::Shutdown),
        Step::CloseAndDrain { phase: Phase::Draining }
    ));
    let cmd = RegistryCommand::RemoveDevice(busid("1-1"));
    match next_phase(Phase::Draining, Incoming::Command(cmd)) {
        Step::Publish { cmd: RegistryCommand::RemoveDevice(bus), phase } => {
            assert_eq!(bus, busid("1-1"));
            assert_eq!(phase, Phase::Draining);
        }
        _ => panic!("a command is carried out"),
    }
}

#[test]
fn sessions_and_devices_can_be_listed() {
    let mut state = RegistrySnapshot::default();
    for (bus, session) in [("1-1", "s1"), ("2-2", "s2"), ("3-3", "s1")] {
        send(&mut state, RegistryCommand::AddDevice(make_device(bus, 1, 2)));
        transition(&mut state, bus, DeviceState::Bound);
        transition(&mut state, bus, DeviceState::Forwarded(session_id(session)));
    }
    let mut sessions = state.forwardings.keys();
    sessions.sort();
    assert_eq!(sessions, vec![&session_id("s1"), &session_id("s2")]);
    let mut buses = state.devices.keys();
    buses.sort();
    assert_eq!(buses, vec![&busid("1-1"), &busid("2-2"), &busid("3-3")]);
    assert!(RegistrySnapshot::default().devices.keys().is_empty());
}

#[test]
fn snapshots_are_shown_as_maps() {
    let mut state = RegistrySnapshot::default();
    assert_eq!(
        format!("{:?}", state),
        "RegistrySnapshot { devices: {}, forwardings: {} }"
    );
    let device = make_device("1-1", 1, 2);
    send(&mut state, RegistryCommand::AddDevice(device.clone()));
    transition(&mut state, "1-1", DeviceState::Bound);
    transition(&mut state, "1-1", DeviceState::Forwarded(session_id("s1")));
    assert_eq!(
        format!("{:?}", state.forwardings),
        "{SessionId(\"s1\"): [BusId(\"1-1\")]}"
    );
    assert_eq!(
        format!("{:?}", state.devices),
        format!(
            "{{BusId(\"1-1\"): DeviceEntry {{ device: {:?}, state: Forwarded(SessionId(\"s1\")) }}}}",
            device
        )
    );
}
