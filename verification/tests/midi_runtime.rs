use aaw::midi::runtime::autoconnect_next_state;
use aaw::midi::runtime::{
    autoconnect_slot, find_first_disconnected_input_slot, get_new_slot, input_port_connected,
    input_slot_connected, is_input_port_available, stale_input_slots, AutoConnectInput,
    AutoConnectInputState, InputPortInfo, InputSlotStatus,
};

fn port(id: &str) -> InputPortInfo {
    InputPortInfo { id: id.to_string(), name: format!("port {id}") }
}

fn on(id: &str) -> InputSlotStatus {
    InputSlotStatus::Connected { port_id: id.to_string() }
}

fn state(slot: usize, fixed: bool) -> AutoConnectInputState {
    AutoConnectInputState::from(AutoConnectInput { slot_id: slot, slot_id_fixed: fixed })
}

#[test]
fn port_availability_and_connection() {
    let ports = vec![port("129:0"), port("148:0")];
    assert!(is_input_port_available(&ports, &"148:0".to_string()));
    assert!(!is_input_port_available(&ports, &"130:0".to_string()));
    let inputs = vec![InputSlotStatus::Disconnected, on("129:0")];
    assert!(input_port_connected(&inputs, &"129:0".to_string()));
    assert!(!input_port_connected(&inputs, &"148:0".to_string()));
    assert!(input_slot_connected(&inputs, 1));
    assert!(!input_slot_connected(&inputs, 0));
    assert!(!input_slot_connected(&inputs, 2));
}

#[test]
fn first_disconnected_slot() {
    assert_eq!(find_first_disconnected_input_slot(&vec![on("a"), InputSlotStatus::Disconnected, InputSlotStatus::Disconnected]), Some(1));
    assert_eq!(find_first_disconnected_input_slot(&vec![on("a"), on("b")]), None);
}

#[test]
fn new_slot_prefers_the_preferred_slot() {
    let inputs = vec![on("a"), InputSlotStatus::Disconnected, InputSlotStatus::Disconnected];
    assert_eq!(get_new_slot(&inputs, &state(2, false)), Some(2));
    assert_eq!(get_new_slot(&inputs, &state(0, false)), Some(1));
    assert_eq!(get_new_slot(&inputs, &state(0, true)), None);
    assert_eq!(get_new_slot(&inputs, &state(5, false)), None);
}

#[test]
fn autoconnect_skips_connected_and_missing_ports() {
    let ports = vec![port("a"), port("b")];
    let inputs = vec![on("a"), InputSlotStatus::Disconnected];
    assert_eq!(autoconnect_slot(&inputs, &ports, &"a".to_string(), &state(1, false)), None);
    assert_eq!(autoconnect_slot(&inputs, &ports, &"c".to_string(), &state(1, false)), None);
    assert_eq!(autoconnect_slot(&inputs, &ports, &"b".to_string(), &state(0, false)), Some(1));
    assert_eq!(autoconnect_slot(&inputs, &ports, &"b".to_string(), &state(0, true)), None);
}

#[test]
fn stale_slots_are_those_on_vanished_ports() {
    let ports = vec![port("a")];
    let inputs = vec![on("a"), on("gone"), InputSlotStatus::Disconnected, on("also gone")];
    assert_eq!(stale_input_slots(&inputs, &ports), vec![1, 3]);
    assert_eq!(stale_input_slots(&vec![], &ports), Vec::<usize>::new());
}

#[test]
fn connected_slot_becomes_the_preferred_slot() {
    let next = autoconnect_next_state(state(0, false), 3);
    assert_eq!(next, state(3, false));
    let fixed = autoconnect_next_state(state(2, true), 2);
    assert_eq!(fixed, state(2, true));
}
