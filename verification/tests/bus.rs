use std::collections::HashMap;

use cia402_node::cia301::{addressed_service, Node, Notice, Service};
use cia402_node::cia402_runner::{Motion, State};
use cia402_node::eds::{DataValue, EDSData, Variable};
use cia402_node::frame::Frame;
use cia402_node::nmt::NmtState;

fn node(objects: &[(u16, u8, DataValue)]) -> Node {
    let mut eds_data = EDSData { od: HashMap::new() };
    for (index, sub_index, value) in objects {
        let vars = eds_data.od.entry(*index).or_default();
        vars.insert(*sub_index, Variable { value: value.clone() });
    }
    Node::initialize(0x11, eds_data).unwrap()
}

#[test]
fn identifiers_address_services() {
    for (cob_id, service) in [
        (0x000, Service::NetworkManagement),
        (0x080, Service::Sync),
        (0x100, Service::Ignored),
        (0x091, Service::Emergency),
        (0x191, Service::Ignored),
        (0x211, Service::ReceivePdo(1)),
        (0x311, Service::ReceivePdo(2)),
        (0x411, Service::ReceivePdo(3)),
        (0x511, Service::ReceivePdo(4)),
        (0x591, Service::Ignored),
        (0x611, Service::ServiceData),
        (0x711, Service::Ignored),
        (0x612, Service::Ignored),
        // Bits above the eleventh do not count.
        (0x1_0611, Service::ServiceData),
        (0x1FFF_F880, Service::Sync),
    ] {
        assert_eq!(addressed_service(0x11, cob_id), service);
    }
    // No frame addresses a node whose number does not fit into seven bits.
    for cob_id in 0x001..0x800 {
        if cob_id % 0x80 != 0 {
            assert_eq!(addressed_service(0x91, cob_id), Service::Ignored);
        }
    }
}

#[test]
fn a_new_node_is_initializing() {
    let node = node(&[]);
    assert_eq!(node.node_id, 0x11);
    assert_eq!(node.nmt_state, NmtState::Initializing);
    assert_eq!(node.nmt_state_frame(), Frame { id: 0x711, data: vec![0x00] });
    assert_eq!(node.motor_controller.state, State::NotReadyToSwitchOn);
}

#[test]
fn network_management_requests_are_followed_and_announced() {
    let mut node = node(&[]);
    for (requested, state, code) in [
        (0x01, NmtState::Operational, 0x05),
        (0x02, NmtState::Stopped, 0x04),
        (0x80, NmtState::PreOperational, 0x7F),
        (0x81, NmtState::Initializing, 0x00),
        (0x01, NmtState::Operational, 0x05),
        (0x82, NmtState::Initializing, 0x00),
    ] {
        assert!(node.accepts(0x000, &[requested, 0x11]));
        let reaction = node.handle_frame(0x000, &[requested, 0x11], 0, 0);
        assert_eq!(node.nmt_state, state);
        assert_eq!(reaction.frames, vec![Frame { id: 0x711, data: vec![code] }]);
        assert!(reaction.announcement);
        assert!(reaction.notices.is_empty());
        assert!(!reaction.cycle_due);
    }
}

#[test]
fn requests_to_others_and_unknown_requests_change_nothing() {
    let mut node = node(&[]);
    node.handle_frame(0x000, &[0x01, 0x11], 0, 0);
    for request in [[0x02, 0x12], [0x02, 0x00], [0x03, 0x11], [0x00, 0x11]] {
        let reaction = node.handle_frame(0x000, &request, 0, 0);
        assert_eq!(node.nmt_state, NmtState::Operational);
        assert!(reaction.frames.is_empty());
        assert!(!reaction.announcement);
    }
    // Bytes behind the first two do not count.
    node.handle_frame(0x000, &[0x02, 0x11, 0x77], 0, 0);
    assert_eq!(node.nmt_state, NmtState::Stopped);
    assert!(!node.accepts(0x000, &[0x01]));
    assert!(!node.accepts(0x000, &[]));
}

#[test]
fn emergency_messages_are_reported() {
    let mut node = node(&[]);
    assert!(node.accepts(0x091, &[]));
    let reaction = node.handle_frame(0x091, &[], 0, 0);
    assert!(reaction.emergency);
    assert!(reaction.frames.is_empty());
    assert!(!reaction.announcement);
    assert!(!reaction.cycle_due);
    assert!(!node.handle_frame(0x092, &[], 0, 0).emergency);
}

#[test]
fn frames_for_others_are_ignored() {
    let objects = [
        (0x1600, 0, DataValue::Unsigned8(1)),
        (0x1600, 1, DataValue::Unsigned32(0x6040_0010)),
        (0x6040, 0, DataValue::Unsigned16(0)),
    ];
    let mut node = node(&objects);
    for cob_id in [0x212, 0x612, 0x100, 0x7FF, 0x711] {
        let reaction = node.handle_frame(cob_id, &[0x23, 0x40, 0x60, 0x00, 1, 1, 1, 1], 0, 0);
        assert!(reaction.frames.is_empty());
        assert!(!reaction.emergency);
        assert_eq!(node.eds_data.get(0x6040, 0), Some(&DataValue::Unsigned16(0)));
        assert_eq!(node.motor_controller.state, State::NotReadyToSwitchOn);
    }
}

#[test]
fn sync_runs_a_cycle_and_sends_what_was_before_it() {
    let mut node = node(&[
        (0x1800, 1, DataValue::Unsigned32(0x191)),
        (0x1800, 2, DataValue::Unsigned8(255)),
        (0x1A00, 0, DataValue::Unsigned8(1)),
        (0x1A00, 1, DataValue::Unsigned32(0x6041_0010)),
        (0x6041, 0, DataValue::Unsigned16(0xABCD)),
    ]);
    let reaction = node.handle_frame(0x080, &[], 0, 0);
    assert_eq!(reaction.frames, vec![Frame { id: 0x191, data: vec![0xCD, 0xAB] }]);
    assert_eq!(node.motor_controller.state, State::SwitchedOnDisabled);
    let reaction = node.handle_frame(0x080, &[], 0, 0);
    assert_eq!(reaction.frames, vec![Frame { id: 0x191, data: vec![0x40, 0x00] }]);

    // A frame with more than the eleven bits sends, but runs no cycle.
    let before = node.motor_controller.state;
    *node.eds_data.get_mut(0x6041, 0).unwrap() = DataValue::Unsigned16(1);
    let reaction = node.handle_frame(0x1_0080, &[], 0, 0);
    assert_eq!(reaction.frames, vec![Frame { id: 0x191, data: vec![1, 0] }]);
    assert_eq!(node.motor_controller.state, before);
    assert_eq!(node.eds_data.get(0x6041, 0), Some(&DataValue::Unsigned16(1)));
}

#[test]
fn a_movement_is_commanded_over_the_bus() {
    let mut node = node(&[
        (0x1600, 0, DataValue::Unsigned8(2)),
        (0x1600, 1, DataValue::Unsigned32(0x6040_0010)),
        (0x1600, 2, DataValue::Unsigned32(0x607A_0020)),
        (0x6040, 0, DataValue::Unsigned16(0)),
        (0x6041, 0, DataValue::Unsigned16(0)),
        (0x6060, 0, DataValue::Integer8(1)),
        (0x607A, 0, DataValue::Integer32(0)),
        (0x6064, 0, DataValue::Integer32(0)),
        (0x6081, 0, DataValue::Unsigned32(10)),
        (0x6083, 0, DataValue::Unsigned32(20)),
        (0x6084, 0, DataValue::Unsigned32(30)),
    ]);
    for controlword in [0x00, 0x06, 0x07, 0x0F] {
        node.handle_frame(0x211, &[controlword, 0], 0, 0);
        assert_eq!(node.next_motion(), None);
        node.handle_frame(0x080, &[], 0, 0);
    }
    node.handle_frame(0x211, &[0x1F, 0, 0x9C, 0xFF, 0xFF, 0xFF], 0, 0);
    assert_eq!(
        node.next_motion(),
        Some(Motion::Travel { distance: 100, velocity: 10, acceleration: 20, deceleration: 30 })
    );
    assert!(node.handle_frame(0x080, &[], 1_000, 500).cycle_due);
    assert_eq!(node.motor_controller.movement_duration, Some(500));
    assert_eq!(node.eds_data.get(0x6041, 0), Some(&DataValue::Unsigned16(0x0027)));
    node.handle_frame(0x080, &[], 1_500, 0);
    node.handle_frame(0x080, &[], 1_600, 0);
    assert_eq!(node.eds_data.get(0x6041, 0), Some(&DataValue::Unsigned16(0x1427)));
}

#[test]
fn answers_address_no_service_of_any_node() {
    let mut node = node(&[
        (0x1800, 1, DataValue::Unsigned32(0x191)),
        (0x1800, 2, DataValue::Unsigned8(255)),
        (0x1804, 1, DataValue::Unsigned32(0x591)),
        (0x1804, 2, DataValue::Unsigned8(255)),
        (0x6041, 0, DataValue::Unsigned16(0)),
    ]);
    let mut frames = node.handle_frame(0x080, &[], 0, 0).frames;
    frames.extend(node.handle_frame(0x000, &[0x01, 0x11], 0, 0).frames);
    frames.extend(node.handle_frame(0x611, &[0x40, 0x41, 0x60, 0x00], 0, 0).frames);
    let ids: Vec<u16> = frames.iter().map(|frame| frame.id).collect();
    assert_eq!(ids, vec![0x191, 0x591, 0x711, 0x591]);
    for id in ids {
        for other in 0..=u8::MAX {
            assert_eq!(addressed_service(other, id as u32), Service::Ignored);
        }
    }
}

#[test]
fn the_service_and_the_cycle_can_be_run_apart() {
    let mut node = node(&[(0x6060, 0, DataValue::Integer8(2))]);
    // The service of the SYNC frame does not ask for the mode, the cycle does.
    assert!(node.accepts_service(0x080, &[]));
    assert!(!node.accepts(0x080, &[]));
    assert!(!node.mode_is_known());
    let reaction = node.serve_frame(0x080, &[]);
    assert!(reaction.cycle_due);
    assert_eq!(node.motor_controller.state, State::NotReadyToSwitchOn);
    *node.eds_data.get_mut(0x6060, 0).unwrap() = DataValue::Integer8(3);
    assert!(node.mode_is_known());
    node.update_controller(0);
    assert_eq!(node.motor_controller.state, State::SwitchedOnDisabled);
    assert!(!node.serve_frame(0x1_0080, &[]).cycle_due);
}

#[test]
fn odd_frames_are_noted() {
    let mut node = node(&[
        (0x1600, 0, DataValue::Unsigned8(4)),
        (0x1600, 1, DataValue::Unsigned32(0x2000_0010)),
        (0x1600, 2, DataValue::Unsigned32(0x2000_0008)),
        (0x1600, 3, DataValue::Unsigned32(0x2001_0008)),
        (0x1600, 4, DataValue::Unsigned32(0x1008_0020)),
        (0x2000, 0, DataValue::Unsigned8(0)),
        (0x1008, 0, DataValue::Other(vec![1])),
    ]);
    let mut notices = |cob_id: u32, data: &[u8]| node.serve_frame(cob_id, data).notices;
    assert_eq!(notices(0x000, &[0x01, 0x11]), vec![]);
    assert_eq!(notices(0x000, &[0x01, 0x11, 0]), vec![Notice::NmtLength]);
    assert_eq!(notices(0x000, &[0x03, 0x99]), vec![Notice::UnknownNmtState(0x03)]);
    assert_eq!(
        notices(0x000, &[0x03, 0x11, 0]),
        vec![Notice::NmtLength, Notice::UnknownNmtState(0x03)]
    );
    assert_eq!(notices(0x611, &[0x40, 0x00, 0x20, 0x00]), vec![]);
    assert_eq!(notices(0x611, &[0x40, 0x00, 0x20, 0, 0, 0, 0, 0, 0]), vec![Notice::RequestTooLong]);
    assert_eq!(notices(0x611, &[0x60, 0x00, 0x20, 0x00]), vec![Notice::UnsupportedCommand]);
    assert_eq!(notices(0x611, &[0x60, 0x00, 0x30, 0x00]), vec![]);
    assert_eq!(notices(0x611, &[0x40, 0x08, 0x10, 0x00]), vec![Notice::UnsupportedUpload]);
    assert_eq!(notices(0x611, &[0x23, 0x08, 0x10, 0x00]), vec![Notice::UnsupportedDownload]);
    let first = Notice::UnsupportedMapping { index: 0x2000, sub_index: 0, data_type: 0x10 };
    let last = Notice::UnsupportedMapping { index: 0x1008, sub_index: 0, data_type: 0x20 };
    assert_eq!(notices(0x211, &[7]), vec![first]);
    assert_eq!(notices(0x211, &[7, 8]), vec![first, last]);
    assert_eq!(notices(0x211, &[]), vec![]);
    assert_eq!(notices(0x212, &[7]), vec![]);
    assert_eq!(node.eds_data.get(0x1008, 0), Some(&DataValue::Other(vec![1])));
    assert_eq!(node.eds_data.get(0x2000, 0), Some(&DataValue::Unsigned8(7)));
}
