use std::collections::HashMap;

use cia402_node::cia301::{
    decode_rpdo_value, drop_front, encode_tpdo_value, sdo_fill_upload, sdo_write_download,
    ClientCommand, Node,
};
use cia402_node::eds::{DataValue, EDSData, Variable};
use cia402_node::frame::Frame;

fn node(node_id: u8, objects: &[(u16, u8, DataValue)]) -> Node {
    let mut eds_data = EDSData { od: HashMap::new() };
    for (index, sub_index, value) in objects {
        let vars = eds_data.od.entry(*index).or_default();
        vars.insert(*sub_index, Variable { value: value.clone() });
    }
    Node::initialize(node_id, eds_data).unwrap()
}

fn reply(node: &mut Node, data: &[u8]) -> Option<Frame> {
    let cob_id = 0x600 + node.node_id as u32;
    assert!(node.accepts(cob_id, data));
    let reaction = node.handle_frame(cob_id, data, 0, 0);
    assert!(!reaction.cycle_due);
    assert!(!reaction.announcement);
    assert!(!reaction.emergency);
    assert!(reaction.frames.len() <= 1);
    reaction.frames.into_iter().next()
}

#[test]
fn client_commands_have_numbers() {
    assert_eq!(ClientCommand::client_command(0), ClientCommand::SegmentDownload);
    assert_eq!(ClientCommand::client_command(1), ClientCommand::InitiateDownload);
    assert_eq!(ClientCommand::client_command(2), ClientCommand::InitiateUpload);
    assert_eq!(ClientCommand::client_command(3), ClientCommand::SegmentUpload);
    assert_eq!(ClientCommand::client_command(4), ClientCommand::AbortTransfer);
    assert_eq!(ClientCommand::client_command(5), ClientCommand::Unknown);
    assert_eq!(ClientCommand::client_command(255), ClientCommand::Unknown);
}

#[test]
fn bytes_are_dropped_from_the_front() {
    assert_eq!(drop_front(&[1, 2, 3], 0), &[1, 2, 3]);
    assert_eq!(drop_front(&[1, 2, 3], 2), &[3]);
    assert!(drop_front(&[1, 2, 3], 3).is_empty());
    assert!(drop_front(&[1, 2, 3], 4).is_empty());
}

#[test]
fn values_fill_the_data_bytes_of_an_upload() {
    let filled = |value: DataValue| {
        let mut buf = [0xEE; 8];
        let unused = sdo_fill_upload(&value, &mut buf);
        (unused, buf)
    };
    let e = 0xEE;
    assert_eq!(filled(DataValue::Integer8(-1)), (3, [e, e, e, e, 0xFF, e, e, e]));
    assert_eq!(filled(DataValue::Unsigned8(7)), (3, [e, e, e, e, 7, e, e, e]));
    assert_eq!(filled(DataValue::Integer16(-2)), (2, [e, e, e, e, 0xFE, 0xFF, e, e]));
    assert_eq!(filled(DataValue::Unsigned16(0x1234)), (2, [e, e, e, e, 0x34, 0x12, e, e]));
    assert_eq!(filled(DataValue::Integer32(-3)), (0, [e, e, e, e, 0xFD, 0xFF, 0xFF, 0xFF]));
    assert_eq!(filled(DataValue::Unsigned32(0x0102_0304)), (0, [e, e, e, e, 4, 3, 2, 1]));
    assert_eq!(filled(DataValue::Other(vec![1])), (0, [e; 8]));
}

#[test]
fn downloads_keep_the_type_of_their_object() {
    let written = |mut value: DataValue| {
        sdo_write_download(&[0, 0, 0, 0, 0xFE, 0xFF, 0x01, 0x80], &mut value);
        value
    };
    assert_eq!(written(DataValue::Integer8(0)), DataValue::Integer8(-2));
    assert_eq!(written(DataValue::Unsigned8(0)), DataValue::Unsigned8(0xFE));
    assert_eq!(written(DataValue::Integer16(0)), DataValue::Integer16(-2));
    assert_eq!(written(DataValue::Unsigned16(0)), DataValue::Unsigned16(0xFFFE));
    assert_eq!(written(DataValue::Integer32(0)), DataValue::Integer32(0x8001_FFFE_u32 as i32));
    assert_eq!(written(DataValue::Unsigned32(0)), DataValue::Unsigned32(0x8001_FFFE));
    assert_eq!(written(DataValue::Other(vec![5])), DataValue::Other(vec![5]));
}

#[test]
fn an_upload_is_answered_with_the_value() {
    let mut node = node(5, &[(0x6064, 0, DataValue::Integer32(-2)), (0x1018, 1, DataValue::Unsigned8(3))]);
    assert_eq!(
        reply(&mut node, &[0x40, 0x64, 0x60, 0x00]),
        Some(Frame { id: 0x585, data: vec![0x43, 0x64, 0x60, 0x00, 0xFE, 0xFF, 0xFF, 0xFF] })
    );
    assert_eq!(
        reply(&mut node, &[0x40, 0x18, 0x10, 0x01, 9, 9, 9, 9]),
        Some(Frame { id: 0x585, data: vec![0x4F, 0x18, 0x10, 0x01, 3, 0, 0, 0] })
    );
}

#[test]
fn an_upload_of_an_untransferable_value_is_answered_with_zeros() {
    let mut node = node(5, &[(0x1008, 0, DataValue::Other(vec![1, 2, 3]))]);
    assert_eq!(
        reply(&mut node, &[0x40, 0x08, 0x10, 0x00]),
        Some(Frame { id: 0x585, data: vec![0x43, 0x08, 0x10, 0x00, 0, 0, 0, 0] })
    );
}

#[test]
fn an_upload_returns_what_a_download_wrote() {
    let mut node = node(5, &[
        (0x6040, 0, DataValue::Unsigned16(0)),
        (0x607A, 0, DataValue::Integer32(77)),
    ]);
    assert_eq!(
        reply(&mut node, &[0x2B, 0x40, 0x60, 0x00, 0x0F, 0x80, 0x55, 0x55]),
        Some(Frame { id: 0x585, data: vec![0x60, 0x40, 0x60, 0x00, 0, 0, 0, 0] })
    );
    assert_eq!(node.eds_data.get(0x6040, 0), Some(&DataValue::Unsigned16(0x800F)));
    assert_eq!(node.eds_data.get(0x607A, 0), Some(&DataValue::Integer32(77)));
    assert_eq!(
        reply(&mut node, &[0x40, 0x40, 0x60, 0x00]),
        Some(Frame { id: 0x585, data: vec![0x4B, 0x40, 0x60, 0x00, 0x0F, 0x80, 0, 0] })
    );
}

#[test]
fn unknown_objects_and_commands_are_left_unanswered() {
    let mut node = node(5, &[(0x6040, 0, DataValue::Unsigned16(1))]);
    assert_eq!(reply(&mut node, &[0x40, 0x40, 0x60, 0x01]), None);
    assert_eq!(reply(&mut node, &[0x23, 0x41, 0x60, 0x00]), None);
    for first in [0x00, 0x60, 0x80, 0xA0, 0xC0, 0xE0] {
        assert_eq!(reply(&mut node, &[first, 0x40, 0x60, 0x00, 2, 2, 2, 2]), None);
    }
    assert_eq!(node.eds_data.get(0x6040, 0), Some(&DataValue::Unsigned16(1)));
}

#[test]
fn incomplete_requests_are_not_accepted() {
    let node = node(5, &[
        (0x6040, 0, DataValue::Unsigned16(1)),
        (0x1008, 0, DataValue::Other(vec![1])),
    ]);
    assert!(!node.accepts(0x605, &[]));
    assert!(!node.accepts(0x605, &[0x40, 0x40, 0x60]));
    assert!(node.accepts(0x605, &[0x40, 0x40, 0x60, 0x00]));
    assert!(!node.accepts(0x605, &[0x2B, 0x40, 0x60, 0x00, 1]));
    assert!(node.accepts(0x605, &[0x2B, 0x40, 0x60, 0x00, 1, 2]));
    assert!(node.accepts(0x605, &[0x2B, 0x41, 0x60, 0x00]));
    assert!(node.accepts(0x605, &[0x2B, 0x08, 0x10, 0x00]));
    // The frame is for another node.
    assert!(node.accepts(0x606, &[]));
}

#[test]
fn mapped_values_are_taken_by_their_length() {
    let taken = |data_type: u8, mut value: DataValue| {
        let consumed = decode_rpdo_value(&[0xFF, 0xFE, 0x03, 0x04], data_type, &mut value);
        (consumed, value)
    };
    assert_eq!(taken(0x08, DataValue::Unsigned8(0)), (1, DataValue::Unsigned8(0xFF)));
    assert_eq!(taken(0x08, DataValue::Integer8(0)), (1, DataValue::Integer8(-1)));
    assert_eq!(taken(0x10, DataValue::Unsigned16(0)), (2, DataValue::Unsigned16(0xFEFF)));
    assert_eq!(taken(0x10, DataValue::Integer16(0)), (2, DataValue::Integer16(-257)));
    assert_eq!(taken(0x20, DataValue::Unsigned32(0)), (4, DataValue::Unsigned32(0x0403_FEFF)));
    assert_eq!(taken(0x20, DataValue::Integer32(0)), (4, DataValue::Integer32(0x0403_FEFF)));
    assert_eq!(taken(0x10, DataValue::Integer32(5)), (0, DataValue::Integer32(5)));
    assert_eq!(taken(0x00, DataValue::Other(vec![5])), (0, DataValue::Other(vec![5])));
    let mut value = DataValue::Unsigned32(5);
    assert_eq!(decode_rpdo_value(&[], 0x08, &mut value), 0);
}

#[test]
fn mapped_values_are_sent_by_their_length() {
    let mut buf = vec![1];
    encode_tpdo_value(&DataValue::Unsigned8(2), 0x08, &mut buf);
    encode_tpdo_value(&DataValue::Integer8(-1), 0x08, &mut buf);
    encode_tpdo_value(&DataValue::Unsigned16(0x0403), 0x10, &mut buf);
    encode_tpdo_value(&DataValue::Integer16(-2), 0x10, &mut buf);
    assert_eq!(buf, vec![1, 2, 0xFF, 3, 4, 0xFE, 0xFF]);
    encode_tpdo_value(&DataValue::Unsigned32(0x0807_0605), 0x20, &mut buf);
    encode_tpdo_value(&DataValue::Integer32(-1), 0x20, &mut buf);
    assert_eq!(buf[7..], [5, 6, 7, 8, 0xFF, 0xFF, 0xFF, 0xFF]);
    let len = buf.len();
    encode_tpdo_value(&DataValue::Unsigned8(2), 0x10, &mut buf);
    encode_tpdo_value(&DataValue::Unsigned32(2), 0x40, &mut buf);
    encode_tpdo_value(&DataValue::Other(vec![1]), 0x00, &mut buf);
    assert_eq!(buf.len(), len);
}

fn mapped(sender: bool) -> Vec<(u16, u8, DataValue)> {
    let mapping = if sender { 0x1A00 } else { 0x1600 };
    let value = |v: i32| if sender { v } else { 0 };
    vec![
        (mapping, 0, DataValue::Unsigned8(4)),
        (mapping, 1, DataValue::Unsigned32(0x6041_0010)),
        (mapping, 2, DataValue::Unsigned32(0x7777_0008)),
        (mapping, 3, DataValue::Unsigned8(1)),
        (mapping, 4, DataValue::Unsigned32(0x6064_0020)),
        (mapping, 5, DataValue::Unsigned32(0x6061_0008)),
        (0x6041, 0, DataValue::Unsigned16(value(0x1234) as u16)),
        (0x6061, 0, DataValue::Integer8(value(6) as i8)),
        (0x6064, 0, DataValue::Integer32(value(-100_000))),
    ]
}

#[test]
fn process_data_get_from_node_to_node() {
    // The names differ, and are not transferred.
    let mut objects = mapped(true);
    objects.push((0x1008, 0, DataValue::Other(vec![1])));
    let sender = node(1, &objects);
    let payload = sender.build_tpdo_payload(0);
    assert_eq!(payload, vec![0x34, 0x12, 0x60, 0x79, 0xFE, 0xFF]);

    let mut objects = mapped(false);
    objects.push((0x1008, 0, DataValue::Other(vec![2])));
    let mut receiver = node(2, &objects);
    assert_eq!(receiver.rpdo_mappings(1), vec![0x6041_0010, 0x7777_0008, 0x6064_0020]);
    assert!(receiver.accepts(0x202, &payload));
    let reaction = receiver.handle_frame(0x202, &payload, 0, 0);
    assert!(reaction.frames.is_empty());
    assert_eq!(receiver.eds_data.get(0x6041, 0), Some(&DataValue::Unsigned16(0x1234)));
    assert_eq!(receiver.eds_data.get(0x6064, 0), Some(&DataValue::Integer32(-100_000)));
    assert_eq!(receiver.eds_data.get(0x6061, 0), Some(&DataValue::Integer8(0)));
    assert_eq!(receiver.eds_data.get(0x1008, 0), Some(&DataValue::Other(vec![2])));
}

#[test]
fn a_receive_pdo_stops_where_its_bytes_end() {
    let mut receiver = node(2, &mapped(false));
    assert!(receiver.accepts(0x202, &[0x34, 0x12]));
    receiver.handle_frame(0x202, &[0x34, 0x12], 0, 0);
    assert_eq!(receiver.eds_data.get(0x6041, 0), Some(&DataValue::Unsigned16(0x1234)));
    assert_eq!(receiver.eds_data.get(0x6064, 0), Some(&DataValue::Integer32(0)));
    assert!(receiver.accepts(0x202, &[]));
    assert!(!receiver.accepts(0x202, &[0x34]));
    assert!(!receiver.accepts(0x202, &[0x34, 0x12, 1, 2, 3]));
    // There is no mapping for the second one.
    assert!(receiver.rpdo_mappings(2).is_empty());
    assert!(receiver.accepts(0x302, &[1]));
}

#[test]
fn the_four_receive_pdos_have_their_mappings() {
    for number in 1..=4u16 {
        let mapping = 0x1600 + number - 1;
        let mut receiver = node(2, &[
            (mapping, 0, DataValue::Unsigned8(1)),
            (mapping, 1, DataValue::Unsigned32(0x2000_0310)),
            (0x2000, 3, DataValue::Integer16(0)),
        ]);
        let cob_id = 0x102 + 0x100 * number as u32;
        receiver.handle_frame(cob_id, &[0xFE, 0xFF], 0, 0);
        assert_eq!(receiver.eds_data.get(0x2000, 3), Some(&DataValue::Integer16(-2)));
    }
}

fn tpdo(idx: u16, id: u32, kind: u8) -> Vec<(u16, u8, DataValue)> {
    vec![
        (0x1800 + idx, 1, DataValue::Unsigned32(id)),
        (0x1800 + idx, 2, DataValue::Unsigned8(kind)),
        (0x1A00 + idx, 0, DataValue::Unsigned8(1)),
        (0x1A00 + idx, 1, DataValue::Unsigned32(0x2000_0008)),
    ]
}

#[test]
fn active_transmit_pdos_are_sent_on_sync() {
    let mut objects = vec![(0x2000, 0, DataValue::Unsigned8(0x5A))];
    objects.extend(tpdo(0, 0x181, 255));
    objects.extend(tpdo(1, 0x8000_0281, 255));
    objects.extend(tpdo(2, 0x381, 1));
    objects.extend(tpdo(6, 0x781, 255));
    let mut sender = node(1, &objects);
    assert!(sender.tpdo_is_sync_active(0));
    assert!(!sender.tpdo_is_sync_active(1));
    assert!(!sender.tpdo_is_sync_active(2));
    assert!(!sender.tpdo_is_sync_active(3));
    assert!(sender.accepts(0x80, &[]));
    let reaction = sender.handle_frame(0x80, &[], 0, 0);
    assert_eq!(reaction.frames, vec![
        Frame { id: 0x181, data: vec![0x5A] },
        Frame { id: 0x781, data: vec![0x5A] },
    ]);
}

#[test]
fn transmit_pdos_that_fit_no_frame_are_not_accepted() {
    // The eighth one has no base identifier.
    let mut objects = vec![(0x2000, 0, DataValue::Unsigned8(1))];
    objects.extend(tpdo(7, 0x881, 255));
    objects.extend(tpdo(2, 0x381, 255));
    let sender = node(1, &objects);
    assert!(!sender.accepts(0x80, &[]));
    // Those before it can be sent all the same.
    assert_eq!(sender.sendable_sync_frames(), vec![Frame { id: 0x381, data: vec![1] }]);

    // Nine bytes are too many, eight are not.
    let mut objects = vec![(0x2000, 0, DataValue::Unsigned8(1))];
    objects.extend(tpdo(0, 0x181, 255));
    for sub_index in 1..=9 {
        objects.push((0x1A00, sub_index, DataValue::Unsigned32(0x2000_0008)));
    }
    let mut sender = node(1, &objects);
    sender.eds_data.od.get_mut(&0x1A00).unwrap().insert(0, Variable { value: DataValue::Unsigned8(9) });
    assert!(!sender.accepts(0x80, &[]));
    sender.eds_data.od.get_mut(&0x1A00).unwrap().insert(0, Variable { value: DataValue::Unsigned8(8) });
    assert!(sender.accepts(0x80, &[]));
    assert_eq!(sender.handle_frame(0x80, &[], 0, 0).frames[0].data, vec![1; 8]);
}

#[test]
fn the_last_of_255_mapping_entries_counts() {
    let node = node(1, &[
        (0x1A00, 0, DataValue::Unsigned8(255)),
        (0x1A00, 255, DataValue::Unsigned32(0x2000_0008)),
        (0x2000, 0, DataValue::Unsigned8(4)),
    ]);
    assert_eq!(node.build_tpdo_payload(0), vec![4]);
}

#[test]
fn requests_leave_the_indices_of_the_dictionary_alone() {
    let mut node = node(5, &[(0x6040, 0, DataValue::Unsigned16(1))]);
    node.eds_data.od.insert(0x3000, HashMap::new());
    for data in [[0x40, 0x41, 0x60, 0], [0x40, 0x00, 0x30, 0], [0x40, 0x40, 0x60, 9]] {
        assert_eq!(reply(&mut node, &data), None);
    }
    node.handle_frame(0x080, &[], 0, 0);
    let mut indices: Vec<u16> = node.eds_data.od.keys().copied().collect();
    indices.sort();
    assert_eq!(indices, vec![0x3000, 0x6040]);
    assert!(node.eds_data.od[&0x3000].is_empty());
    assert_eq!(node.eds_data.od[&0x6040].len(), 1);
}
