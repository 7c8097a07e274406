//! What holds of the node as a whole: how its operations fit together, what they keep and what
//! one undoes of another.

use vstd::prelude::*;

use crate::bits::{
    assigned, bit, lemma_bit_of_with_bit, lemma_bit_of_with_bits, positions_in_word, with_bit,
    with_bits,
};
use crate::cia301::{
    after_frame, answers, decoded, encoded, frame_complete, lemma_rpdo_complete_layout, mapped_object,
    mapped_size, mapped_type, mappings_of, nmt_reply, nmt_state_after,
    rpdo_complete, rpdo_index, rpdo_objects, sdo_command, sdo_complete, sdo_message, sdo_object,
    sdo_objects, sdo_reply, served, service_of, sync_messages, tpdo_active, tpdo_data,
    tpdo_message, tpdo_payload, ClientCommand, NodeState, Service,
    SYNC_COB_ID, TPDO_COUNT,
};
use crate::cia402_runner::{
    command_of, commanded, cycle, followed, mode_cycle, mode_of, next_motion, shown, state_bits, statusword_of,
    Command, Controller, HomeStatus, ModeOfOperation, Motion, ProfilePositionStatus,
    ProfileVelocityStatus, State, HOMING_NANOS,
};
use crate::eds::{same_layout, DataValue, Objects};
use crate::le::{
    le_bytes, lemma_bytes_of_value, lemma_le_bytes_len, lemma_value_of_bytes, signed_value,
    unsigned_value, width_limit,
};
use crate::nmt::{nmt_message, NmtCommand, NmtState};

verus! {

// Values and their bytes.

/// The number that bytes stand for fits into their width.
pub proof fn value_fits_its_bytes(bytes: Seq<u8>)
    ensures
        0 <= unsigned_value(bytes) < width_limit(bytes.len()),
        bytes.len() > 0 ==> -width_limit(bytes.len()) <= 2 * signed_value(bytes) < width_limit(
            bytes.len(),
        ),
    decreases bytes.len(),
{
    if bytes.len() > 0 {
        value_fits_its_bytes(bytes.drop_first());
        if bytes.len() == 1 {
            reveal_with_fuel(width_limit, 2);
        }
    }
}

proof fn lemma_widths()
    ensures
        width_limit(1) == 0x100,
        width_limit(2) == 0x1_0000,
        width_limit(4) == 0x1_0000_0000,
{
    reveal_with_fuel(width_limit, 5);
}

/// A value has as many bytes as its type says.
pub proof fn value_has_its_size(value: DataValue)
    ensures
        value.bytes().len() == value.size(),
{
    match value {
        DataValue::Integer8(v) => lemma_le_bytes_len(v as int, 1),
        DataValue::Unsigned8(v) => lemma_le_bytes_len(v as int, 1),
        DataValue::Integer16(v) => lemma_le_bytes_len(v as int, 2),
        DataValue::Unsigned16(v) => lemma_le_bytes_len(v as int, 2),
        DataValue::Integer32(v) => lemma_le_bytes_len(v as int, 4),
        DataValue::Unsigned32(v) => lemma_le_bytes_len(v as int, 4),
        DataValue::Other(_) => {},
    }
}

/// A value that was read from bytes is written as the same bytes, and its type stays what it was.
pub proof fn read_value_is_written_back(value: DataValue, data: Seq<u8>)
    requires
        data.len() >= value.size(),
    ensures
        value.same_type(value.replaced_by(data)),
        value.replaced_by(data).bytes() == data.take(value.size() as int),
{
    let bytes = data.take(value.size() as int);
    lemma_bytes_of_value(bytes);
    value_fits_its_bytes(bytes);
    lemma_widths();
    match value {
        DataValue::Unsigned8(_) => {
            assert(bytes =~= seq![data[0]]);
            reveal_with_fuel(unsigned_value, 2);
        },
        DataValue::Other(_) => {
            assert(bytes =~= Seq::<u8>::empty());
        },
        _ => {},
    }
}

/// A value of a type that is transferred, written as bytes, reads back from them into any value of
/// its type, whatever comes behind.
pub proof fn written_value_is_read_back(target: DataValue, value: DataValue, behind: Seq<u8>)
    requires
        target.same_type(value),
        value.size() > 0,
    ensures
        target.replaced_by(value.bytes() + behind) == value,
{
    let data = value.bytes() + behind;
    value_has_its_size(value);
    assert(data.take(value.size() as int) =~= value.bytes());
    lemma_widths();
    match value {
        DataValue::Integer8(v) => lemma_value_of_bytes(v as int, 1),
        DataValue::Unsigned8(v) => {
            reveal_with_fuel(le_bytes, 2);
        },
        DataValue::Integer16(v) => lemma_value_of_bytes(v as int, 2),
        DataValue::Unsigned16(v) => lemma_value_of_bytes(v as int, 2),
        DataValue::Integer32(v) => lemma_value_of_bytes(v as int, 4),
        DataValue::Unsigned32(v) => lemma_value_of_bytes(v as int, 4),
        DataValue::Other(_) => {},
    }
}

// Service data objects.

/// An upload gives back what a download wrote: after a download to an object, the reply to an
/// upload request for it carries the very bytes that came with the download.
pub proof fn upload_returns_what_was_downloaded(
    node_id: u8,
    objects: Objects,
    download: Seq<u8>,
    upload: Seq<u8>,
)
    requires
        sdo_complete(objects, ClientCommand::InitiateDownload, download),
        objects.contains_key(sdo_object(download)),
        objects[sdo_object(download)].size() > 0,
        sdo_object(upload) == sdo_object(download),
    ensures
        ({
            let key = sdo_object(download);
            let size = objects[key].size();
            let after = sdo_objects(objects, ClientCommand::InitiateDownload, download);
            sdo_reply(node_id, after, ClientCommand::InitiateUpload, upload) == Some(
                sdo_message(
                    node_id,
                    seq![(0x43 + 4 * (4 - size)) as u8] + le_bytes(key.0 as int, 2) + seq![key.1]
                        + download.subrange(4, 4 + size as int) + Seq::new((4 - size) as nat, |i: int| 0u8),
                ),
            )
        }),
{
    let key = sdo_object(download);
    let value = objects[key];
    read_value_is_written_back(value, download.skip(4));
    assert(download.skip(4).take(value.size() as int) =~= download.subrange(
        4,
        4 + value.size() as int,
    ));
}

/// A request about an object that does not exist, and one that neither begins an upload nor a
/// download, is left unanswered and changes nothing.
pub proof fn other_requests_are_left_unanswered(
    node_id: u8,
    objects: Objects,
    command: ClientCommand,
    data: Seq<u8>,
)
    requires
        !objects.contains_key(sdo_object(data)) || (command != ClientCommand::InitiateUpload
            && command != ClientCommand::InitiateDownload),
    ensures
        sdo_reply(node_id, objects, command, data) is None,
        sdo_objects(objects, command, data) == objects,
{
}

/// On the bus: a service data request that is left unanswered leaves no trace in the node, at
/// whatever time it comes.
pub proof fn unanswered_requests_leave_no_trace(
    n: NodeState,
    cob_id: u32,
    data: Seq<u8>,
    now: u128,
    duration: u128,
)
    requires
        service_of(n.node_id, cob_id) == Service::ServiceData,
        answers(n, cob_id, data).len() == 0,
    ensures
        after_frame(n, cob_id, data, now, duration) == n,
{
    assert(service_of(n.node_id, SYNC_COB_ID) == Service::Sync);
}

/// Reading changes nothing: only a download changes the object dictionary, and of it no more than
/// the object that it is about.
pub proof fn transfer_touches_its_object_only(
    objects: Objects,
    command: ClientCommand,
    data: Seq<u8>,
    key: (u16, u8),
)
    requires
        objects.contains_key(key),
        command != ClientCommand::InitiateDownload || key != sdo_object(data),
    ensures
        sdo_objects(objects, command, data).contains_key(key),
        sdo_objects(objects, command, data)[key] == objects[key],
{
}

/// Every reply of the service data server is a full frame of eight bytes.
pub proof fn service_data_reply_is_full(
    node_id: u8,
    objects: Objects,
    command: ClientCommand,
    data: Seq<u8>,
)
    requires
        data.len() >= 4,
    ensures
        sdo_reply(node_id, objects, command, data) matches Some(message) ==> message.data.len() == 8
            && message.id == 0x580u16 | node_id as u16 && message.id <= 0x7FF,
{
    let key = sdo_object(data);
    lemma_le_bytes_len(key.0 as int, 2);
    if objects.contains_key(key) {
        value_has_its_size(objects[key]);
    }
    assert(0x580u16 | node_id as u16 <= 0x7FF) by (bit_vector);
}

/// On the bus: a node that has taken a download answers an upload request for the same object
/// with the bytes of the download, whatever else the two frames say.
pub proof fn node_uploads_what_it_took(
    n: NodeState,
    cob_id: u32,
    download: Seq<u8>,
    upload: Seq<u8>,
    now: u128,
    duration: u128,
)
    requires
        service_of(n.node_id, cob_id) == Service::ServiceData,
        frame_complete(n, cob_id, download),
        sdo_command(download) == ClientCommand::InitiateDownload,
        n.objects.contains_key(sdo_object(download)),
        n.objects[sdo_object(download)].size() > 0,
        sdo_command(upload) == ClientCommand::InitiateUpload,
        sdo_object(upload) == sdo_object(download),
    ensures
        ({
            let key = sdo_object(download);
            let size = n.objects[key].size();
            answers(after_frame(n, cob_id, download, now, duration), cob_id, upload) == seq![
                sdo_message(
                    n.node_id,
                    seq![(0x43 + 4 * (4 - size)) as u8] + le_bytes(key.0 as int, 2) + seq![key.1]
                        + download.subrange(4, 4 + size as int) + Seq::new(
                        (4 - size) as nat,
                        |i: int| 0u8,
                    ),
                ),
            ]
        }),
{
    upload_returns_what_was_downloaded(n.node_id, n.objects, download, upload);
}

// Process data objects.

/// The bytes that one entry of a transmit mapping adds to the payload.
pub open spec fn contribution(objects: Objects, mapping: u32) -> Seq<u8> {
    let key = mapped_object(mapping);
    if objects.contains_key(key) {
        encoded(objects[key], mapped_type(mapping))
    } else {
        Seq::empty()
    }
}

/// The payload begins with what the first entry adds, and goes on with what the others do.
pub proof fn payload_from_the_front(objects: Objects, mappings: Seq<u32>)
    requires
        mappings.len() > 0,
    ensures
        tpdo_payload(objects, mappings) == contribution(objects, mappings[0]) + tpdo_payload(
            objects,
            mappings.drop_first(),
        ),
    decreases mappings.len(),
{
    let rest = mappings.drop_last();
    if mappings.len() == 1 {
        assert(rest =~= Seq::<u32>::empty());
        assert(mappings.drop_first() =~= Seq::<u32>::empty());
        assert(tpdo_payload(objects, mappings) =~= contribution(objects, mappings[0])
            + tpdo_payload(objects, mappings.drop_first()));
    } else {
        payload_from_the_front(objects, rest);
        assert(mappings.drop_first().drop_last() =~= rest.drop_first());
        assert(mappings.drop_first().last() == mappings.last());
        assert(tpdo_payload(objects, mappings) =~= contribution(objects, mappings[0])
            + tpdo_payload(objects, mappings.drop_first()));
    }
}

/// An entry of the mapping carries the object: it names it, and with the length of its type.
pub open spec fn carries(objects: Objects, mapping: u32, key: (u16, u8)) -> bool {
    &&& mapped_object(mapping) == key
    &&& objects.contains_key(key)
    &&& mapped_size(mapped_type(mapping), objects[key]) > 0
}

/// The value that an object has after a node has taken the payload of another: the value that the
/// other has, where the mapping carries the object, and the value that it had otherwise.
pub open spec fn transferred(
    sender: Objects,
    receiver: Objects,
    mappings: Seq<u32>,
    key: (u16, u8),
) -> DataValue {
    if exists|k: int| 0 <= k < mappings.len() && carries(sender, #[trigger] mappings[k], key) {
        sender[key]
    } else {
        receiver[key]
    }
}

/// Process data get across: a node that takes the payload of another one under the same mapping,
/// with dictionaries of the same objects and types, has the other's values in all objects that the mapping
/// carries, and its own in all others. The payload is complete for the mapping.
pub proof fn process_data_get_across(sender: Objects, receiver: Objects, mappings: Seq<u32>)
    requires
        same_layout(sender, receiver),
    ensures
        rpdo_complete(receiver, mappings, tpdo_payload(sender, mappings).len() as int),
        ({
            let after = rpdo_objects(receiver, mappings, tpdo_payload(sender, mappings));
            &&& after.dom() == receiver.dom()
            &&& forall|key: (u16, u8)| #[trigger]
                after.contains_key(key) ==> after[key] == transferred(
                    sender,
                    receiver,
                    mappings,
                    key,
                )
        }),
    decreases mappings.len(),
{
    let payload = tpdo_payload(sender, mappings);
    let after = rpdo_objects(receiver, mappings, payload);
    if mappings.len() == 0 {
    } else {
        let first = mappings[0];
        let rest = mappings.drop_first();
        let object = mapped_object(first);
        let data_type = mapped_type(first);
        let rest_payload = tpdo_payload(sender, rest);
        payload_from_the_front(sender, mappings);
        assert(sender.contains_key(object) == sender.dom().contains(object));
        assert(receiver.contains_key(object) == receiver.dom().contains(object));
        if receiver.contains_key(object) {
            assert(receiver[object].same_type(sender[object])) by {
                assert(sender[object].same_type(receiver[object]));
            }
            value_has_its_size(sender[object]);
            let size = mapped_size(data_type, sender[object]);
            assert(size == mapped_size(data_type, receiver[object]));
            assert(payload.skip(size as int) =~= rest_payload);
            let next = receiver.insert(object, decoded(receiver[object], data_type, payload));
            if size > 0 {
                written_value_is_read_back(receiver[object], sender[object], rest_payload);
                assert(next[object] == sender[object]);
            }
            assert(next.dom() =~= receiver.dom());
            assert(same_layout(sender, next));
            process_data_get_across(sender, next, rest);
            lemma_rpdo_complete_layout(receiver, next, rest, rest_payload.len() as int);
            if payload.len() == 0 {
                assert(rest_payload =~= Seq::<u8>::empty());
                assert(payload =~= rest_payload);
                lemma_nothing_from_nothing(next, rest);
                assert(next =~= receiver);
            }
            assert forall|key: (u16, u8)| #[trigger] after.contains_key(key) implies after[key]
                == transferred(sender, receiver, mappings, key) by {
                lemma_transferred_step(sender, receiver, next, mappings, key);
            }
        } else {
            assert(payload =~= rest_payload);
            process_data_get_across(sender, receiver, rest);
            if payload.len() == 0 {
                lemma_nothing_from_nothing(receiver, rest);
            }
            assert forall|key: (u16, u8)| #[trigger] after.contains_key(key) implies after[key]
                == transferred(sender, receiver, mappings, key) by {
                lemma_transferred_step(sender, receiver, receiver, mappings, key);
            }
        }
    }
}

proof fn lemma_nothing_from_nothing(objects: Objects, mappings: Seq<u32>)
    ensures
        rpdo_objects(objects, mappings, Seq::empty()) == objects,
{
}

proof fn lemma_transferred_step(
    sender: Objects,
    receiver: Objects,
    next: Objects,
    mappings: Seq<u32>,
    key: (u16, u8),
)
    requires
        mappings.len() > 0,
        carries(sender, mappings[0], key) ==> next[key] == sender[key],
        !carries(sender, mappings[0], key) ==> next[key] == receiver[key],
    ensures
        transferred(sender, next, mappings.drop_first(), key) == transferred(
            sender,
            receiver,
            mappings,
            key,
        ),
{
    let rest = mappings.drop_first();
    if exists|k: int| 0 <= k < rest.len() && carries(sender, #[trigger] rest[k], key) {
        let k = choose|k: int| 0 <= k < rest.len() && carries(sender, #[trigger] rest[k], key);
        assert(carries(sender, mappings[k + 1], key));
    } else if exists|k: int| 0 <= k < mappings.len() && carries(sender, #[trigger] mappings[k], key) {
        let k = choose|k: int|
            0 <= k < mappings.len() && carries(sender, #[trigger] mappings[k], key);
        if k > 0 {
            assert(rest[k - 1] == mappings[k]);
        }
    }
}

/// A receive process data object changes no type and no more than the objects of its mapping.
pub proof fn process_data_keep_the_layout(objects: Objects, mappings: Seq<u32>, data: Seq<u8>)
    requires
        rpdo_complete(objects, mappings, data.len() as int),
    ensures
        same_layout(objects, rpdo_objects(objects, mappings, data)),
        forall|key: (u16, u8)|
            objects.contains_key(key) && (forall|k: int|
                0 <= k < mappings.len() ==> mapped_object(#[trigger] mappings[k]) != key)
                ==> #[trigger] rpdo_objects(objects, mappings, data)[key] == objects[key],
    decreases mappings.len(),
{
    let after = rpdo_objects(objects, mappings, data);
    if mappings.len() > 0 && data.len() > 0 {
        let first = mapped_object(mappings[0]);
        let data_type = mapped_type(mappings[0]);
        let rest = mappings.drop_first();
        let (next, left) = if objects.contains_key(first) {
            let size = mapped_size(data_type, objects[first]);
            if size > 0 {
                read_value_is_written_back(objects[first], data);
            }
            (
                objects.insert(first, decoded(objects[first], data_type, data)),
                data.skip(size as int),
            )
        } else {
            (objects, data)
        };
        assert(objects.dom() =~= next.dom());
        assert(same_layout(objects, next));
        lemma_rpdo_complete_layout(objects, next, rest, left.len() as int);
        process_data_keep_the_layout(next, rest, left);
        assert(after == rpdo_objects(next, rest, left));
        assert(same_layout(objects, after)) by {
            assert forall|key: (u16, u8)| #[trigger] objects.contains_key(key) implies objects[key].same_type(
                after[key],
            ) by {
                assert(next.dom().contains(key));
                assert(next.contains_key(key));
            }
        }
        assert forall|key: (u16, u8)|
            objects.contains_key(key) && (forall|k: int|
                0 <= k < mappings.len() ==> mapped_object(#[trigger] mappings[k])
                    != key) implies #[trigger] after[key] == objects[key] by {
            assert(mapped_object(mappings[0]) != key);
            assert(next.dom().contains(key));
            assert(next.contains_key(key));
            assert forall|k: int| 0 <= k < rest.len() implies mapped_object(#[trigger] rest[k])
                != key by {
                assert(rest[k] == mappings[k + 1]);
            }
        }
    }
}

/// On SYNC a node sends every active transmit process data object, and nothing else.
pub proof fn sync_sends_what_is_active(node_id: u8, objects: Objects, count: nat, tpdo_idx: u16)
    requires
        count <= TPDO_COUNT,
    ensures
        tpdo_idx < count && tpdo_active(objects, tpdo_idx) ==> sync_messages(
            node_id,
            objects,
            count,
        ).contains(tpdo_message(node_id, tpdo_idx, tpdo_data(objects, tpdo_idx))),
        forall|i: int|
            0 <= i < sync_messages(node_id, objects, count).len() ==> exists|idx: u16|
                {
                    &&& idx < count
                    &&& #[trigger] tpdo_active(objects, idx)
                    &&& #[trigger] sync_messages(node_id, objects, count)[i] == tpdo_message(
                        node_id,
                        idx,
                        tpdo_data(objects, idx),
                    )
                },
    decreases count,
{
    let all = sync_messages(node_id, objects, count);
    if count > 0 {
        let before = sync_messages(node_id, objects, (count - 1) as nat);
        let last = (count - 1) as u16;
        sync_sends_what_is_active(node_id, objects, (count - 1) as nat, tpdo_idx);
        if tpdo_idx < count && tpdo_active(objects, tpdo_idx) {
            let message = tpdo_message(node_id, tpdo_idx, tpdo_data(objects, tpdo_idx));
            if tpdo_idx == last {
                assert(all[all.len() - 1] == message);
            } else {
                let i = choose|i: int| 0 <= i < before.len() && before[i] == message;
                assert(all[i] == message);
            }
        }
        assert forall|i: int| 0 <= i < all.len() implies exists|idx: u16|
            {
                &&& idx < count
                &&& #[trigger] tpdo_active(objects, idx)
                &&& #[trigger] all[i] == tpdo_message(node_id, idx, tpdo_data(objects, idx))
            } by {
            if i < before.len() {
                assert(all[i] == before[i]);
                let idx = choose|idx: u16|
                    {
                        &&& idx < count - 1
                        &&& #[trigger] tpdo_active(objects, idx)
                        &&& before[i] == tpdo_message(node_id, idx, tpdo_data(objects, idx))
                    };
                assert(tpdo_active(objects, idx));
            } else {
                assert(tpdo_active(objects, last));
            }
        }
    }
}

// Frames.

/// A frame that is not for the node leaves it as it is, and nothing is answered.
pub proof fn frames_for_others_are_ignored(
    n: NodeState,
    cob_id: u32,
    data: Seq<u8>,
    now: u128,
    duration: u128,
)
    requires
        service_of(n.node_id, cob_id) == Service::Ignored,
    ensures
        after_frame(n, cob_id, data, now, duration) == n,
        answers(n, cob_id, data).len() == 0,
{
    assert(service_of(n.node_id, SYNC_COB_ID) == Service::Sync);
}

/// Frames whose identifier names another node are not for the node.
pub proof fn identifier_of_another_node_is_ignored(own_id: u8, cob_id: u32)
    requires
        cob_id % 0x80 != 0,
        cob_id % 0x80 != own_id,
    ensures
        service_of(own_id, cob_id) == Service::Ignored,
{
}

/// Everything that a node sends fits a frame: a base identifier and at most eight bytes.
pub proof fn answers_fit_frames(n: NodeState, cob_id: u32, data: Seq<u8>)
    requires
        frame_complete(n, cob_id, data),
    ensures
        forall|i: int|
            0 <= i < answers(n, cob_id, data).len() ==> {
                &&& (#[trigger] answers(n, cob_id, data)[i]).id <= 0x7FF
                &&& answers(n, cob_id, data)[i].data.len() <= 8
            },
{
    match service_of(n.node_id, cob_id) {
        Service::NetworkManagement => {
            let node_id = n.node_id;
            assert(0x700u16 | node_id as u16 <= 0x7FF) by (bit_vector);
        },
        Service::Sync => {
            let all = sync_messages(n.node_id, n.objects, TPDO_COUNT as nat);
            sync_sends_what_is_active(n.node_id, n.objects, TPDO_COUNT as nat, 0);
            assert forall|i: int| 0 <= i < all.len() implies (#[trigger] all[i]).id <= 0x7FF
                && all[i].data.len() <= 8 by {
                let idx = choose|idx: u16|
                    {
                        &&& idx < TPDO_COUNT
                        &&& #[trigger] tpdo_active(n.objects, idx)
                        &&& all[i] == tpdo_message(n.node_id, idx, tpdo_data(n.objects, idx))
                    };
                assert(tpdo_active(n.objects, idx));
                let base = (0x180 + idx * 0x100) as u16;
                let node_id = n.node_id;
                assert(base <= 0x780 && base % 0x80 == 0 ==> base | node_id as u16 <= 0x7FF)
                    by (bit_vector);
            }
        },
        Service::ServiceData => {
            service_data_reply_is_full(n.node_id, n.objects, sdo_command(data), data);
        },
        _ => {},
    }
}

/// The function code of an identifier that carries the number of a node.
proof fn lemma_function_code(base: u16, node_id: u8)
    requires
        base <= 0x780,
        base % 0x100 == 0x80 || base == 0x700,
    ensures
        ({
            let id = (base | node_id as u16) as u32;
            let code = id / 0x80 % 0x10 * 0x80;
            &&& id <= 0x7FF
            &&& code == base || (base == 0x700 && code == 0x780)
            &&& node_id < 0x80 ==> id % 0x80 == node_id
        }),
{
    assert((base | node_id as u16) <= 0x7FF && ((base | node_id as u16) as u32 / 0x80 % 0x10 * 0x80
        == base || (base == 0x700 && (base | node_id as u16) as u32 / 0x80 % 0x10 * 0x80 == 0x780))
        && (node_id < 0x80 ==> (base | node_id as u16) as u32 % 0x80 == node_id as u32)) by (bit_vector)
        requires
            base <= 0x780,
            base % 0x100 == 0x80 || base == 0x700,
    ;
}

/// Nodes do not react to each other's answers: no frame that a node sends addresses a service of
/// any node. The identifier of an answer ends in the number of the node that sends it, where that
/// has no more than seven bits.
pub proof fn answers_address_no_service(n: NodeState, cob_id: u32, data: Seq<u8>, other_id: u8)
    requires
        frame_complete(n, cob_id, data),
    ensures
        forall|i: int|
            0 <= i < answers(n, cob_id, data).len() ==> {
                &&& service_of(other_id, (#[trigger] answers(n, cob_id, data)[i]).id as u32)
                    == Service::Ignored
                &&& n.node_id < 0x80 ==> answers(n, cob_id, data)[i].id % 0x80 == n.node_id
            },
{
    match service_of(n.node_id, cob_id) {
        Service::NetworkManagement => {
            lemma_function_code(0x700, n.node_id);
        },
        Service::Sync => {
            let all = sync_messages(n.node_id, n.objects, TPDO_COUNT as nat);
            sync_sends_what_is_active(n.node_id, n.objects, TPDO_COUNT as nat, 0);
            assert forall|i: int| 0 <= i < all.len() implies {
                &&& service_of(other_id, (#[trigger] all[i]).id as u32) == Service::Ignored
                &&& n.node_id < 0x80 ==> all[i].id % 0x80 == n.node_id
            } by {
                let idx = choose|idx: u16|
                    {
                        &&& idx < TPDO_COUNT
                        &&& #[trigger] tpdo_active(n.objects, idx)
                        &&& all[i] == tpdo_message(n.node_id, idx, tpdo_data(n.objects, idx))
                    };
                assert(tpdo_active(n.objects, idx));
                lemma_function_code((0x180 + idx * 0x100) as u16, n.node_id);
            }
        },
        Service::ServiceData => {
            lemma_function_code(0x580, n.node_id);
            service_data_reply_is_full(n.node_id, n.objects, sdo_command(data), data);
        },
        _ => {},
    }
}

/// No frame changes which indices and objects a node has, the types of the objects, or the number of
/// the node.
pub proof fn layout_never_changes(
    n: NodeState,
    cob_id: u32,
    data: Seq<u8>,
    now: u128,
    duration: u128,
)
    requires
        frame_complete(n, cob_id, data),
    ensures
        same_layout(n.objects, after_frame(n, cob_id, data, now, duration).objects),
        after_frame(n, cob_id, data, now, duration).indices == n.indices,
        after_frame(n, cob_id, data, now, duration).node_id == n.node_id,
{
    let after = served(n, cob_id, data);
    match service_of(n.node_id, cob_id) {
        Service::ReceivePdo(number) => {
            process_data_keep_the_layout(
                n.objects,
                mappings_of(n.objects, rpdo_index(number)),
                data,
            );
        },
        Service::ServiceData => {
            let key = sdo_object(data);
            if n.objects.contains_key(key) && sdo_command(data) == ClientCommand::InitiateDownload {
                read_value_is_written_back(n.objects[key], data.skip(4));
            }
            assert(n.objects.dom() =~= after.objects.dom());
        },
        _ => {},
    }
    if cob_id == SYNC_COB_ID {
        assert(after == n);
        let c = cycle(n, now, duration).controller;
        assert(n.objects.dom() =~= shown(n.objects, c).dom());
    }
}

/// A receive process data object leaves the values alone that are not transferred.
pub proof fn process_data_keep_untransferred_values(
    objects: Objects,
    mappings: Seq<u32>,
    data: Seq<u8>,
    key: (u16, u8),
)
    requires
        objects.contains_key(key),
        objects[key] is Other,
    ensures
        rpdo_objects(objects, mappings, data).contains_key(key),
        rpdo_objects(objects, mappings, data)[key] == objects[key],
    decreases mappings.len(),
{
    if mappings.len() > 0 && data.len() > 0 {
        let first = mapped_object(mappings[0]);
        let data_type = mapped_type(mappings[0]);
        let rest = mappings.drop_first();
        if objects.contains_key(first) {
            process_data_keep_untransferred_values(
                objects.insert(first, decoded(objects[first], data_type, data)),
                rest,
                data.skip(mapped_size(data_type, objects[first]) as int),
                key,
            );
        } else {
            process_data_keep_untransferred_values(objects, rest, data, key);
        }
    }
}

/// No frame changes a value of a type that is not transferred.
pub proof fn untransferred_values_never_change(
    n: NodeState,
    cob_id: u32,
    data: Seq<u8>,
    now: u128,
    duration: u128,
    key: (u16, u8),
)
    requires
        n.objects.contains_key(key),
        n.objects[key] is Other,
    ensures
        after_frame(n, cob_id, data, now, duration).objects.contains_key(key),
        after_frame(n, cob_id, data, now, duration).objects[key] == n.objects[key],
{
    if let Service::ReceivePdo(number) = service_of(n.node_id, cob_id) {
        process_data_keep_untransferred_values(
            n.objects,
            mappings_of(n.objects, rpdo_index(number)),
            data,
            key,
        );
    }
}

/// The motor controller changes on SYNC only, and the network management state on network
/// management requests only.
pub proof fn services_keep_to_their_part(
    n: NodeState,
    cob_id: u32,
    data: Seq<u8>,
    now: u128,
    duration: u128,
)
    ensures
        cob_id != SYNC_COB_ID ==> after_frame(n, cob_id, data, now, duration).controller == n.controller,
        service_of(n.node_id, cob_id) != Service::NetworkManagement ==> after_frame(
            n,
            cob_id,
            data,
            now,
            duration,
        ).nmt_state == n.nmt_state,
        cob_id != SYNC_COB_ID && !(service_of(n.node_id, cob_id) is ReceivePdo) && service_of(
            n.node_id,
            cob_id,
        ) != Service::ServiceData ==> after_frame(n, cob_id, data, now, duration).objects == n.objects,
{
}

// Network management.

/// A node follows the requests that name it, and announces the state that it is in afterwards; by
/// the announcement the states can be told apart.
pub proof fn network_management_is_announced(n: NodeState, data: Seq<u8>)
    ensures
        nmt_reply(n, data) is Some <==> NmtCommand::from_code(data[0]) is Some && data[1]
            == n.node_id,
        nmt_reply(n, data) matches Some(message) ==> message == nmt_message(
            n.node_id,
            nmt_state_after(n, data),
        ),
        nmt_reply(n, data) is None ==> nmt_state_after(n, data) == n.nmt_state,
{
}

/// Different states are announced differently.
pub proof fn announcements_differ(node_id: u8, a: NmtState, b: NmtState)
    requires
        nmt_message(node_id, a) == nmt_message(node_id, b),
    ensures
        a == b,
{
    assert(nmt_message(node_id, a).data[0] == a.code());
    assert(nmt_message(node_id, b).data[0] == b.code());
}

// The drive.

/// The numbers of the modes and the modes stand for each other.
pub proof fn mode_numbers_are_unique(mode: ModeOfOperation, value: i8)
    ensures
        ModeOfOperation::is_number(mode.number()),
        mode_of(mode.number()) == mode,
        ModeOfOperation::is_number(value) ==> mode_of(value).number() == value,
{
}

/// The statusword shows the state: it has the bits that the state determines.
pub open spec fn shows(word: u16, state: State) -> bool {
    forall|k: int|
        0 <= k < state_bits(state).len() ==> bit(word, (#[trigger] state_bits(state)[k]).0)
            == state_bits(state)[k].1
}

/// What a state assigns to a bit of the statusword is what its table says.
proof fn lemma_state_bits(state: State)
    ensures
        positions_in_word(state_bits(state)),
        forall|k: int|
            0 <= k < state_bits(state).len() ==> assigned(
                state_bits(state),
                (#[trigger] state_bits(state)[k]).0,
            ) == Some(state_bits(state)[k].1),
        assigned(state_bits(state), 10) is None,
        assigned(state_bits(state), 12) is None,
        assigned(state_bits(state), 13) is None,
        forall|index: usize|
            index == 4 || index >= 7 ==> #[trigger] assigned(state_bits(state), index) is None,
{
    reveal_with_fuel(assigned, 7);
}

/// The statusword of a controller shows its state, whether the target is reached and the two mode
/// specific bits, and keeps all bits that the drive profile leaves to others.
pub proof fn statusword_tells_the_truth(c: Controller, index: usize)
    requires
        index < 16,
    ensures
        shows(statusword_of(c), c.state),
        bit(statusword_of(c), 10) == c.target_reached,
        bit(statusword_of(c), 12) == c.status_oms1,
        bit(statusword_of(c), 13) == c.status_oms2,
        assigned(state_bits(c.state), index) is None && index != 10 && index != 12 && index != 13
            ==> bit(statusword_of(c), index) == bit(c.statusword, index),
        index == 4 || index == 7 || index == 8 || index == 9 || index == 11 || index >= 14 ==> bit(
            statusword_of(c),
            index,
        ) == bit(c.statusword, index),
{
    lemma_state_bits(c.state);
    let bits = state_bits(c.state);
    assert forall|i: usize| i < 16 implies #[trigger] bit(statusword_of(c), i) == (if i == 10 {
        c.target_reached
    } else if i == 12 {
        c.status_oms1
    } else if i == 13 {
        c.status_oms2
    } else {
        match assigned(bits, i) {
            Some(value) => value,
            None => bit(c.statusword, i),
        }
    }) by {
        let w0 = with_bits(c.statusword, bits);
        let w1 = with_bit(w0, 10, c.target_reached);
        let w2 = with_bit(w1, 12, c.status_oms1);
        lemma_bit_of_with_bits(c.statusword, bits, i);
        lemma_bit_of_with_bit(w0, 10, c.target_reached, i);
        lemma_bit_of_with_bit(w1, 12, c.status_oms1, i);
        lemma_bit_of_with_bit(w2, 13, c.status_oms2, i);
    }
    assert forall|k: int| 0 <= k < bits.len() implies bit(
        statusword_of(c),
        (#[trigger] bits[k]).0,
    ) == bits[k].1 by {
        assert(assigned(bits, bits[k].0) == Some(bits[k].1));
    }
}

/// No statusword shows two states: a master that reads it knows the state.
pub proof fn statusword_shows_one_state(word: u16, a: State, b: State)
    requires
        shows(word, a),
        shows(word, b),
    ensures
        a == b,
{
    let x = state_bits(a);
    let y = state_bits(b);
    assert(bit(word, x[0].0) == x[0].1 && bit(word, x[1].0) == x[1].1 && bit(word, x[2].0)
        == x[2].1 && bit(word, x[3].0) == x[3].1 && bit(word, x[4].0) == x[4].1);
    assert(bit(word, y[0].0) == y[0].1 && bit(word, y[1].0) == y[1].1 && bit(word, y[2].0)
        == y[2].1 && bit(word, y[3].0) == y[3].1 && bit(word, y[4].0) == y[4].1);
    if x.len() == 6 {
        assert(bit(word, x[5].0) == x[5].1);
    }
    if y.len() == 6 {
        assert(bit(word, y[5].0) == y[5].1);
    }
}

/// Every controlword gives one of six commands; none resumes operation after a quick stop.
pub proof fn controlwords_give_six_commands(word: u16)
    ensures
        command_of(word) != Command::NoCommand,
        command_of(word) != Command::EnableOperationAfterQuickStop,
{
}

/// The command depends on the bits 0 to 3 and 7 of the controlword alone.
pub proof fn command_ignores_the_other_bits(a: u16, b: u16)
    requires
        bit(a, 0) == bit(b, 0),
        bit(a, 1) == bit(b, 1),
        bit(a, 2) == bit(b, 2),
        bit(a, 3) == bit(b, 3),
        bit(a, 7) == bit(b, 7),
    ensures
        command_of(a) == command_of(b),
{
}

/// A drive is enabled by nothing but the command for it, given when it is switched on.
pub proof fn operation_is_enabled_on_command(
    c: Controller,
    mode: ModeOfOperation,
    controlword: u16,
)
    requires
        followed(c, mode, controlword).state == State::OperationEnabled,
    ensures
        c.state == State::OperationEnabled || (c.state == State::SwitchedOn && command_of(controlword)
            == Command::EnableOperation),
{
}

/// The way up: from power on, a drive that is commanded to shut down, to switch on and to enable
/// operation, one command in each cycle, has its operation enabled, in whatever mode.
pub proof fn three_commands_enable_operation(
    c: Controller,
    mode: ModeOfOperation,
    first: u16,
    shutdown: u16,
    switch_on: u16,
    enable: u16,
)
    requires
        c.state == State::NotReadyToSwitchOn,
        command_of(shutdown) == Command::Shutdown,
        command_of(switch_on) == Command::SwitchOn,
        command_of(enable) == Command::EnableOperation,
    ensures
        followed(
            followed(followed(followed(c, mode, first), mode, shutdown), mode, switch_on),
            mode,
            enable,
        ).state == State::OperationEnabled,
{
}

/// The way down: the command to disable the voltage takes every drive that is ready, enabled or
/// stopped to the disabled state. A drive that is switched on stays switched on.
pub proof fn disabled_voltage_disables(c: Controller, mode: ModeOfOperation, controlword: u16)
    requires
        command_of(controlword) == Command::DisableVoltage,
    ensures
        c.state == State::ReadyToSwitchOn || c.state == State::OperationEnabled || c.state
            == State::QuickStopActive ==> followed(c, mode, controlword).state
            == State::SwitchedOnDisabled,
        c.state == State::SwitchedOn ==> followed(c, mode, controlword).state == State::SwitchedOn,
{
}

/// A quick stop is left by disabling the voltage and in no other way.
pub proof fn quick_stop_ends_disabled(c: Controller, mode: ModeOfOperation, controlword: u16)
    requires
        c.state == State::QuickStopActive,
    ensures
        followed(c, mode, controlword).state == (if command_of(controlword)
            == Command::DisableVoltage {
            State::SwitchedOnDisabled
        } else {
            State::QuickStopActive
        }),
{
}

/// A fault is left by the command to reset it and in no other way; no command brings one about.
pub proof fn faults_last_until_reset(c: Controller, mode: ModeOfOperation, controlword: u16)
    ensures
        c.state == State::Fault ==> followed(c, mode, controlword).state == (if command_of(
            controlword,
        ) == Command::FaultReset {
            State::SwitchedOnDisabled
        } else {
            State::Fault
        }),
        followed(c, mode, controlword).state != State::FaultReactionActive,
        followed(c, mode, controlword).state == State::Fault ==> c.state == State::Fault || c.state
            == State::FaultReactionActive,
{
}

/// A movement starts on a rising edge: of two controlwords in a row, the first mode specific bit
/// (bit 4) is clear in the first and set in the second.
pub proof fn start_needs_a_rising_edge(
    c: Controller,
    mode_before: ModeOfOperation,
    before: u16,
    mode: ModeOfOperation,
    controlword: u16,
)
    requires
        c.control_oms1.len() == 2,
    ensures
        followed(followed(c, mode_before, before), mode, controlword).start_edge() <==> !bit(
            before,
            4,
        ) && bit(controlword, 4),
{
}

/// A cycle keeps the invariant of the controller.
pub proof fn cycle_keeps_the_controller_sound(n: NodeState, now: u128, duration: u128)
    requires
        n.controller.wf(),
    ensures
        cycle(n, now, duration).controller.wf(),
{
}

/// Nothing moves unless operation is enabled: in any other state a cycle begins no movement, ends
/// none, and leaves the flags of the statusword alone.
pub proof fn disabled_drive_stands_still(n: NodeState, now: u128, duration: u128)
    requires
        cycle(n, now, duration).controller.state != State::OperationEnabled,
    ensures
        ({
            let after = cycle(n, now, duration).controller;
            &&& next_motion(n) is None
            &&& after.profile_position_status == n.controller.profile_position_status
            &&& after.profile_velocity_status == n.controller.profile_velocity_status
            &&& after.home_status == n.controller.home_status
            &&& after.timer == n.controller.timer
            &&& after.movement_duration == n.controller.movement_duration
            &&& after.target_reached == n.controller.target_reached
            &&& after.status_oms1 == n.controller.status_oms1
            &&& after.status_oms2 == n.controller.status_oms2
        }),
{
}

/// A cycle shows the statusword (0x6041) and the mode of operation (0x6061) in the object
/// dictionary, where it has objects of the right type for them, and changes no other object.
pub proof fn cycle_shows_the_status(n: NodeState, now: u128, duration: u128, key: (u16, u8))
    ensures
        ({
            let after = cycle(n, now, duration);
            let statusword = (0x6041u16, 0u8);
            let mode = (0x6061u16, 0u8);
            &&& n.objects.get(statusword) matches Some(DataValue::Unsigned16(_))
                ==> after.objects[statusword] == DataValue::Unsigned16(after.controller.statusword)
            &&& n.objects.get(mode) matches Some(DataValue::Integer8(_)) ==> after.objects[mode]
                == DataValue::Integer8(after.controller.mode_of_operation.number())
            &&& key != statusword && key != mode ==> after.objects.get(key) == n.objects.get(key)
            &&& shows(after.controller.statusword, after.controller.state)
        }),
{
    let c = mode_cycle(commanded(n.controller, n.objects), n.objects, now, duration);
    statusword_tells_the_truth(c, 0);
}

/// A positioning movement is under way until its time is up, and no longer: the cycle that ends
/// it is the first one that comes at least its duration after it began.
pub proof fn positioning_takes_its_time(
    n: NodeState,
    begin: u128,
    length: u128,
    now: u128,
    duration: u128,
)
    requires
        n.controller.wf(),
        n.controller.profile_position_status == ProfilePositionStatus::Moving,
        n.controller.timer == Some(begin),
        n.controller.movement_duration == Some(length),
        commanded(n.controller, n.objects).state == State::OperationEnabled,
        commanded(n.controller, n.objects).mode_of_operation == ModeOfOperation::ProfilePosition,
    ensures
        ({
            let after = cycle(n, now, duration).controller;
            &&& after.profile_position_status == ProfilePositionStatus::SetpointAcknownlegde
                <==> now as int >= begin + length || length == 0
            &&& after.target_reached == n.controller.target_reached
            &&& after.timer == n.controller.timer
            &&& after.movement_duration == n.controller.movement_duration
        }),
{
}

/// An axis that speeds up or brakes does so until its time is up, and no longer.
pub proof fn change_of_speed_takes_its_time(
    n: NodeState,
    begin: u128,
    length: u128,
    now: u128,
    duration: u128,
)
    requires
        n.controller.wf(),
        n.controller.profile_velocity_status == ProfileVelocityStatus::TargetSpeedNotReached
            || n.controller.profile_velocity_status == ProfileVelocityStatus::AxisBraking,
        n.controller.timer == Some(begin),
        n.controller.movement_duration == Some(length),
        commanded(n.controller, n.objects).state == State::OperationEnabled,
        commanded(n.controller, n.objects).mode_of_operation == ModeOfOperation::ProfileVelocity,
    ensures
        ({
            let after = cycle(n, now, duration).controller;
            &&& after.profile_velocity_status == (if now as int >= begin + length || length == 0 {
                if n.controller.profile_velocity_status
                    == ProfileVelocityStatus::TargetSpeedNotReached {
                    ProfileVelocityStatus::TargetSpeedReached
                } else {
                    ProfileVelocityStatus::AxisSpeedZero
                }
            } else {
                n.controller.profile_velocity_status
            })
            &&& !after.target_reached
        }),
{
}

/// Homing is over in the first cycle that comes more than a tenth of a second after it began, and
/// the statusword then shows the target as reached and homing as attained (bit 12).
pub proof fn homing_takes_a_tenth_of_a_second(
    n: NodeState,
    begin: u128,
    now: u128,
    duration: u128,
)
    requires
        n.controller.wf(),
        n.controller.home_status == HomeStatus::Homing,
        n.controller.timer == Some(begin),
        commanded(n.controller, n.objects).state == State::OperationEnabled,
        commanded(n.controller, n.objects).mode_of_operation == ModeOfOperation::Homing,
    ensures
        ({
            let after = cycle(n, now, duration).controller;
            let over = now as int > begin + HOMING_NANOS;
            &&& after.home_status == HomeStatus::WaitingForStart <==> over
            &&& bit(after.statusword, 10) == over
            &&& bit(after.statusword, 12) == over
            &&& !bit(after.statusword, 13)
        }),
{
    let c = mode_cycle(commanded(n.controller, n.objects), n.objects, now, duration);
    statusword_tells_the_truth(c, 0);
}

/// A movement that takes time has a way to go, or a speed to change, and rates to do it with: none
/// of the numbers that its duration is computed from is zero.
pub proof fn motion_numbers_are_positive(n: NodeState)
    ensures
        next_motion(n) matches Some(motion) ==> match motion {
            Motion::Travel { distance, velocity, acceleration, deceleration } => distance > 0
                && velocity > 0 && acceleration > 0 && deceleration > 0,
            Motion::Accelerate { speed, acceleration } => speed > 0 && acceleration > 0,
            Motion::Brake { speed, deceleration } => speed > 0 && deceleration > 0,
        },
{
}

/// A movement that is announced begins with the cycle, and takes the duration that the cycle is
/// given. Where none is announced, the duration given makes no difference.
pub proof fn announced_motion_begins(n: NodeState, now: u128, duration: u128, other: u128)
    requires
        n.controller.wf(),
    ensures
        next_motion(n) is Some ==> {
            let after = cycle(n, now, duration).controller;
            &&& after.timer == Some(now)
            &&& after.movement_duration == Some(duration)
            &&& after.moving()
        },
        next_motion(n) is None ==> cycle(n, now, duration) == cycle(n, now, other),
{
}

// Histories.

/// A frame that a node takes, the time at which it does, and how long a movement takes that begins.
pub struct Event {
    pub cob_id: u32,
    pub data: Seq<u8>,
    pub now: u128,
    pub duration: u128,
}

/// The node can take the frame.
pub open spec fn event_possible(n: NodeState, event: Event) -> bool {
    frame_complete(n, event.cob_id, event.data)
}

/// The node after the frame.
pub open spec fn after_event(n: NodeState, event: Event) -> NodeState {
    after_frame(n, event.cob_id, event.data, event.now, event.duration)
}

/// The node after a series of events.
pub open spec fn after_events(n: NodeState, events: Seq<Event>) -> NodeState
    decreases events.len(),
{
    if events.len() == 0 {
        n
    } else {
        after_event(after_events(n, events.drop_last()), events.last())
    }
}

/// The node can take each of a series of events when its turn comes.
pub open spec fn events_possible(n: NodeState, events: Seq<Event>) -> bool
    decreases events.len(),
{
    events.len() == 0 || (events_possible(n, events.drop_last()) && event_possible(
        after_events(n, events.drop_last()),
        events.last(),
    ))
}

/// Whatever happens to a node: its motor controller stays sound, its number stays the same, and so
/// do its indices and objects, their types, and the values that are not transferred.
pub proof fn history_keeps_the_node_sound(n: NodeState, events: Seq<Event>)
    requires
        n.controller.wf(),
        events_possible(n, events),
    ensures
        after_events(n, events).controller.wf(),
        after_events(n, events).node_id == n.node_id,
        after_events(n, events).indices == n.indices,
        same_layout(n.objects, after_events(n, events).objects),
        forall|key: (u16, u8)| #[trigger]
            n.objects.contains_key(key) && n.objects[key] is Other ==> after_events(
                n,
                events,
            ).objects[key] == n.objects[key],
    decreases events.len(),
{
    if events.len() > 0 {
        let event = events.last();
        let before = after_events(n, events.drop_last());
        let after = after_event(before, event);
        history_keeps_the_node_sound(n, events.drop_last());
        layout_never_changes(before, event.cob_id, event.data, event.now, event.duration);
        services_keep_to_their_part(before, event.cob_id, event.data, event.now, event.duration);
        if event.cob_id == SYNC_COB_ID {
            assert(served(before, event.cob_id, event.data) == before);
            cycle_keeps_the_controller_sound(before, event.now, event.duration);
        }
        assert forall|key: (u16, u8)| #[trigger] n.objects.contains_key(key) implies {
            &&& n.objects[key].same_type(after.objects[key])
            &&& n.objects[key] is Other ==> after.objects[key] == n.objects[key]
        } by {
            assert(before.objects.dom().contains(key));
            assert(before.objects.contains_key(key));
            if n.objects[key] is Other {
                untransferred_values_never_change(
                    before,
                    event.cob_id,
                    event.data,
                    event.now,
                    event.duration,
                    key,
                );
            }
        }
    }
}

/// A drive without a fault never gets into one: whatever happens to the node, its state is none of
/// the two fault states.
pub proof fn no_history_leads_to_a_fault(n: NodeState, events: Seq<Event>)
    requires
        n.controller.state != State::Fault,
        n.controller.state != State::FaultReactionActive,
    ensures
        after_events(n, events).controller.state != State::Fault,
        after_events(n, events).controller.state != State::FaultReactionActive,
    decreases events.len(),
{
    if events.len() > 0 {
        no_history_leads_to_a_fault(n, events.drop_last());
    }
}

/// The node after cycles at a series of times, given one duration for the movements that begin.
pub open spec fn after_cycles(n: NodeState, times: Seq<u128>, duration: u128) -> NodeState
    decreases times.len(),
{
    if times.len() == 0 {
        n
    } else {
        cycle(after_cycles(n, times.drop_last(), duration), times.last(), duration)
    }
}

/// A positioning movement lasts: as long as the object dictionary commands an enabled drive in
/// profile position mode, all cycles that come before the duration is over leave it under way, and
/// whether the target counts as reached stays as it was; the commands stay in force.
pub proof fn positioning_lasts(
    n: NodeState,
    begin: u128,
    length: u128,
    times: Seq<u128>,
    duration: u128,
)
    requires
        n.controller.wf(),
        n.controller.state == State::OperationEnabled,
        n.controller.profile_position_status == ProfilePositionStatus::Moving,
        n.controller.timer == Some(begin),
        n.controller.movement_duration == Some(length),
        n.objects.get((0x6060, 0)) == Some(DataValue::Integer8(1)),
        n.objects.get((0x6040, 0)) matches Some(DataValue::Unsigned16(controlword)) && command_of(
            controlword,
        ) == Command::EnableOperation,
        length > 0,
        forall|k: int| 0 <= k < times.len() ==> (#[trigger] times[k]) < begin + length,
    ensures
        ({
            let after = after_cycles(n, times, duration);
            &&& after.controller.wf()
            &&& after.controller.profile_position_status == ProfilePositionStatus::Moving
            &&& after.controller.state == State::OperationEnabled
            &&& after.controller.timer == Some(begin)
            &&& after.controller.movement_duration == Some(length)
            &&& after.controller.target_reached == n.controller.target_reached
            &&& after.objects.get((0x6060, 0)) == n.objects.get((0x6060, 0))
            &&& after.objects.get((0x6040, 0)) == n.objects.get((0x6040, 0))
        }),
    decreases times.len(),
{
    if times.len() > 0 {
        let rest = times.drop_last();
        let before = after_cycles(n, rest, duration);
        assert forall|k: int| 0 <= k < rest.len() implies (#[trigger] rest[k]) < begin + length by {
            assert(rest[k] == times[k]);
        }
        positioning_lasts(n, begin, length, rest, duration);
        assert(times.last() == times[times.len() - 1]);
        positioning_takes_its_time(before, begin, length, times.last(), duration);
        cycle_keeps_the_controller_sound(before, times.last(), duration);
        cycle_shows_the_status(before, times.last(), duration, (0x6060, 0));
        cycle_shows_the_status(before, times.last(), duration, (0x6040, 0));
    }
}

} // verus!
