//! What the node does with frames, byte by byte: which identifiers address it, how requests and
//! replies of the services are laid out, and where the bytes of process data come from and go to.

use vstd::prelude::*;

use crate::cia301::{
    after_frame, answers, decoded, encoded, first_mappings, first_unsendable, frame_complete,
    mapped_object, mapped_size, mapped_type, mappings_of, message_of, nmt_complete,
    nmt_notices, nmt_reply, nmt_state_after, notices_of, rpdo_complete, rpdo_index, rpdo_notices,
    rpdo_objects, sdo_command, sdo_complete, sdo_notices, sdo_object, sdo_objects, sdo_reply, served,
    service_complete, service_of, sync_complete, sync_messages, tpdo_active, tpdo_data, tpdo_fits,
    tpdo_payload, unused_bytes, ClientCommand, Node, NodeState, Notice, Reaction, Service,
};
use crate::cia402_runner::{
    cycle, Command, Controller, HomeStatus, ModeOfOperation, MotorController,
    ProfilePositionStatus, ProfileVelocityStatus, State,
};
use crate::eds::{DataValue, Objects};
use crate::frame::{messages, Frame};
use crate::le::le_bytes;
use crate::meaning::{bytes_add_up, numbers_of_bytes, value_bytes_add_up};
use crate::nmt::{nmt_message, NmtState};

verus! {

// Service data.

/// The first byte of a request says what is asked for, in steps of 0x20; bytes 1 and 2 hold the
/// index, the low byte first, and byte 3 the subindex.
pub proof fn request_bytes(data: Seq<u8>)
    requires
        data.len() >= 4,
    ensures
        data[0] < 0x20 <==> sdo_command(data) == ClientCommand::SegmentDownload,
        0x20 <= data[0] < 0x40 <==> sdo_command(data) == ClientCommand::InitiateDownload,
        0x40 <= data[0] < 0x60 <==> sdo_command(data) == ClientCommand::InitiateUpload,
        0x60 <= data[0] < 0x80 <==> sdo_command(data) == ClientCommand::SegmentUpload,
        0x80 <= data[0] < 0xA0 <==> sdo_command(data) == ClientCommand::AbortTransfer,
        0xA0 <= data[0] <==> sdo_command(data) == ClientCommand::Unknown,
        sdo_object(data).0 == data[1] + 0x100 * data[2],
        sdo_object(data).1 == data[3],
{
    assert(data.subrange(1, 3) =~= seq![data[1], data[2]]);
    numbers_of_bytes(data[1], data[2], 0, 0);
}

/// The reply to a download to an object that exists: 0x60, the bytes 1 to 3 of the request unchanged,
/// and four zeros, in a frame whose identifier is 0x580 and the node's number.
pub proof fn download_is_confirmed(node_id: u8, objects: Objects, data: Seq<u8>, key: (u16, u8))
    requires
        data.len() >= 4,
        key.0 == data[1] + 0x100 * data[2],
        key.1 == data[3],
        objects.contains_key(key),
    ensures
        sdo_reply(node_id, objects, ClientCommand::InitiateDownload, data) matches Some(reply)
            && reply.id == 0x580 + node_id % 0x80 && reply.data == seq![
            0x60u8,
            data[1],
            data[2],
            data[3],
            0u8,
            0u8,
            0u8,
            0u8,
        ],
{
    request_bytes(data);
    assert(0x580u16 | node_id as u16 == 0x580 + node_id % 0x80) by (bit_vector);
    bytes_add_up(key.0 as int);
    let bytes = le_bytes(key.0 as int, 2);
    assert(bytes[0] == data[1] && bytes[1] == data[2]);
    assert(bytes =~= seq![data[1], data[2]]);
}

/// The reply to an upload of an object that exists: the first byte says how many bytes the value has,
/// the bytes 1 to 3 are those of the request, and the bytes of the value follow, filled up with
/// zeros.
pub proof fn upload_is_answered(node_id: u8, objects: Objects, data: Seq<u8>, key: (u16, u8))
    requires
        data.len() >= 4,
        key.0 == data[1] + 0x100 * data[2],
        key.1 == data[3],
        objects.contains_key(key),
    ensures
        ({
            let bytes = objects[key].bytes();
            &&& sdo_reply(node_id, objects, ClientCommand::InitiateUpload, data) matches Some(reply)
            &&& reply.id == 0x580 + node_id % 0x80
            &&& reply.data.len() == 8
            &&& bytes.len() == 1 ==> reply.data[0] == 0x4F
            &&& bytes.len() == 2 ==> reply.data[0] == 0x4B
            &&& bytes.len() == 4 ==> reply.data[0] == 0x43
            &&& bytes.len() == 0 ==> reply.data[0] == 0x43
            &&& reply.data[1] == data[1]
            &&& reply.data[2] == data[2]
            &&& reply.data[3] == data[3]
            &&& forall|i: int| 0 <= i < bytes.len() ==> reply.data[4 + i] == #[trigger] bytes[i]
            &&& forall|i: int| 4 + bytes.len() <= i < 8 ==> #[trigger] reply.data[i] == 0
        }),
{
    request_bytes(data);
    assert(0x580u16 | node_id as u16 == 0x580 + node_id % 0x80) by (bit_vector);
    bytes_add_up(key.0 as int);
    let address = le_bytes(key.0 as int, 2);
    assert(address[0] == data[1] && address[1] == data[2]);
    value_bytes_add_up(objects[key]);
    let bytes = objects[key].bytes();
    let reply = sdo_reply(node_id, objects, ClientCommand::InitiateUpload, data)->0;
    assert forall|i: int| 0 <= i < bytes.len() implies reply.data[4 + i] == #[trigger] bytes[i] by {
    }
}

/// There is no reply about an object that does not exist, nor to any command but the beginning of
/// an upload or a download.
pub proof fn other_commands_get_no_reply(
    node_id: u8,
    objects: Objects,
    command: ClientCommand,
    data: Seq<u8>,
    key: (u16, u8),
)
    requires
        data.len() >= 4,
        key.0 == data[1] + 0x100 * data[2],
        key.1 == data[3],
    ensures
        sdo_reply(node_id, objects, command, data) is Some <==> objects.contains_key(key) && (command
            == ClientCommand::InitiateUpload || command == ClientCommand::InitiateDownload),
{
    request_bytes(data);
}

/// A download gives its object the value that the bytes from the fifth on stand for, and leaves all
/// others; no other command changes an object.
pub proof fn download_writes_its_object(
    objects: Objects,
    command: ClientCommand,
    data: Seq<u8>,
    key: (u16, u8),
    other: (u16, u8),
)
    requires
        data.len() >= 4,
        key.0 == data[1] + 0x100 * data[2],
        key.1 == data[3],
    ensures
        command == ClientCommand::InitiateDownload && objects.contains_key(key) ==> sdo_objects(
            objects,
            command,
            data,
        ).get(key) == Some(objects[key].replaced_by(data.skip(4))),
        command != ClientCommand::InitiateDownload || !objects.contains_key(key) ==> sdo_objects(
            objects,
            command,
            data,
        ) == objects,
        other != key ==> sdo_objects(objects, command, data).get(other) == objects.get(other),
{
    request_bytes(data);
}

/// A request is complete when it names its object and, where it is a download to an object that
/// exists, brings as many bytes behind the first four as the value has.
pub proof fn complete_requests(
    objects: Objects,
    command: ClientCommand,
    data: Seq<u8>,
    key: (u16, u8),
)
    requires
        data.len() >= 4 ==> key.0 == data[1] + 0x100 * data[2] && key.1 == data[3],
    ensures
        sdo_complete(objects, command, data) <==> data.len() >= 4 && (command
            == ClientCommand::InitiateDownload && objects.contains_key(key) ==> data.len() >= 4
            + objects[key].bytes().len()),
{
    if data.len() >= 4 {
        request_bytes(data);
        if objects.contains_key(key) {
            value_bytes_add_up(objects[key]);
        }
    }
}

/// The unused bytes of an upload and the bytes of its value make four, unless the value is not
/// transferred.
pub proof fn unused_bytes_fill_up(value: DataValue)
    ensures
        value.bytes().len() > 0 ==> unused_bytes(value) + value.bytes().len() == 4,
        value.bytes().len() == 0 ==> unused_bytes(value) == 0,
{
    value_bytes_add_up(value);
}

// Identifiers.

/// The low seven bits of an identifier name the node, the four above the service. Bits above these
/// make no difference.
pub proof fn identifiers(own_id: u8, cob_id: u32)
    ensures
        ({
            let service = service_of(own_id, cob_id);
            let id = cob_id % 0x800;
            let own = 0 < own_id < 0x80;
            &&& service == Service::NetworkManagement <==> id == 0
            &&& service == Service::Sync <==> id == 0x80
            &&& service == Service::Emergency <==> own && id == 0x80 + own_id
            &&& service == Service::ReceivePdo(1) <==> own && id == 0x200 + own_id
            &&& service == Service::ReceivePdo(2) <==> own && id == 0x300 + own_id
            &&& service == Service::ReceivePdo(3) <==> own && id == 0x400 + own_id
            &&& service == Service::ReceivePdo(4) <==> own && id == 0x500 + own_id
            &&& service == Service::ServiceData <==> own && id == 0x600 + own_id
            &&& service matches Service::ReceivePdo(number) ==> 1 <= number <= 4
        }),
{
}

// Process data.

/// An entry of a mapping is a number made of index, subindex and length in bits.
pub proof fn mapping_entries(mapping: u32)
    ensures
        mapping == mapped_object(mapping).0 * 0x1_0000 + mapped_object(mapping).1 * 0x100
            + mapped_type(mapping),
{
}

/// The bytes of an object that an entry of a mapping with the given length in bits stands for: those
/// of its value where they have that length, and none otherwise.
pub proof fn entries_fit_their_values(value: DataValue, data_type: u8, data: Seq<u8>)
    ensures
        ({
            let fits = value.bytes().len() > 0 && data_type == 8 * value.bytes().len();
            &&& fits ==> mapped_size(data_type, value) == value.bytes().len() && encoded(
                value,
                data_type,
            ) == value.bytes() && decoded(value, data_type, data) == value.replaced_by(data)
            &&& !fits ==> mapped_size(data_type, value) == 0 && encoded(value, data_type).len() == 0
                && decoded(value, data_type, data) == value
        }),
{
    value_bytes_add_up(value);
}

/// The bytes that an entry of a mapping object stands for: those of the object with the index in
/// its upper half and the subindex in the byte below, where its lowest byte is their number of bits;
/// otherwise none.
pub open spec fn entry_bytes(objects: Objects, entry: Option<DataValue>) -> Seq<u8> {
    match entry {
        Some(DataValue::Unsigned32(m)) => match objects.get(
            ((m / 0x1_0000) as u16, (m / 0x100 % 0x100) as u8),
        ) {
            Some(value) => if m % 0x100 == 8 * value.bytes().len() {
                value.bytes()
            } else {
                Seq::empty()
            },
            None => Seq::empty(),
        },
        _ => Seq::empty(),
    }
}

proof fn lemma_payload_of_entries(objects: Objects, index: u16, count: nat)
    requires
        count <= 255,
    ensures
        tpdo_payload(objects, first_mappings(objects, index, count)) == Seq::new(
            count,
            |j: int| entry_bytes(objects, objects.get((index, (j + 1) as u8))),
        ).flatten(),
    decreases count,
{
    let part = |j: int| entry_bytes(objects, objects.get((index, (j + 1) as u8)));
    let parts = Seq::new(count, part);
    if count == 0 {
        assert(parts.flatten() =~= Seq::<u8>::empty());
    } else {
        let fewer = (count - 1) as nat;
        lemma_payload_of_entries(objects, index, fewer);
        let before = Seq::new(fewer, part);
        assert(parts =~= before.push(part(fewer as int)));
        before.lemma_flatten_push(part(fewer as int));
        let mappings = first_mappings(objects, index, count);
        let earlier = first_mappings(objects, index, fewer);
        match objects.get((index, count as u8)) {
            Some(DataValue::Unsigned32(m)) => {
                assert(mappings =~= earlier.push(m));
                assert(mappings.drop_last() =~= earlier);
                assert(mappings.last() == m);
                let key = mapped_object(m);
                if objects.contains_key(key) {
                    value_bytes_add_up(objects[key]);
                    entries_fit_their_values(objects[key], mapped_type(m), Seq::empty());
                    assert(encoded(objects[key], mapped_type(m)) =~= part(fewer as int));
                } else {
                    assert(tpdo_payload(objects, earlier) + part(fewer as int) =~= tpdo_payload(
                        objects,
                        earlier,
                    ));
                }
            },
            _ => {
                assert(tpdo_payload(objects, earlier) + part(fewer as int) =~= tpdo_payload(
                    objects,
                    earlier,
                ));
            },
        }
    }
}

/// The data of the transmit process data object `i` are the bytes that the entries of object
/// 0x1A00 + `i` stand for, one after the other, from subindex 1 up to the number of entries at
/// subindex 0. Without that number there are none.
pub proof fn transmit_data_are_those_of_the_entries(objects: Objects, i: u16, count: u8)
    requires
        0x1A00 + i <= u16::MAX,
    ensures
        objects.get(((0x1A00 + i) as u16, 0)) == Some(DataValue::Unsigned8(count)) ==> tpdo_data(
            objects,
            i,
        ) == Seq::new(
            count as nat,
            |j: int| entry_bytes(objects, objects.get(((0x1A00 + i) as u16, (j + 1) as u8))),
        ).flatten(),
        !(objects.get(((0x1A00 + i) as u16, 0)) matches Some(DataValue::Unsigned8(_)))
            ==> tpdo_data(objects, i).len() == 0,
{
    let index = (0x1A00 + i) as u16;
    lemma_payload_of_entries(objects, index, count as nat);
    if !(objects.get((index, 0)) matches Some(DataValue::Unsigned8(_))) {
        assert(mappings_of(objects, index) =~= Seq::empty());
    }
}

/// The data of a transmit process data object depend on its own mapping object, at 0x1A00 + `i`, and
/// on the objects that the entries name, and on nothing else in the dictionary.
pub proof fn transmit_data_depend_on_their_own_mapping(a: Objects, b: Objects, i: u16)
    requires
        0x1A00 + i <= u16::MAX,
        forall|sub_index: u8|
            a.get(((0x1A00 + i) as u16, sub_index)) == #[trigger] b.get(
                ((0x1A00 + i) as u16, sub_index),
            ),
        forall|sub_index: u8|
            (#[trigger] a.get(((0x1A00 + i) as u16, sub_index))) matches Some(
                DataValue::Unsigned32(m),
            ) ==> {
                let key = ((m / 0x1_0000) as u16, (m / 0x100 % 0x100) as u8);
                a.get(key) == b.get(key)
            },
    ensures
        tpdo_data(a, i) == tpdo_data(b, i),
{
    let index = (0x1A00 + i) as u16;
    assert(a.get((index, 0)) == b.get((index, 0)));
    if let Some(DataValue::Unsigned8(n)) = a.get((index, 0)) {
        transmit_data_are_those_of_the_entries(a, i, n);
        transmit_data_are_those_of_the_entries(b, i, n);
        let pa = Seq::new(n as nat, |j: int| entry_bytes(a, a.get((index, (j + 1) as u8))));
        let pb = Seq::new(n as nat, |j: int| entry_bytes(b, b.get((index, (j + 1) as u8))));
        assert forall|j: int| 0 <= j < n implies pa[j] == pb[j] by {
            let sub_index = (j + 1) as u8;
            assert(a.get((index, sub_index)) == b.get((index, sub_index)));
        }
        assert(pa =~= pb);
    } else {
        transmit_data_are_those_of_the_entries(a, i, 0);
        transmit_data_are_those_of_the_entries(b, i, 0);
        assert(tpdo_data(a, i) =~= tpdo_data(b, i));
    }
}

/// The entries of a mapping object are the 32-bit numbers from subindex 1 up to the number of
/// entries at subindex 0, in their order; whatever else stands there is passed over.
pub proof fn mappings_are_the_entries(objects: Objects, index: u16, count: u8)
    ensures
        objects.get((index, 0)) == Some(DataValue::Unsigned8(count)) ==> mappings_of(objects, index)
            == Seq::new(count as nat, |j: int| objects.get((index, (j + 1) as u8))).filter_map(
            |entry: Option<DataValue>| match entry {
                Some(DataValue::Unsigned32(m)) => Some(m),
                _ => None,
            },
        ),
        !(objects.get((index, 0)) matches Some(DataValue::Unsigned8(_))) ==> mappings_of(
            objects,
            index,
        ).len() == 0,
{
    lemma_first_mappings(objects, index, count as nat);
}

proof fn lemma_first_mappings(objects: Objects, index: u16, count: nat)
    requires
        count <= 255,
    ensures
        first_mappings(objects, index, count) == Seq::new(
            count,
            |j: int| objects.get((index, (j + 1) as u8)),
        ).filter_map(
            |entry: Option<DataValue>| match entry {
                Some(DataValue::Unsigned32(m)) => Some(m),
                _ => None,
            },
        ),
    decreases count,
{
    let all = Seq::new(count, |j: int| objects.get((index, (j + 1) as u8)));
    if count > 0 {
        let fewer = (count - 1) as nat;
        lemma_first_mappings(objects, index, fewer);
        assert(all.drop_last() =~= Seq::new(fewer, |j: int| objects.get((index, (j + 1) as u8))));
        assert(all.last() == objects.get((index, count as u8)));
    }
}

/// The mapping objects of the receive process data objects follow one another from 0x1600 on. For
/// numbers beyond the space that there is, the bits that 0x1600 has are set all the same.
pub proof fn receive_mapping_objects(rpdo_number: u16)
    requires
        rpdo_number >= 1,
    ensures
        rpdo_number <= 0x200 ==> rpdo_index(rpdo_number) == 0x1600 + rpdo_number - 1,
        rpdo_index(rpdo_number) & 0x1600 == 0x1600,
        rpdo_index(rpdo_number) & !0x1600u16 == (rpdo_number - 1) as u16 & !0x1600u16,
{
    let k = (rpdo_number - 1) as u16;
    assert((k < 0x200 ==> 0x1600u16 | k == 0x1600 + k) && (0x1600u16 | k) & 0x1600u16 == 0x1600u16
        && (0x1600u16 | k) & !0x1600u16 == k & !0x1600u16) by (bit_vector);
}

/// How many bytes of the data an entry of a mapping takes up: as many as its object has, where its
/// lowest byte is their number of bits.
pub open spec fn entry_len(objects: Objects, mapping: u32) -> nat {
    entry_bytes(objects, Some(DataValue::Unsigned32(mapping))).len()
}

/// How many bytes the entries of a mapping take up together.
pub open spec fn total_len(objects: Objects, mappings: Seq<u32>) -> nat
    decreases mappings.len(),
{
    if mappings.len() == 0 {
        0
    } else {
        entry_len(objects, mappings[0]) + total_len(objects, mappings.drop_first())
    }
}

proof fn lemma_entry_len(objects: Objects, mapping: u32)
    ensures
        ({
            let key = mapped_object(mapping);
            &&& objects.contains_key(key) ==> entry_len(objects, mapping) == mapped_size(
                mapped_type(mapping),
                objects[key],
            )
            &&& !objects.contains_key(key) ==> entry_len(objects, mapping) == 0
        }),
{
    let key = mapped_object(mapping);
    if objects.contains_key(key) {
        value_bytes_add_up(objects[key]);
    }
}

/// One entry of a receive mapping, served from data that suffice for it: its object gets the value
/// that the first bytes stand for, if the entry fits it; everything else stays.
pub proof fn receive_entry_is_served(objects: Objects, mapping: u32, data: Seq<u8>, key: (u16, u8))
    requires
        key == (((mapping / 0x1_0000) as u16, (mapping / 0x100 % 0x100) as u8)),
        data.len() > 0,
    ensures
        ({
            let after = rpdo_objects(objects, seq![mapping], data);
            let fits = objects.contains_key(key) && objects[key].bytes().len() > 0 && mapping % 0x100
                == 8 * objects[key].bytes().len();
            &&& fits ==> after == objects.insert(key, objects[key].replaced_by(data))
            &&& !fits ==> after == objects
        }),
{
    reveal_with_fuel(rpdo_objects, 2);
    assert(seq![mapping].drop_first() =~= Seq::empty());
    if objects.contains_key(key) {
        value_bytes_add_up(objects[key]);
        entries_fit_their_values(objects[key], mapped_type(mapping), data);
        assert(objects.insert(key, objects[key]) =~= objects);
    }
}

/// The data of a receive process data object are served entry by entry: the entries of the second
/// part of a mapping get the bytes that those of the first part leave. Without bytes, nothing
/// changes.
pub proof fn receive_entries_are_served_in_order(
    objects: Objects,
    first: Seq<u32>,
    second: Seq<u32>,
    data: Seq<u8>,
)
    requires
        total_len(objects, first) <= data.len(),
    ensures
        rpdo_objects(objects, first + second, data) == rpdo_objects(
            rpdo_objects(objects, first, data),
            second,
            data.skip(total_len(objects, first) as int),
        ),
        data.len() == 0 ==> rpdo_objects(objects, second, data) == objects,
    decreases first.len(),
{
    if first.len() == 0 {
        assert(first + second =~= second);
        assert(data.skip(0) =~= data);
    } else {
        assert((first + second).drop_first() =~= first.drop_first() + second);
        assert((first + second)[0] == first[0]);
        let m = first[0];
        let key = mapped_object(m);
        let size = entry_len(objects, m);
        lemma_entry_len(objects, m);
        let rest = total_len(objects, first.drop_first());
        if data.len() == 0 {
            assert(data.skip(total_len(objects, first) as int).len() == 0);
        } else if objects.contains_key(key) {
            let next = objects.insert(key, decoded(objects[key], mapped_type(m), data));
            let left = data.skip(size as int);
            assert(objects.dom() =~= next.dom());
            lemma_total_len_of_types(objects, next, first.drop_first());
            receive_entries_are_served_in_order(next, first.drop_first(), second, left);
            assert(left.skip(rest as int) =~= data.skip((size + rest) as int));
        } else {
            receive_entries_are_served_in_order(objects, first.drop_first(), second, data);
        }
    }
}

proof fn lemma_total_len_of_types(a: Objects, b: Objects, mappings: Seq<u32>)
    requires
        a.dom() == b.dom(),
        forall|key: (u16, u8)| #[trigger] a.contains_key(key) ==> a[key].size() == b[key].size(),
    ensures
        total_len(a, mappings) == total_len(b, mappings),
    decreases mappings.len(),
{
    if mappings.len() > 0 {
        let key = mapped_object(mappings[0]);
        assert(a.contains_key(key) == b.contains_key(key));
        if a.contains_key(key) {
            value_bytes_add_up(a[key]);
            value_bytes_add_up(b[key]);
        }
        lemma_total_len_of_types(a, b, mappings.drop_first());
    }
}

/// Data suffice for one entry unless there are some, but fewer than it takes up. They suffice for
/// a mapping if they do for its first part and what this leaves does for the second.
pub proof fn complete_process_data(
    objects: Objects,
    mapping: u32,
    first: Seq<u32>,
    second: Seq<u32>,
    len: int,
)
    ensures
        rpdo_complete(objects, Seq::empty(), len),
        rpdo_complete(objects, seq![mapping], len) <==> len <= 0 || entry_len(objects, mapping)
            <= len,
        rpdo_complete(objects, first + second, len) <==> rpdo_complete(objects, first, len)
            && rpdo_complete(objects, second, len - total_len(objects, first)),
    decreases first.len(),
{
    reveal_with_fuel(rpdo_complete, 2);
    assert(seq![mapping].drop_first() =~= Seq::empty());
    lemma_entry_len(objects, mapping);
    if first.len() == 0 {
        assert(first + second =~= second);
    } else {
        assert((first + second).drop_first() =~= first.drop_first() + second);
        assert((first + second)[0] == first[0]);
        lemma_entry_len(objects, first[0]);
        complete_process_data(
            objects,
            mapping,
            first.drop_first(),
            second,
            len - entry_len(objects, first[0]),
        );
    }
}

/// A transmit process data object is to be sent on SYNC exactly where the top bit of its identifier
/// object is clear and its transmission type is 255. It can be sent where its number is below 7 and
/// it has at most eight bytes.
pub proof fn transmit_objects(objects: Objects, i: u16)
    requires
        0x1800 + i <= u16::MAX,
    ensures
        tpdo_active(objects, i) <==> {
            &&& objects.get(((0x1800 + i) as u16, 1)) matches Some(DataValue::Unsigned32(id)) && id
                / 0x8000_0000 == 0
            &&& objects.get(((0x1800 + i) as u16, 2)) matches Some(DataValue::Unsigned8(kind))
                && kind == 255
        },
        tpdo_fits(objects, i) <==> i < 7 && tpdo_data(objects, i).len() <= 8,
{
}

/// How many of the first `count` transmit process data objects are sent on SYNC.
pub open spec fn active_below(objects: Objects, count: nat) -> nat
    decreases count,
{
    if count == 0 {
        0
    } else {
        active_below(objects, (count - 1) as nat) + (if tpdo_active(objects, (count - 1) as u16) {
            1nat
        } else {
            0nat
        })
    }
}

/// On SYNC, each transmit process data object that is active sends one frame with its own identifier
/// and its own data, behind those with lower numbers; nothing else is sent.
pub proof fn sync_sends_one_frame_each(node_id: u8, objects: Objects, count: nat, i: u16)
    requires
        count <= 8,
    ensures
        sync_messages(node_id, objects, count).len() == active_below(objects, count),
        i < count && tpdo_active(objects, i) ==> {
            let sent = sync_messages(node_id, objects, count);
            let place = active_below(objects, i as nat);
            &&& place < sent.len()
            &&& sent[place as int].id == 0x180 + i * 0x100 + node_id % 0x80
            &&& sent[place as int].data == tpdo_data(objects, i)
        },
    decreases count,
{
    if count > 0 {
        sync_sends_one_frame_each(node_id, objects, (count - 1) as nat, i);
        if i == count - 1 {
            let base = (0x180 + i * 0x100) as u16;
            assert(base <= 0x880 && base % 0x100 == 0x80 ==> base | node_id as u16 == base + node_id
                % 0x80) by (bit_vector);
        }
    }
}

/// The frames that can be sent on SYNC are those of all objects before the first one that is active
/// and fits no frame. All can be sent exactly where there is none.
pub proof fn sendable_objects(objects: Objects, from: nat)
    requires
        from <= 8,
    ensures
        from <= first_unsendable(objects, from) <= 8,
        forall|i: u16|
            from <= i < first_unsendable(objects, from) && #[trigger] tpdo_active(objects, i) ==> i
                < 7 && tpdo_data(objects, i).len() <= 8,
        first_unsendable(objects, from) < 8 ==> {
            let i = first_unsendable(objects, from) as u16;
            tpdo_active(objects, i) && !(i < 7 && tpdo_data(objects, i).len() <= 8)
        },
        sync_complete(objects) <==> forall|i: u16|
            i < 8 && #[trigger] tpdo_active(objects, i) ==> i < 7 && tpdo_data(objects, i).len()
                <= 8,
    decreases 8 - from,
{
    if from < 8 && !(tpdo_active(objects, from as u16) && !tpdo_fits(objects, from as u16)) {
        sendable_objects(objects, from + 1);
    }
    assert forall|i: u16| i < 8 implies #[trigger] tpdo_fits(objects, i) == (i < 7 && tpdo_data(
        objects,
        i,
    ).len() <= 8) by {
    }
}

// Network management.

/// A request to the node itself: 1 starts it, 2 stops it, 0x80 makes it pre-operational, 0x81 and
/// 0x82 reset it. Every other request, and one to another node, changes nothing and has no reply.
pub proof fn network_management_requests(n: NodeState, data: Seq<u8>)
    ensures
        ({
            let own = data[1] == n.node_id;
            let state = nmt_state_after(n, data);
            let known = data[0] == 1 || data[0] == 2 || data[0] == 0x80 || data[0] == 0x81 || data[0]
                == 0x82;
            &&& own && data[0] == 1 ==> state == NmtState::Operational
            &&& own && data[0] == 2 ==> state == NmtState::Stopped
            &&& own && data[0] == 0x80 ==> state == NmtState::PreOperational
            &&& own && data[0] == 0x81 ==> state == NmtState::Initializing
            &&& own && data[0] == 0x82 ==> state == NmtState::Initializing
            &&& !own || !known ==> state == n.nmt_state && nmt_reply(n, data) is None
            &&& own && known ==> nmt_reply(n, data) == Some(nmt_message(n.node_id, state))
        }),
        nmt_complete(data) <==> data.len() >= 2,
{
}

/// The announcement of a state: the identifier 0x700 and the node's number, and one byte that is 0, 4,
/// 5 or 0x7F.
pub proof fn announcements(node_id: u8, state: NmtState)
    ensures
        ({
            let sent = nmt_message(node_id, state);
            &&& sent.id == 0x700 + node_id
            &&& sent.data.len() == 1
            &&& state == NmtState::Initializing <==> sent.data[0] == 0
            &&& state == NmtState::Stopped <==> sent.data[0] == 4
            &&& state == NmtState::Operational <==> sent.data[0] == 5
            &&& state == NmtState::PreOperational <==> sent.data[0] == 0x7F
        }),
{
    assert(0x700u16 | node_id as u16 == 0x700 + node_id) by (bit_vector);
}

// Frames.

/// A frame with the identifier 0x600 and the node's number is a service data request: the node
/// answers it with one frame, or with none, and changes at most the object that it names.
pub proof fn service_data_frames(
    n: NodeState,
    cob_id: u32,
    data: Seq<u8>,
    key: (u16, u8),
    now: u128,
    duration: u128,
)
    requires
        0 < n.node_id < 0x80,
        cob_id % 0x800 == 0x600 + n.node_id,
        data.len() >= 4,
        key.0 == data[1] + 0x100 * data[2],
        key.1 == data[3],
    ensures
        ({
            let sent = answers(n, cob_id, data);
            let after = after_frame(n, cob_id, data, now, duration);
            let found = n.objects.contains_key(key);
            let bytes = n.objects[key].bytes();
            &&& found && 0x20 <= data[0] < 0x40 ==> {
                &&& sent.len() == 1
                &&& sent[0].id == 0x580 + n.node_id
                &&& sent[0].data == seq![0x60u8, data[1], data[2], data[3], 0u8, 0u8, 0u8, 0u8]
                &&& after.objects == n.objects.insert(key, n.objects[key].replaced_by(data.skip(4)))
            }
            &&& found && 0x40 <= data[0] < 0x60 ==> {
                &&& sent.len() == 1
                &&& sent[0].id == 0x580 + n.node_id
                &&& sent[0].data.len() == 8
                &&& bytes.len() == 1 ==> sent[0].data[0] == 0x4F
                &&& bytes.len() == 2 ==> sent[0].data[0] == 0x4B
                &&& bytes.len() == 4 || bytes.len() == 0 ==> sent[0].data[0] == 0x43
                &&& sent[0].data.subrange(1, 4) == data.subrange(1, 4)
                &&& forall|i: int|
                    0 <= i < bytes.len() ==> sent[0].data[4 + i] == #[trigger] bytes[i]
                &&& forall|i: int|
                    4 + bytes.len() <= i < 8 ==> #[trigger] sent[0].data[i] == 0
            }
            &&& !found || data[0] < 0x20 || data[0] >= 0x60 ==> sent.len() == 0
            &&& !found || data[0] < 0x20 || data[0] >= 0x40 ==> after.objects == n.objects
            &&& after.node_id == n.node_id
            &&& after.indices == n.indices
            &&& after.nmt_state == n.nmt_state
            &&& after.controller == n.controller
        }),
{
    identifiers(n.node_id, cob_id);
    request_bytes(data);
    other_commands_get_no_reply(n.node_id, n.objects, sdo_command(data), data, key);
    if n.objects.contains_key(key) {
        download_is_confirmed(n.node_id, n.objects, data, key);
        upload_is_answered(n.node_id, n.objects, data, key);
        if 0x40 <= data[0] < 0x60 {
            let sent = answers(n, cob_id, data);
            assert(sent[0] == sdo_reply(n.node_id, n.objects, sdo_command(data), data)->0);
            assert(sent[0].data.subrange(1, 4) =~= data.subrange(1, 4));
        }
    }
}

/// A frame with the identifier 0x200, 0x300, 0x400 or 0x500 and the node's number is a receive process
/// data object: its data go to the objects that the mapping object 0x1600, 0x1601, 0x1602 or 0x1603
/// names. Nothing is sent and nothing else changes.
pub proof fn receive_process_data_frames(
    n: NodeState,
    cob_id: u32,
    number: u16,
    data: Seq<u8>,
    now: u128,
    duration: u128,
)
    requires
        0 < n.node_id < 0x80,
        1 <= number <= 4,
        cob_id % 0x800 == 0x100 + 0x100 * number + n.node_id,
    ensures
        ({
            let after = after_frame(n, cob_id, data, now, duration);
            let mappings = mappings_of(n.objects, (0x1600 + number - 1) as u16);
            &&& answers(n, cob_id, data).len() == 0
            &&& after.objects == rpdo_objects(n.objects, mappings, data)
            &&& after.node_id == n.node_id
            &&& after.indices == n.indices
            &&& after.nmt_state == n.nmt_state
            &&& after.controller == n.controller
            &&& frame_complete(n, cob_id, data) <==> rpdo_complete(
                n.objects,
                mappings,
                data.len() as int,
            )
        }),
{
    identifiers(n.node_id, cob_id);
    receive_mapping_objects(number);
    assert(service_of(n.node_id, cob_id) == Service::ReceivePdo(number));
}

/// A frame with the identifier 0 is a network management request: the node answers one that it
/// follows with the announcement of its new state, and any other one not at all.
pub proof fn network_management_frames(
    n: NodeState,
    cob_id: u32,
    data: Seq<u8>,
    now: u128,
    duration: u128,
)
    requires
        cob_id % 0x800 == 0,
    ensures
        ({
            let sent = answers(n, cob_id, data);
            let after = after_frame(n, cob_id, data, now, duration);
            let own = data[1] == n.node_id;
            let known = data[0] == 1 || data[0] == 2 || data[0] == 0x80 || data[0] == 0x81 || data[0]
                == 0x82;
            &&& own && data[0] == 1 ==> after.nmt_state == NmtState::Operational
            &&& own && data[0] == 2 ==> after.nmt_state == NmtState::Stopped
            &&& own && data[0] == 0x80 ==> after.nmt_state == NmtState::PreOperational
            &&& own && data[0] == 0x81 ==> after.nmt_state == NmtState::Initializing
            &&& own && data[0] == 0x82 ==> after.nmt_state == NmtState::Initializing
            &&& !own || !known ==> after.nmt_state == n.nmt_state && sent.len() == 0
            &&& own && known ==> {
                &&& sent.len() == 1
                &&& sent[0].id == 0x700 + n.node_id
                &&& sent[0].data.len() == 1
                &&& sent[0].data[0] == 0 <==> after.nmt_state == NmtState::Initializing
                &&& sent[0].data[0] == 4 <==> after.nmt_state == NmtState::Stopped
                &&& sent[0].data[0] == 5 <==> after.nmt_state == NmtState::Operational
                &&& sent[0].data[0] == 0x7F <==> after.nmt_state == NmtState::PreOperational
            }
            &&& after.node_id == n.node_id
            &&& after.indices == n.indices
            &&& after.objects == n.objects
            &&& after.controller == n.controller
            &&& frame_complete(n, cob_id, data) <==> data.len() >= 2
        }),
{
    identifiers(n.node_id, cob_id);
    network_management_requests(n, data);
    announcements(n.node_id, nmt_state_after(n, data));
}

/// A frame with the identifier 0x80 is the SYNC: every transmit process data object that is active
/// sends its frame, in order of their numbers, with the bytes that the entries of its own mapping
/// object stand for; then the drive runs one cycle.
pub proof fn sync_frames(
    n: NodeState,
    cob_id: u32,
    data: Seq<u8>,
    now: u128,
    duration: u128,
    i: u16,
    count: u8,
)
    requires
        cob_id % 0x800 == 0x80,
        i < 8,
        n.objects.get(((0x1A00 + i) as u16, 0)) == Some(DataValue::Unsigned8(count)),
    ensures
        ({
            let sent = answers(n, cob_id, data);
            let place = active_below(n.objects, i as nat) as int;
            &&& sent.len() == active_below(n.objects, 8)
            &&& tpdo_active(n.objects, i) ==> {
                &&& place < sent.len()
                &&& sent[place].id == 0x180 + i * 0x100 + n.node_id % 0x80
                &&& sent[place].data == Seq::new(
                    count as nat,
                    |j: int|
                        entry_bytes(
                            n.objects,
                            n.objects.get(((0x1A00 + i) as u16, (j + 1) as u8)),
                        ),
                ).flatten()
            }
            &&& cob_id == 0x80 ==> after_frame(n, cob_id, data, now, duration) == cycle(
                n,
                now,
                duration,
            )
            &&& cob_id != 0x80 ==> after_frame(n, cob_id, data, now, duration) == n
        }),
{
    identifiers(n.node_id, cob_id);
    sync_sends_one_frame_each(n.node_id, n.objects, 8, i);
    transmit_data_are_those_of_the_entries(n.objects, i, count);
}

/// Frames with any other identifier are not answered and change nothing; the node can always take
/// them.
pub proof fn other_frames(n: NodeState, cob_id: u32, data: Seq<u8>, now: u128, duration: u128)
    requires
        cob_id % 0x800 != 0,
        cob_id % 0x800 != 0x80,
        0 < n.node_id < 0x80 ==> cob_id % 0x800 != 0x200 + n.node_id && cob_id % 0x800 != 0x300
            + n.node_id && cob_id % 0x800 != 0x400 + n.node_id && cob_id % 0x800 != 0x500 + n.node_id
            && cob_id % 0x800 != 0x600 + n.node_id,
    ensures
        answers(n, cob_id, data).len() == 0,
        after_frame(n, cob_id, data, now, duration) == n,
        served(n, cob_id, data) == n,
        frame_complete(n, cob_id, data),
        notices_of(n, cob_id, data).len() == 0,
{
    identifiers(n.node_id, cob_id);
}

/// The service that a frame addresses leaves the drive alone; a cycle of the drive follows on the
/// identifier 0x80 and on no other.
pub proof fn only_sync_runs_the_drive(
    n: NodeState,
    cob_id: u32,
    data: Seq<u8>,
    now: u128,
    duration: u128,
)
    ensures
        served(n, cob_id, data).controller == n.controller,
        cob_id == 0x80 ==> served(n, cob_id, data) == n && after_frame(
            n,
            cob_id,
            data,
            now,
            duration,
        ) == cycle(n, now, duration),
        cob_id != 0x80 ==> after_frame(n, cob_id, data, now, duration) == served(n, cob_id, data),
{
    identifiers(n.node_id, cob_id);
}

/// When a node can take a SYNC frame, a service data request and a network management request.
pub proof fn complete_frames(n: NodeState, cob_id: u32, data: Seq<u8>, key: (u16, u8))
    requires
        data.len() >= 4 ==> key.0 == data[1] + 0x100 * data[2] && key.1 == data[3],
    ensures
        cob_id % 0x800 == 0x80 ==> (service_complete(n, cob_id, data) <==> forall|i: u16|
            i < 8 && #[trigger] tpdo_active(n.objects, i) ==> i < 7 && tpdo_data(
                n.objects,
                i,
            ).len() <= 8),
        cob_id == 0x80 ==> (frame_complete(n, cob_id, data) <==> service_complete(n, cob_id, data)
            && (n.objects.get((0x6060, 0)) matches Some(DataValue::Integer8(mode)) ==> mode == 0
            || mode == 1 || mode == 3 || mode == 6)),
        cob_id != 0x80 ==> (frame_complete(n, cob_id, data) <==> service_complete(n, cob_id, data)),
        0 < n.node_id < 0x80 && cob_id % 0x800 == 0x600 + n.node_id ==> (service_complete(
            n,
            cob_id,
            data,
        ) <==> data.len() >= 4 && (0x20 <= data[0] < 0x40 && n.objects.contains_key(key)
            ==> data.len() >= 4 + n.objects[key].bytes().len())),
        cob_id % 0x800 == 0 ==> (service_complete(n, cob_id, data) <==> data.len() >= 2),
{
    identifiers(n.node_id, cob_id);
    sendable_objects(n.objects, 0);
    complete_requests(n.objects, sdo_command(data), data, key);
    if data.len() >= 4 {
        request_bytes(data);
    }
}

/// What a reaction holds: the frames to send, whether one announces a state, whether an emergency has
/// come in and whether a cycle of the drive is due.
pub proof fn reactions(reaction: Reaction, n: NodeState, cob_id: u32, data: Seq<u8>, i: int)
    requires
        reaction.is_to(n, cob_id, data),
    ensures
        reaction.frames@.len() == answers(n, cob_id, data).len(),
        0 <= i < reaction.frames@.len() ==> reaction.frames@[i].id == answers(n, cob_id, data)[i].id
            && reaction.frames@[i].data@ == answers(n, cob_id, data)[i].data,
        reaction.announcement <==> cob_id % 0x800 == 0 && answers(n, cob_id, data).len() == 1,
        reaction.emergency <==> 0 < n.node_id < 0x80 && cob_id % 0x800 == 0x80 + n.node_id,
        reaction.cycle_due <==> cob_id == 0x80,
        reaction.notices@ == notices_of(n, cob_id, data),
{
    identifiers(n.node_id, cob_id);
    let sent = messages(reaction.frames@);
    assert(sent.len() == reaction.frames@.len());
    if 0 <= i < sent.len() {
        assert(sent[i] == reaction.frames@[i]@);
    }
}

/// What frames say: the identifier and the data that they hold, in their order.
pub proof fn frames_say_what_they_hold(frames: Seq<Frame>, reply: Option<Frame>, i: int)
    ensures
        messages(frames).len() == frames.len(),
        0 <= i < frames.len() ==> messages(frames)[i].id == frames[i].id && messages(frames)[i].data
            == frames[i].data@,
        message_of(reply) is None <==> reply is None,
        message_of(reply) matches Some(said) ==> said.id == reply->0.id && said.data
            == reply->0.data@,
{
}

// Notices.

/// A network management request is noted for a length other than two and for a state that is not
/// 1, 2, 0x80, 0x81 or 0x82, in this order.
pub proof fn network_management_notices(data: Seq<u8>)
    ensures
        ({
            let known = data[0] == 1 || data[0] == 2 || data[0] == 0x80 || data[0] == 0x81 || data[0]
                == 0x82;
            let noted = nmt_notices(data);
            &&& data.len() == 2 && known ==> noted == Seq::<Notice>::empty()
            &&& data.len() != 2 && known ==> noted == seq![Notice::NmtLength]
            &&& data.len() == 2 && !known ==> noted == seq![Notice::UnknownNmtState(data[0])]
            &&& data.len() != 2 && !known ==> noted == seq![
                Notice::NmtLength,
                Notice::UnknownNmtState(data[0]),
            ]
        }),
{
}

/// A service data request is noted for more than eight bytes; and, about an object that exists, for
/// a value that is not transferred or a command that neither begins an upload nor a download.
pub proof fn service_data_notices(objects: Objects, data: Seq<u8>, key: (u16, u8))
    requires
        data.len() >= 4,
        key.0 == data[1] + 0x100 * data[2],
        key.1 == data[3],
    ensures
        ({
            let noted = sdo_notices(objects, data);
            let long = data.len() > 8;
            let found = objects.contains_key(key);
            let opaque = found && objects[key] is Other;
            let upload = 0x40 <= data[0] < 0x60;
            let download = 0x20 <= data[0] < 0x40;
            &&& noted.contains(Notice::RequestTooLong) <==> long
            &&& noted.contains(Notice::UnsupportedUpload) <==> opaque && upload
            &&& noted.contains(Notice::UnsupportedDownload) <==> opaque && download
            &&& noted.contains(Notice::UnsupportedCommand) <==> found && !upload && !download
            &&& long ==> noted[0] == Notice::RequestTooLong
            &&& noted.len() == (if long {
                1int
            } else {
                0
            }) + (if opaque && upload || opaque && download || found && !upload && !download {
                1int
            } else {
                0
            })
        }),
{
    request_bytes(data);
    let noted = sdo_notices(objects, data);
    assert(noted.len() > 0 ==> noted.contains(noted[0]));
    assert(noted.len() > 1 ==> noted.contains(noted[1]));
}

/// An entry of a receive mapping is noted where its object exists and it does not fit it, as long as
/// there are bytes left. The entries are noted in their order.
pub proof fn process_data_notices(
    objects: Objects,
    mapping: u32,
    first: Seq<u32>,
    second: Seq<u32>,
    len: int,
    key: (u16, u8),
)
    requires
        key == (((mapping / 0x1_0000) as u16, (mapping / 0x100 % 0x100) as u8)),
    ensures
        ({
            let noted = rpdo_notices(objects, seq![mapping], len);
            let misfit = len > 0 && objects.contains_key(key) && (objects[key] is Other || mapping
                % 0x100 != 8 * objects[key].bytes().len());
            &&& misfit ==> noted == seq![
                Notice::UnsupportedMapping {
                    index: key.0,
                    sub_index: key.1,
                    data_type: (mapping % 0x100) as u8,
                },
            ]
            &&& !misfit ==> noted.len() == 0
        }),
        rpdo_notices(objects, Seq::empty(), len).len() == 0,
        rpdo_notices(objects, first + second, len) == rpdo_notices(objects, first, len)
            + rpdo_notices(objects, second, len - total_len(objects, first)),
    decreases first.len(),
{
    reveal_with_fuel(rpdo_notices, 2);
    assert(seq![mapping].drop_first() =~= Seq::empty());
    if objects.contains_key(key) {
        value_bytes_add_up(objects[key]);
    }
    if first.len() == 0 {
        assert(first + second =~= second);
        assert(rpdo_notices(objects, first, len) + rpdo_notices(objects, second, len)
            =~= rpdo_notices(objects, second, len));
    } else {
        assert((first + second).drop_first() =~= first.drop_first() + second);
        assert((first + second)[0] == first[0]);
        lemma_entry_len(objects, first[0]);
        let left = len - entry_len(objects, first[0]);
        process_data_notices(objects, mapping, first.drop_first(), second, left, key);
        assert(rpdo_notices(objects, first + second, len) =~= rpdo_notices(objects, first, len)
            + rpdo_notices(objects, second, len - total_len(objects, first)));
    }
}

/// Which notices a frame gives rise to, by its identifier.
pub proof fn notices_by_service(n: NodeState, cob_id: u32, number: u16, data: Seq<u8>)
    requires
        1 <= number <= 4,
    ensures
        cob_id % 0x800 == 0 ==> notices_of(n, cob_id, data) == nmt_notices(data),
        cob_id % 0x800 == 0x80 ==> notices_of(n, cob_id, data).len() == 0,
        0 < n.node_id < 0x80 && cob_id % 0x800 == 0x600 + n.node_id ==> notices_of(n, cob_id, data)
            == sdo_notices(n.objects, data),
        0 < n.node_id < 0x80 && cob_id % 0x800 == 0x100 + 0x100 * number + n.node_id ==> notices_of(
            n,
            cob_id,
            data,
        ) == rpdo_notices(
            n.objects,
            mappings_of(n.objects, (0x1600 + number - 1) as u16),
            data.len() as int,
        ),
{
    identifiers(n.node_id, cob_id);
    receive_mapping_objects(number);
    if cob_id % 0x800 == 0x100 + 0x100 * number + n.node_id && 0 < n.node_id < 0x80 {
        assert(service_of(n.node_id, cob_id) == Service::ReceivePdo(number));
    }
}

// The beginning, and what the values show.

/// A node begins without a mode, a command or a movement, with nothing to show, and two clear samples
/// of the control bit make it sound. A controller is sound where it keeps two samples and knows when
/// its movement began.
pub proof fn beginnings(samples: Seq<bool>, c: Controller)
    ensures
        ({
            let first = Controller::initial(samples);
            &&& first.mode_of_operation == ModeOfOperation::NoMode
            &&& first.controlword == 0
            &&& first.command == Command::NoCommand
            &&& first.statusword == 0
            &&& first.state == State::NotReadyToSwitchOn
            &&& first.profile_position_status == ProfilePositionStatus::SetpointAcknownlegde
            &&& first.profile_velocity_status == ProfileVelocityStatus::AxisSpeedZero
            &&& !first.halt
            &&& first.control_oms1 == samples
            &&& first.home_status == HomeStatus::WaitingForStart
            &&& !first.target_reached
            &&& !first.status_oms1
            &&& !first.status_oms2
            &&& first.timer is None
            &&& first.movement_duration is None
            &&& first.wf() <==> samples.len() == 2
        }),
        c.wf() <==> {
            &&& c.control_oms1.len() == 2
            &&& c.timer is Some || {
                &&& c.profile_position_status != ProfilePositionStatus::Moving
                &&& c.profile_velocity_status != ProfileVelocityStatus::TargetSpeedNotReached
                &&& c.profile_velocity_status != ProfileVelocityStatus::AxisBraking
                &&& c.home_status != HomeStatus::Homing
            }
        },
{
}

/// The value of a node is made of its fields, and so is that of a motor controller.
pub proof fn values_show_the_fields(node: Node, controller: MotorController)
    ensures
        node@.node_id == node.node_id,
        node@.indices == node.eds_data.od@.dom(),
        node@.objects == node.eds_data@,
        node@.nmt_state == node.nmt_state,
        node@.controller == node.motor_controller@,
        node.wf() <==> node.motor_controller@.wf(),
        controller@.mode_of_operation == controller.mode_of_operation,
        controller@.controlword == controller.controlword,
        controller@.command == controller.command,
        controller@.statusword == controller.statusword,
        controller@.state == controller.state,
        controller@.profile_position_status == controller.profile_position_status,
        controller@.profile_velocity_status == controller.profile_velocity_status,
        controller@.halt == controller.halt,
        controller@.control_oms1 == controller.control_oms1@,
        controller@.home_status == controller.home_status,
        controller@.target_reached == controller.target_reached,
        controller@.status_oms1 == controller.status_oms1,
        controller@.status_oms2 == controller.status_oms2,
        controller@.timer == controller.timer,
        controller@.movement_duration == controller.movement_duration,
{
}

} // verus!
