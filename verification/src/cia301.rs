//! The CANopen node: which frames it listens to, what it does with its object dictionary on
//! their behalf and what it answers.

use std::time::Instant;

use vstd::prelude::*;
use vstd::slice::slice_subrange;

pub use crate::cia402_runner::MotorController;
use crate::cia402_runner::{cycle, Controller, ModeOfOperation};
use crate::eds::{same_layout, DataValue, EDSData, Objects};
use crate::frame::{messages, Frame, Message};
use crate::le::{
    i16_from_le, i16_to_le, i32_from_le, i32_to_le, i8_from_byte, i8_to_byte, le_bytes,
    u16_from_le, u16_to_le, u32_from_le, u32_to_le, unsigned_value,
};
use crate::nmt::{create_nmt_frame, new_nmt_state, nmt_message, NmtCommand, NmtState};

verus! {

/// What the server of a service data object says about its reply.
#[derive(Debug, Clone, Copy, PartialEq, Eq, Structural)]
pub enum ServerCommand {
    /// The server is uploading a segment.
    UploadSegmentResponse,
    /// The server has downloaded the segment.
    DownloadSegmentResponse,
    /// The server accepts the upload request.
    InitiateUploadResponse,
    /// The server accepts the download request.
    InitiateDownloadResponse,
    /// The server is aborting the transfer.
    AbortTransfer,
}

/// What the client of a service data object asks for.
#[derive(Debug, Clone, Copy, PartialEq, Eq, Structural)]
pub enum ClientCommand {
    /// Download a segment to the server.
    SegmentDownload,
    /// Initiate a download to the server.
    InitiateDownload,
    /// Initiate an upload from the server.
    InitiateUpload,
    /// Request the server to upload a segment.
    SegmentUpload,
    /// Tell the server we are aborting the transfer.
    AbortTransfer,
    /// Unknown client command.
    Unknown,
}

impl ServerCommand {
    /// The number of the command in a reply.
    pub open spec fn number(self) -> u8 {
        match self {
            ServerCommand::UploadSegmentResponse => 0,
            ServerCommand::DownloadSegmentResponse => 1,
            ServerCommand::InitiateUploadResponse => 2,
            ServerCommand::InitiateDownloadResponse => 3,
            ServerCommand::AbortTransfer => 4,
        }
    }

    /// The number of the command.
    pub fn as_u8(&self) -> (value: u8)
        ensures
            value == self.number(),
    {
        match self {
            ServerCommand::UploadSegmentResponse => 0,
            ServerCommand::DownloadSegmentResponse => 1,
            ServerCommand::InitiateUploadResponse => 2,
            ServerCommand::InitiateDownloadResponse => 3,
            ServerCommand::AbortTransfer => 4,
        }
    }
}

impl ClientCommand {
    /// The command that a number in a request stands for.
    pub open spec fn from_number(value: u8) -> ClientCommand {
        if value == 0 {
            ClientCommand::SegmentDownload
        } else if value == 1 {
            ClientCommand::InitiateDownload
        } else if value == 2 {
            ClientCommand::InitiateUpload
        } else if value == 3 {
            ClientCommand::SegmentUpload
        } else if value == 4 {
            ClientCommand::AbortTransfer
        } else {
            ClientCommand::Unknown
        }
    }

    /// The command that a number in a request stands for.
    pub fn client_command(value: u8) -> (command: ClientCommand)
        ensures
            command == ClientCommand::from_number(value),
    {
        match value {
            0 => ClientCommand::SegmentDownload,
            1 => ClientCommand::InitiateDownload,
            2 => ClientCommand::InitiateUpload,
            3 => ClientCommand::SegmentUpload,
            4 => ClientCommand::AbortTransfer,
            _ => ClientCommand::Unknown,
        }
    }
}

/// The slice without its first `count` bytes; empty where it has no more than that.
pub fn drop_front(slice: &[u8], count: usize) -> (rest: &[u8])
    ensures
        rest@ == (if count > slice@.len() {
            Seq::<u8>::empty()
        } else {
            slice@.skip(count as int)
        }),
{
    if count > slice.len() {
        slice_subrange(slice, 0, 0)
    } else {
        slice_subrange(slice, count, slice.len())
    }
}

/// How many of the four data bytes of an expedited upload a value leaves unused. Of a type
/// that is not transferred none is counted as unused.
pub open spec fn unused_bytes(value: DataValue) -> int {
    if value.size() == 0 {
        0
    } else {
        4 - value.size()
    }
}

/// How many bytes a value takes in a transfer.
fn value_len(value: &DataValue) -> (len: usize)
    ensures
        len == value.size(),
{
    match value {
        DataValue::Integer8(_) | DataValue::Unsigned8(_) => 1,
        DataValue::Integer16(_) | DataValue::Unsigned16(_) => 2,
        DataValue::Integer32(_) | DataValue::Unsigned32(_) => 4,
        DataValue::Other(_) => 0,
    }
}

/// Puts the bytes of a value behind the four header bytes of a reply, and tells how many of
/// the four data bytes stay unused.
pub fn sdo_fill_upload(value: &DataValue, buf: &mut [u8; 8]) -> (unused: u8)
    ensures
        unused == unused_bytes(*value),
        final(buf)@ == old(buf)@.take(4) + value.bytes() + old(buf)@.skip(4 + value.size() as int),
{
    let ghost before = buf@;
    proof {
        reveal_with_fuel(le_bytes, 5);
    }
    let unused: u8 = match value {
        DataValue::Integer8(v) => {
            buf[4] = i8_to_byte(*v);
            assert(seq![buf@[4]] == le_bytes(*v as int, 1));
            3
        },
        DataValue::Unsigned8(v) => {
            buf[4] = *v;
            3
        },
        DataValue::Integer16(v) => {
            let bytes: [u8; 2] = i16_to_le(*v);
            buf[4] = bytes[0];
            buf[5] = bytes[1];
            assert(bytes@ =~= seq![buf@[4], buf@[5]]);
            2
        },
        DataValue::Unsigned16(v) => {
            let bytes: [u8; 2] = u16_to_le(*v);
            buf[4] = bytes[0];
            buf[5] = bytes[1];
            assert(bytes@ =~= seq![buf@[4], buf@[5]]);
            2
        },
        DataValue::Integer32(v) => {
            let bytes: [u8; 4] = i32_to_le(*v);
            buf[4] = bytes[0];
            buf[5] = bytes[1];
            buf[6] = bytes[2];
            buf[7] = bytes[3];
            assert(bytes@ =~= seq![buf@[4], buf@[5], buf@[6], buf@[7]]);
            0
        },
        DataValue::Unsigned32(v) => {
            let bytes: [u8; 4] = u32_to_le(*v);
            buf[4] = bytes[0];
            buf[5] = bytes[1];
            buf[6] = bytes[2];
            buf[7] = bytes[3];
            assert(bytes@ =~= seq![buf@[4], buf@[5], buf@[6], buf@[7]]);
            0
        },
        DataValue::Other(_) => 0,
    };
    assert(buf@ =~= before.take(4) + value.bytes() + before.skip(4 + value.size() as int));
    unused
}

/// Takes the value of a download from behind the four header bytes of the request. A value of
/// a type that is not transferred stays as it is.
pub fn sdo_write_download(input_data: &[u8], target: &mut DataValue)
    requires
        old(target).size() > 0 ==> input_data@.len() >= 4 + old(target).size(),
    ensures
        *final(target) == old(target).replaced_by(input_data@.skip(4)),
{
    let ghost data = input_data@.skip(4);
    match target {
        DataValue::Integer8(v) => {
            *v = i8_from_byte(input_data[4]);
            assert(data.take(1) =~= seq![input_data@[4]]);
        },
        DataValue::Unsigned8(v) => {
            *v = input_data[4];
        },
        DataValue::Integer16(v) => {
            let bytes: [u8; 2] = [input_data[4], input_data[5]];
            *v = i16_from_le(bytes);
            assert(data.take(2) =~= bytes@);
        },
        DataValue::Unsigned16(v) => {
            let bytes: [u8; 2] = [input_data[4], input_data[5]];
            *v = u16_from_le(bytes);
            assert(data.take(2) =~= bytes@);
        },
        DataValue::Integer32(v) => {
            let bytes: [u8; 4] = [input_data[4], input_data[5], input_data[6], input_data[7]];
            *v = i32_from_le(bytes);
            assert(data.take(4) =~= bytes@);
        },
        DataValue::Unsigned32(v) => {
            let bytes: [u8; 4] = [input_data[4], input_data[5], input_data[6], input_data[7]];
            *v = u32_from_le(bytes);
            assert(data.take(4) =~= bytes@);
        },
        DataValue::Other(_) => {},
    }
}

/// How many bytes of a process data object an entry of its mapping takes up. `data_type` is
/// the length in bits that the entry names; where it is not that of the value, or the value
/// is not transferred, the entry takes up nothing.
pub open spec fn mapped_size(data_type: u8, value: DataValue) -> nat {
    if data_type == 8 * value.size() {
        value.size()
    } else {
        0
    }
}

/// The value after an entry of a receive mapping has been served from `data`.
pub open spec fn decoded(value: DataValue, data_type: u8, data: Seq<u8>) -> DataValue {
    if mapped_size(data_type, value) > 0 {
        value.replaced_by(data)
    } else {
        value
    }
}

/// The bytes that an entry of a transmit mapping adds.
pub open spec fn encoded(value: DataValue, data_type: u8) -> Seq<u8> {
    if mapped_size(data_type, value) > 0 {
        value.bytes()
    } else {
        Seq::empty()
    }
}

/// How many bytes an entry of a mapping takes up.
fn mapped_len(data_type: u8, value: &DataValue) -> (len: usize)
    ensures
        len == mapped_size(data_type, *value),
{
    let len: usize = value_len(value);
    if data_type as usize == 8 * len {
        len
    } else {
        0
    }
}

/// Takes a value from the front of `data`, where the mapping entry fits it, and tells how many
/// bytes that were.
pub fn decode_rpdo_value(data: &[u8], data_type: u8, target: &mut DataValue) -> (consumed: usize)
    requires
        mapped_size(data_type, *old(target)) <= data@.len(),
    ensures
        consumed == mapped_size(data_type, *old(target)),
        *final(target) == decoded(*old(target), data_type, data@),
{
    match (data_type, &*target) {
        (0x08, DataValue::Unsigned8(_)) => {
            *target = DataValue::Unsigned8(data[0]);
            1
        },
        (0x08, DataValue::Integer8(_)) => {
            *target = DataValue::Integer8(i8_from_byte(data[0]));
            assert(data@.take(1) =~= seq![data@[0]]);
            1
        },
        (0x10, DataValue::Unsigned16(_)) => {
            let bytes: [u8; 2] = [data[0], data[1]];
            *target = DataValue::Unsigned16(u16_from_le(bytes));
            assert(data@.take(2) =~= bytes@);
            2
        },
        (0x10, DataValue::Integer16(_)) => {
            let bytes: [u8; 2] = [data[0], data[1]];
            *target = DataValue::Integer16(i16_from_le(bytes));
            assert(data@.take(2) =~= bytes@);
            2
        },
        (0x20, DataValue::Unsigned32(_)) => {
            let bytes: [u8; 4] = [data[0], data[1], data[2], data[3]];
            *target = DataValue::Unsigned32(u32_from_le(bytes));
            assert(data@.take(4) =~= bytes@);
            4
        },
        (0x20, DataValue::Integer32(_)) => {
            let bytes: [u8; 4] = [data[0], data[1], data[2], data[3]];
            *target = DataValue::Integer32(i32_from_le(bytes));
            assert(data@.take(4) =~= bytes@);
            4
        },
        _ => 0,
    }
}

fn extend_2(buf: &mut Vec<u8>, bytes: [u8; 2])
    ensures
        final(buf)@ == old(buf)@ + bytes@,
{
    let ghost before = buf@;
    buf.push(bytes[0]);
    buf.push(bytes[1]);
    assert(buf@ =~= before + bytes@);
}

fn extend_4(buf: &mut Vec<u8>, bytes: [u8; 4])
    ensures
        final(buf)@ == old(buf)@ + bytes@,
{
    let ghost before = buf@;
    buf.push(bytes[0]);
    buf.push(bytes[1]);
    buf.push(bytes[2]);
    buf.push(bytes[3]);
    assert(buf@ =~= before + bytes@);
}

/// Adds a value to the end of `buf`, where the mapping entry fits it.
pub fn encode_tpdo_value(value: &DataValue, data_type: u8, buf: &mut Vec<u8>)
    ensures
        final(buf)@ == old(buf)@ + encoded(*value, data_type),
{
    let ghost before = buf@;
    proof {
        reveal_with_fuel(le_bytes, 2);
    }
    match data_type {
        0x08 => match value {
            DataValue::Unsigned8(v) => buf.push(*v),
            DataValue::Integer8(v) => {
                let byte: u8 = i8_to_byte(*v);
                assert(value.bytes() == seq![byte]);
                buf.push(byte)
            },
            _ => {},
        },
        0x10 => match value {
            DataValue::Unsigned16(v) => extend_2(buf, u16_to_le(*v)),
            DataValue::Integer16(v) => extend_2(buf, i16_to_le(*v)),
            _ => {},
        },
        0x20 => match value {
            DataValue::Unsigned32(v) => extend_4(buf, u32_to_le(*v)),
            DataValue::Integer32(v) => extend_4(buf, i32_to_le(*v)),
            _ => {},
        },
        _ => {},
    }
    assert(buf@ =~= before + encoded(*value, data_type));
}

/// A CANopen node with the motor controller that it serves.
#[derive(Debug)]
pub struct Node {
    pub node_id: u8,
    pub eds_data: EDSData,
    pub nmt_state: NmtState,
    pub motor_controller: MotorController,
    /// The zero of the clock of the node.
    pub clock: Instant,
}

/// What a node holds, as a value.
pub struct NodeState {
    pub node_id: u8,
    /// The indices of the object dictionary, those without a variable too.
    pub indices: Set<u16>,
    pub objects: Objects,
    pub nmt_state: NmtState,
    pub controller: Controller,
}

impl View for Node {
    type V = NodeState;

    open spec fn view(&self) -> NodeState {
        NodeState {
            node_id: self.node_id,
            indices: self.eds_data.od@.dom(),
            objects: self.eds_data@,
            nmt_state: self.nmt_state,
            controller: self.motor_controller@,
        }
    }
}

/// The instants of the clock of the operating system.
#[verifier::external_type_specification]
#[verifier::external_body]
pub struct ExInstant(Instant);

/// Calls `std::time::Instant::now`. Nothing is said of the instant: it is a reading of the clock.
#[verifier::external_body]
fn clock_now() -> Instant {
    Instant::now()
}

/// Calls `std::time::Instant::elapsed` and counts the nanoseconds of the result. Nothing is said
/// of the number: it depends on when the clock is read.
#[verifier::external_body]
pub(crate) fn nanos_since(begin: &Instant) -> u128 {
    begin.elapsed().as_nanos()
}

/// What a reply says, where there is one.
pub open spec fn message_of(reply: Option<Frame>) -> Option<Message> {
    match reply {
        Some(frame) => Some(frame@),
        None => None,
    }
}

// Service data objects.

/// What a request of a client asks for: the top three bits of its first byte.
pub open spec fn sdo_command(data: Seq<u8>) -> ClientCommand {
    ClientCommand::from_number(data[0] / 32)
}

/// The object that a request is about: its index in two bytes, and its subindex.
pub open spec fn sdo_object(data: Seq<u8>) -> (u16, u8) {
    (unsigned_value(data.subrange(1, 3)) as u16, data[3])
}

/// A request names an object, and a download to an object that exists brings its bytes.
pub open spec fn sdo_complete(objects: Objects, command: ClientCommand, data: Seq<u8>) -> bool {
    &&& data.len() >= 4
    &&& command == ClientCommand::InitiateDownload && objects.contains_key(sdo_object(data))
        ==> data.len() >= 4 + objects[sdo_object(data)].size()
}

/// The reply to an upload: the header with the number of unused bytes, the object's address,
/// and the object's bytes, filled up with zeros to four.
pub open spec fn upload_reply(key: (u16, u8), value: DataValue) -> Seq<u8> {
    seq![(32 * ServerCommand::InitiateUploadResponse.number() + 4 * unused_bytes(value) + 3) as u8]
        + le_bytes(key.0 as int, 2) + seq![key.1] + value.bytes() + Seq::new(
        (4 - value.size()) as nat,
        |i: int| 0u8,
    )
}

/// The reply to a download: the header, the object's address and four zeros.
pub open spec fn download_reply(key: (u16, u8)) -> Seq<u8> {
    seq![(32 * ServerCommand::InitiateDownloadResponse.number()) as u8] + le_bytes(key.0 as int, 2)
        + seq![key.1] + seq![0u8, 0, 0, 0]
}

/// The frame in which a node replies to service data requests.
pub open spec fn sdo_message(node_id: u8, data: Seq<u8>) -> Message {
    Message { id: 0x580u16 | node_id as u16, data }
}

/// The reply to a request. There is none about an object that does not exist, nor to anything
/// but the beginning of an upload or a download.
pub open spec fn sdo_reply(
    node_id: u8,
    objects: Objects,
    command: ClientCommand,
    data: Seq<u8>,
) -> Option<Message> {
    let key = sdo_object(data);
    if !objects.contains_key(key) {
        None
    } else if command == ClientCommand::InitiateUpload {
        Some(sdo_message(node_id, upload_reply(key, objects[key])))
    } else if command == ClientCommand::InitiateDownload {
        Some(sdo_message(node_id, download_reply(key)))
    } else {
        None
    }
}

/// The object dictionary after a request: a download writes its object.
pub open spec fn sdo_objects(objects: Objects, command: ClientCommand, data: Seq<u8>) -> Objects {
    let key = sdo_object(data);
    if command == ClientCommand::InitiateDownload && objects.contains_key(key) {
        objects.insert(key, objects[key].replaced_by(data.skip(4)))
    } else {
        objects
    }
}

impl Node {
    /// The invariant of a node: its motor controller is sound.
    pub open spec fn wf(&self) -> bool {
        self.motor_controller.wf()
    }

    /// Initialize the motor controller.
    pub fn initialize(node_id: u8, eds_data: EDSData) -> (result: Result<Node, ()>)
        ensures
            result matches Ok(node) && {
                &&& node.wf()
                &&& node.eds_data == eds_data
                &&& node@ == (NodeState {
                    node_id,
                    indices: eds_data.od@.dom(),
                    objects: eds_data@,
                    nmt_state: NmtState::Initializing,
                    controller: Controller::initial(seq![false, false]),
                })
            },
    {
        let mut motor_controller: MotorController = MotorController::default();
        motor_controller.control_oms1.push_back(false);
        motor_controller.control_oms1.push_back(false);
        assert(motor_controller.control_oms1@ =~= seq![false, false]);
        let node: Node = Node {
            node_id,
            eds_data,
            nmt_state: NmtState::Initializing,
            motor_controller,
            clock: clock_now(),
        };
        assert(node@.controller == Controller::initial(seq![false, false]));
        Ok(node)
    }

    /// Answers a request of a service data client.
    pub fn parse_sdo_client_request(&mut self, data: &[u8]) -> (reply: Option<Frame>)
        requires
            sdo_complete(old(self)@.objects, sdo_command(data@), data@),
        ensures
            message_of(reply) == sdo_reply(
                old(self)@.node_id,
                old(self)@.objects,
                sdo_command(data@),
                data@,
            ),
            final(self)@ == (NodeState {
                objects: sdo_objects(old(self)@.objects, sdo_command(data@), data@),
                ..old(self)@
            }),
            final(self).clock == old(self).clock,
    {
        let first: u8 = data[0];
        assert((first >> 5u8) & 0b111u8 == first / 32) by (bit_vector);
        let ccs: u8 = (first >> 5) & 0b111;
        let command: ClientCommand = ClientCommand::client_command(ccs);
        self.sdo_response(&command, data)
    }

    /// Performs the transfer that a client asks for, and makes the reply.
    pub fn sdo_response(&mut self, command: &ClientCommand, input_data: &[u8]) -> (reply: Option<
        Frame,
    >)
        requires
            sdo_complete(old(self)@.objects, *command, input_data@),
        ensures
            message_of(reply) == sdo_reply(
                old(self)@.node_id,
                old(self)@.objects,
                *command,
                input_data@,
            ),
            final(self)@ == (NodeState {
                objects: sdo_objects(old(self)@.objects, *command, input_data@),
                ..old(self)@
            }),
            final(self).clock == old(self).clock,
    {
        let address: [u8; 2] = [input_data[1], input_data[2]];
        let index: u16 = u16_from_le(address);
        let sub_index: u8 = input_data[3];
        let ghost key = sdo_object(input_data@);
        assert(input_data@.subrange(1, 3) =~= address@);
        assert(key == (index, sub_index));
        let ghost objects = self@.objects;
        assert(objects.contains_key(key) ==> objects.insert(key, objects[key]) =~= objects);

        let var: &mut DataValue = match self.eds_data.get_mut(index, sub_index) {
            Some(var) => var,
            None => return None,
        };

        let mut frame_data: [u8; 8] = [0u8; 8];
        let index_bytes: [u8; 2] = u16_to_le(index);
        frame_data[1] = index_bytes[0];
        frame_data[2] = index_bytes[1];
        frame_data[3] = sub_index;

        match command {
            ClientCommand::InitiateUpload => {
                let n: u8 = sdo_fill_upload(var, &mut frame_data);
                let ccs: u8 = ServerCommand::InitiateUploadResponse.as_u8();
                frame_data[0] = (ccs & 0b111) << 5 | (n & 0b11) << 2 | 1 << 1 | 1;
                assert((2u8 & 0b111u8) << 5u8 | (n & 0b11u8) << 2u8 | 1u8 << 1u8 | 1u8 == 67 + 4 * n)
                    by (bit_vector)
                    requires
                        n <= 3,
                ;
                assert(frame_data@ =~= upload_reply(key, objects[key]));
            },
            ClientCommand::InitiateDownload => {
                sdo_write_download(input_data, var);
                let ccs: u8 = ServerCommand::InitiateDownloadResponse.as_u8();
                frame_data[0] = (ccs & 0b111) << 5;
                assert((3u8 & 0b111u8) << 5u8 == 96) by (bit_vector);
                assert(frame_data@ =~= download_reply(key));
            },
            _ => return None,
        }

        Some(self.sdo_frame(frame_data.as_slice()))
    }

    /// The frame in which the node replies to service data requests.
    fn sdo_frame(&self, data: &[u8]) -> (frame: Frame)
        requires
            data@.len() <= 8,
        ensures
            frame@ == sdo_message(self@.node_id, data@),
    {
        let node_id: u8 = self.node_id;
        assert(0x580u16 | node_id as u16 <= 0x7FF) by (bit_vector);
        Frame::new(0x580 | node_id as u16, data).unwrap()
    }
}

// Process data objects.

/// The object that an entry of a mapping stands for: index and subindex.
pub open spec fn mapped_object(mapping: u32) -> (u16, u8) {
    ((mapping / 0x1_0000) as u16, (mapping / 0x100 % 0x100) as u8)
}

/// The length in bits that an entry of a mapping names.
pub open spec fn mapped_type(mapping: u32) -> u8 {
    (mapping % 0x100) as u8
}

/// How many entries a mapping object says that it has.
pub open spec fn mapping_count(objects: Objects, index: u16) -> nat {
    match objects.get((index, 0)) {
        Some(DataValue::Unsigned8(count)) => count as nat,
        _ => 0,
    }
}

/// The entries at the subindices 1 to `count` of a mapping object, without those that are
/// missing or are no mapping.
pub open spec fn first_mappings(objects: Objects, index: u16, count: nat) -> Seq<u32>
    decreases count,
{
    if count == 0 {
        Seq::empty()
    } else {
        let before = first_mappings(objects, index, (count - 1) as nat);
        match objects.get((index, count as u8)) {
            Some(DataValue::Unsigned32(mapping)) => before.push(mapping),
            _ => before,
        }
    }
}

/// The entries of a mapping object.
pub open spec fn mappings_of(objects: Objects, index: u16) -> Seq<u32> {
    first_mappings(objects, index, mapping_count(objects, index))
}

/// The index of the mapping object of a receive process data object.
pub open spec fn rpdo_index(rpdo_number: u16) -> u16 {
    0x1600u16 | (rpdo_number - 1) as u16
}

/// Bytes enough for every entry of the mapping that is served: the entries are served from the
/// first on, for as long as there are bytes, and objects that do not exist are passed over.
pub open spec fn rpdo_complete(objects: Objects, mappings: Seq<u32>, len: int) -> bool
    decreases mappings.len(),
{
    if mappings.len() == 0 || len <= 0 {
        true
    } else {
        let key = mapped_object(mappings[0]);
        let size = if objects.contains_key(key) {
            mapped_size(mapped_type(mappings[0]), objects[key])
        } else {
            0
        };
        size <= len && rpdo_complete(objects, mappings.drop_first(), len - size)
    }
}

/// The object dictionary after a receive process data object: its bytes go to the mapped
/// objects one after the other.
pub open spec fn rpdo_objects(objects: Objects, mappings: Seq<u32>, data: Seq<u8>) -> Objects
    decreases mappings.len(),
{
    if mappings.len() == 0 || data.len() == 0 {
        objects
    } else {
        let key = mapped_object(mappings[0]);
        let data_type = mapped_type(mappings[0]);
        if objects.contains_key(key) {
            rpdo_objects(
                objects.insert(key, decoded(objects[key], data_type, data)),
                mappings.drop_first(),
                data.skip(mapped_size(data_type, objects[key]) as int),
            )
        } else {
            rpdo_objects(objects, mappings.drop_first(), data)
        }
    }
}

/// The payload of a transmit process data object: the bytes of the mapped objects, one after
/// the other.
pub open spec fn tpdo_payload(objects: Objects, mappings: Seq<u32>) -> Seq<u8>
    decreases mappings.len(),
{
    if mappings.len() == 0 {
        Seq::empty()
    } else {
        let before = tpdo_payload(objects, mappings.drop_last());
        let key = mapped_object(mappings.last());
        if objects.contains_key(key) {
            before + encoded(objects[key], mapped_type(mappings.last()))
        } else {
            before
        }
    }
}

/// A transmit process data object is sent on SYNC: it is enabled (bit 31 of its identifier is
/// clear) and its transmission type is 255.
pub open spec fn tpdo_active(objects: Objects, tpdo_idx: u16) -> bool {
    let index = (0x1800 + tpdo_idx) as u16;
    &&& objects.get((index, 1)) matches Some(DataValue::Unsigned32(id)) && id < 0x8000_0000
    &&& objects.get((index, 2)) == Some(DataValue::Unsigned8(255))
}

/// The frame of a transmit process data object.
pub open spec fn tpdo_message(node_id: u8, tpdo_idx: u16, data: Seq<u8>) -> Message {
    Message { id: ((0x180 + tpdo_idx * 0x100) as u16) | node_id as u16, data }
}

/// What a transmit process data object carries.
pub open spec fn tpdo_data(objects: Objects, tpdo_idx: u16) -> Seq<u8> {
    tpdo_payload(objects, mappings_of(objects, (0x1A00 + tpdo_idx) as u16))
}

/// The frames of the first `count` transmit process data objects that are sent on SYNC.
pub open spec fn sync_messages(node_id: u8, objects: Objects, count: nat) -> Seq<Message>
    decreases count,
{
    if count == 0 {
        Seq::empty()
    } else {
        let before = sync_messages(node_id, objects, (count - 1) as nat);
        let tpdo_idx = (count - 1) as u16;
        if tpdo_active(objects, tpdo_idx) {
            before.push(tpdo_message(node_id, tpdo_idx, tpdo_data(objects, tpdo_idx)))
        } else {
            before
        }
    }
}

/// The number of transmit process data objects.
pub const TPDO_COUNT: u16 = 8;

/// A transmit process data object fits a frame: it has no more than eight bytes, and it is not the
/// last one, the identifier of which would not be a base identifier.
pub open spec fn tpdo_fits(objects: Objects, tpdo_idx: u16) -> bool {
    &&& tpdo_idx + 1 < TPDO_COUNT
    &&& tpdo_data(objects, tpdo_idx).len() <= 8
}

/// Every transmit process data object that is sent on SYNC fits a frame.
pub open spec fn sync_complete(objects: Objects) -> bool {
    forall|tpdo_idx: u16|
        tpdo_idx < TPDO_COUNT && #[trigger] tpdo_active(objects, tpdo_idx) ==> tpdo_fits(
            objects,
            tpdo_idx,
        )
}

/// The first transmit process data object from `from` on that is to be sent on SYNC and fits no
/// frame; the number of all where each one fits.
pub open spec fn first_unsendable(objects: Objects, from: nat) -> nat
    decreases TPDO_COUNT - from,
{
    if from >= TPDO_COUNT {
        TPDO_COUNT as nat
    } else if tpdo_active(objects, from as u16) && !tpdo_fits(objects, from as u16) {
        from
    } else {
        first_unsendable(objects, from + 1)
    }
}

/// Everything before the first object that fits no frame fits one.
proof fn lemma_first_unsendable(objects: Objects, from: nat)
    requires
        from <= TPDO_COUNT,
    ensures
        from <= first_unsendable(objects, from) <= TPDO_COUNT,
        forall|i: u16|
            from <= i < first_unsendable(objects, from) && #[trigger] tpdo_active(objects, i)
                ==> tpdo_fits(objects, i),
        first_unsendable(objects, from) < TPDO_COUNT ==> {
            let i = first_unsendable(objects, from) as u16;
            tpdo_active(objects, i) && !tpdo_fits(objects, i)
        },
    decreases TPDO_COUNT - from,
{
    if from < TPDO_COUNT && !(tpdo_active(objects, from as u16) && !tpdo_fits(
        objects,
        from as u16,
    )) {
        lemma_first_unsendable(objects, from + 1);
    }
}

/// Whether bytes suffice for a mapping depends on which objects exist and on their types alone.
pub proof fn lemma_rpdo_complete_layout(before: Objects, after: Objects, mappings: Seq<u32>, len: int)
    requires
        same_layout(before, after),
    ensures
        rpdo_complete(before, mappings, len) == rpdo_complete(after, mappings, len),
    decreases mappings.len(),
{
    if mappings.len() > 0 && len > 0 {
        let key = mapped_object(mappings[0]);
        assert(before.contains_key(key) == before.dom().contains(key));
        assert(after.contains_key(key) == after.dom().contains(key));
        let size = if before.contains_key(key) {
            mapped_size(mapped_type(mappings[0]), before[key])
        } else {
            0
        };
        lemma_rpdo_complete_layout(before, after, mappings.drop_first(), len - size);
    }
}

fn split_mapping(mapping: u32) -> (parts: (u16, u8, u8))
    ensures
        (parts.0, parts.1) == mapped_object(mapping),
        parts.2 == mapped_type(mapping),
{
    assert((mapping >> 16u32) as u16 == mapping / 0x1_0000) by (bit_vector);
    assert(((mapping >> 8u32) & 0xFFu32) as u8 == mapping / 0x100 % 0x100) by (bit_vector);
    assert((mapping & 0xFFu32) as u8 == mapping % 0x100) by (bit_vector);
    ((mapping >> 16) as u16, ((mapping >> 8) & 0xFF) as u8, (mapping & 0xFF) as u8)
}

impl Node {
    /// The entries of the mapping object at `index`.
    fn mappings(&self, index: u16) -> (mappings: Vec<u32>)
        ensures
            mappings@ == mappings_of(self@.objects, index),
    {
        let count: u8 = match self.eds_data.get(index, 0) {
            Some(DataValue::Unsigned8(n)) => *n,
            _ => 0,
        };
        let mut mappings: Vec<u32> = Vec::new();
        let mut i: u8 = 0;
        while i < count
            invariant
                i <= count,
                mappings@ == first_mappings(self@.objects, index, i as nat),
            decreases count - i,
        {
            i = i + 1;
            match self.eds_data.get(index, i) {
                Some(DataValue::Unsigned32(mapping)) => mappings.push(*mapping),
                _ => {},
            }
        }
        mappings
    }

    /// The entries of the mapping of a receive process data object.
    pub fn rpdo_mappings(&self, rpdo_number: u16) -> (mappings: Vec<u32>)
        requires
            rpdo_number >= 1,
        ensures
            mappings@ == mappings_of(self@.objects, rpdo_index(rpdo_number)),
    {
        self.mappings(0x1600 | (rpdo_number - 1))
    }

    /// Distributes the bytes of a receive process data object among the mapped objects.
    pub fn parse_rpdo(&mut self, rpdo_number: &u16, input_data: &[u8])
        requires
            *rpdo_number >= 1,
            rpdo_complete(
                old(self)@.objects,
                mappings_of(old(self)@.objects, rpdo_index(*rpdo_number)),
                input_data@.len() as int,
            ),
        ensures
            final(self)@ == (NodeState {
                objects: rpdo_objects(
                    old(self)@.objects,
                    mappings_of(old(self)@.objects, rpdo_index(*rpdo_number)),
                    input_data@,
                ),
                ..old(self)@
            }),
            final(self).clock == old(self).clock,
    {
        let mappings: Vec<u32> = self.rpdo_mappings(*rpdo_number);
        let mut data: &[u8] = input_data;
        let ghost before = *self;
        let ghost goal = rpdo_objects(before@.objects, mappings@, input_data@);
        let mut k: usize = 0;
        assert(mappings@.skip(0) =~= mappings@);
        while k < mappings.len() && !data.is_empty()
            invariant
                k <= mappings.len(),
                rpdo_complete(self@.objects, mappings@.skip(k as int), data@.len() as int),
                rpdo_objects(self@.objects, mappings@.skip(k as int), data@) == goal,
                self@ == (NodeState { objects: self@.objects, ..before@ }),
                self.clock == before.clock,
            decreases mappings.len() - k,
        {
            let (index, sub_index, data_type): (u16, u8, u8) = split_mapping(mappings[k]);
            let ghost current = self@.objects;
            let ghost rest = mappings@.skip(k as int);
            let ghost key = (index, sub_index);
            assert(rest[0] == mappings@[k as int]);
            assert(rest.drop_first() =~= mappings@.skip(k + 1));

            if let Some(value) = self.eds_data.get_mut(index, sub_index) {
                let consumed: usize = decode_rpdo_value(data, data_type, value);
                proof {
                    let after = current.insert(key, decoded(current[key], data_type, data@));
                    assert(same_layout(current, after)) by {
                        assert(current.dom() =~= after.dom());
                    }
                    lemma_rpdo_complete_layout(
                        current,
                        after,
                        rest.drop_first(),
                        data@.len() - consumed,
                    );
                }
                data = drop_front(data, consumed);
            }
            k = k + 1;
        }
    }

    /// Whether a transmit process data object is sent on SYNC.
    pub fn tpdo_is_sync_active(&self, tpdo_idx: u16) -> (active: bool)
        requires
            0x1800 + tpdo_idx <= u16::MAX,
        ensures
            active == tpdo_active(self@.objects, tpdo_idx),
    {
        let index: u16 = 0x1800 + tpdo_idx;
        let enabled: bool = match self.eds_data.get(index, 1) {
            Some(DataValue::Unsigned32(value)) => {
                let id: u32 = *value;
                assert((id & (1u32 << 31u32) == 0) == (id < 0x8000_0000)) by (bit_vector);
                (id & (1u32 << 31)) == 0
            },
            _ => false,
        };
        let sync_type: u8 = match self.eds_data.get(index, 2) {
            Some(DataValue::Unsigned8(value)) => *value,
            _ => 0,
        };
        enabled && sync_type == 255
    }

    /// The bytes that a transmit process data object carries.
    pub fn build_tpdo_payload(&self, tpdo_idx: u16) -> (payload: Vec<u8>)
        requires
            0x1A00 + tpdo_idx <= u16::MAX,
        ensures
            payload@ == tpdo_data(self@.objects, tpdo_idx),
    {
        let mut payload: Vec<u8> = Vec::new();
        let mappings: Vec<u32> = self.mappings(0x1A00 + tpdo_idx);
        let mut k: usize = 0;
        while k < mappings.len()
            invariant
                k <= mappings.len(),
                payload@ == tpdo_payload(self@.objects, mappings@.take(k as int)),
            decreases mappings.len() - k,
        {
            let (index, sub_index, data_type): (u16, u8, u8) = split_mapping(mappings[k]);
            assert(mappings@.take(k + 1).drop_last() =~= mappings@.take(k as int));
            if let Some(value) = self.eds_data.get(index, sub_index) {
                encode_tpdo_value(value, data_type, &mut payload);
            }
            k = k + 1;
        }
        assert(mappings@.take(k as int) =~= mappings@);
        payload
    }

    /// The frame of a transmit process data object.
    fn tpdo_frame(&self, tpdo_idx: u16, payload: &[u8]) -> (frame: Frame)
        requires
            tpdo_idx + 1 < TPDO_COUNT,
            payload@.len() <= 8,
        ensures
            frame@ == tpdo_message(self@.node_id, tpdo_idx, payload@),
    {
        let base: u16 = 0x180 + tpdo_idx * 0x100;
        let node_id: u8 = self.node_id;
        assert(base <= 0x780 && base % 0x80 == 0 ==> base | node_id as u16 <= 0x7FF) by (bit_vector);
        Frame::new(base | node_id as u16, payload).unwrap()
    }

    /// The number of transmit process data objects, from the first on, for which SYNC finds nothing
    /// that fits no frame.
    fn sendable_count(&self) -> (count: u16)
        ensures
            count == first_unsendable(self@.objects, 0),
    {
        let mut tpdo_idx: u16 = 0;
        while tpdo_idx < TPDO_COUNT
            invariant
                tpdo_idx <= TPDO_COUNT,
                first_unsendable(self@.objects, 0) == first_unsendable(
                    self@.objects,
                    tpdo_idx as nat,
                ),
            decreases TPDO_COUNT - tpdo_idx,
        {
            if self.tpdo_is_sync_active(tpdo_idx) {
                if tpdo_idx + 1 >= TPDO_COUNT || self.build_tpdo_payload(tpdo_idx).len() > 8 {
                    return tpdo_idx;
                }
            }
            tpdo_idx = tpdo_idx + 1;
        }
        tpdo_idx
    }

    /// The frames that the node can send on SYNC: those of the transmit process data objects before
    /// the first one that fits no frame.
    pub fn sendable_sync_frames(&self) -> (frames: Vec<Frame>)
        ensures
            messages(frames@) == sync_messages(
                self@.node_id,
                self@.objects,
                first_unsendable(self@.objects, 0),
            ),
    {
        let count: u16 = self.sendable_count();
        proof {
            lemma_first_unsendable(self@.objects, 0);
        }
        let mut frames: Vec<Frame> = Vec::new();
        let mut tpdo_idx: u16 = 0;
        assert(messages(frames@) =~= Seq::empty());
        while tpdo_idx < count
            invariant
                tpdo_idx <= count <= TPDO_COUNT,
                forall|i: u16|
                    i < count && #[trigger] tpdo_active(self@.objects, i) ==> tpdo_fits(
                        self@.objects,
                        i,
                    ),
                messages(frames@) == sync_messages(self@.node_id, self@.objects, tpdo_idx as nat),
            decreases count - tpdo_idx,
        {
            let ghost before = frames@;
            if self.tpdo_is_sync_active(tpdo_idx) {
                let payload: Vec<u8> = self.build_tpdo_payload(tpdo_idx);
                let frame: Frame = self.tpdo_frame(tpdo_idx, payload.as_slice());
                frames.push(frame);
                assert(messages(frames@) =~= messages(before).push(frame@));
            }
            tpdo_idx = tpdo_idx + 1;
        }
        frames
    }

    /// The frames that the node sends on SYNC.
    pub fn parse_sync(&self) -> (frames: Vec<Frame>)
        requires
            sync_complete(self@.objects),
        ensures
            messages(frames@) == sync_messages(self@.node_id, self@.objects, TPDO_COUNT as nat),
    {
        proof {
            lemma_first_unsendable(self@.objects, 0);
        }
        self.sendable_sync_frames()
    }
}

// Network management.

/// A network management request names a state and a node.
pub open spec fn nmt_complete(data: Seq<u8>) -> bool {
    data.len() >= 2
}

/// The state of a node after a network management request. A request that no command stands for
/// changes nothing, and neither does one to another node.
pub open spec fn nmt_state_after(n: NodeState, data: Seq<u8>) -> NmtState {
    match NmtCommand::from_code(data[0]) {
        Some(command) if data[1] == n.node_id => command.target(),
        _ => n.nmt_state,
    }
}

/// A node that follows a network management request announces the state that it is in.
pub open spec fn nmt_reply(n: NodeState, data: Seq<u8>) -> Option<Message> {
    if NmtCommand::from_code(data[0]) is Some && data[1] == n.node_id {
        Some(nmt_message(n.node_id, nmt_state_after(n, data)))
    } else {
        None
    }
}

impl Node {
    /// Follows a network management request.
    pub fn parse_nmt_command(&mut self, data: &[u8]) -> (reply: Option<Frame>)
        requires
            nmt_complete(data@),
        ensures
            final(self)@ == (NodeState {
                nmt_state: nmt_state_after(old(self)@, data@),
                ..old(self)@
            }),
            message_of(reply) == nmt_reply(old(self)@, data@),
            final(self).clock == old(self).clock,
    {
        let requested_state: u8 = data[0];
        let addressed_node: u8 = data[1];
        match new_nmt_state(requested_state) {
            Ok(state) => {
                if addressed_node == self.node_id {
                    self.nmt_state = state;
                    Some(self.nmt_state_frame())
                } else {
                    None
                }
            },
            Err(_) => None,
        }
    }

    /// The frame by which the node announces its state.
    pub fn nmt_state_frame(&self) -> (frame: Frame)
        ensures
            frame@ == nmt_message(self@.node_id, self@.nmt_state),
    {
        create_nmt_frame(self.node_id, self.nmt_state)
    }
}

// Frames.

/// The service of a node that a frame addresses.
#[derive(Debug, Clone, Copy, PartialEq, Eq, Structural)]
pub enum Service {
    /// A network management request.
    NetworkManagement,
    /// The signal to send the transmit process data objects.
    Sync,
    /// An emergency message.
    Emergency,
    /// The receive process data object of the given number.
    ReceivePdo(u16),
    /// A service data request.
    ServiceData,
    /// A frame that does not concern the node.
    Ignored,
}

/// The service of the node `own_id` that a frame with the identifier `cob_id` addresses. The seven
/// low bits name the node, or all nodes where they are zero; the four bits above name the
/// function.
pub open spec fn service_of(own_id: u8, cob_id: u32) -> Service {
    let node_id = cob_id % 0x80;
    let function_code = cob_id / 0x80 % 0x10 * 0x80;
    if node_id == 0 {
        if function_code == 0x000 {
            Service::NetworkManagement
        } else if function_code == 0x080 {
            Service::Sync
        } else {
            Service::Ignored
        }
    } else if node_id == own_id {
        if function_code == 0x080 {
            Service::Emergency
        } else if function_code == 0x200 {
            Service::ReceivePdo(1)
        } else if function_code == 0x300 {
            Service::ReceivePdo(2)
        } else if function_code == 0x400 {
            Service::ReceivePdo(3)
        } else if function_code == 0x500 {
            Service::ReceivePdo(4)
        } else if function_code == 0x600 {
            Service::ServiceData
        } else {
            Service::Ignored
        }
    } else {
        Service::Ignored
    }
}

/// The identifier of the frame on which the motor controller runs a cycle.
pub const SYNC_COB_ID: u32 = 0x080;

/// The mode of operation that the dictionary asks for (0x6060), if it asks for one, is known.
pub open spec fn mode_known(objects: Objects) -> bool {
    objects.get((0x6060, 0)) matches Some(DataValue::Integer8(value)) ==> ModeOfOperation::is_number(
        value,
    )
}

/// The data of a frame is complete for the service that it addresses, and what the service does with
/// the object dictionary is possible.
pub open spec fn service_complete(n: NodeState, cob_id: u32, data: Seq<u8>) -> bool {
    match service_of(n.node_id, cob_id) {
        Service::NetworkManagement => nmt_complete(data),
        Service::Sync => sync_complete(n.objects),
        Service::ReceivePdo(number) => rpdo_complete(
            n.objects,
            mappings_of(n.objects, rpdo_index(number)),
            data.len() as int,
        ),
        Service::ServiceData => sdo_complete(n.objects, sdo_command(data), data),
        Service::Emergency | Service::Ignored => true,
    }
}

/// The node can take the frame: the service that it addresses is possible, and so is the cycle of
/// the motor controller that follows on SYNC.
pub open spec fn frame_complete(n: NodeState, cob_id: u32, data: Seq<u8>) -> bool {
    &&& service_complete(n, cob_id, data)
    &&& cob_id == SYNC_COB_ID ==> mode_known(n.objects)
}

/// The node after the service that a frame addresses.
pub open spec fn served(n: NodeState, cob_id: u32, data: Seq<u8>) -> NodeState {
    match service_of(n.node_id, cob_id) {
        Service::NetworkManagement => NodeState { nmt_state: nmt_state_after(n, data), ..n },
        Service::ReceivePdo(number) => NodeState {
            objects: rpdo_objects(n.objects, mappings_of(n.objects, rpdo_index(number)), data),
            ..n
        },
        Service::ServiceData => NodeState {
            objects: sdo_objects(n.objects, sdo_command(data), data),
            ..n
        },
        _ => n,
    }
}

/// The messages of an optional reply.
pub open spec fn reply_messages(reply: Option<Message>) -> Seq<Message> {
    match reply {
        Some(message) => seq![message],
        None => Seq::empty(),
    }
}

/// What a node sends in answer to a frame.
pub open spec fn answers(n: NodeState, cob_id: u32, data: Seq<u8>) -> Seq<Message> {
    match service_of(n.node_id, cob_id) {
        Service::NetworkManagement => reply_messages(nmt_reply(n, data)),
        Service::Sync => sync_messages(n.node_id, n.objects, TPDO_COUNT as nat),
        Service::ServiceData => reply_messages(
            sdo_reply(n.node_id, n.objects, sdo_command(data), data),
        ),
        _ => Seq::empty(),
    }
}

/// The node after a frame that it takes at the time `now`: the service that the frame addresses,
/// and on the SYNC frame a cycle of the motor controller. A movement that begins with the cycle and
/// takes time takes `duration`.
pub open spec fn after_frame(
    n: NodeState,
    cob_id: u32,
    data: Seq<u8>,
    now: u128,
    duration: u128,
) -> NodeState {
    if cob_id == SYNC_COB_ID {
        cycle(served(n, cob_id, data), now, duration)
    } else {
        served(n, cob_id, data)
    }
}

/// Something about a frame that is worth a line in a log.
#[derive(Debug, Clone, Copy, PartialEq, Eq, Structural)]
pub enum Notice {
    /// A network management request has other than two bytes.
    NmtLength,
    /// No network management command stands for the requested state.
    UnknownNmtState(u8),
    /// A service data request has more than eight bytes.
    RequestTooLong,
    /// A service data request neither begins an upload nor a download.
    UnsupportedCommand,
    /// An object of a type that is not transferred was to be uploaded.
    UnsupportedUpload,
    /// An object of a type that is not transferred was to be downloaded.
    UnsupportedDownload,
    /// An entry of a receive mapping does not fit the type of its object.
    UnsupportedMapping { index: u16, sub_index: u8, data_type: u8 },
}

/// A notice, where there is reason for it.
pub open spec fn notice_if(reason: bool, notice: Notice) -> Seq<Notice> {
    if reason {
        seq![notice]
    } else {
        Seq::empty()
    }
}

/// What is to be noted of a network management request.
pub open spec fn nmt_notices(data: Seq<u8>) -> Seq<Notice> {
    notice_if(data.len() != 2, Notice::NmtLength) + notice_if(
        NmtCommand::from_code(data[0]) is None,
        Notice::UnknownNmtState(data[0]),
    )
}

/// What is to be noted of a service data request.
pub open spec fn sdo_notices(objects: Objects, data: Seq<u8>) -> Seq<Notice> {
    let key = sdo_object(data);
    let command = sdo_command(data);
    notice_if(data.len() > 8, Notice::RequestTooLong) + (if !objects.contains_key(key) {
        Seq::empty()
    } else if command == ClientCommand::InitiateUpload {
        notice_if(objects[key].size() == 0, Notice::UnsupportedUpload)
    } else if command == ClientCommand::InitiateDownload {
        notice_if(objects[key].size() == 0, Notice::UnsupportedDownload)
    } else {
        seq![Notice::UnsupportedCommand]
    })
}

/// What is to be noted of a receive process data object of `len` bytes: the entries of its mapping
/// that are reached and do not fit their object.
pub open spec fn rpdo_notices(objects: Objects, mappings: Seq<u32>, len: int) -> Seq<Notice>
    decreases mappings.len(),
{
    if mappings.len() == 0 || len <= 0 {
        Seq::empty()
    } else {
        let key = mapped_object(mappings[0]);
        let data_type = mapped_type(mappings[0]);
        if objects.contains_key(key) {
            let size = mapped_size(data_type, objects[key]);
            notice_if(
                size == 0,
                Notice::UnsupportedMapping { index: key.0, sub_index: key.1, data_type },
            ) + rpdo_notices(objects, mappings.drop_first(), len - size)
        } else {
            rpdo_notices(objects, mappings.drop_first(), len)
        }
    }
}

/// What is to be noted of a frame.
pub open spec fn notices_of(n: NodeState, cob_id: u32, data: Seq<u8>) -> Seq<Notice> {
    match service_of(n.node_id, cob_id) {
        Service::NetworkManagement => nmt_notices(data),
        Service::ReceivePdo(number) => rpdo_notices(
            n.objects,
            mappings_of(n.objects, rpdo_index(number)),
            data.len() as int,
        ),
        Service::ServiceData => sdo_notices(n.objects, data),
        _ => Seq::empty(),
    }
}

/// What a frame leads to.
#[derive(Debug)]
pub struct Reaction {
    /// The frames to send, in their order.
    pub frames: Vec<Frame>,
    /// The frame to send announces a new network management state.
    pub announcement: bool,
    /// An emergency message has come in.
    pub emergency: bool,
    /// The motor controller is to run a cycle when the frames are sent.
    pub cycle_due: bool,
    /// What is to be noted of the frame.
    pub notices: Vec<Notice>,
}

impl Reaction {
    /// The reaction is that of the node to the frame.
    pub open spec fn is_to(&self, n: NodeState, cob_id: u32, data: Seq<u8>) -> bool {
        &&& messages(self.frames@) == answers(n, cob_id, data)
        &&& self.announcement == (service_of(n.node_id, cob_id) == Service::NetworkManagement
            && nmt_reply(n, data) is Some)
        &&& self.emergency == (service_of(n.node_id, cob_id) == Service::Emergency)
        &&& self.cycle_due == (cob_id == SYNC_COB_ID)
        &&& self.notices@ == notices_of(n, cob_id, data)
    }
}

/// The service of the node `own_id` that a frame with the identifier `cob_id` addresses.
pub fn addressed_service(own_id: u8, cob_id: u32) -> (service: Service)
    ensures
        service == service_of(own_id, cob_id),
{
    assert((cob_id & 0x7Fu32) as u8 == cob_id % 0x80) by (bit_vector);
    assert(cob_id & (0x0Fu32 << 7u32) == cob_id / 0x80 % 0x10 * 0x80) by (bit_vector);
    let node_id: u8 = (cob_id & 0x7F) as u8;
    let function_code: u32 = cob_id & (0x0Fu32 << 7);
    if node_id == 0 {
        match function_code {
            0x000 => Service::NetworkManagement,
            0x080 => Service::Sync,
            _ => Service::Ignored,
        }
    } else if node_id == own_id {
        match function_code {
            0x080 => Service::Emergency,
            0x200 => Service::ReceivePdo(1),
            0x300 => Service::ReceivePdo(2),
            0x400 => Service::ReceivePdo(3),
            0x500 => Service::ReceivePdo(4),
            0x600 => Service::ServiceData,
            _ => Service::Ignored,
        }
    } else {
        Service::Ignored
    }
}

fn frames_of(reply: Option<Frame>) -> (frames: Vec<Frame>)
    ensures
        messages(frames@) == reply_messages(message_of(reply)),
{
    let mut frames: Vec<Frame> = Vec::new();
    if let Some(frame) = reply {
        frames.push(frame);
    }
    assert(messages(frames@) =~= reply_messages(message_of(reply)));
    frames
}

impl Node {
    /// Performs the service that a frame addresses. On the SYNC frame, the cycle of the motor
    /// controller is left to do.
    pub fn serve_frame(&mut self, cob_id: u32, data: &[u8]) -> (reaction: Reaction)
        requires
            service_complete(old(self)@, cob_id, data@),
        ensures
            final(self)@ == served(old(self)@, cob_id, data@),
            final(self).clock == old(self).clock,
            reaction.is_to(old(self)@, cob_id, data@),
    {
        let notices: Vec<Notice> = self.notices(cob_id, data);
        let cycle_due: bool = cob_id == SYNC_COB_ID;
        let mut announcement: bool = false;
        let mut emergency: bool = false;
        let frames: Vec<Frame> = match addressed_service(self.node_id, cob_id) {
            Service::NetworkManagement => {
                let reply: Option<Frame> = self.parse_nmt_command(data);
                announcement = reply.is_some();
                frames_of(reply)
            },
            Service::Sync => self.parse_sync(),
            Service::Emergency => {
                emergency = true;
                frames_of(None)
            },
            Service::ReceivePdo(number) => {
                self.parse_rpdo(&number, data);
                frames_of(None)
            },
            Service::ServiceData => frames_of(self.parse_sdo_client_request(data)),
            Service::Ignored => frames_of(None),
        };
        Reaction { frames, announcement, emergency, cycle_due, notices }
    }

    /// Takes a frame at the time `now` of the clock of the node: performs the service that it
    /// addresses, and runs the cycle that is due on SYNC. A movement that begins with the cycle and
    /// takes time takes `duration`.
    pub fn handle_frame(&mut self, cob_id: u32, data: &[u8], now: u128, duration: u128) -> (reaction:
        Reaction)
        requires
            old(self).wf(),
            frame_complete(old(self)@, cob_id, data@),
        ensures
            final(self).wf(),
            final(self)@ == after_frame(old(self)@, cob_id, data@, now, duration),
            final(self).clock == old(self).clock,
            reaction.is_to(old(self)@, cob_id, data@),
    {
        let reaction: Reaction = self.serve_frame(cob_id, data);
        if reaction.cycle_due {
            self.run_cycle(now, duration);
        }
        reaction
    }

    fn nmt_notices(data: &[u8]) -> (notices: Vec<Notice>)
        requires
            nmt_complete(data@),
        ensures
            notices@ == nmt_notices(data@),
    {
        let mut notices: Vec<Notice> = Vec::new();
        if data.len() != 2 {
            notices.push(Notice::NmtLength);
        }
        if new_nmt_state(data[0]).is_err() {
            notices.push(Notice::UnknownNmtState(data[0]));
        }
        assert(notices@ =~= nmt_notices(data@));
        notices
    }

    fn sdo_notices(&self, data: &[u8]) -> (notices: Vec<Notice>)
        requires
            data@.len() >= 4,
        ensures
            notices@ == sdo_notices(self@.objects, data@),
    {
        let mut notices: Vec<Notice> = Vec::new();
        if data.len() > 8 {
            notices.push(Notice::RequestTooLong);
        }
        let address: [u8; 2] = [data[1], data[2]];
        assert(data@.subrange(1, 3) =~= address@);
        if let Some(value) = self.eds_data.get(u16_from_le(address), data[3]) {
            match ClientCommand::client_command(data[0] / 32) {
                ClientCommand::InitiateUpload => {
                    if value_len(value) == 0 {
                        notices.push(Notice::UnsupportedUpload);
                    }
                },
                ClientCommand::InitiateDownload => {
                    if value_len(value) == 0 {
                        notices.push(Notice::UnsupportedDownload);
                    }
                },
                _ => notices.push(Notice::UnsupportedCommand),
            }
        }
        assert(notices@ =~= sdo_notices(self@.objects, data@));
        notices
    }

    fn rpdo_notices(&self, rpdo_number: u16, len: usize) -> (notices: Vec<Notice>)
        requires
            rpdo_number >= 1,
            rpdo_complete(
                self@.objects,
                mappings_of(self@.objects, rpdo_index(rpdo_number)),
                len as int,
            ),
        ensures
            notices@ == rpdo_notices(
                self@.objects,
                mappings_of(self@.objects, rpdo_index(rpdo_number)),
                len as int,
            ),
    {
        let mappings: Vec<u32> = self.rpdo_mappings(rpdo_number);
        let mut notices: Vec<Notice> = Vec::new();
        let mut left: usize = len;
        let mut k: usize = 0;
        let ghost goal = rpdo_notices(self@.objects, mappings@, len as int);
        assert(mappings@.skip(0) =~= mappings@);
        assert(notices@ + goal =~= goal);
        while k < mappings.len() && left > 0
            invariant
                k <= mappings.len(),
                rpdo_complete(self@.objects, mappings@.skip(k as int), left as int),
                notices@ + rpdo_notices(self@.objects, mappings@.skip(k as int), left as int)
                    == goal,
            decreases mappings.len() - k,
        {
            let (index, sub_index, data_type): (u16, u8, u8) = split_mapping(mappings[k]);
            let ghost before = notices@;
            let ghost old_left = left;
            let ghost rest = mappings@.skip(k as int);
            assert(rest[0] == mappings@[k as int]);
            assert(rest.drop_first() =~= mappings@.skip(k + 1));
            if let Some(value) = self.eds_data.get(index, sub_index) {
                let size: usize = mapped_len(data_type, value);
                if size == 0 {
                    notices.push(Notice::UnsupportedMapping { index, sub_index, data_type });
                }
                left = left - size;
            }
            k = k + 1;
            assert(notices@ + rpdo_notices(self@.objects, mappings@.skip(k as int), left as int)
                =~= before + rpdo_notices(self@.objects, rest, old_left as int));
        }
        assert(notices@ + rpdo_notices(self@.objects, mappings@.skip(k as int), left as int)
            =~= notices@);
        notices
    }

    /// What is to be noted of a frame.
    fn notices(&self, cob_id: u32, data: &[u8]) -> (notices: Vec<Notice>)
        requires
            service_complete(self@, cob_id, data@),
        ensures
            notices@ == notices_of(self@, cob_id, data@),
    {
        match addressed_service(self.node_id, cob_id) {
            Service::NetworkManagement => Self::nmt_notices(data),
            Service::ReceivePdo(number) => self.rpdo_notices(number, data.len()),
            Service::ServiceData => self.sdo_notices(data),
            Service::Sync | Service::Emergency | Service::Ignored => Vec::new(),
        }
    }

    fn sync_is_complete(&self) -> (complete: bool)
        ensures
            complete == sync_complete(self@.objects),
    {
        proof {
            lemma_first_unsendable(self@.objects, 0);
        }
        self.sendable_count() == TPDO_COUNT
    }

    fn rpdo_is_complete(&self, rpdo_number: u16, len: usize) -> (complete: bool)
        requires
            rpdo_number >= 1,
        ensures
            complete == rpdo_complete(
                self@.objects,
                mappings_of(self@.objects, rpdo_index(rpdo_number)),
                len as int,
            ),
    {
        let mappings: Vec<u32> = self.rpdo_mappings(rpdo_number);
        let mut left: usize = len;
        let mut k: usize = 0;
        assert(mappings@.skip(0) =~= mappings@);
        while k < mappings.len() && left > 0
            invariant
                k <= mappings.len(),
                mappings@ == mappings_of(self@.objects, rpdo_index(rpdo_number)),
                rpdo_complete(self@.objects, mappings@.skip(k as int), left as int)
                    == rpdo_complete(self@.objects, mappings@, len as int),
            decreases mappings.len() - k,
        {
            let (index, sub_index, data_type): (u16, u8, u8) = split_mapping(mappings[k]);
            assert(mappings@.skip(k as int)[0] == mappings@[k as int]);
            assert(mappings@.skip(k as int).drop_first() =~= mappings@.skip(k + 1));
            if let Some(value) = self.eds_data.get(index, sub_index) {
                let size: usize = mapped_len(data_type, value);
                if size > left {
                    return false;
                }
                left = left - size;
            }
            k = k + 1;
        }
        true
    }

    fn sdo_is_complete(&self, data: &[u8]) -> (complete: bool)
        ensures
            complete == sdo_complete(self@.objects, sdo_command(data@), data@),
    {
        if data.len() < 4 {
            return false;
        }
        let address: [u8; 2] = [data[1], data[2]];
        assert(data@.subrange(1, 3) =~= address@);
        match ClientCommand::client_command(data[0] / 32) {
            ClientCommand::InitiateDownload => {
                match self.eds_data.get(u16_from_le(address), data[3]) {
                    Some(value) => data.len() >= 4 + value_len(value),
                    None => true,
                }
            },
            _ => true,
        }
    }

    /// Whether the mode of operation that the dictionary asks for is known, as a cycle of the motor
    /// controller asks of its callers.
    pub fn mode_is_known(&self) -> (known: bool)
        ensures
            known == mode_known(self@.objects),
    {
        match self.eds_data.get(0x6060, 0) {
            Some(DataValue::Integer8(value)) => {
                *value == 0 || *value == 1 || *value == 3 || *value == 6
            },
            _ => true,
        }
    }

    /// Whether the service that the frame addresses is possible, as `serve_frame` asks of its
    /// callers.
    pub fn accepts_service(&self, cob_id: u32, data: &[u8]) -> (complete: bool)
        ensures
            complete == service_complete(self@, cob_id, data@),
    {
        match addressed_service(self.node_id, cob_id) {
            Service::NetworkManagement => data.len() >= 2,
            Service::Sync => self.sync_is_complete(),
            Service::ReceivePdo(number) => self.rpdo_is_complete(number, data.len()),
            Service::ServiceData => self.sdo_is_complete(data),
            Service::Emergency | Service::Ignored => true,
        }
    }

    /// Whether the node can take the frame, as `handle_frame` asks of its callers.
    pub fn accepts(&self, cob_id: u32, data: &[u8]) -> (complete: bool)
        ensures
            complete == frame_complete(self@, cob_id, data@),
    {
        self.accepts_service(cob_id, data) && (cob_id != SYNC_COB_ID || self.mode_is_known())
    }
}

} // verus!
