//! What the operations do, in plain numbers: which bytes stand for a value, which numbers in a
//! frame address which object, and what a cycle makes of the fields of a controller.

use vstd::prelude::*;

use crate::bits::{bit, with_bits};
use crate::cia301::{ClientCommand, ServerCommand};
use crate::cia402_runner::{command_of, Command};
use crate::eds::{DataValue, EDSData};
use crate::frame::{MAX_BASE_ID, MAX_DATA_LEN};
use crate::le::{le_bytes, signed_value, unsigned_value};
use crate::nmt::{unexpected_state_text, NmtCommand, NmtState};

verus! {

// Bits.

/// The bits of a word are its binary digits, the lowest first.
pub proof fn bits_are_binary_digits(word: u16)
    ensures
        bit(word, 0) == (word % 2 == 1),
        bit(word, 1) == (word / 2 % 2 == 1),
        bit(word, 2) == (word / 4 % 2 == 1),
        bit(word, 3) == (word / 8 % 2 == 1),
        bit(word, 4) == (word / 16 % 2 == 1),
        bit(word, 5) == (word / 32 % 2 == 1),
        bit(word, 6) == (word / 64 % 2 == 1),
        bit(word, 7) == (word / 128 % 2 == 1),
        bit(word, 8) == (word / 256 % 2 == 1),
        bit(word, 9) == (word / 512 % 2 == 1),
        bit(word, 10) == (word / 1024 % 2 == 1),
        bit(word, 11) == (word / 2048 % 2 == 1),
        bit(word, 12) == (word / 4096 % 2 == 1),
        bit(word, 13) == (word / 8192 % 2 == 1),
        bit(word, 14) == (word / 16384 % 2 == 1),
        bit(word, 15) == (word / 32768 % 2 == 1),
{
    assert((word & (1u16 << 0usize) != 0) == (word % 2 == 1)
        && (word & (1u16 << 1usize) != 0) == (word / 2 % 2 == 1)
        && (word & (1u16 << 2usize) != 0) == (word / 4 % 2 == 1)
        && (word & (1u16 << 3usize) != 0) == (word / 8 % 2 == 1)
        && (word & (1u16 << 4usize) != 0) == (word / 16 % 2 == 1)
        && (word & (1u16 << 5usize) != 0) == (word / 32 % 2 == 1)
        && (word & (1u16 << 6usize) != 0) == (word / 64 % 2 == 1)
        && (word & (1u16 << 7usize) != 0) == (word / 128 % 2 == 1)
        && (word & (1u16 << 8usize) != 0) == (word / 256 % 2 == 1)
        && (word & (1u16 << 9usize) != 0) == (word / 512 % 2 == 1)
        && (word & (1u16 << 10usize) != 0) == (word / 1024 % 2 == 1)
        && (word & (1u16 << 11usize) != 0) == (word / 2048 % 2 == 1)
        && (word & (1u16 << 12usize) != 0) == (word / 4096 % 2 == 1)
        && (word & (1u16 << 13usize) != 0) == (word / 8192 % 2 == 1)
        && (word & (1u16 << 14usize) != 0) == (word / 16384 % 2 == 1)
        && (word & (1u16 << 15usize) != 0) == (word / 32768 % 2 == 1)) by (bit_vector);
}

/// Of several assignments to a bit the last one counts, and a bit that none is made to keeps its
/// value.
pub proof fn last_assignment_counts(word: u16, bits: Seq<(usize, bool)>, index: usize)
    requires
        index < 16,
        forall|k: int| 0 <= k < bits.len() ==> (#[trigger] bits[k]).0 < 16,
    ensures
        forall|k: int|
            0 <= k < bits.len() && (#[trigger] bits[k]).0 == index && (forall|later: int|
                k < later < bits.len() ==> (#[trigger] bits[later]).0 != index) ==> bit(
                with_bits(word, bits),
                index,
            ) == bits[k].1,
        (forall|k: int| 0 <= k < bits.len() ==> (#[trigger] bits[k]).0 != index) ==> bit(
            with_bits(word, bits),
            index,
        ) == bit(word, index),
    decreases bits.len(),
{
    if bits.len() > 0 {
        let rest = bits.drop_last();
        let last = bits[bits.len() - 1];
        assert forall|k: int| 0 <= k < rest.len() implies (#[trigger] rest[k]).0 < 16 by {
            assert(rest[k] == bits[k]);
        }
        last_assignment_counts(word, rest, index);
        crate::bits::lemma_bit_of_with_bit(with_bits(word, rest), last.0, last.1, index);
        assert forall|k: int|
            0 <= k < bits.len() && (#[trigger] bits[k]).0 == index && (forall|later: int|
                k < later < bits.len() ==> (#[trigger] bits[later]).0 != index) implies bit(
            with_bits(word, bits),
            index,
        ) == bits[k].1 by {
            if k < rest.len() {
                assert(bits[bits.len() - 1].0 != index);
                assert(rest[k] == bits[k]);
                assert forall|later: int| k < later < rest.len() implies (#[trigger] rest[later]).0
                    != index by {
                    assert(rest[later] == bits[later]);
                }
            }
        }
        if forall|k: int| 0 <= k < bits.len() ==> (#[trigger] bits[k]).0 != index {
            assert(bits[bits.len() - 1].0 != index);
            assert forall|k: int| 0 <= k < rest.len() implies (#[trigger] rest[k]).0 != index by {
                assert(rest[k] == bits[k]);
            }
        }
    }
}

// Numbers and values as bytes.

/// The bytes of a number, weighted by their places, add up to it, or to its two's complement where
/// it is negative.
pub proof fn bytes_add_up(value: int)
    ensures
        le_bytes(value, 1).len() == 1,
        le_bytes(value, 2).len() == 2,
        le_bytes(value, 4).len() == 4,
        -0x80 <= value < 0x100 ==> le_bytes(value, 1)[0] == (if value < 0 {
            value + 0x100
        } else {
            value
        }),
        -0x8000 <= value < 0x1_0000 ==> le_bytes(value, 2)[0] + 0x100 * le_bytes(value, 2)[1] == (if value
            < 0 {
            value + 0x1_0000
        } else {
            value
        }),
        -0x8000_0000 <= value < 0x1_0000_0000 ==> le_bytes(value, 4)[0] + 0x100 * le_bytes(value, 4)[1]
            + 0x1_0000 * le_bytes(value, 4)[2] + 0x100_0000 * le_bytes(value, 4)[3] == (if value < 0 {
            value + 0x1_0000_0000
        } else {
            value
        }),
{
    reveal_with_fuel(le_bytes, 5);
}

/// The number of bytes is the sum of the bytes, weighted by their places; with a sign, less the next
/// power where the top bit is set.
pub proof fn numbers_of_bytes(a: u8, b: u8, c: u8, d: u8)
    ensures
        unsigned_value(seq![a]) == a,
        unsigned_value(seq![a, b]) == a + 0x100 * b,
        unsigned_value(seq![a, b, c, d]) == a + 0x100 * b + 0x1_0000 * c + 0x100_0000 * d,
        signed_value(seq![a]) == (if a >= 0x80 {
            a - 0x100
        } else {
            a as int
        }),
        signed_value(seq![a, b]) == a + 0x100 * b - (if b >= 0x80 {
            0x1_0000int
        } else {
            0
        }),
        signed_value(seq![a, b, c, d]) == a + 0x100 * b + 0x1_0000 * c + 0x100_0000 * d - (if d
            >= 0x80 {
            0x1_0000_0000int
        } else {
            0
        }),
{
    reveal_with_fuel(unsigned_value, 5);
    reveal_with_fuel(signed_value, 5);
    assert(seq![a, b, c, d].drop_first() =~= seq![b, c, d]);
    assert(seq![b, c, d].drop_first() =~= seq![c, d]);
    assert(seq![c, d].drop_first() =~= seq![d]);
    assert(seq![a, b].drop_first() =~= seq![b]);
}

/// The bytes of a value are as many as its type has, and add up to its number.
pub proof fn value_bytes_add_up(value: DataValue)
    ensures
        ({
            let bytes = value.bytes();
            match value {
                DataValue::Unsigned8(v) => value.size() == 1 && bytes.len() == 1 && bytes[0] == v,
                DataValue::Integer8(v) => value.size() == 1 && bytes.len() == 1 && (bytes[0] == v
                    || bytes[0] == v + 0x100),
                DataValue::Unsigned16(v) => value.size() == 2 && bytes.len() == 2 && bytes[0] + 0x100
                    * bytes[1] == v,
                DataValue::Integer16(v) => value.size() == 2 && bytes.len() == 2 && (bytes[0] + 0x100
                    * bytes[1] == v || bytes[0] + 0x100 * bytes[1] == v + 0x1_0000),
                DataValue::Unsigned32(v) => value.size() == 4 && bytes.len() == 4 && bytes[0] + 0x100
                    * bytes[1] + 0x1_0000 * bytes[2] + 0x100_0000 * bytes[3] == v,
                DataValue::Integer32(v) => value.size() == 4 && bytes.len() == 4 && (bytes[0] + 0x100
                    * bytes[1] + 0x1_0000 * bytes[2] + 0x100_0000 * bytes[3] == v || bytes[0] + 0x100
                    * bytes[1] + 0x1_0000 * bytes[2] + 0x100_0000 * bytes[3] == v + 0x1_0000_0000),
                DataValue::Other(_) => value.size() == 0 && bytes.len() == 0,
            }
        }),
{
    match value {
        DataValue::Integer8(v) => bytes_add_up(v as int),
        DataValue::Unsigned8(v) => bytes_add_up(v as int),
        DataValue::Integer16(v) => bytes_add_up(v as int),
        DataValue::Unsigned16(v) => bytes_add_up(v as int),
        DataValue::Integer32(v) => bytes_add_up(v as int),
        DataValue::Unsigned32(v) => bytes_add_up(v as int),
        DataValue::Other(_) => {},
    }
}

/// A value that is read takes its type from the one that it replaces and its number from the first
/// bytes of the data.
pub proof fn read_value_adds_up(value: DataValue, data: Seq<u8>)
    requires
        data.len() >= value.size(),
    ensures
        match value {
            DataValue::Unsigned8(_) => value.replaced_by(data) == DataValue::Unsigned8(data[0]),
            DataValue::Integer8(_) => value.replaced_by(data) matches DataValue::Integer8(v) && (v
                == data[0] || v == data[0] - 0x100),
            DataValue::Unsigned16(_) => value.replaced_by(data) matches DataValue::Unsigned16(v) && v
                == data[0] + 0x100 * data[1],
            DataValue::Integer16(_) => value.replaced_by(data) matches DataValue::Integer16(v) && (v
                == data[0] + 0x100 * data[1] || v == data[0] + 0x100 * data[1] - 0x1_0000),
            DataValue::Unsigned32(_) => value.replaced_by(data) matches DataValue::Unsigned32(v) && v
                == data[0] + 0x100 * data[1] + 0x1_0000 * data[2] + 0x100_0000 * data[3],
            DataValue::Integer32(_) => value.replaced_by(data) matches DataValue::Integer32(v) && (v
                == data[0] + 0x100 * data[1] + 0x1_0000 * data[2] + 0x100_0000 * data[3] || v
                == data[0] + 0x100 * data[1] + 0x1_0000 * data[2] + 0x100_0000 * data[3]
                - 0x1_0000_0000),
            DataValue::Other(_) => value.replaced_by(data) == value,
        },
{
    let size = value.size() as int;
    if size == 1 {
        assert(data.take(1) =~= seq![data[0]]);
        numbers_of_bytes(data[0], 0, 0, 0);
    } else if size == 2 {
        assert(data.take(2) =~= seq![data[0], data[1]]);
        numbers_of_bytes(data[0], data[1], 0, 0);
    } else if size == 4 {
        assert(data.take(4) =~= seq![data[0], data[1], data[2], data[3]]);
        numbers_of_bytes(data[0], data[1], data[2], data[3]);
    }
}

/// The objects of a dictionary are the variables in its tables.
pub proof fn objects_are_the_variables(eds_data: EDSData, index: u16, sub_index: u8)
    ensures
        eds_data@.contains_key((index, sub_index)) <==> eds_data.od@.contains_key(index)
            && eds_data.od@[index]@.contains_key(sub_index),
        eds_data@.contains_key((index, sub_index)) ==> eds_data@[(index, sub_index)]
            == eds_data.od@[index]@[sub_index].value,
{
}

/// The command of a controlword by its number: bit 7 resets faults; otherwise the four low bits
/// decide.
pub proof fn controlword_numbers(word: u16)
    ensures
        word / 128 % 2 == 1 <==> command_of(word) == Command::FaultReset,
        word / 128 % 2 == 0 ==> {
            let low = word % 16;
            &&& low == 15 <==> command_of(word) == Command::EnableOperation
            &&& low == 7 <==> command_of(word) == Command::SwitchOn
            &&& low == 6 || low == 14 <==> command_of(word) == Command::Shutdown
            &&& low == 2 || low == 3 || low == 10 || low == 11 <==> command_of(word)
                == Command::QuickStop
            &&& low / 2 % 2 == 0 <==> command_of(word) == Command::DisableVoltage
        },
{
    bits_are_binary_digits(word);
}

/// The commands of service data clients by their numbers.
pub proof fn client_command_numbers(value: u8)
    ensures
        value == 0 <==> ClientCommand::from_number(value) == ClientCommand::SegmentDownload,
        value == 1 <==> ClientCommand::from_number(value) == ClientCommand::InitiateDownload,
        value == 2 <==> ClientCommand::from_number(value) == ClientCommand::InitiateUpload,
        value == 3 <==> ClientCommand::from_number(value) == ClientCommand::SegmentUpload,
        value == 4 <==> ClientCommand::from_number(value) == ClientCommand::AbortTransfer,
        value >= 5 <==> ClientCommand::from_number(value) == ClientCommand::Unknown,
{
}

/// The commands of service data servers by their numbers.
pub proof fn server_command_numbers(command: ServerCommand)
    ensures
        command.number() == 0 <==> command == ServerCommand::UploadSegmentResponse,
        command.number() == 1 <==> command == ServerCommand::DownloadSegmentResponse,
        command.number() == 2 <==> command == ServerCommand::InitiateUploadResponse,
        command.number() == 3 <==> command == ServerCommand::InitiateDownloadResponse,
        command.number() == 4 <==> command == ServerCommand::AbortTransfer,
{
}

/// The network management commands by their numbers, with the states that they lead to.
pub proof fn network_management_numbers(code: u8)
    ensures
        NmtCommand::from_code(code) is None <==> code != 1 && code != 2 && code != 0x80 && code != 0x81
            && code != 0x82,
        NmtCommand::from_code(code) matches Some(command) ==> {
            &&& code == 1 ==> command == NmtCommand::Start && command.target()
                == NmtState::Operational
            &&& code == 2 ==> command == NmtCommand::Stop && command.target() == NmtState::Stopped
            &&& code == 0x80 ==> command == NmtCommand::GoToPreOperational && command.target()
                == NmtState::PreOperational
            &&& code == 0x81 ==> command == NmtCommand::Reset && command.target()
                == NmtState::Initializing
            &&& code == 0x82 ==> command == NmtCommand::ResetCommunication && command.target()
                == NmtState::Initializing
        },
{
}

/// What is said of a state that no command stands for ends with its number in hexadecimal digits:
/// one digit below sixteen, otherwise two.
pub proof fn unexpected_states_are_named(code: u8)
    ensures
        ({
            let prefix = "Unexpected requested state: 0x"@;
            let text = unexpected_state_text(code);
            let digit = |c: char|
                if '0' <= c <= '9' {
                    c as int - '0' as int
                } else {
                    c as int - 'A' as int + 10
                };
            let last = text[text.len() - 1];
            &&& text.subrange(0, prefix.len() as int) == prefix
            &&& code < 16 ==> text.len() == prefix.len() + 1
            &&& code >= 16 ==> text.len() == prefix.len() + 2
            &&& '0' <= last <= '9' || 'A' <= last <= 'F'
            &&& digit(last) == code % 16
            &&& code >= 16 ==> {
                let first = text[text.len() - 2];
                &&& '0' <= first <= '9' || 'A' <= first <= 'F'
                &&& digit(first) == code / 16
            }
        }),
{
    assert(unexpected_state_text(code).subrange(
        0,
        "Unexpected requested state: 0x"@.len() as int,
    ) =~= "Unexpected requested state: 0x"@);
}

/// Base identifiers have eleven bits and frames have at most eight bytes.
pub proof fn frame_limits(id: u16, len: usize)
    ensures
        id <= MAX_BASE_ID <==> id / 0x800 == 0,
        len <= MAX_DATA_LEN <==> len < 9,
{
}

} // verus!
