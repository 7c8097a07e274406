//! CAN data frames with base identifiers.

use can_socket::error::InvalidId;
use can_socket::{CanFrame, CanId};

use vstd::prelude::*;

verus! {

/// The largest base identifier: base identifiers have eleven bits.
pub const MAX_BASE_ID: u16 = 0x7FF;

/// The most data bytes that a frame carries.
pub const MAX_DATA_LEN: usize = 8;

/// A data frame with a base identifier.
#[derive(Debug, Clone, PartialEq, Eq)]
pub struct Frame {
    pub id: u16,
    pub data: Vec<u8>,
}

/// What a frame says: its identifier and its data bytes.
#[verifier::ext_equal]
pub struct Message {
    pub id: u16,
    pub data: Seq<u8>,
}

impl View for Frame {
    type V = Message;

    open spec fn view(&self) -> Message {
        Message { id: self.id, data: self.data@ }
    }
}

/// What the frames of a list say, one after the other.
pub open spec fn messages(frames: Seq<Frame>) -> Seq<Message> {
    frames.map_values(|frame: Frame| frame@)
}

/// Why no frame can be made.
#[derive(Debug, Clone, Copy, PartialEq, Eq, Structural)]
pub enum FrameError {
    /// The identifier has more than eleven bits.
    InvalidId,
    /// There are more than eight data bytes.
    DataTooLong,
}

/// The error of `can_socket` for an identifier out of range.
#[verifier::external_type_specification]
#[verifier::external_body]
pub struct ExInvalidId(InvalidId);

/// The error of `can_socket` for data that no frame can carry.
#[verifier::external_type_specification]
#[verifier::external_body]
pub struct ExIoError(std::io::Error);

/// Calls `can_socket::CanId::new_base` and reads the identifier back as a number. Taken on
/// trust: it accepts the numbers up to the largest base identifier and refuses all others,
/// and an accepted identifier has the number that it was made from.
#[verifier::external_body]
fn base_id(id: u16) -> (result: Result<u32, InvalidId>)
    ensures
        result is Ok <==> id <= MAX_BASE_ID,
        result matches Ok(number) ==> number == id,
{
    CanId::new_base(id).map(|base| base.as_u32())
}

/// Calls `can_socket::CanFrame::new` with a base identifier and without a data length code,
/// and takes the frame apart again. Taken on trust: it refuses data of more than eight bytes
/// and nothing else, and a frame holds the identifier and the bytes that it was made from.
#[verifier::external_body]
fn packed(id: u16, data: &[u8]) -> (result: Result<(u32, Vec<u8>), std::io::Error>)
    requires
        id <= MAX_BASE_ID,
    ensures
        result is Ok <==> data@.len() <= MAX_DATA_LEN,
        result matches Ok(parts) ==> parts.0 == id && parts.1@ == data@,
{
    let frame = CanFrame::new(CanId::from(id), data, None)?;
    Ok((frame.id().as_u32(), frame.data().to_vec()))
}

impl Frame {
    /// A frame with the given identifier and data.
    pub fn new(id: u16, data: &[u8]) -> (result: Result<Frame, FrameError>)
        ensures
            match result {
                Ok(frame) => {
                    &&& id <= MAX_BASE_ID
                    &&& data@.len() <= MAX_DATA_LEN
                    &&& frame@ == (Message { id, data: data@ })
                },
                Err(FrameError::InvalidId) => id > MAX_BASE_ID,
                Err(FrameError::DataTooLong) => id <= MAX_BASE_ID && data@.len() > MAX_DATA_LEN,
            },
    {
        match base_id(id) {
            Ok(_) => match packed(id, data) {
                Ok((number, bytes)) => Ok(Frame { id: number as u16, data: bytes }),
                Err(_) => Err(FrameError::DataTooLong),
            },
            Err(_) => Err(FrameError::InvalidId),
        }
    }
}

} // verus!
