//! Network management: the states of a node and the frames that announce them.

use vstd::prelude::*;

use crate::frame::{Frame, Message};

verus! {

/// The network management state of a node.
#[derive(Debug, Clone, Copy, PartialEq, Eq, Structural)]
pub enum NmtState {
    Initializing,
    Stopped,
    Operational,
    PreOperational,
}

/// A network management command.
#[derive(Debug, Clone, Copy, PartialEq, Eq, Structural)]
pub enum NmtCommand {
    Start,
    Stop,
    GoToPreOperational,
    Reset,
    ResetCommunication,
}

impl NmtState {
    /// The number by which a node announces the state.
    pub open spec fn code(self) -> u8 {
        match self {
            NmtState::Initializing => 0x00,
            NmtState::Stopped => 0x04,
            NmtState::Operational => 0x05,
            NmtState::PreOperational => 0x7f,
        }
    }
}

impl NmtCommand {
    /// The command that a number stands for.
    pub open spec fn from_code(code: u8) -> Option<NmtCommand> {
        if code == 0x01 {
            Some(NmtCommand::Start)
        } else if code == 0x02 {
            Some(NmtCommand::Stop)
        } else if code == 0x80 {
            Some(NmtCommand::GoToPreOperational)
        } else if code == 0x81 {
            Some(NmtCommand::Reset)
        } else if code == 0x82 {
            Some(NmtCommand::ResetCommunication)
        } else {
            None
        }
    }

    /// The state into which the command takes a node.
    pub open spec fn target(self) -> NmtState {
        match self {
            NmtCommand::Start => NmtState::Operational,
            NmtCommand::Stop => NmtState::Stopped,
            NmtCommand::GoToPreOperational => NmtState::PreOperational,
            NmtCommand::Reset => NmtState::Initializing,
            NmtCommand::ResetCommunication => NmtState::Initializing,
        }
    }
}

/// The digit of a number below sixteen, in upper case.
pub open spec fn hex_digit(value: int) -> char {
    if 0 <= value < 10 {
        ('0' as int + value) as char
    } else {
        ('A' as int + value - 10) as char
    }
}

/// A byte in upper case hexadecimal digits, without leading zeros.
pub open spec fn hex_upper(value: u8) -> Seq<char> {
    if value < 16 {
        seq![hex_digit(value as int)]
    } else {
        seq![hex_digit(value as int / 16), hex_digit(value as int % 16)]
    }
}

/// What is said of a requested state that no command stands for.
pub open spec fn unexpected_state_text(requested_state: u8) -> Seq<char> {
    "Unexpected requested state: 0x"@ + hex_upper(requested_state)
}

/// The frame by which a node announces its state.
pub open spec fn nmt_message(node_id: u8, nmt_state: NmtState) -> Message {
    Message { id: 0x700u16 | node_id as u16, data: seq![nmt_state.code()] }
}

fn hex_digit_text(value: u8) -> (text: &'static str)
    requires
        value < 16,
    ensures
        text@ == seq![hex_digit(value as int)],
{
    proof {
        reveal_strlit("0");
        reveal_strlit("1");
        reveal_strlit("2");
        reveal_strlit("3");
        reveal_strlit("4");
        reveal_strlit("5");
        reveal_strlit("6");
        reveal_strlit("7");
        reveal_strlit("8");
        reveal_strlit("9");
        reveal_strlit("A");
        reveal_strlit("B");
        reveal_strlit("C");
        reveal_strlit("D");
        reveal_strlit("E");
        reveal_strlit("F");
    }
    let text: &'static str = match value {
        0 => "0",
        1 => "1",
        2 => "2",
        3 => "3",
        4 => "4",
        5 => "5",
        6 => "6",
        7 => "7",
        8 => "8",
        9 => "9",
        10 => "A",
        11 => "B",
        12 => "C",
        13 => "D",
        14 => "E",
        _ => "F",
    };
    assert(text@ =~= seq![hex_digit(value as int)]);
    text
}

fn unexpected_state(requested_state: u8) -> (text: String)
    ensures
        text@ == unexpected_state_text(requested_state),
{
    let mut text: String = String::from_str("Unexpected requested state: 0x");
    if requested_state >= 16 {
        text.append(hex_digit_text(requested_state / 16));
    }
    text.append(hex_digit_text(requested_state % 16));
    assert(text@ =~= unexpected_state_text(requested_state));
    text
}

/// The state that a network management request asks for, or what is wrong with it.
pub fn new_nmt_state(requested_state: u8) -> (result: Result<NmtState, String>)
    ensures
        match result {
            Ok(state) => NmtCommand::from_code(requested_state) matches Some(command)
                && state == command.target(),
            Err(text) => {
                &&& NmtCommand::from_code(requested_state) is None
                &&& text@ == unexpected_state_text(requested_state)
            },
        },
{
    let nmt_command: NmtCommand = match requested_state {
        0x01 => NmtCommand::Start,
        0x02 => NmtCommand::Stop,
        0x80 => NmtCommand::GoToPreOperational,
        0x81 => NmtCommand::Reset,
        0x82 => NmtCommand::ResetCommunication,
        _ => return Err(unexpected_state(requested_state)),
    };

    let new_state: NmtState = match nmt_command {
        NmtCommand::Start => NmtState::Operational,
        NmtCommand::Stop => NmtState::Stopped,
        NmtCommand::GoToPreOperational => NmtState::PreOperational,
        NmtCommand::Reset => NmtState::Initializing,
        NmtCommand::ResetCommunication => NmtState::Initializing,
    };
    Ok(new_state)
}

/// The frame by which the node announces its state.
pub fn create_nmt_frame(node_id: u8, nmt_state: NmtState) -> (frame: Frame)
    ensures
        frame@ == nmt_message(node_id, nmt_state),
{
    let cob: u16 = 0x700;
    assert(0x700u16 | node_id as u16 <= 0x7FF) by (bit_vector);
    let data: [u8; 1] = [match nmt_state {
        NmtState::Initializing => 0x00,
        NmtState::Stopped => 0x04,
        NmtState::Operational => 0x05,
        NmtState::PreOperational => 0x7f,
    }];
    let frame: Frame = Frame::new(cob | node_id as u16, data.as_slice()).unwrap();
    assert(frame.data@ =~= seq![nmt_state.code()]);
    frame
}

} // verus!
