//! The CiA 402 drive: its state machine, its modes of operation and the controlword and
//! statusword by which a master commands and watches it.

use std::collections::VecDeque;

use vstd::prelude::*;

use crate::bits::{bit, get_bit_16, set_bit_16, set_bits, with_bit, with_bits};
use crate::cia301::{mode_known, nanos_since, Node, NodeState};
use crate::eds::{DataValue, EDSData, Objects};

verus! {

/// Operation mode
#[derive(Debug, Clone, Copy, PartialEq, Eq, Structural)]
pub enum ModeOfOperation {
    NoMode,
    ProfilePosition,
    ProfileVelocity,
    Homing,
}

/// Controlword
#[derive(Debug, Clone, Copy, PartialEq, Eq, Structural)]
pub enum Command {
    NoCommand,
    Shutdown,
    SwitchOn,
    DisableVoltage,
    QuickStop,
    EnableOperation,
    EnableOperationAfterQuickStop,
    FaultReset,
}

/// Statusword
#[derive(Debug, Clone, Copy, PartialEq, Eq, Structural)]
pub enum State {
    NotReadyToSwitchOn,
    SwitchedOnDisabled,
    ReadyToSwitchOn,
    SwitchedOn,
    OperationEnabled,
    QuickStopActive,
    FaultReactionActive,
    Fault,
}

/// Profile position status
#[derive(Debug, Clone, Copy, PartialEq, Eq, Structural)]
pub enum ProfilePositionStatus {
    SetpointAcknownlegde,
    Moving,
}

/// Profile velocity status
#[derive(Debug, Clone, Copy, PartialEq, Eq, Structural)]
pub enum ProfileVelocityStatus {
    AxisSpeedZero,
    TargetSpeedNotReached,
    TargetSpeedReached,
    AxisBraking,
}

/// Homing status
#[derive(Debug, Clone, Copy, PartialEq, Eq, Structural)]
pub enum HomeStatus {
    WaitingForStart,
    Homing,
}

impl Default for ModeOfOperation {
    fn default() -> (mode: Self)
        ensures
            mode == ModeOfOperation::NoMode,
    {
        ModeOfOperation::NoMode
    }
}

impl Default for Command {
    fn default() -> (command: Self)
        ensures
            command == Command::NoCommand,
    {
        Command::NoCommand
    }
}

impl Default for State {
    fn default() -> (state: Self)
        ensures
            state == State::NotReadyToSwitchOn,
    {
        State::NotReadyToSwitchOn
    }
}

impl Default for ProfilePositionStatus {
    fn default() -> (status: Self)
        ensures
            status == ProfilePositionStatus::SetpointAcknownlegde,
    {
        ProfilePositionStatus::SetpointAcknownlegde
    }
}

impl Default for ProfileVelocityStatus {
    fn default() -> (status: Self)
        ensures
            status == ProfileVelocityStatus::AxisSpeedZero,
    {
        ProfileVelocityStatus::AxisSpeedZero
    }
}

impl Default for HomeStatus {
    fn default() -> (status: Self)
        ensures
            status == HomeStatus::WaitingForStart,
    {
        HomeStatus::WaitingForStart
    }
}

impl ModeOfOperation {
    /// The number of the mode in the object dictionary.
    pub open spec fn number(self) -> i8 {
        match self {
            ModeOfOperation::NoMode => 0,
            ModeOfOperation::ProfilePosition => 1,
            ModeOfOperation::ProfileVelocity => 3,
            ModeOfOperation::Homing => 6,
        }
    }

    /// The number stands for one of the modes.
    pub open spec fn is_number(value: i8) -> bool {
        value == 0 || value == 1 || value == 3 || value == 6
    }

    /// The mode that a number stands for.
    pub fn mode_of_operation(value: i8) -> (mode: ModeOfOperation)
        requires
            ModeOfOperation::is_number(value),
        ensures
            mode.number() == value,
    {
        match value {
            0 => ModeOfOperation::NoMode,
            1 => ModeOfOperation::ProfilePosition,
            3 => ModeOfOperation::ProfileVelocity,
            _ => ModeOfOperation::Homing,
        }
    }

    /// The number of the mode.
    pub fn as_i8(&self) -> (value: i8)
        ensures
            value == self.number(),
    {
        match self {
            ModeOfOperation::NoMode => 0,
            ModeOfOperation::ProfilePosition => 1,
            ModeOfOperation::ProfileVelocity => 3,
            ModeOfOperation::Homing => 6,
        }
    }
}

/// The state of the motor controller. Points in time are nanoseconds on the clock of the
/// node, lengths of time are nanoseconds.
#[derive(Debug)]
pub struct MotorController {
    pub mode_of_operation: ModeOfOperation,
    pub controlword: u16,
    pub command: Command,
    pub statusword: u16,
    pub state: State,
    pub profile_position_status: ProfilePositionStatus,
    pub profile_velocity_status: ProfileVelocityStatus,
    pub halt: bool,
    /// The last two samples of the first mode specific control bit, the newest in front.
    pub control_oms1: VecDeque<bool>,
    pub home_status: HomeStatus,
    pub target_reached: bool,
    pub status_oms1: bool,
    pub status_oms2: bool,
    /// When the movement under way began.
    pub timer: Option<u128>,
    /// How long the movement under way takes.
    pub movement_duration: Option<u128>,
}

/// What a motor controller holds, as a value.
#[verifier::ext_equal]
pub struct Controller {
    pub mode_of_operation: ModeOfOperation,
    pub controlword: u16,
    pub command: Command,
    pub statusword: u16,
    pub state: State,
    pub profile_position_status: ProfilePositionStatus,
    pub profile_velocity_status: ProfileVelocityStatus,
    pub halt: bool,
    pub control_oms1: Seq<bool>,
    pub home_status: HomeStatus,
    pub target_reached: bool,
    pub status_oms1: bool,
    pub status_oms2: bool,
    pub timer: Option<u128>,
    pub movement_duration: Option<u128>,
}

impl View for MotorController {
    type V = Controller;

    open spec fn view(&self) -> Controller {
        Controller {
            mode_of_operation: self.mode_of_operation,
            controlword: self.controlword,
            command: self.command,
            statusword: self.statusword,
            state: self.state,
            profile_position_status: self.profile_position_status,
            profile_velocity_status: self.profile_velocity_status,
            halt: self.halt,
            control_oms1: self.control_oms1@,
            home_status: self.home_status,
            target_reached: self.target_reached,
            status_oms1: self.status_oms1,
            status_oms2: self.status_oms2,
            timer: self.timer,
            movement_duration: self.movement_duration,
        }
    }
}

impl Controller {
    /// A controller before anything has happened, with `samples` of the control bit.
    pub open spec fn initial(samples: Seq<bool>) -> Controller {
        Controller {
            mode_of_operation: ModeOfOperation::NoMode,
            controlword: 0,
            command: Command::NoCommand,
            statusword: 0,
            state: State::NotReadyToSwitchOn,
            profile_position_status: ProfilePositionStatus::SetpointAcknownlegde,
            profile_velocity_status: ProfileVelocityStatus::AxisSpeedZero,
            halt: false,
            control_oms1: samples,
            home_status: HomeStatus::WaitingForStart,
            target_reached: false,
            status_oms1: false,
            status_oms2: false,
            timer: None,
            movement_duration: None,
        }
    }

    /// A movement is under way in one of the modes.
    pub open spec fn moving(self) -> bool {
        ||| self.profile_position_status == ProfilePositionStatus::Moving
        ||| self.profile_velocity_status == ProfileVelocityStatus::TargetSpeedNotReached
        ||| self.profile_velocity_status == ProfileVelocityStatus::AxisBraking
        ||| self.home_status == HomeStatus::Homing
    }

    /// Two samples of the control bit are kept, and the beginning of a movement is known as
    /// long as it is under way.
    pub open spec fn wf(self) -> bool {
        &&& self.control_oms1.len() == 2
        &&& self.moving() ==> self.timer is Some
    }

    /// The first mode specific control bit was clear one cycle ago and is set now.
    pub open spec fn start_edge(self) -> bool {
        self.control_oms1[0] && !self.control_oms1[1]
    }

    /// The time since the movement under way began.
    pub open spec fn elapsed(self, now: u128) -> int {
        match self.timer {
            Some(begin) => if now >= begin {
                now - begin
            } else {
                0
            },
            None => 0,
        }
    }

    /// The movement under way has taken its time. One of which no duration is known takes none.
    pub open spec fn time_is_up(self, now: u128) -> bool {
        self.elapsed(now) >= (match self.movement_duration {
            Some(duration) => duration as int,
            None => 0,
        })
    }
}

impl Default for MotorController {
    fn default() -> (controller: Self)
        ensures
            controller@ == Controller::initial(Seq::empty()),
    {
        MotorController {
            mode_of_operation: ModeOfOperation::NoMode,
            controlword: 0,
            command: Command::NoCommand,
            statusword: 0,
            state: State::NotReadyToSwitchOn,
            profile_position_status: ProfilePositionStatus::SetpointAcknownlegde,
            profile_velocity_status: ProfileVelocityStatus::AxisSpeedZero,
            halt: false,
            control_oms1: VecDeque::new(),
            home_status: HomeStatus::WaitingForStart,
            target_reached: false,
            status_oms1: false,
            status_oms2: false,
            timer: None,
            movement_duration: None,
        }
    }
}

/// The command that the controlword gives, by its bits 0 to 3 and 7.
pub open spec fn command_of(word: u16) -> Command {
    if bit(word, 7) {
        Command::FaultReset
    } else if !bit(word, 1) {
        Command::DisableVoltage
    } else if !bit(word, 2) {
        Command::QuickStop
    } else if !bit(word, 0) {
        Command::Shutdown
    } else if !bit(word, 3) {
        Command::SwitchOn
    } else {
        Command::EnableOperation
    }
}

/// The controller after it has read its controlword. The newest sample of the first mode specific
/// bit pushes out the oldest.
pub open spec fn with_controlword_read(c: Controller) -> Controller {
    Controller {
        command: command_of(c.controlword),
        control_oms1: (seq![bit(c.controlword, 4)] + c.control_oms1).drop_last(),
        halt: bit(c.controlword, 8),
        ..c
    }
}

/// The state that follows `state` under `command`.
pub open spec fn next_state(state: State, command: Command) -> State {
    match (state, command) {
        (State::NotReadyToSwitchOn, _) => State::SwitchedOnDisabled,
        (State::SwitchedOnDisabled, Command::Shutdown) => State::ReadyToSwitchOn,
        (State::ReadyToSwitchOn, Command::SwitchOn) => State::SwitchedOn,
        (State::ReadyToSwitchOn, Command::DisableVoltage) => State::SwitchedOnDisabled,
        (State::SwitchedOn, Command::EnableOperation) => State::OperationEnabled,
        (State::SwitchedOn, Command::Shutdown) => State::ReadyToSwitchOn,
        (State::OperationEnabled, Command::QuickStop) => State::QuickStopActive,
        (State::OperationEnabled, Command::DisableVoltage) => State::SwitchedOnDisabled,
        (State::OperationEnabled, Command::SwitchOn) => State::SwitchedOn,
        (State::QuickStopActive, Command::DisableVoltage) => State::SwitchedOnDisabled,
        (State::QuickStopActive, Command::EnableOperationAfterQuickStop) => State::OperationEnabled,
        (State::FaultReactionActive, _) => State::Fault,
        (State::Fault, Command::FaultReset) => State::SwitchedOnDisabled,
        _ => state,
    }
}

/// The bits of the statusword that a state determines, with their values.
pub open spec fn state_bits(state: State) -> Seq<(usize, bool)> {
    match state {
        State::NotReadyToSwitchOn => seq![
            (0, false), (1, false), (2, false), (3, false), (5, false), (6, false),
        ],
        State::SwitchedOnDisabled => seq![(0, false), (1, false), (2, false), (3, false), (6, true)],
        State::ReadyToSwitchOn => seq![
            (0, true), (1, false), (2, false), (3, false), (5, true), (6, false),
        ],
        State::SwitchedOn => seq![
            (0, true), (1, true), (2, false), (3, false), (5, true), (6, false),
        ],
        State::OperationEnabled => seq![
            (0, true), (1, true), (2, true), (3, false), (5, true), (6, false),
        ],
        State::QuickStopActive => seq![
            (0, true), (1, true), (2, true), (3, false), (5, false), (6, false),
        ],
        State::FaultReactionActive => seq![(0, true), (1, true), (2, true), (3, true), (6, false)],
        State::Fault => seq![(0, false), (1, false), (2, false), (3, true), (6, false)],
    }
}

/// The statusword that a controller shows: the bits of its state, whether the target is
/// reached (bit 10) and the two mode specific bits (12 and 13). The others stay as they were.
pub open spec fn statusword_of(c: Controller) -> u16 {
    with_bit(
        with_bit(
            with_bit(with_bits(c.statusword, state_bits(c.state)), 10, c.target_reached),
            12,
            c.status_oms1,
        ),
        13,
        c.status_oms2,
    )
}

/// The command that a controlword gives.
fn read_command(controlword: u16) -> (command: Command)
    ensures
        command == command_of(controlword),
{
    let bit0: bool = get_bit_16(&controlword, 0);
    let bit1: bool = get_bit_16(&controlword, 1);
    let bit2: bool = get_bit_16(&controlword, 2);
    let bit3: bool = get_bit_16(&controlword, 3);
    let bit7: bool = get_bit_16(&controlword, 7);

    match (bit7, bit3, bit2, bit1, bit0) {
        (false, _, true, true, false) => Command::Shutdown,
        (false, false, true, true, true) => Command::SwitchOn,
        (false, _, _, false, _) => Command::DisableVoltage,
        (false, _, false, true, _) => Command::QuickStop,
        (false, true, true, true, true) => Command::EnableOperation,
        (true, _, _, _, _) => Command::FaultReset,
    }
}

/// The state that follows a state under a command.
fn follow_command(state: State, command: Command) -> (next: State)
    ensures
        next == next_state(state, command),
{
    match state {
        State::NotReadyToSwitchOn => State::SwitchedOnDisabled,
        State::SwitchedOnDisabled => match command {
            Command::Shutdown => State::ReadyToSwitchOn,
            _ => State::SwitchedOnDisabled,
        },
        State::ReadyToSwitchOn => match command {
            Command::SwitchOn => State::SwitchedOn,
            Command::DisableVoltage => State::SwitchedOnDisabled,
            _ => State::ReadyToSwitchOn,
        },
        State::SwitchedOn => match command {
            Command::EnableOperation => State::OperationEnabled,
            Command::Shutdown => State::ReadyToSwitchOn,
            _ => State::SwitchedOn,
        },
        State::OperationEnabled => match command {
            Command::QuickStop => State::QuickStopActive,
            Command::DisableVoltage => State::SwitchedOnDisabled,
            Command::SwitchOn => State::SwitchedOn,
            _ => State::OperationEnabled,
        },
        State::QuickStopActive => match command {
            Command::DisableVoltage => State::SwitchedOnDisabled,
            Command::EnableOperationAfterQuickStop => State::OperationEnabled,
            _ => State::QuickStopActive,
        },
        State::FaultReactionActive => State::Fault,
        State::Fault => match command {
            Command::FaultReset => State::SwitchedOnDisabled,
            _ => State::Fault,
        },
    }
}

impl MotorController {
    /// The invariant of a motor controller.
    pub open spec fn wf(&self) -> bool {
        self@.wf()
    }

    /// Reads the command, the halt bit and the first mode specific bit from the controlword.
    pub fn parse_controlword(&mut self)
        ensures
            final(self)@ == with_controlword_read(old(self)@),
    {
        self.command = read_command(self.controlword);

        self.control_oms1.push_front(get_bit_16(&self.controlword, 4));
        self.control_oms1.pop_back();

        self.halt = get_bit_16(&self.controlword, 8);
        assert(self.control_oms1@ =~= with_controlword_read(old(self)@).control_oms1);
    }

    /// Takes the step of the state machine that the command asks for.
    pub fn update_state(&mut self)
        ensures
            final(self)@ == (Controller {
                state: next_state(old(self)@.state, old(self)@.command),
                ..old(self)@
            }),
    {
        self.state = follow_command(self.state, self.command);
    }

    /// Brings the statusword in line with the rest of the controller.
    pub fn set_statusword(&mut self)
        ensures
            final(self)@ == (Controller { statusword: statusword_of(old(self)@), ..old(self)@ }),
    {
        let bits: &[(usize, bool)] = match self.state {
            State::NotReadyToSwitchOn => &[
                (0, false), (1, false), (2, false), (3, false), (5, false), (6, false),
            ],
            State::SwitchedOnDisabled => &[(0, false), (1, false), (2, false), (3, false), (6, true)],
            State::ReadyToSwitchOn => &[
                (0, true), (1, false), (2, false), (3, false), (5, true), (6, false),
            ],
            State::SwitchedOn => &[
                (0, true), (1, true), (2, false), (3, false), (5, true), (6, false),
            ],
            State::OperationEnabled => &[
                (0, true), (1, true), (2, true), (3, false), (5, true), (6, false),
            ],
            State::QuickStopActive => &[
                (0, true), (1, true), (2, true), (3, false), (5, false), (6, false),
            ],
            State::FaultReactionActive => &[(0, true), (1, true), (2, true), (3, true), (6, false)],
            State::Fault => &[(0, false), (1, false), (2, false), (3, true), (6, false)],
        };
        assert(bits@ =~= state_bits(self.state));
        set_bits(&mut self.statusword, bits);

        self.statusword = set_bit_16(&self.statusword, 10, self.target_reached);
        self.statusword = set_bit_16(&self.statusword, 12, self.status_oms1);
        self.statusword = set_bit_16(&self.statusword, 13, self.status_oms2);
    }
}

/// A movement that takes time: what its duration is computed from. All numbers are positive.
#[derive(Debug, Clone, Copy, PartialEq, Eq, Structural)]
pub enum Motion {
    /// A way of `distance` units, at up to `velocity` units per second.
    Travel { distance: u32, velocity: u32, acceleration: u32, deceleration: u32 },
    /// From standstill up to `speed`.
    Accelerate { speed: u32, acceleration: u32 },
    /// From `speed` down to standstill.
    Brake { speed: u32, deceleration: u32 },
}

/// The value of a signed 32-bit object at subindex 0; zero where there is no such object.
pub open spec fn signed_object(objects: Objects, index: u16) -> int {
    match objects.get((index, 0)) {
        Some(DataValue::Integer32(value)) => value as int,
        _ => 0,
    }
}

/// The value of an unsigned 32-bit object at subindex 0; zero where there is no such object.
pub open spec fn unsigned_object(objects: Objects, index: u16) -> int {
    match objects.get((index, 0)) {
        Some(DataValue::Unsigned32(value)) => value as int,
        _ => 0,
    }
}

/// The absolute value of a number.
pub open spec fn magnitude(value: int) -> int {
    if value < 0 {
        -value
    } else {
        value
    }
}

/// The movement from the actual position (0x6064) to the target position (0x607A) with the
/// profile velocity (0x6081), acceleration (0x6083) and deceleration (0x6084). `None` where it
/// takes no time: there is no way to go, or one of the profile's numbers is zero.
pub open spec fn travel(objects: Objects) -> Option<Motion> {
    let distance = magnitude(signed_object(objects, 0x607A) - signed_object(objects, 0x6064));
    let velocity = unsigned_object(objects, 0x6081);
    let acceleration = unsigned_object(objects, 0x6083);
    let deceleration = unsigned_object(objects, 0x6084);
    if distance == 0 || velocity == 0 || acceleration == 0 || deceleration == 0 {
        None
    } else {
        Some(
            Motion::Travel {
                distance: distance as u32,
                velocity: velocity as u32,
                acceleration: acceleration as u32,
                deceleration: deceleration as u32,
            },
        )
    }
}

/// The movement from standstill to the target velocity (0x60FF) with the profile acceleration
/// (0x6083). `None` where it takes no time.
pub open spec fn speed_up(objects: Objects) -> Option<Motion> {
    let speed = magnitude(signed_object(objects, 0x60FF));
    let acceleration = unsigned_object(objects, 0x6083);
    if speed == 0 || acceleration == 0 {
        None
    } else {
        Some(Motion::Accelerate { speed: speed as u32, acceleration: acceleration as u32 })
    }
}

/// The movement from the target velocity (0x60FF) to standstill with the profile deceleration
/// (0x6084). `None` where it takes no time.
pub open spec fn slow_down(objects: Objects) -> Option<Motion> {
    let speed = magnitude(signed_object(objects, 0x60FF));
    let deceleration = unsigned_object(objects, 0x6084);
    if speed == 0 || deceleration == 0 {
        None
    } else {
        Some(Motion::Brake { speed: speed as u32, deceleration: deceleration as u32 })
    }
}

fn get_i32(eds_data: &EDSData, index: u16) -> (value: i32)
    ensures
        value == signed_object(eds_data@, index),
{
    match eds_data.get(index, 0) {
        Some(DataValue::Integer32(value)) => *value,
        _ => 0,
    }
}

fn get_u32(eds_data: &EDSData, index: u16) -> (value: u32)
    ensures
        value == unsigned_object(eds_data@, index),
{
    match eds_data.get(index, 0) {
        Some(DataValue::Unsigned32(value)) => *value,
        _ => 0,
    }
}

fn abs_difference(a: i32, b: i32) -> (distance: u32)
    ensures
        distance == magnitude(a - b),
{
    let difference: i64 = a as i64 - b as i64;
    if difference < 0 {
        (-difference) as u32
    } else {
        difference as u32
    }
}

/// Reads from the object dictionary what the duration of a positioning movement depends on.
pub fn movement_to_target(eds_data: &EDSData) -> (motion: Option<Motion>)
    ensures
        motion == travel(eds_data@),
{
    let actual: i32 = get_i32(eds_data, 0x6064);
    let target: i32 = get_i32(eds_data, 0x607A);
    let velocity: u32 = get_u32(eds_data, 0x6081);
    let acceleration: u32 = get_u32(eds_data, 0x6083);
    let deceleration: u32 = get_u32(eds_data, 0x6084);

    let distance: u32 = abs_difference(target, actual);
    if distance == 0 || velocity == 0 || acceleration == 0 || deceleration == 0 {
        None
    } else {
        Some(Motion::Travel { distance, velocity, acceleration, deceleration })
    }
}

/// Reads from the object dictionary what the time to reach the target velocity depends on.
pub fn acceleration_to_speed(eds_data: &EDSData) -> (motion: Option<Motion>)
    ensures
        motion == speed_up(eds_data@),
{
    let speed: u32 = abs_difference(get_i32(eds_data, 0x60FF), 0);
    let acceleration: u32 = get_u32(eds_data, 0x6083);
    if speed == 0 || acceleration == 0 {
        None
    } else {
        Some(Motion::Accelerate { speed, acceleration })
    }
}

/// Reads from the object dictionary what the time to come to a standstill depends on.
pub fn deceleration_to_stop(eds_data: &EDSData) -> (motion: Option<Motion>)
    ensures
        motion == slow_down(eds_data@),
{
    let speed: u32 = abs_difference(get_i32(eds_data, 0x60FF), 0);
    let deceleration: u32 = get_u32(eds_data, 0x6084);
    if speed == 0 || deceleration == 0 {
        None
    } else {
        Some(Motion::Brake { speed, deceleration })
    }
}

/// The movement that begins in one cycle of the mode of operation, if it takes time. Movements
/// begin while operation is enabled: in profile position mode on a rising edge of the first mode
/// specific control bit, in profile velocity mode when the axis is to leave standstill or speed.
pub open spec fn beginning(c: Controller, objects: Objects) -> Option<Motion> {
    if c.state != State::OperationEnabled {
        None
    } else if c.mode_of_operation == ModeOfOperation::ProfilePosition {
        if c.profile_position_status == ProfilePositionStatus::SetpointAcknownlegde
            && c.start_edge() {
            travel(objects)
        } else {
            None
        }
    } else if c.mode_of_operation == ModeOfOperation::ProfileVelocity {
        if c.profile_velocity_status == ProfileVelocityStatus::AxisSpeedZero && !c.halt {
            speed_up(objects)
        } else if c.profile_velocity_status == ProfileVelocityStatus::TargetSpeedReached && c.halt {
            slow_down(objects)
        } else {
            None
        }
    } else {
        None
    }
}

/// The controller at the beginning of a movement at the time `now`. The movement takes `duration`,
/// or no time at all.
pub open spec fn begun(
    c: Controller,
    motion: Option<Motion>,
    now: u128,
    duration: u128,
) -> Controller {
    Controller {
        timer: Some(now),
        movement_duration: if motion is Some {
            Some(duration)
        } else {
            Some(0)
        },
        ..c
    }
}

/// One cycle of the profile position mode: a rising edge of the first mode specific control
/// bit starts a movement, which goes on until its time is up. The statusword acknowledges
/// the bit one cycle later.
pub open spec fn position_cycle(
    c: Controller,
    objects: Objects,
    now: u128,
    duration: u128,
) -> Controller {
    let c = Controller { status_oms1: c.control_oms1[1], ..c };
    match c.profile_position_status {
        ProfilePositionStatus::SetpointAcknownlegde => if c.start_edge() {
            Controller {
                target_reached: false,
                profile_position_status: ProfilePositionStatus::Moving,
                ..begun(c, travel(objects), now, duration)
            }
        } else {
            Controller { target_reached: true, ..c }
        },
        ProfilePositionStatus::Moving => if c.time_is_up(now) {
            Controller {
                profile_position_status: ProfilePositionStatus::SetpointAcknownlegde,
                ..c
            }
        } else {
            c
        },
    }
}

/// One cycle of the profile velocity mode: the axis speeds up unless it is halted, and brakes
/// when it is.
pub open spec fn velocity_cycle(
    c: Controller,
    objects: Objects,
    now: u128,
    duration: u128,
) -> Controller {
    match c.profile_velocity_status {
        ProfileVelocityStatus::AxisSpeedZero => {
            let c = Controller { target_reached: true, ..c };
            if !c.halt {
                Controller {
                    profile_velocity_status: ProfileVelocityStatus::TargetSpeedNotReached,
                    ..begun(c, speed_up(objects), now, duration)
                }
            } else {
                c
            }
        },
        ProfileVelocityStatus::TargetSpeedNotReached => {
            let c = Controller { target_reached: false, ..c };
            if c.time_is_up(now) {
                Controller {
                    profile_velocity_status: ProfileVelocityStatus::TargetSpeedReached,
                    ..c
                }
            } else {
                c
            }
        },
        ProfileVelocityStatus::TargetSpeedReached => {
            let c = Controller { target_reached: true, ..c };
            if c.halt {
                Controller {
                    profile_velocity_status: ProfileVelocityStatus::AxisBraking,
                    ..begun(c, slow_down(objects), now, duration)
                }
            } else {
                c
            }
        },
        ProfileVelocityStatus::AxisBraking => {
            let c = Controller { target_reached: false, ..c };
            if c.time_is_up(now) {
                Controller { profile_velocity_status: ProfileVelocityStatus::AxisSpeedZero, ..c }
            } else {
                c
            }
        },
    }
}

/// How long homing takes at least: a tenth of a second.
pub const HOMING_NANOS: u128 = 100_000_000;

/// One cycle of the homing mode: a rising edge of the first mode specific control bit starts
/// it, and it is over when more than a tenth of a second has gone by.
pub open spec fn homing_cycle(c: Controller, now: u128) -> Controller {
    match c.home_status {
        HomeStatus::WaitingForStart => {
            let c = Controller { target_reached: true, status_oms2: false, ..c };
            if c.start_edge() {
                Controller { timer: Some(now), home_status: HomeStatus::Homing, ..c }
            } else {
                c
            }
        },
        HomeStatus::Homing => {
            let over = c.elapsed(now) > HOMING_NANOS;
            Controller {
                target_reached: over,
                status_oms1: over,
                status_oms2: false,
                home_status: if over {
                    HomeStatus::WaitingForStart
                } else {
                    HomeStatus::Homing
                },
                ..c
            }
        },
    }
}

/// One cycle of the mode of operation. Nothing moves unless operation is enabled.
pub open spec fn mode_cycle(
    c: Controller,
    objects: Objects,
    now: u128,
    duration: u128,
) -> Controller {
    match (c.mode_of_operation, c.state) {
        (ModeOfOperation::ProfilePosition, State::OperationEnabled) => position_cycle(
            c,
            objects,
            now,
            duration,
        ),
        (ModeOfOperation::ProfileVelocity, State::OperationEnabled) => velocity_cycle(
            c,
            objects,
            now,
            duration,
        ),
        (ModeOfOperation::Homing, State::OperationEnabled) => homing_cycle(c, now),
        _ => c,
    }
}

impl MotorController {
    fn elapsed(&self, now: u128) -> (nanos: u128)
        requires
            self.timer is Some,
        ensures
            nanos == self@.elapsed(now),
    {
        match self.timer {
            Some(begin) => if now >= begin {
                now - begin
            } else {
                0
            },
            None => 0,
        }
    }

    fn time_is_up(&self, now: u128) -> (up: bool)
        requires
            self.timer is Some,
        ensures
            up == self@.time_is_up(now),
    {
        let duration: u128 = match self.movement_duration {
            Some(nanos) => nanos,
            None => 0,
        };
        self.elapsed(now) >= duration
    }

    fn begin_movement(&mut self, motion: &Option<Motion>, now: u128, duration: u128)
        ensures
            final(self)@ == begun(old(self)@, *motion, now, duration),
    {
        self.timer = Some(now);
        self.movement_duration = match motion {
            Some(_) => Some(duration),
            None => Some(0),
        };
    }

    fn run_profile_position(&mut self, eds_data: &EDSData, now: u128, duration: u128)
        requires
            old(self).wf(),
        ensures
            final(self)@ == position_cycle(old(self)@, eds_data@, now, duration),
    {
        self.status_oms1 = self.control_oms1[1];
        match self.profile_position_status {
            ProfilePositionStatus::SetpointAcknownlegde => {
                if self.control_oms1[0] && !self.control_oms1[1] {
                    self.target_reached = false;
                    self.begin_movement(&movement_to_target(eds_data), now, duration);
                    self.profile_position_status = ProfilePositionStatus::Moving;
                } else {
                    self.target_reached = true;
                }
            },
            ProfilePositionStatus::Moving => {
                if self.time_is_up(now) {
                    self.profile_position_status = ProfilePositionStatus::SetpointAcknownlegde;
                }
            },
        }
    }

    fn run_profile_velocity(&mut self, eds_data: &EDSData, now: u128, duration: u128)
        requires
            old(self).wf(),
        ensures
            final(self)@ == velocity_cycle(old(self)@, eds_data@, now, duration),
    {
        match self.profile_velocity_status {
            ProfileVelocityStatus::AxisSpeedZero => {
                self.target_reached = true;
                if !self.halt {
                    self.begin_movement(&acceleration_to_speed(eds_data), now, duration);
                    self.profile_velocity_status = ProfileVelocityStatus::TargetSpeedNotReached;
                }
            },
            ProfileVelocityStatus::TargetSpeedNotReached => {
                self.target_reached = false;
                if self.time_is_up(now) {
                    self.profile_velocity_status = ProfileVelocityStatus::TargetSpeedReached;
                }
            },
            ProfileVelocityStatus::TargetSpeedReached => {
                self.target_reached = true;
                if self.halt {
                    self.begin_movement(&deceleration_to_stop(eds_data), now, duration);
                    self.profile_velocity_status = ProfileVelocityStatus::AxisBraking;
                }
            },
            ProfileVelocityStatus::AxisBraking => {
                self.target_reached = false;
                if self.time_is_up(now) {
                    self.profile_velocity_status = ProfileVelocityStatus::AxisSpeedZero;
                }
            },
        }
    }

    fn run_homing(&mut self, now: u128)
        requires
            old(self).wf(),
        ensures
            final(self)@ == homing_cycle(old(self)@, now),
    {
        match self.home_status {
            HomeStatus::WaitingForStart => {
                self.target_reached = true;
                self.status_oms2 = false;
                if self.control_oms1[0] && !self.control_oms1[1] {
                    self.timer = Some(now);
                    self.home_status = HomeStatus::Homing;
                }
            },
            HomeStatus::Homing => {
                self.target_reached = false;
                self.status_oms1 = false;
                self.status_oms2 = false;
                if self.elapsed(now) > HOMING_NANOS {
                    self.target_reached = true;
                    self.status_oms1 = true;
                    self.status_oms2 = false;
                    self.home_status = HomeStatus::WaitingForStart;
                }
            },
        }
    }

    /// Runs one cycle of the mode of operation at the time `now`. A movement that begins and takes
    /// time takes `duration`.
    pub fn run_mode(&mut self, eds_data: &EDSData, now: u128, duration: u128)
        requires
            old(self).wf(),
        ensures
            final(self)@ == mode_cycle(old(self)@, eds_data@, now, duration),
            final(self).wf(),
    {
        match (self.mode_of_operation, self.state) {
            (ModeOfOperation::ProfilePosition, State::OperationEnabled) => {
                self.run_profile_position(eds_data, now, duration);
            },
            (ModeOfOperation::ProfileVelocity, State::OperationEnabled) => {
                self.run_profile_velocity(eds_data, now, duration);
            },
            (ModeOfOperation::Homing, State::OperationEnabled) => {
                self.run_homing(now);
            },
            _ => {},
        }
    }
}

impl MotorController {
    /// Follows a controlword in a mode of operation.
    fn follow(&mut self, mode_of_operation: ModeOfOperation, controlword: u16)
        requires
            old(self).wf(),
        ensures
            final(self)@ == followed(old(self)@, mode_of_operation, controlword),
            final(self).wf(),
    {
        self.mode_of_operation = mode_of_operation;
        self.controlword = controlword;
        self.parse_controlword();
        self.update_state();
    }
}

/// The controller after it has followed a controlword in a mode of operation.
pub open spec fn followed(
    c: Controller,
    mode_of_operation: ModeOfOperation,
    controlword: u16,
) -> Controller {
    let c = with_controlword_read(Controller { mode_of_operation, controlword, ..c });
    Controller { state: next_state(c.state, c.command), ..c }
}

/// The controller after it has taken the mode of operation (0x6060) and the controlword (0x6040)
/// from the object dictionary and followed the command.
pub open spec fn commanded(c: Controller, objects: Objects) -> Controller {
    followed(c, commanded_mode(c, objects), commanded_controlword(c, objects))
}

/// The mode of operation that the dictionary asks for; that of the controller where it asks for
/// none.
pub open spec fn commanded_mode(c: Controller, objects: Objects) -> ModeOfOperation {
    match objects.get((0x6060, 0)) {
        Some(DataValue::Integer8(value)) => mode_of(value),
        _ => c.mode_of_operation,
    }
}

/// The controlword in the dictionary; that of the controller where it has none.
pub open spec fn commanded_controlword(c: Controller, objects: Objects) -> u16 {
    match objects.get((0x6040, 0)) {
        Some(DataValue::Unsigned16(value)) => value,
        _ => c.controlword,
    }
}

/// The mode that a number stands for.
pub open spec fn mode_of(value: i8) -> ModeOfOperation {
    if value == 1 {
        ModeOfOperation::ProfilePosition
    } else if value == 3 {
        ModeOfOperation::ProfileVelocity
    } else if value == 6 {
        ModeOfOperation::Homing
    } else {
        ModeOfOperation::NoMode
    }
}

/// The object dictionary with the mode of operation (0x6061) and the statusword (0x6041) of the
/// controller, where it has objects of the right type for them.
pub open spec fn shown(objects: Objects, c: Controller) -> Objects {
    let objects = match objects.get((0x6061, 0)) {
        Some(DataValue::Integer8(_)) => objects.insert(
            (0x6061, 0),
            DataValue::Integer8(c.mode_of_operation.number()),
        ),
        _ => objects,
    };
    match objects.get((0x6041, 0)) {
        Some(DataValue::Unsigned16(_)) => objects.insert(
            (0x6041, 0),
            DataValue::Unsigned16(c.statusword),
        ),
        _ => objects,
    }
}

/// The movement that begins with the next cycle of the motor controller, if it takes time.
pub open spec fn next_motion(n: NodeState) -> Option<Motion> {
    beginning(commanded(n.controller, n.objects), n.objects)
}

/// The node after one cycle of the motor controller at the time `now`. A movement that begins with
/// it and takes time takes `duration`.
pub open spec fn cycle(n: NodeState, now: u128, duration: u128) -> NodeState {
    let c = mode_cycle(commanded(n.controller, n.objects), n.objects, now, duration);
    let c = Controller { statusword: statusword_of(c), ..c };
    NodeState { objects: shown(n.objects, c), controller: c, ..n }
}

impl Node {
    /// Takes the mode of operation and the controlword from the object dictionary, and follows
    /// the command.
    fn follow_commands(&mut self)
        requires
            old(self).wf(),
            mode_known(old(self)@.objects),
        ensures
            final(self)@ == (NodeState {
                controller: commanded(old(self)@.controller, old(self)@.objects),
                ..old(self)@
            }),
            final(self).clock == old(self).clock,
            final(self).wf(),
    {
        let mode_of_operation: ModeOfOperation = self.requested_mode();
        let controlword: u16 = self.requested_controlword();
        self.motor_controller.follow(mode_of_operation, controlword);
    }

    fn requested_mode(&self) -> (mode: ModeOfOperation)
        requires
            mode_known(self@.objects),
        ensures
            mode == commanded_mode(self@.controller, self@.objects),
    {
        match self.eds_data.get(0x6060, 0) {
            Some(DataValue::Integer8(value)) => ModeOfOperation::mode_of_operation(*value),
            _ => self.motor_controller.mode_of_operation,
        }
    }

    fn requested_controlword(&self) -> (controlword: u16)
        ensures
            controlword == commanded_controlword(self@.controller, self@.objects),
    {
        match self.eds_data.get(0x6040, 0) {
            Some(DataValue::Unsigned16(value)) => *value,
            _ => self.motor_controller.controlword,
        }
    }

    /// What the duration of the movement is to be computed from that the next cycle of the motor
    /// controller begins; `None` where it begins none, or one that takes no time.
    pub fn next_motion(&self) -> (motion: Option<Motion>)
        requires
            self.wf(),
            mode_known(self@.objects),
        ensures
            motion == next_motion(self@),
    {
        let controlword: u16 = self.requested_controlword();
        let command: Command = read_command(controlword);
        match (self.requested_mode(), follow_command(self.motor_controller.state, command)) {
            (ModeOfOperation::ProfilePosition, State::OperationEnabled) => {
                match self.motor_controller.profile_position_status {
                    ProfilePositionStatus::SetpointAcknownlegde => {
                        if get_bit_16(&controlword, 4) && !self.motor_controller.control_oms1[0] {
                            movement_to_target(&self.eds_data)
                        } else {
                            None
                        }
                    },
                    ProfilePositionStatus::Moving => None,
                }
            },
            (ModeOfOperation::ProfileVelocity, State::OperationEnabled) => {
                let halt: bool = get_bit_16(&controlword, 8);
                match self.motor_controller.profile_velocity_status {
                    ProfileVelocityStatus::AxisSpeedZero if !halt => {
                        acceleration_to_speed(&self.eds_data)
                    },
                    ProfileVelocityStatus::TargetSpeedReached if halt => {
                        deceleration_to_stop(&self.eds_data)
                    },
                    _ => None,
                }
            },
            _ => None,
        }
    }

    /// Shows the mode of operation and the statusword in the object dictionary.
    fn show_status(&mut self)
        ensures
            final(self)@ == (NodeState {
                objects: shown(old(self)@.objects, old(self)@.controller),
                ..old(self)@
            }),
            final(self).clock == old(self).clock,
            final(self).motor_controller == old(self).motor_controller,
    {
        let ghost objects = self@.objects;
        assert(objects.contains_key((0x6061, 0)) ==> objects.insert(
            (0x6061, 0),
            objects[(0x6061, 0)],
        ) =~= objects);
        let mode: i8 = self.motor_controller.mode_of_operation.as_i8();
        if let Some(DataValue::Integer8(value)) = self.eds_data.get_mut(0x6061, 0) {
            *value = mode;
        }
        let ghost objects = self@.objects;
        assert(objects.contains_key((0x6041, 0)) ==> objects.insert(
            (0x6041, 0),
            objects[(0x6041, 0)],
        ) =~= objects);
        let statusword: u16 = self.motor_controller.statusword;
        if let Some(DataValue::Unsigned16(value)) = self.eds_data.get_mut(0x6041, 0) {
            *value = statusword;
        }
    }

    /// Runs one cycle of the motor controller at the time `now` of the clock of the node: takes
    /// the commands from the object dictionary, follows them, and shows the outcome there. A
    /// movement that begins and takes time takes `duration`, which `next_motion` gives the grounds
    /// for.
    pub fn run_cycle(&mut self, now: u128, duration: u128)
        requires
            old(self).wf(),
            mode_known(old(self)@.objects),
        ensures
            final(self).wf(),
            final(self)@ == cycle(old(self)@, now, duration),
            final(self).clock == old(self).clock,
    {
        self.follow_commands();
        self.motor_controller.run_mode(&self.eds_data, now, duration);
        self.motor_controller.set_statusword();
        self.show_status();
    }

    /// Runs one cycle of the motor controller now. A movement that begins and takes time takes
    /// `duration`.
    pub fn update_controller(&mut self, duration: u128)
        requires
            old(self).wf(),
            mode_known(old(self)@.objects),
        ensures
            final(self).wf(),
            final(self).clock == old(self).clock,
            exists|now: u128| final(self)@ == #[trigger] cycle(old(self)@, now, duration),
    {
        let now: u128 = nanos_since(&self.clock);
        self.run_cycle(now, duration);
    }
}

} // verus!
