//! What the drive does, over the objects that it reads and writes and the fields of its controller:
//! which movements it makes, how it follows its controlword and what a cycle of each mode of
//! operation changes.

use vstd::prelude::*;

use crate::bits::{assigned, bit};
use crate::cia301::{mode_known, NodeState};
use crate::cia402_runner::{
    commanded, cycle, mode_cycle, mode_of, next_motion, next_state, shown, slow_down, speed_up,
    state_bits, statusword_of, travel, with_controlword_read, Command, Controller, HomeStatus,
    ModeOfOperation, Motion, ProfilePositionStatus, ProfileVelocityStatus, State,
};
use crate::eds::{DataValue, Objects};
use crate::laws::statusword_tells_the_truth;
use crate::meaning::{bits_are_binary_digits, controlword_numbers};

verus! {

// Movements.

/// The way of a positioning movement is the difference of target and actual position, whichever is
/// larger, and its profile is what the dictionary holds. There is no movement exactly where the
/// positions are equal or a number of the profile is zero.
pub proof fn way_is_the_difference(
    objects: Objects,
    target: i32,
    actual: i32,
    velocity: u32,
    acceleration: u32,
    deceleration: u32,
)
    requires
        objects.get((0x607A, 0)) == Some(DataValue::Integer32(target)),
        objects.get((0x6064, 0)) == Some(DataValue::Integer32(actual)),
        objects.get((0x6081, 0)) == Some(DataValue::Unsigned32(velocity)),
        objects.get((0x6083, 0)) == Some(DataValue::Unsigned32(acceleration)),
        objects.get((0x6084, 0)) == Some(DataValue::Unsigned32(deceleration)),
    ensures
        travel(objects) is None <==> target == actual || velocity == 0 || acceleration == 0
            || deceleration == 0,
        travel(objects) matches Some(motion) ==> {
            &&& motion matches Motion::Travel {
                distance,
                velocity: v,
                acceleration: a,
                deceleration: d,
            }
            &&& distance == target - actual || distance == actual - target
            &&& v == velocity
            &&& a == acceleration
            &&& d == deceleration
        },
{
}

/// A positioning movement does not depend on where it starts: two dictionaries with the same profile
/// in which the target lies equally far from the actual position, on whichever side, ask for the
/// same movement.
pub proof fn way_does_not_depend_on_its_start(
    a: Objects,
    b: Objects,
    target_a: i32,
    actual_a: i32,
    target_b: i32,
    actual_b: i32,
)
    requires
        a.get((0x607A, 0)) == Some(DataValue::Integer32(target_a)),
        a.get((0x6064, 0)) == Some(DataValue::Integer32(actual_a)),
        b.get((0x607A, 0)) == Some(DataValue::Integer32(target_b)),
        b.get((0x6064, 0)) == Some(DataValue::Integer32(actual_b)),
        a.get((0x6081, 0)) == b.get((0x6081, 0)),
        a.get((0x6083, 0)) == b.get((0x6083, 0)),
        a.get((0x6084, 0)) == b.get((0x6084, 0)),
        target_a - actual_a == target_b - actual_b || target_a - actual_a == actual_b - target_b,
    ensures
        travel(a) == travel(b),
{
}

/// A position that the dictionary does not hold as a signed 32-bit number counts as zero, and
/// without one of the numbers of the profile there is no movement.
pub proof fn missing_positions_count_as_zero(objects: Objects)
    ensures
        !(objects.get((0x607A, 0)) matches Some(DataValue::Integer32(_))) ==> travel(objects)
            == travel(objects.insert((0x607A, 0), DataValue::Integer32(0))),
        !(objects.get((0x6064, 0)) matches Some(DataValue::Integer32(_))) ==> travel(objects)
            == travel(objects.insert((0x6064, 0), DataValue::Integer32(0))),
        !(objects.get((0x6081, 0)) matches Some(DataValue::Unsigned32(_))) ==> travel(objects)
            is None,
        !(objects.get((0x6083, 0)) matches Some(DataValue::Unsigned32(_))) ==> travel(objects)
            is None,
        !(objects.get((0x6084, 0)) matches Some(DataValue::Unsigned32(_))) ==> travel(objects)
            is None,
{
    assert(objects.insert((0x607A, 0), DataValue::Integer32(0)).get((0x607A, 0)) == Some(
        DataValue::Integer32(0),
    ));
    assert(objects.insert((0x6064, 0), DataValue::Integer32(0)).get((0x6064, 0)) == Some(
        DataValue::Integer32(0),
    ));
}

/// The axis speeds up to the target velocity without its sign. There is no movement exactly where the
/// velocity or the acceleration is zero.
pub proof fn speed_is_the_target_velocity(objects: Objects, velocity: i32, acceleration: u32)
    requires
        objects.get((0x60FF, 0)) == Some(DataValue::Integer32(velocity)),
        objects.get((0x6083, 0)) == Some(DataValue::Unsigned32(acceleration)),
    ensures
        speed_up(objects) is None <==> velocity == 0 || acceleration == 0,
        speed_up(objects) matches Some(motion) ==> {
            &&& motion matches Motion::Accelerate { speed, acceleration: a }
            &&& velocity > 0 ==> speed == velocity
            &&& velocity < 0 ==> speed == -velocity
            &&& a == acceleration
        },
{
}

/// The axis brakes from the target velocity without its sign. There is no movement exactly where the
/// velocity or the deceleration is zero.
pub proof fn braking_starts_from_the_target_velocity(
    objects: Objects,
    velocity: i32,
    deceleration: u32,
)
    requires
        objects.get((0x60FF, 0)) == Some(DataValue::Integer32(velocity)),
        objects.get((0x6084, 0)) == Some(DataValue::Unsigned32(deceleration)),
    ensures
        slow_down(objects) is None <==> velocity == 0 || deceleration == 0,
        slow_down(objects) matches Some(motion) ==> {
            &&& motion matches Motion::Brake { speed, deceleration: d }
            &&& velocity > 0 ==> speed == velocity
            &&& velocity < 0 ==> speed == -velocity
            &&& d == deceleration
        },
{
}

/// Both directions of rotation take the same movement, to speed up and to brake.
pub proof fn direction_makes_no_difference(a: Objects, b: Objects, velocity: i32, opposite: i32)
    requires
        a.get((0x60FF, 0)) == Some(DataValue::Integer32(velocity)),
        b.get((0x60FF, 0)) == Some(DataValue::Integer32(opposite)),
        velocity == -opposite,
    ensures
        a.get((0x6083, 0)) == b.get((0x6083, 0)) ==> speed_up(a) == speed_up(b),
        a.get((0x6084, 0)) == b.get((0x6084, 0)) ==> slow_down(a) == slow_down(b),
{
}

/// Without a target velocity, or without the acceleration or deceleration, the axis makes no
/// movement.
pub proof fn no_speed_without_its_objects(objects: Objects)
    ensures
        !(objects.get((0x60FF, 0)) matches Some(DataValue::Integer32(_))) ==> speed_up(objects)
            is None && slow_down(objects) is None,
        !(objects.get((0x6083, 0)) matches Some(DataValue::Unsigned32(_))) ==> speed_up(objects)
            is None,
        !(objects.get((0x6084, 0)) matches Some(DataValue::Unsigned32(_))) ==> slow_down(objects)
            is None,
{
}

/// The movement that is announced is the one that the cycle begins: that to the target position
/// where positioning begins, that of the axis where it leaves standstill or speed, and none in any
/// other cycle.
pub proof fn announced_motion_is_the_one_that_begins(n: NodeState, now: u128, duration: u128)
    requires
        n.controller.control_oms1.len() == 2,
    ensures
        ({
            let before = n.controller;
            let after = cycle(n, now, duration).controller;
            let positions = after.state == State::OperationEnabled && after.mode_of_operation
                == ModeOfOperation::ProfilePosition && before.profile_position_status
                == ProfilePositionStatus::SetpointAcknownlegde && after.profile_position_status
                == ProfilePositionStatus::Moving;
            let speeds_up = after.state == State::OperationEnabled && after.mode_of_operation
                == ModeOfOperation::ProfileVelocity && before.profile_velocity_status
                == ProfileVelocityStatus::AxisSpeedZero && after.profile_velocity_status
                == ProfileVelocityStatus::TargetSpeedNotReached;
            let brakes = after.state == State::OperationEnabled && after.mode_of_operation
                == ModeOfOperation::ProfileVelocity && before.profile_velocity_status
                == ProfileVelocityStatus::TargetSpeedReached && after.profile_velocity_status
                == ProfileVelocityStatus::AxisBraking;
            &&& positions ==> next_motion(n) == travel(n.objects)
            &&& speeds_up ==> next_motion(n) == speed_up(n.objects)
            &&& brakes ==> next_motion(n) == slow_down(n.objects)
            &&& !positions && !speeds_up && !brakes ==> next_motion(n) is None
        }),
{
}

// Following the controlword.

/// Reading the controlword changes the command, the halt bit (bit 8) and the samples of the first
/// mode specific bit (bit 4), which move up by one; nothing else.
pub proof fn controlword_is_read_by_its_bits(c: Controller)
    ensures
        ({
            let word = c.controlword;
            let after = with_controlword_read(c);
            &&& after.halt == (word / 256 % 2 == 1)
            &&& after.control_oms1.len() == c.control_oms1.len()
            &&& c.control_oms1.len() > 0 ==> after.control_oms1[0] == (word / 16 % 2 == 1)
            &&& forall|i: int|
                1 <= i < c.control_oms1.len() ==> #[trigger] after.control_oms1[i]
                    == c.control_oms1[i - 1]
            &&& word / 128 % 2 == 1 <==> after.command == Command::FaultReset
            &&& word / 128 % 2 == 0 ==> {
                let low = word % 16;
                &&& low == 15 <==> after.command == Command::EnableOperation
                &&& low == 7 <==> after.command == Command::SwitchOn
                &&& low == 6 || low == 14 <==> after.command == Command::Shutdown
                &&& low == 2 || low == 3 || low == 10 || low == 11 <==> after.command
                    == Command::QuickStop
                &&& low / 2 % 2 == 0 <==> after.command == Command::DisableVoltage
            }
            &&& after.mode_of_operation == c.mode_of_operation
            &&& after.controlword == c.controlword
            &&& after.statusword == c.statusword
            &&& after.state == c.state
            &&& after.profile_position_status == c.profile_position_status
            &&& after.profile_velocity_status == c.profile_velocity_status
            &&& after.home_status == c.home_status
            &&& after.target_reached == c.target_reached
            &&& after.status_oms1 == c.status_oms1
            &&& after.status_oms2 == c.status_oms2
            &&& after.timer == c.timer
            &&& after.movement_duration == c.movement_duration
        }),
{
    bits_are_binary_digits(c.controlword);
    controlword_numbers(c.controlword);
}

/// Each state, with the states before it and the commands that lead from there to it. Where no
/// command leads on, the state stays.
pub proof fn states_are_entered_on_command(state: State, command: Command)
    ensures
        ({
            let next = next_state(state, command);
            &&& next != State::NotReadyToSwitchOn
            &&& next != State::FaultReactionActive
            &&& next == State::SwitchedOnDisabled <==> {
                ||| state == State::NotReadyToSwitchOn
                ||| state == State::SwitchedOnDisabled && command != Command::Shutdown
                ||| state == State::ReadyToSwitchOn && command == Command::DisableVoltage
                ||| state == State::OperationEnabled && command == Command::DisableVoltage
                ||| state == State::QuickStopActive && command == Command::DisableVoltage
                ||| state == State::Fault && command == Command::FaultReset
            }
            &&& next == State::ReadyToSwitchOn <==> {
                ||| state == State::SwitchedOnDisabled && command == Command::Shutdown
                ||| state == State::SwitchedOn && command == Command::Shutdown
                ||| state == State::ReadyToSwitchOn && command != Command::SwitchOn && command
                    != Command::DisableVoltage
            }
            &&& next == State::SwitchedOn <==> {
                ||| state == State::ReadyToSwitchOn && command == Command::SwitchOn
                ||| state == State::OperationEnabled && command == Command::SwitchOn
                ||| state == State::SwitchedOn && command != Command::EnableOperation && command
                    != Command::Shutdown
            }
            &&& next == State::OperationEnabled <==> {
                ||| state == State::SwitchedOn && command == Command::EnableOperation
                ||| state == State::QuickStopActive && command
                    == Command::EnableOperationAfterQuickStop
                ||| state == State::OperationEnabled && command != Command::QuickStop && command
                    != Command::DisableVoltage && command != Command::SwitchOn
            }
            &&& next == State::QuickStopActive <==> {
                ||| state == State::OperationEnabled && command == Command::QuickStop
                ||| state == State::QuickStopActive && command != Command::DisableVoltage && command
                    != Command::EnableOperationAfterQuickStop
            }
            &&& next == State::Fault <==> {
                ||| state == State::FaultReactionActive
                ||| state == State::Fault && command != Command::FaultReset
            }
        }),
{
}

/// A cycle takes the controlword and the mode of operation from the dictionary, where they are of
/// their type, samples the bits of the controlword and makes one step of the state machine. The
/// identity of the node and its network management state stay.
pub proof fn cycle_takes_its_commands(n: NodeState, now: u128, duration: u128)
    requires
        n.controller.control_oms1.len() == 2,
    ensures
        ({
            let before = n.controller;
            let after = cycle(n, now, duration).controller;
            let word = after.controlword;
            &&& n.objects.get((0x6040, 0)) matches Some(DataValue::Unsigned16(w)) ==> word == w
            &&& !(n.objects.get((0x6040, 0)) matches Some(DataValue::Unsigned16(_))) ==> word
                == before.controlword
            &&& n.objects.get((0x6060, 0)) matches Some(DataValue::Integer8(number)) ==> {
                &&& number == 0 ==> after.mode_of_operation == ModeOfOperation::NoMode
                &&& number == 1 ==> after.mode_of_operation == ModeOfOperation::ProfilePosition
                &&& number == 3 ==> after.mode_of_operation == ModeOfOperation::ProfileVelocity
                &&& number == 6 ==> after.mode_of_operation == ModeOfOperation::Homing
            }
            &&& !(n.objects.get((0x6060, 0)) matches Some(DataValue::Integer8(_)))
                ==> after.mode_of_operation == before.mode_of_operation
            &&& after.halt == (word / 256 % 2 == 1)
            &&& after.control_oms1 == seq![word / 16 % 2 == 1, before.control_oms1[0]]
            &&& word / 128 % 2 == 1 <==> after.command == Command::FaultReset
            &&& word / 128 % 2 == 0 ==> {
                let low = word % 16;
                &&& low == 15 <==> after.command == Command::EnableOperation
                &&& low == 7 <==> after.command == Command::SwitchOn
                &&& low == 6 || low == 14 <==> after.command == Command::Shutdown
                &&& low == 2 || low == 3 || low == 10 || low == 11 <==> after.command
                    == Command::QuickStop
                &&& low / 2 % 2 == 0 <==> after.command == Command::DisableVoltage
            }
            &&& after.state == next_state(before.state, after.command)
            &&& cycle(n, now, duration).node_id == n.node_id
            &&& cycle(n, now, duration).nmt_state == n.nmt_state
            &&& cycle(n, now, duration).indices == n.indices
        }),
{
    let word = cycle(n, now, duration).controller.controlword;
    bits_are_binary_digits(word);
    controlword_numbers(word);
    assert(cycle(n, now, duration).controller.control_oms1 =~= seq![
        bit(word, 4),
        n.controller.control_oms1[0],
    ]);
}

/// The modes of operation that the drive knows, by their numbers.
pub proof fn mode_numbers(objects: Objects, mode: ModeOfOperation)
    ensures
        mode.number() == 0 <==> mode == ModeOfOperation::NoMode,
        mode.number() == 1 <==> mode == ModeOfOperation::ProfilePosition,
        mode.number() == 3 <==> mode == ModeOfOperation::ProfileVelocity,
        mode.number() == 6 <==> mode == ModeOfOperation::Homing,
        mode_of(mode.number()) == mode,
        mode_known(objects) <==> (objects.get((0x6060, 0)) matches Some(
            DataValue::Integer8(number),
        ) ==> number == 0 || number == 1 || number == 3 || number == 6),
{
}

// The statusword.

/// The bits of a statusword: 0 to 3, 5 and 6 show the state, 10 whether the target is reached, 12 and
/// 13 the mode specific bits. Bit 5 stays in the states that leave it open, and all other bits stay.
pub proof fn statusword_bits(c: Controller)
    ensures
        ({
            let word = statusword_of(c);
            let old_word = c.statusword;
            &&& bit(word, 0) <==> c.state == State::ReadyToSwitchOn || c.state == State::SwitchedOn
                || c.state == State::OperationEnabled || c.state == State::QuickStopActive || c.state
                == State::FaultReactionActive
            &&& bit(word, 1) <==> c.state == State::SwitchedOn || c.state == State::OperationEnabled
                || c.state == State::QuickStopActive || c.state == State::FaultReactionActive
            &&& bit(word, 2) <==> c.state == State::OperationEnabled || c.state
                == State::QuickStopActive || c.state == State::FaultReactionActive
            &&& bit(word, 3) <==> c.state == State::FaultReactionActive || c.state == State::Fault
            &&& c.state == State::ReadyToSwitchOn || c.state == State::SwitchedOn || c.state
                == State::OperationEnabled ==> bit(word, 5)
            &&& c.state == State::NotReadyToSwitchOn || c.state == State::QuickStopActive ==> !bit(
                word,
                5,
            )
            &&& c.state == State::SwitchedOnDisabled || c.state == State::FaultReactionActive
                || c.state == State::Fault ==> bit(word, 5) == bit(old_word, 5)
            &&& bit(word, 6) <==> c.state == State::SwitchedOnDisabled
            &&& bit(word, 10) == c.target_reached
            &&& bit(word, 12) == c.status_oms1
            &&& bit(word, 13) == c.status_oms2
            &&& bit(word, 4) == bit(old_word, 4)
            &&& bit(word, 7) == bit(old_word, 7)
            &&& bit(word, 8) == bit(old_word, 8)
            &&& bit(word, 9) == bit(old_word, 9)
            &&& bit(word, 11) == bit(old_word, 11)
            &&& bit(word, 14) == bit(old_word, 14)
            &&& bit(word, 15) == bit(old_word, 15)
        }),
{
    reveal_with_fuel(assigned, 7);
    statusword_tells_the_truth(c, 4);
    statusword_tells_the_truth(c, 5);
    statusword_tells_the_truth(c, 7);
    statusword_tells_the_truth(c, 8);
    statusword_tells_the_truth(c, 9);
    statusword_tells_the_truth(c, 11);
    statusword_tells_the_truth(c, 14);
    statusword_tells_the_truth(c, 15);
    let bits = state_bits(c.state);
    let word = statusword_of(c);
    assert(bits[0].0 == 0 && bits[1].0 == 1 && bits[2].0 == 2 && bits[3].0 == 3);
    assert(bit(word, bits[0].0) == bits[0].1);
    assert(bit(word, bits[1].0) == bits[1].1);
    assert(bit(word, bits[2].0) == bits[2].1);
    assert(bit(word, bits[3].0) == bits[3].1);
    assert(bit(word, bits[4].0) == bits[4].1);
    if bits.len() == 6 {
        assert(bit(word, bits[5].0) == bits[5].1);
    }
}

/// A cycle leaves in the controller, and in the dictionary where it has an object for it, a
/// statusword whose bits show the state, the target and the mode specific bits that the cycle ends
/// with.
pub proof fn cycle_sets_the_statusword(n: NodeState, now: u128, duration: u128)
    ensures
        ({
            let after = cycle(n, now, duration);
            let c = after.controller;
            let word = c.statusword;
            let old_word = n.controller.statusword;
            &&& bit(word, 0) <==> c.state == State::ReadyToSwitchOn || c.state == State::SwitchedOn
                || c.state == State::OperationEnabled || c.state == State::QuickStopActive || c.state
                == State::FaultReactionActive
            &&& bit(word, 1) <==> c.state == State::SwitchedOn || c.state == State::OperationEnabled
                || c.state == State::QuickStopActive || c.state == State::FaultReactionActive
            &&& bit(word, 2) <==> c.state == State::OperationEnabled || c.state
                == State::QuickStopActive || c.state == State::FaultReactionActive
            &&& bit(word, 3) <==> c.state == State::FaultReactionActive || c.state == State::Fault
            &&& c.state == State::ReadyToSwitchOn || c.state == State::SwitchedOn || c.state
                == State::OperationEnabled ==> bit(word, 5)
            &&& c.state == State::NotReadyToSwitchOn || c.state == State::QuickStopActive ==> !bit(
                word,
                5,
            )
            &&& c.state == State::SwitchedOnDisabled || c.state == State::FaultReactionActive
                || c.state == State::Fault ==> bit(word, 5) == bit(old_word, 5)
            &&& bit(word, 6) <==> c.state == State::SwitchedOnDisabled
            &&& bit(word, 10) == c.target_reached
            &&& bit(word, 12) == c.status_oms1
            &&& bit(word, 13) == c.status_oms2
            &&& bit(word, 4) == bit(old_word, 4)
            &&& bit(word, 7) == bit(old_word, 7)
            &&& bit(word, 8) == bit(old_word, 8)
            &&& bit(word, 9) == bit(old_word, 9)
            &&& bit(word, 11) == bit(old_word, 11)
            &&& bit(word, 14) == bit(old_word, 14)
            &&& bit(word, 15) == bit(old_word, 15)
        }),
{
    let c = mode_cycle(commanded(n.controller, n.objects), n.objects, now, duration);
    statusword_bits(c);
}

/// A cycle writes two objects and no other: the statusword (0x6041) and the number of the mode of
/// operation (0x6061), each where it has its type.
pub proof fn cycle_writes_two_objects(n: NodeState, now: u128, duration: u128, key: (u16, u8))
    ensures
        ({
            let after = cycle(n, now, duration);
            &&& n.objects.get((0x6041, 0)) matches Some(DataValue::Unsigned16(_))
                ==> after.objects.get((0x6041, 0)) == Some(
                DataValue::Unsigned16(after.controller.statusword),
            )
            &&& !(n.objects.get((0x6041, 0)) matches Some(DataValue::Unsigned16(_)))
                ==> after.objects.get((0x6041, 0)) == n.objects.get((0x6041, 0))
            &&& n.objects.get((0x6061, 0)) matches Some(DataValue::Integer8(_)) ==> {
                &&& after.objects.get((0x6061, 0)) matches Some(DataValue::Integer8(number))
                &&& number == 0 <==> after.controller.mode_of_operation == ModeOfOperation::NoMode
                &&& number == 1 <==> after.controller.mode_of_operation
                    == ModeOfOperation::ProfilePosition
                &&& number == 3 <==> after.controller.mode_of_operation
                    == ModeOfOperation::ProfileVelocity
                &&& number == 6 <==> after.controller.mode_of_operation == ModeOfOperation::Homing
            }
            &&& !(n.objects.get((0x6061, 0)) matches Some(DataValue::Integer8(_)))
                ==> after.objects.get((0x6061, 0)) == n.objects.get((0x6061, 0))
            &&& key != (0x6041u16, 0u8) && key != (0x6061u16, 0u8) ==> after.objects.get(key)
                == n.objects.get(key)
        }),
{
    assert(shown(n.objects, cycle(n, now, duration).controller) == cycle(n, now, duration).objects);
}

// One cycle of each mode of operation.

/// A cycle of the profile position mode: a rising edge starts a movement, which lasts for as long as
/// it takes; the target counts as reached in every cycle that waits for a start and sees none. The
/// first mode specific bit of the statusword is that of the controlword, one cycle late.
pub proof fn position_mode(
    before: Controller,
    objects: Objects,
    now: u128,
    duration: u128,
)
    requires
        before.control_oms1.len() == 2,
        before.state == State::OperationEnabled,
        before.mode_of_operation == ModeOfOperation::ProfilePosition,
    ensures
        ({
            let after = mode_cycle(before, objects, now, duration);
            let starts = before.control_oms1[0] && !before.control_oms1[1];
            &&& after.status_oms1 == before.control_oms1[1]
            &&& before.profile_position_status == ProfilePositionStatus::SetpointAcknownlegde && starts
                ==> {
                &&& after.profile_position_status == ProfilePositionStatus::Moving
                &&& !after.target_reached
                &&& after.timer == Some(now)
                &&& travel(objects) is Some ==> after.movement_duration == Some(duration)
                &&& travel(objects) is None ==> after.movement_duration == Some(0u128)
            }
            &&& before.profile_position_status == ProfilePositionStatus::SetpointAcknownlegde && !starts
                ==> {
                &&& after.profile_position_status == ProfilePositionStatus::SetpointAcknownlegde
                &&& after.target_reached
                &&& after.timer == before.timer
                &&& after.movement_duration == before.movement_duration
            }
            &&& before.profile_position_status == ProfilePositionStatus::Moving ==> {
                &&& after.target_reached == before.target_reached
                &&& after.timer == before.timer
                &&& after.movement_duration == before.movement_duration
                &&& before.timer matches Some(begin) ==> {
                    &&& before.movement_duration matches Some(length)
                        ==> (after.profile_position_status
                        == ProfilePositionStatus::SetpointAcknownlegde <==> length == 0 || now
                        >= begin + length)
                    &&& before.movement_duration is None ==> after.profile_position_status
                        == ProfilePositionStatus::SetpointAcknownlegde
                }
            }
            &&& after.mode_of_operation == before.mode_of_operation
            &&& after.controlword == before.controlword
            &&& after.command == before.command
            &&& after.statusword == before.statusword
            &&& after.state == before.state
            &&& after.profile_velocity_status == before.profile_velocity_status
            &&& after.halt == before.halt
            &&& after.control_oms1 == before.control_oms1
            &&& after.home_status == before.home_status
            &&& after.status_oms2 == before.status_oms2
        }),
{
}

/// A cycle of the profile velocity mode: the axis leaves standstill unless it is halted and leaves
/// its speed when it is; the target counts as reached in these two states only.
pub proof fn velocity_mode(
    before: Controller,
    objects: Objects,
    now: u128,
    duration: u128,
)
    requires
        before.control_oms1.len() == 2,
        before.state == State::OperationEnabled,
        before.mode_of_operation == ModeOfOperation::ProfileVelocity,
    ensures
        ({
            let after = mode_cycle(before, objects, now, duration);
            let halted = before.halt;
            &&& before.profile_velocity_status == ProfileVelocityStatus::AxisSpeedZero ==> {
                &&& after.target_reached
                &&& halted ==> after.profile_velocity_status == ProfileVelocityStatus::AxisSpeedZero
                    && after.timer == before.timer && after.movement_duration
                    == before.movement_duration
                &&& !halted ==> {
                    &&& after.profile_velocity_status
                        == ProfileVelocityStatus::TargetSpeedNotReached
                    &&& after.timer == Some(now)
                    &&& speed_up(objects) is Some ==> after.movement_duration == Some(duration)
                    &&& speed_up(objects) is None ==> after.movement_duration == Some(0u128)
                }
            }
            &&& before.profile_velocity_status == ProfileVelocityStatus::TargetSpeedReached ==> {
                &&& after.target_reached
                &&& !halted ==> after.profile_velocity_status
                    == ProfileVelocityStatus::TargetSpeedReached && after.timer == before.timer
                    && after.movement_duration == before.movement_duration
                &&& halted ==> {
                    &&& after.profile_velocity_status == ProfileVelocityStatus::AxisBraking
                    &&& after.timer == Some(now)
                    &&& slow_down(objects) is Some ==> after.movement_duration == Some(duration)
                    &&& slow_down(objects) is None ==> after.movement_duration == Some(0u128)
                }
            }
            &&& before.profile_velocity_status == ProfileVelocityStatus::TargetSpeedNotReached
                || before.profile_velocity_status == ProfileVelocityStatus::AxisBraking ==> {
                let aim = if before.profile_velocity_status == ProfileVelocityStatus::AxisBraking {
                    ProfileVelocityStatus::AxisSpeedZero
                } else {
                    ProfileVelocityStatus::TargetSpeedReached
                };
                &&& !after.target_reached
                &&& after.timer == before.timer
                &&& after.movement_duration == before.movement_duration
                &&& after.profile_velocity_status == before.profile_velocity_status
                    || after.profile_velocity_status == aim
                &&& before.timer matches Some(begin) ==> {
                    &&& before.movement_duration matches Some(length)
                        ==> (after.profile_velocity_status == aim <==> length == 0 || now >= begin
                        + length)
                    &&& before.movement_duration is None ==> after.profile_velocity_status == aim
                }
            }
            &&& after.mode_of_operation == before.mode_of_operation
            &&& after.controlword == before.controlword
            &&& after.command == before.command
            &&& after.statusword == before.statusword
            &&& after.state == before.state
            &&& after.profile_position_status == before.profile_position_status
            &&& after.halt == before.halt
            &&& after.control_oms1 == before.control_oms1
            &&& after.home_status == before.home_status
            &&& after.status_oms1 == before.status_oms1
            &&& after.status_oms2 == before.status_oms2
        }),
{
}

/// A cycle of the homing mode: a rising edge starts it, and it is over when more than a tenth of a
/// second has gone by. While it waits for a start, homing attained stays as it was.
pub proof fn homing_mode(
    before: Controller,
    objects: Objects,
    now: u128,
    duration: u128,
)
    requires
        before.control_oms1.len() == 2,
        before.state == State::OperationEnabled,
        before.mode_of_operation == ModeOfOperation::Homing,
    ensures
        ({
            let after = mode_cycle(before, objects, now, duration);
            let starts = before.control_oms1[0] && !before.control_oms1[1];
            &&& !after.status_oms2
            &&& after.movement_duration == before.movement_duration
            &&& before.home_status == HomeStatus::WaitingForStart ==> {
                &&& after.target_reached
                &&& after.status_oms1 == before.status_oms1
                &&& starts ==> after.home_status == HomeStatus::Homing && after.timer == Some(now)
                &&& !starts ==> after.home_status == HomeStatus::WaitingForStart && after.timer
                    == before.timer
            }
            &&& before.home_status == HomeStatus::Homing ==> {
                &&& after.timer == before.timer
                &&& after.target_reached <==> after.home_status == HomeStatus::WaitingForStart
                &&& after.status_oms1 <==> after.home_status == HomeStatus::WaitingForStart
                &&& before.timer matches Some(begin) ==> (after.home_status
                    == HomeStatus::WaitingForStart <==> now > begin + 100_000_000)
            }
            &&& after.mode_of_operation == before.mode_of_operation
            &&& after.controlword == before.controlword
            &&& after.command == before.command
            &&& after.statusword == before.statusword
            &&& after.state == before.state
            &&& after.profile_position_status == before.profile_position_status
            &&& after.profile_velocity_status == before.profile_velocity_status
            &&& after.halt == before.halt
            &&& after.control_oms1 == before.control_oms1
        }),
{
}

/// Without operation enabled, or without a mode of operation, a cycle of the mode changes nothing.
pub proof fn idle_mode(before: Controller, objects: Objects, now: u128, duration: u128)
    requires
        before.state != State::OperationEnabled || before.mode_of_operation
            == ModeOfOperation::NoMode,
    ensures
        ({
            let after = mode_cycle(before, objects, now, duration);
            &&& after.mode_of_operation == before.mode_of_operation
            &&& after.controlword == before.controlword
            &&& after.command == before.command
            &&& after.statusword == before.statusword
            &&& after.state == before.state
            &&& after.profile_position_status == before.profile_position_status
            &&& after.profile_velocity_status == before.profile_velocity_status
            &&& after.halt == before.halt
            &&& after.control_oms1 == before.control_oms1
            &&& after.home_status == before.home_status
            &&& after.target_reached == before.target_reached
            &&& after.status_oms1 == before.status_oms1
            &&& after.status_oms2 == before.status_oms2
            &&& after.timer == before.timer
            &&& after.movement_duration == before.movement_duration
        }),
{
}

/// A cycle of a node whose drive is enabled in profile position mode: bit 4 of the controlword, set
/// after a cycle in which it was clear, starts a movement. Bit 12 of the statusword is what bit 4 was
/// in the cycle before.
pub proof fn node_positions(n: NodeState, now: u128, duration: u128)
    requires
        n.controller.control_oms1.len() == 2,
        cycle(n, now, duration).controller.state == State::OperationEnabled,
        cycle(n, now, duration).controller.mode_of_operation == ModeOfOperation::ProfilePosition,
    ensures
        ({
            let before = n.controller;
            let after = cycle(n, now, duration).controller;
            let starts = after.controlword / 16 % 2 == 1 && !before.control_oms1[0];
            &&& after.status_oms1 == before.control_oms1[0]
            &&& before.profile_position_status == ProfilePositionStatus::SetpointAcknownlegde && starts
                ==> {
                &&& after.profile_position_status == ProfilePositionStatus::Moving
                &&& !after.target_reached
                &&& after.timer == Some(now)
                &&& travel(n.objects) is Some ==> after.movement_duration == Some(duration)
                &&& travel(n.objects) is None ==> after.movement_duration == Some(0u128)
            }
            &&& before.profile_position_status == ProfilePositionStatus::SetpointAcknownlegde && !starts
                ==> {
                &&& after.profile_position_status == ProfilePositionStatus::SetpointAcknownlegde
                &&& after.target_reached
                &&& after.timer == before.timer
                &&& after.movement_duration == before.movement_duration
            }
            &&& before.profile_position_status == ProfilePositionStatus::Moving ==> {
                &&& after.target_reached == before.target_reached
                &&& after.timer == before.timer
                &&& after.movement_duration == before.movement_duration
                &&& before.timer matches Some(begin) ==> {
                    &&& before.movement_duration matches Some(length)
                        ==> (after.profile_position_status
                        == ProfilePositionStatus::SetpointAcknownlegde <==> length == 0 || now
                        >= begin + length)
                    &&& before.movement_duration is None ==> after.profile_position_status
                        == ProfilePositionStatus::SetpointAcknownlegde
                }
            }
            &&& bit(after.statusword, 10) == after.target_reached
            &&& bit(after.statusword, 12) == before.control_oms1[0]
            &&& bit(after.statusword, 13) == before.status_oms2
            &&& after.profile_velocity_status == before.profile_velocity_status
            &&& after.home_status == before.home_status
            &&& after.status_oms2 == before.status_oms2
        }),
{
    cycle_takes_its_commands(n, now, duration);
    cycle_sets_the_statusword(n, now, duration);
}

/// A cycle of a node whose drive is enabled in profile velocity mode: bit 8 of the controlword halts
/// the axis.
pub proof fn node_turns_its_axis(n: NodeState, now: u128, duration: u128)
    requires
        n.controller.control_oms1.len() == 2,
        cycle(n, now, duration).controller.state == State::OperationEnabled,
        cycle(n, now, duration).controller.mode_of_operation == ModeOfOperation::ProfileVelocity,
    ensures
        ({
            let before = n.controller;
            let after = cycle(n, now, duration).controller;
            let halted = after.controlword / 256 % 2 == 1;
            &&& before.profile_velocity_status == ProfileVelocityStatus::AxisSpeedZero ==> {
                &&& after.target_reached
                &&& halted ==> after.profile_velocity_status == ProfileVelocityStatus::AxisSpeedZero
                    && after.timer == before.timer && after.movement_duration
                    == before.movement_duration
                &&& !halted ==> {
                    &&& after.profile_velocity_status
                        == ProfileVelocityStatus::TargetSpeedNotReached
                    &&& after.timer == Some(now)
                    &&& speed_up(n.objects) is Some ==> after.movement_duration == Some(duration)
                    &&& speed_up(n.objects) is None ==> after.movement_duration == Some(0u128)
                }
            }
            &&& before.profile_velocity_status == ProfileVelocityStatus::TargetSpeedReached ==> {
                &&& after.target_reached
                &&& !halted ==> after.profile_velocity_status
                    == ProfileVelocityStatus::TargetSpeedReached && after.timer == before.timer
                    && after.movement_duration == before.movement_duration
                &&& halted ==> {
                    &&& after.profile_velocity_status == ProfileVelocityStatus::AxisBraking
                    &&& after.timer == Some(now)
                    &&& slow_down(n.objects) is Some ==> after.movement_duration == Some(duration)
                    &&& slow_down(n.objects) is None ==> after.movement_duration == Some(0u128)
                }
            }
            &&& before.profile_velocity_status == ProfileVelocityStatus::TargetSpeedNotReached
                || before.profile_velocity_status == ProfileVelocityStatus::AxisBraking ==> {
                let aim = if before.profile_velocity_status == ProfileVelocityStatus::AxisBraking {
                    ProfileVelocityStatus::AxisSpeedZero
                } else {
                    ProfileVelocityStatus::TargetSpeedReached
                };
                &&& !after.target_reached
                &&& after.timer == before.timer
                &&& after.movement_duration == before.movement_duration
                &&& after.profile_velocity_status == before.profile_velocity_status
                    || after.profile_velocity_status == aim
                &&& before.timer matches Some(begin) ==> {
                    &&& before.movement_duration matches Some(length)
                        ==> (after.profile_velocity_status == aim <==> length == 0 || now >= begin
                        + length)
                    &&& before.movement_duration is None ==> after.profile_velocity_status == aim
                }
            }
            &&& bit(after.statusword, 10) == after.target_reached
            &&& bit(after.statusword, 12) == before.status_oms1
            &&& bit(after.statusword, 13) == before.status_oms2
            &&& after.profile_position_status == before.profile_position_status
            &&& after.home_status == before.home_status
            &&& after.status_oms1 == before.status_oms1
            &&& after.status_oms2 == before.status_oms2
        }),
{
    cycle_takes_its_commands(n, now, duration);
    cycle_sets_the_statusword(n, now, duration);
}

/// A cycle of a node whose drive is enabled in homing mode: bit 4 of the controlword, set after a
/// cycle in which it was clear, starts homing. While the drive waits for a start, bit 12 of the
/// statusword keeps what it was to show before the cycle, whatever the controlword is.
pub proof fn node_homes(n: NodeState, now: u128, duration: u128)
    requires
        n.controller.control_oms1.len() == 2,
        cycle(n, now, duration).controller.state == State::OperationEnabled,
        cycle(n, now, duration).controller.mode_of_operation == ModeOfOperation::Homing,
    ensures
        ({
            let before = n.controller;
            let after = cycle(n, now, duration).controller;
            let starts = after.controlword / 16 % 2 == 1 && !before.control_oms1[0];
            &&& !after.status_oms2
            &&& after.movement_duration == before.movement_duration
            &&& before.home_status == HomeStatus::WaitingForStart ==> {
                &&& after.target_reached
                &&& after.status_oms1 == before.status_oms1
                &&& starts ==> after.home_status == HomeStatus::Homing && after.timer == Some(now)
                &&& !starts ==> after.home_status == HomeStatus::WaitingForStart && after.timer
                    == before.timer
            }
            &&& before.home_status == HomeStatus::Homing ==> {
                &&& after.timer == before.timer
                &&& after.target_reached <==> after.home_status == HomeStatus::WaitingForStart
                &&& after.status_oms1 <==> after.home_status == HomeStatus::WaitingForStart
                &&& before.timer matches Some(begin) ==> (after.home_status
                    == HomeStatus::WaitingForStart <==> now > begin + 100_000_000)
            }
            &&& before.home_status == HomeStatus::WaitingForStart ==> bit(after.statusword, 12)
                == before.status_oms1
            &&& before.home_status == HomeStatus::Homing ==> bit(after.statusword, 12) == (
            after.home_status == HomeStatus::WaitingForStart)
            &&& bit(after.statusword, 10) == after.target_reached
            &&& !bit(after.statusword, 13)
            &&& after.profile_position_status == before.profile_position_status
            &&& after.profile_velocity_status == before.profile_velocity_status
        }),
{
    cycle_takes_its_commands(n, now, duration);
    cycle_sets_the_statusword(n, now, duration);
}

/// A cycle of a node whose drive is not enabled, or has no mode of operation, moves nothing and keeps
/// all that the drive was about to show.
pub proof fn node_stands_still(n: NodeState, now: u128, duration: u128)
    requires
        cycle(n, now, duration).controller.state != State::OperationEnabled || cycle(
            n,
            now,
            duration,
        ).controller.mode_of_operation == ModeOfOperation::NoMode,
    ensures
        ({
            let before = n.controller;
            let after = cycle(n, now, duration).controller;
            &&& after.profile_position_status == before.profile_position_status
            &&& after.profile_velocity_status == before.profile_velocity_status
            &&& after.home_status == before.home_status
            &&& after.target_reached == before.target_reached
            &&& after.status_oms1 == before.status_oms1
            &&& after.status_oms2 == before.status_oms2
            &&& after.timer == before.timer
            &&& after.movement_duration == before.movement_duration
        }),
{
}

/// Once homing is over, homing attained lasts until the next homing run: in any number of cycles of
/// an enabled drive in homing mode that sees no rising edge, bit 12 of the statusword stays.
pub proof fn homing_attained_lasts(nodes: Seq<NodeState>, times: Seq<u128>, duration: u128, k: int)
    requires
        1 <= k < nodes.len(),
        nodes[0].controller.control_oms1.len() == 2,
        nodes[0].controller.home_status == HomeStatus::WaitingForStart,
        forall|i: int|
            1 <= i <= k ==> {
                let now = #[trigger] times[i];
                &&& nodes[i] == cycle(nodes[i - 1], now, duration)
                &&& nodes[i].controller.state == State::OperationEnabled
                &&& nodes[i].controller.mode_of_operation == ModeOfOperation::Homing
                &&& nodes[i].controller.controlword / 16 % 2 == 1 ==> nodes[i
                    - 1].controller.control_oms1[0]
            },
    ensures
        nodes[k].controller.control_oms1.len() == 2,
        nodes[k].controller.home_status == HomeStatus::WaitingForStart,
        nodes[k].controller.status_oms1 == nodes[0].controller.status_oms1,
        bit(nodes[k].controller.statusword, 12) == nodes[0].controller.status_oms1,
    decreases k,
{
    if k > 1 {
        homing_attained_lasts(nodes, times, duration, k - 1);
    }
    let now = times[k];
    cycle_takes_its_commands(nodes[k - 1], now, duration);
    node_homes(nodes[k - 1], now, duration);
}

} // verus!
