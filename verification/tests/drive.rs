use std::collections::HashMap;

use cia402_node::cia301::Node;
use cia402_node::cia402_runner::Command::{
    DisableVoltage, EnableOperation, EnableOperationAfterQuickStop, FaultReset, NoCommand,
    QuickStop, Shutdown, SwitchOn,
};
use cia402_node::cia402_runner::State::{
    Fault, FaultReactionActive, NotReadyToSwitchOn, OperationEnabled, QuickStopActive,
    ReadyToSwitchOn, SwitchedOn, SwitchedOnDisabled,
};
use cia402_node::cia402_runner::{
    acceleration_to_speed, deceleration_to_stop, movement_to_target, Command, HomeStatus,
    ModeOfOperation, Motion, MotorController, ProfilePositionStatus, ProfileVelocityStatus, State,
};
use cia402_node::eds::{DataValue, EDSData, Variable};

const SHUTDOWN: u16 = 0x06;
const SWITCH_ON: u16 = 0x07;
const ENABLE: u16 = 0x0F;
const START: u16 = 0x10;
const HALT: u16 = 0x100;

fn dictionary(objects: &[(u16, DataValue)]) -> EDSData {
    let mut eds_data = EDSData { od: HashMap::new() };
    for (index, value) in objects {
        let vars = eds_data.od.entry(*index).or_default();
        vars.insert(0, Variable { value: value.clone() });
    }
    eds_data
}

fn drive(mode: i8) -> Node {
    let eds_data = dictionary(&[
        (0x6040, DataValue::Unsigned16(0)),
        (0x6041, DataValue::Unsigned16(0)),
        (0x6060, DataValue::Integer8(mode)),
        (0x6061, DataValue::Integer8(0)),
        (0x6064, DataValue::Integer32(-50)),
        (0x607A, DataValue::Integer32(1000)),
        (0x6081, DataValue::Unsigned32(100)),
        (0x6083, DataValue::Unsigned32(200)),
        (0x6084, DataValue::Unsigned32(400)),
        (0x60FF, DataValue::Integer32(-300)),
    ]);
    Node::initialize(9, eds_data).unwrap()
}

/// Runs a cycle, and gives the movement that was announced to begin with it.
fn cycle_for(node: &mut Node, controlword: u16, now: u128, duration: u128) -> Option<Motion> {
    *node.eds_data.get_mut(0x6040, 0).unwrap() = DataValue::Unsigned16(controlword);
    let motion = node.next_motion();
    node.run_cycle(now, duration);
    motion
}

fn cycle(node: &mut Node, controlword: u16, now: u128) -> Option<Motion> {
    cycle_for(node, controlword, now, 0)
}

fn enabled_drive(mode: i8) -> Node {
    let mut node = drive(mode);
    for controlword in [0, SHUTDOWN, SWITCH_ON] {
        assert_eq!(cycle(&mut node, controlword, 0), None);
    }
    node
}

fn statusword(node: &Node) -> u16 {
    match node.eds_data.get(0x6041, 0) {
        Some(DataValue::Unsigned16(word)) => *word,
        _ => panic!("no statusword"),
    }
}

fn command(controlword: u16) -> Command {
    let mut node = drive(0);
    cycle(&mut node, controlword, 0);
    node.motor_controller.command
}

fn state_after(state: State, command: Command) -> State {
    let mut controller = MotorController::default();
    controller.state = state;
    controller.command = command;
    controller.update_state();
    controller.state
}

#[test]
fn modes_have_numbers() {
    for (number, mode) in [
        (0, ModeOfOperation::NoMode),
        (1, ModeOfOperation::ProfilePosition),
        (3, ModeOfOperation::ProfileVelocity),
        (6, ModeOfOperation::Homing),
    ] {
        assert_eq!(ModeOfOperation::mode_of_operation(number), mode);
        assert_eq!(mode.as_i8(), number);
    }
}

#[test]
fn defaults_are_those_of_a_drive_before_power_on() {
    let controller = MotorController::default();
    assert_eq!(controller.mode_of_operation, ModeOfOperation::default());
    assert_eq!(ModeOfOperation::default(), ModeOfOperation::NoMode);
    assert_eq!(controller.command, Command::NoCommand);
    assert_eq!(Command::default(), Command::NoCommand);
    assert_eq!(controller.state, State::NotReadyToSwitchOn);
    assert_eq!(State::default(), State::NotReadyToSwitchOn);
    assert_eq!(ProfilePositionStatus::default(), ProfilePositionStatus::SetpointAcknownlegde);
    assert_eq!(ProfileVelocityStatus::default(), ProfileVelocityStatus::AxisSpeedZero);
    assert_eq!(HomeStatus::default(), HomeStatus::WaitingForStart);
    assert!(controller.control_oms1.is_empty());
    assert_eq!((controller.statusword, controller.controlword), (0, 0));
    assert_eq!((controller.timer, controller.movement_duration), (None, None));
    assert_eq!(drive(0).motor_controller.control_oms1, [false, false]);
}

#[test]
fn unknown_modes_are_not_accepted() {
    for mode in i8::MIN..=i8::MAX {
        assert_eq!(drive(mode).accepts(0x80, &[]), matches!(mode, 0 | 1 | 3 | 6));
        // Only the frame that runs a cycle looks at the mode.
        assert!(drive(mode).accepts(0x1_0080, &[]));
    }
}

#[test]
fn controlwords_give_commands() {
    assert_eq!(command(0x06), Command::Shutdown);
    assert_eq!(command(0x0E), Command::Shutdown);
    assert_eq!(command(0x07), Command::SwitchOn);
    assert_eq!(command(0x0F), Command::EnableOperation);
    assert_eq!(command(0x00), Command::DisableVoltage);
    assert_eq!(command(0x0D), Command::DisableVoltage);
    assert_eq!(command(0x02), Command::QuickStop);
    assert_eq!(command(0x0B), Command::QuickStop);
    assert_eq!(command(0x80), Command::FaultReset);
    assert_eq!(command(0x8F), Command::FaultReset);
    assert_eq!(command(0xFF70 & !0x80 | 0x0F), Command::EnableOperation);
}

#[test]
fn the_state_machine_takes_its_steps() {
    let commands = [
        NoCommand, Shutdown, SwitchOn, DisableVoltage, QuickStop, EnableOperation,
        EnableOperationAfterQuickStop, FaultReset,
    ];
    let table: [(State, [State; 8]); 8] = [
        (NotReadyToSwitchOn, [SwitchedOnDisabled; 8]),
        (SwitchedOnDisabled, [
            SwitchedOnDisabled, ReadyToSwitchOn, SwitchedOnDisabled, SwitchedOnDisabled,
            SwitchedOnDisabled, SwitchedOnDisabled, SwitchedOnDisabled, SwitchedOnDisabled,
        ]),
        (ReadyToSwitchOn, [
            ReadyToSwitchOn, ReadyToSwitchOn, SwitchedOn, SwitchedOnDisabled, ReadyToSwitchOn,
            ReadyToSwitchOn, ReadyToSwitchOn, ReadyToSwitchOn,
        ]),
        (SwitchedOn, [
            SwitchedOn, ReadyToSwitchOn, SwitchedOn, SwitchedOn, SwitchedOn, OperationEnabled,
            SwitchedOn, SwitchedOn,
        ]),
        (OperationEnabled, [
            OperationEnabled, OperationEnabled, SwitchedOn, SwitchedOnDisabled, QuickStopActive,
            OperationEnabled, OperationEnabled, OperationEnabled,
        ]),
        (QuickStopActive, [
            QuickStopActive, QuickStopActive, QuickStopActive, SwitchedOnDisabled, QuickStopActive,
            QuickStopActive, OperationEnabled, QuickStopActive,
        ]),
        (FaultReactionActive, [Fault; 8]),
        (Fault, [Fault, Fault, Fault, Fault, Fault, Fault, Fault, SwitchedOnDisabled]),
    ];
    for (state, followers) in table {
        for (command, follower) in commands.into_iter().zip(followers) {
            assert_eq!(state_after(state, command), follower);
        }
    }
}

#[test]
fn the_statusword_shows_the_state() {
    for (state, on_zeros, on_ones) in [
        (State::NotReadyToSwitchOn, 0x0000, 0xCB90),
        (State::SwitchedOnDisabled, 0x0040, 0xCBF0),
        (State::ReadyToSwitchOn, 0x0021, 0xCBB1),
        (State::SwitchedOn, 0x0023, 0xCBB3),
        (State::OperationEnabled, 0x0027, 0xCBB7),
        (State::QuickStopActive, 0x0007, 0xCB97),
        (State::FaultReactionActive, 0x000F, 0xCBBF),
        (State::Fault, 0x0008, 0xCBB8),
    ] {
        let mut controller = MotorController::default();
        controller.state = state;
        controller.set_statusword();
        assert_eq!(controller.statusword, on_zeros);
        controller.statusword = 0xFFFF;
        controller.set_statusword();
        assert_eq!(controller.statusword, on_ones);
        controller.target_reached = true;
        controller.set_statusword();
        assert_eq!(controller.statusword, on_ones | 0x0400);
        controller.status_oms1 = true;
        controller.status_oms2 = true;
        controller.set_statusword();
        assert_eq!(controller.statusword, on_ones | 0x3400);
    }
}

#[test]
fn three_commands_after_power_on_enable_operation() {
    let mut node = drive(0);
    for (controlword, state, shown) in [
        (ENABLE, State::SwitchedOnDisabled, 0x40),
        (SHUTDOWN, State::ReadyToSwitchOn, 0x21),
        (SWITCH_ON, State::SwitchedOn, 0x23),
        (ENABLE, State::OperationEnabled, 0x27),
    ] {
        assert_eq!(cycle(&mut node, controlword, 0), None);
        assert_eq!(node.motor_controller.state, state);
        assert_eq!(statusword(&node), shown);
    }
    // A quick stop is left through the disabled voltage only.
    cycle(&mut node, 0x02, 0);
    cycle(&mut node, ENABLE, 0);
    assert_eq!(node.motor_controller.state, State::QuickStopActive);
    cycle(&mut node, 0x00, 0);
    assert_eq!(node.motor_controller.state, State::SwitchedOnDisabled);
}

#[test]
fn a_fault_lasts_until_it_is_reset() {
    let mut node = drive(0);
    node.motor_controller.state = State::FaultReactionActive;
    for controlword in [ENABLE, SHUTDOWN, 0x00] {
        cycle(&mut node, controlword, 0);
        assert_eq!(node.motor_controller.state, State::Fault);
    }
    cycle(&mut node, 0x80, 0);
    assert_eq!(node.motor_controller.state, State::SwitchedOnDisabled);
}

#[test]
fn motions_are_read_from_the_dictionary() {
    let node = drive(1);
    assert_eq!(
        movement_to_target(&node.eds_data),
        Some(Motion::Travel { distance: 1050, velocity: 100, acceleration: 200, deceleration: 400 })
    );
    assert_eq!(
        acceleration_to_speed(&node.eds_data),
        Some(Motion::Accelerate { speed: 300, acceleration: 200 })
    );
    assert_eq!(
        deceleration_to_stop(&node.eds_data),
        Some(Motion::Brake { speed: 300, deceleration: 400 })
    );
}

#[test]
fn motions_take_no_time_without_way_or_rate() {
    for index in [0x6081, 0x6083, 0x6084] {
        let mut node = drive(1);
        *node.eds_data.get_mut(index, 0).unwrap() = DataValue::Unsigned32(0);
        assert_eq!(movement_to_target(&node.eds_data), None);
        // An object of another type counts as zero.
        *node.eds_data.get_mut(index, 0).unwrap() = DataValue::Unsigned16(5);
        assert_eq!(movement_to_target(&node.eds_data), None);
    }
    let mut node = drive(1);
    *node.eds_data.get_mut(0x6064, 0).unwrap() = DataValue::Integer32(1000);
    assert_eq!(movement_to_target(&node.eds_data), None);
    *node.eds_data.get_mut(0x60FF, 0).unwrap() = DataValue::Integer32(0);
    assert_eq!(acceleration_to_speed(&node.eds_data), None);
    assert_eq!(deceleration_to_stop(&node.eds_data), None);
    let empty = dictionary(&[]);
    assert_eq!(movement_to_target(&empty), None);
    assert_eq!(acceleration_to_speed(&empty), None);
    assert_eq!(deceleration_to_stop(&empty), None);
}

#[test]
fn the_longest_way_fits() {
    let mut node = drive(1);
    *node.eds_data.get_mut(0x6064, 0).unwrap() = DataValue::Integer32(i32::MAX);
    *node.eds_data.get_mut(0x607A, 0).unwrap() = DataValue::Integer32(i32::MIN);
    *node.eds_data.get_mut(0x60FF, 0).unwrap() = DataValue::Integer32(i32::MIN);
    assert_eq!(
        movement_to_target(&node.eds_data),
        Some(Motion::Travel {
            distance: u32::MAX,
            velocity: 100,
            acceleration: 200,
            deceleration: 400,
        })
    );
    assert_eq!(
        acceleration_to_speed(&node.eds_data),
        Some(Motion::Accelerate { speed: 0x8000_0000, acceleration: 200 })
    );
}

#[test]
fn positioning_starts_on_a_rising_edge_and_takes_its_time() {
    let mut node = enabled_drive(1);
    assert_eq!(cycle(&mut node, ENABLE, 5), None);
    assert_eq!(statusword(&node), 0x0427);

    let motion = cycle_for(&mut node, ENABLE | START, 1_000, 500);
    assert_eq!(motion, movement_to_target(&node.eds_data));
    assert_eq!(node.motor_controller.timer, Some(1_000));
    assert_eq!(node.motor_controller.movement_duration, Some(500));
    assert_eq!(statusword(&node), 0x0027);

    // The setpoint is acknowledged one cycle later; the movement goes on.
    for now in [1_001, 1_200, 1_499] {
        assert_eq!(cycle(&mut node, ENABLE | START, now), None);
        assert_eq!(node.motor_controller.profile_position_status, ProfilePositionStatus::Moving);
        assert_eq!(statusword(&node), 0x1027);
    }
    assert_eq!(cycle(&mut node, ENABLE | START, 1_500), None);
    assert_eq!(
        node.motor_controller.profile_position_status,
        ProfilePositionStatus::SetpointAcknownlegde
    );
    assert_eq!(statusword(&node), 0x1027);

    // A bit that stays set starts nothing.
    assert_eq!(cycle(&mut node, ENABLE | START, 1_501), None);
    assert_eq!(statusword(&node), 0x1427);
    assert_eq!(cycle(&mut node, ENABLE, 1_502), None);
    assert_eq!(statusword(&node), 0x1427);
    assert_eq!(cycle(&mut node, ENABLE, 1_503), None);
    assert_eq!(statusword(&node), 0x0427);
    assert!(cycle(&mut node, ENABLE | START, 1_504).is_some());
}

#[test]
fn positioning_without_a_way_is_over_at_once() {
    let mut node = enabled_drive(1);
    *node.eds_data.get_mut(0x607A, 0).unwrap() = DataValue::Integer32(-50);
    cycle(&mut node, ENABLE, 5);
    assert_eq!(cycle_for(&mut node, ENABLE | START, 10, 77), None);
    assert_eq!(node.motor_controller.movement_duration, Some(0));
    assert_eq!(node.motor_controller.profile_position_status, ProfilePositionStatus::Moving);
    cycle(&mut node, ENABLE | START, 10);
    assert_eq!(
        node.motor_controller.profile_position_status,
        ProfilePositionStatus::SetpointAcknownlegde
    );
}

#[test]
fn a_clock_that_runs_backwards_counts_no_time() {
    let mut node = enabled_drive(1);
    cycle(&mut node, ENABLE, 1_000);
    cycle_for(&mut node, ENABLE | START, 1_000, 1);
    cycle(&mut node, ENABLE, 10);
    assert_eq!(node.motor_controller.profile_position_status, ProfilePositionStatus::Moving);
}

#[test]
fn the_axis_speeds_up_and_brakes() {
    let mut node = enabled_drive(3);
    // Halted at standstill.
    assert_eq!(cycle(&mut node, ENABLE | HALT, 0), None);
    assert_eq!(node.motor_controller.profile_velocity_status, ProfileVelocityStatus::AxisSpeedZero);
    assert_eq!(statusword(&node), 0x0427);

    let motion = cycle_for(&mut node, ENABLE, 100, 50);
    assert_eq!(motion, Some(Motion::Accelerate { speed: 300, acceleration: 200 }));
    assert_eq!(statusword(&node), 0x0427);
    assert_eq!(cycle(&mut node, ENABLE, 149), None);
    assert_eq!(
        node.motor_controller.profile_velocity_status,
        ProfileVelocityStatus::TargetSpeedNotReached
    );
    assert_eq!(statusword(&node), 0x0027);
    assert_eq!(cycle(&mut node, ENABLE, 150), None);
    assert_eq!(
        node.motor_controller.profile_velocity_status,
        ProfileVelocityStatus::TargetSpeedReached
    );
    assert_eq!(statusword(&node), 0x0027);
    assert_eq!(cycle(&mut node, ENABLE, 151), None);
    assert_eq!(statusword(&node), 0x0427);

    let motion = cycle_for(&mut node, ENABLE | HALT, 200, 50);
    assert_eq!(motion, Some(Motion::Brake { speed: 300, deceleration: 400 }));
    assert_eq!(node.motor_controller.profile_velocity_status, ProfileVelocityStatus::AxisBraking);
    assert_eq!(cycle(&mut node, ENABLE | HALT, 249), None);
    assert_eq!(node.motor_controller.profile_velocity_status, ProfileVelocityStatus::AxisBraking);
    assert_eq!(cycle(&mut node, ENABLE | HALT, 250), None);
    assert_eq!(node.motor_controller.profile_velocity_status, ProfileVelocityStatus::AxisSpeedZero);
    assert_eq!(statusword(&node), 0x0027);
}

#[test]
fn homing_takes_more_than_a_tenth_of_a_second() {
    let mut node = enabled_drive(6);
    cycle(&mut node, ENABLE, 0);
    assert_eq!(statusword(&node), 0x0427);
    assert_eq!(cycle(&mut node, ENABLE | START, 7), None);
    assert_eq!(node.motor_controller.home_status, HomeStatus::Homing);
    assert_eq!(statusword(&node), 0x0427);
    cycle(&mut node, ENABLE | START, 100_000_007);
    assert_eq!(node.motor_controller.home_status, HomeStatus::Homing);
    assert_eq!(statusword(&node), 0x0027);
    cycle(&mut node, ENABLE | START, 100_000_008);
    assert_eq!(node.motor_controller.home_status, HomeStatus::WaitingForStart);
    assert_eq!(statusword(&node), 0x1427);
    // The first mode specific bit stays as it is while the drive waits.
    cycle(&mut node, ENABLE | START, 100_000_009);
    assert_eq!(statusword(&node), 0x1427);
}

#[test]
fn nothing_moves_while_operation_is_disabled() {
    for mode in [0, 1, 3, 6] {
        let mut node = drive(mode);
        for controlword in [ENABLE, SHUTDOWN, SHUTDOWN | START, SWITCH_ON | START] {
            assert_eq!(cycle(&mut node, controlword, 1_000), None);
        }
        assert_eq!(node.motor_controller.timer, None);
        assert!(!node.motor_controller.target_reached);
        assert_eq!(node.motor_controller.home_status, HomeStatus::WaitingForStart);
    }
    let mut node = enabled_drive(0);
    assert_eq!(cycle(&mut node, ENABLE | START, 1_000), None);
    assert_eq!(node.motor_controller.timer, None);
}

#[test]
fn the_mode_and_the_statusword_are_shown_in_the_dictionary() {
    let mut node = drive(6);
    cycle(&mut node, SHUTDOWN, 0);
    assert_eq!(node.eds_data.get(0x6061, 0), Some(&DataValue::Integer8(6)));
    assert_eq!(node.eds_data.get(0x6041, 0), Some(&DataValue::Unsigned16(0x40)));
    assert_eq!(node.eds_data.get(0x6060, 0), Some(&DataValue::Integer8(6)));
    assert_eq!(node.eds_data.get(0x6040, 0), Some(&DataValue::Unsigned16(SHUTDOWN)));
    assert_eq!(node.eds_data.get(0x607A, 0), Some(&DataValue::Integer32(1000)));

    // Objects of other types are left alone, and missing ones are not made.
    let eds_data = dictionary(&[
        (0x6060, DataValue::Unsigned8(1)),
        (0x6061, DataValue::Unsigned8(7)),
    ]);
    let mut node = Node::initialize(9, eds_data).unwrap();
    assert_eq!(node.next_motion(), None);
    node.run_cycle(0, 5);
    assert_eq!(node.motor_controller.timer, None);
    assert_eq!(node.motor_controller.mode_of_operation, ModeOfOperation::NoMode);
    assert_eq!(node.eds_data.get(0x6061, 0), Some(&DataValue::Unsigned8(7)));
    assert_eq!(node.eds_data.get(0x6041, 0), None);
    assert_eq!(node.eds_data.od.len(), 2);
}

#[test]
fn the_clock_of_the_node_runs() {
    let mut node = enabled_drive(6);
    cycle(&mut node, ENABLE, 0);
    *node.eds_data.get_mut(0x6040, 0).unwrap() = DataValue::Unsigned16(ENABLE | START);
    assert_eq!(node.next_motion(), None);
    node.update_controller(0);
    let begin = node.motor_controller.timer.unwrap();
    assert_eq!(node.motor_controller.home_status, HomeStatus::Homing);

    // Homing ends by itself once the clock has gone on, and not before.
    while node.motor_controller.home_status == HomeStatus::Homing {
        node.update_controller(0);
    }
    assert!(node.clock.elapsed().as_nanos() > begin + 100_000_000);
}

#[test]
fn a_controlword_is_read_with_any_number_of_samples() {
    let mut controller = MotorController::default();
    controller.controlword = ENABLE | START | HALT;
    controller.parse_controlword();
    assert_eq!(controller.command, Command::EnableOperation);
    assert!(controller.halt);
    assert!(controller.control_oms1.is_empty());

    controller.control_oms1 = [false, false, true].into();
    controller.parse_controlword();
    assert_eq!(controller.control_oms1, [true, false, false]);
    controller.controlword = SHUTDOWN;
    controller.parse_controlword();
    assert_eq!(controller.control_oms1, [false, true, false]);
    assert_eq!(controller.command, Command::Shutdown);
    assert!(!controller.halt);
}
