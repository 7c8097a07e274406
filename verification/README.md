# cia402_node

A simulated CANopen node that plays the part of a CiA 402 motor controller. It answers network
management and service data requests, takes and sends process data, and runs the drive state
machine with the modes profile position, profile velocity and homing on every SYNC frame.

The library under `src/` is written in Verus and verified:

- `frame`: CAN frames, made through `can_socket`.
- `eds`: the object dictionary and its values.
- `le`, `bits`: integers as bytes, single bits of 16-bit words.
- `nmt`: network management states and their announcements.
- `cia301`: the node: addressing, service data, process data, network management.
- `cia402_runner`: the motor controller.
- `laws`: what holds of the node as a whole.

Time enters the library as nanoseconds on the clock of the node. `Node::next_motion` gives the
numbers from which the duration of the movement is computed that the next cycle begins; the caller
computes the duration and hands it to the cycle.

The program under `app/` opens the bus, reads the configuration and computes durations in floating
point. Its configuration is a TOML file:

```toml
[general]
speed_factor = 1.0

[bus]
interface = "can0"

[[node]]
node_id = 1
eds_file = "node1.toml"
```

and the objects of a node are listed in another one:

```toml
[[object]]
index = 0x6040
sub_index = 0
type = "UNSIGNED16"
value = 0
```
