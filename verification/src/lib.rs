//! A CANopen node that plays the part of a CiA 402 motor controller.

pub mod bits;
pub mod le;
pub mod eds;
pub mod frame;
pub mod nmt;
pub mod cia402_runner;
pub mod cia301;
pub mod meaning;
pub mod laws;
pub mod drive_laws;
pub mod frame_laws;
