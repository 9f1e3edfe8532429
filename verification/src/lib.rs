//! Core logic of a handheld input relay for a differential-drive robot.
//!
//! The relay samples two potentiometers and five push-buttons, quantises the
//! readings into small integer buckets, and reports each change as one ASCII
//! line of the form `<channel> <value>\r\n` over a serial link.  A five-lamp
//! LED bar mirrors the throttle bucket.  On the other end of the link, a host
//! bridge decodes the lines, keeps the last reported key state, and derives
//! wheel, servo and buzzer commands for the robot.
//!
//! This crate holds the verified decision logic: the quantisers, the
//! change detector with its LED bar, the line encoder, and the bridge's
//! decoder and motion rules.  Reading the hardware and moving bytes or
//! commands over the wire is left to the surrounding binary.

pub mod bridge;
pub mod quant;
pub mod relay;
pub mod text;
pub mod wire;
