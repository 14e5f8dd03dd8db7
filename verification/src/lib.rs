//! Verified logic of a stepper-motor controller and of the joystick driver that
//! feeds it.
//!
//! On the board: `motion` moves an axis, `tmc` and `servo` configure its
//! drivers and servos, `board` keeps the record of what was commanded,
//! `command` reads a command line, `firmware` carries it out, `reply` words the
//! answers, and `editor` and `session` talk to the host. `pulses` counts the
//! steps that a move makes. `bare` is a smaller firmware that counts steps one
//! by one.
//!
//! On the host: `config` says what drives what, `joystick` reads the device,
//! `drive` turns sticks into jogs, `link` words the commands, and `handshake`
//! asks a board for its version. `protocol` proves that the two sides
//! understand each other.
//!
//! `effect` is what the interpreters ask of the hardware; `text`, `message` and
//! `axis` are what everything else is written in.

pub mod text;
pub mod message;
pub mod axis;
pub mod effect;
pub mod motion;
pub mod tmc;
pub mod servo;
pub mod board;
pub mod command;
pub mod reply;
pub mod firmware;
pub mod pulses;
pub mod editor;
pub mod session;
pub mod bare;
pub mod config;
pub mod joystick;
pub mod drive;
pub mod link;
pub mod handshake;
pub mod protocol;
