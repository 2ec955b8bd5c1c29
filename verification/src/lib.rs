//! Sensor acquisition and board control core of a sensor/actuator interface
//! board: the register protocol of its multiplexed converters, the lifecycle
//! that brings the board from cold start to steady-state sampling, and the
//! heartbeat watchdog that de-energizes the valves when the command link is
//! lost.
//!
//! The library decides and the caller performs: hardware and network work is
//! handed out as a list of [`gpio::Action`] values, and what came of it is
//! handed back as plain values.
pub mod adc;
pub mod command;
pub mod data;
pub mod gpio;
pub mod state;
pub mod watchdog;
