//! The telemetry record that each sample becomes.
use vstd::prelude::*;
use crate::adc::{Measurement, Reading};

verus! {

/// The kind of signal behind a channel.
#[derive(Debug, PartialEq, Eq, Clone, Copy, Structural)]
pub enum ChannelType {
    CurrentLoop,
    ValveVoltage,
    ValveCurrent,
    RailVoltage,
    RailCurrent,
    DifferentialSignal,
    Rtd,
    Tc,
}

/// One sample in engineering units.
#[derive(Debug, PartialEq, Eq, Clone, Copy, Structural)]
pub struct DataPoint {
    pub value: Reading,
    /// Microseconds since the epoch, as the caller's clock gave them.
    pub timestamp: u64,
    /// The input within its converter, counted from 1.
    pub channel: u32,
    pub channel_type: ChannelType,
}

/// The input that multiplexer step `iteration % cycle_length` routes to the
/// converter, counted from 1.
pub open spec fn spec_node_id(measurement: Measurement, iteration: int) -> int {
    measurement.spec_step(iteration) + 1
}

/// The kind of signal that `measurement` samples.
pub open spec fn spec_channel_type(measurement: Measurement) -> ChannelType {
    match measurement {
        Measurement::CurrentLoopPt => ChannelType::CurrentLoop,
        Measurement::VValve => ChannelType::ValveVoltage,
        Measurement::IValve => ChannelType::ValveCurrent,
        Measurement::VPower => ChannelType::RailVoltage,
        Measurement::IPower => ChannelType::RailCurrent,
        Measurement::DiffSensors => ChannelType::DifferentialSignal,
        Measurement::Rtd => ChannelType::Rtd,
        Measurement::Tc1 | Measurement::Tc2 => ChannelType::Tc,
    }
}

/// The record of a sample taken while the multiplexer step of `iteration`
/// was routed to the converter.
pub open spec fn spec_data_point(
    data: Reading,
    timestamp: u64,
    iteration: int,
    measurement: Measurement,
) -> DataPoint {
    DataPoint {
        value: data,
        timestamp,
        channel: spec_node_id(measurement, iteration) as u32,
        channel_type: spec_channel_type(measurement),
    }
}

/// The input that was routed to the converter by the multiplexer step of
/// `iteration`, counted from 1. Always `Some`.
pub fn iteration_to_node_id(measurement: Measurement, iteration: u64) -> (id: Option<u32>)
    ensures
        id == Some(spec_node_id(measurement, iteration as int) as u32),
        1 <= spec_node_id(measurement, iteration as int) <= measurement.spec_cycle_length(),
{
    let step: u64 = measurement.step(iteration);
    Some((step + 1) as u32)
}

/// The kind of signal that `measurement` samples, whatever the input.
/// Always `Some`.
pub fn measurement_to_channel_type(node_id: u32, measurement: Measurement) -> (kind: Option<
    ChannelType,
>)
    ensures
        kind == Some(spec_channel_type(measurement)),
{
    match measurement {
        Measurement::CurrentLoopPt => Some(ChannelType::CurrentLoop),
        Measurement::VValve => Some(ChannelType::ValveVoltage),
        Measurement::IValve => Some(ChannelType::ValveCurrent),
        Measurement::VPower => Some(ChannelType::RailVoltage),
        Measurement::IPower => Some(ChannelType::RailCurrent),
        Measurement::DiffSensors => Some(ChannelType::DifferentialSignal),
        Measurement::Rtd => Some(ChannelType::Rtd),
        Measurement::Tc1 => Some(ChannelType::Tc),
        Measurement::Tc2 => Some(ChannelType::Tc),
    }
}

/// Builds the record of a sample taken while the multiplexer step of
/// `iteration` was routed to the converter.
pub fn generate_data_point(
    data: Reading,
    timestamp: u64,
    iteration: u64,
    measurement: Measurement,
) -> (point: DataPoint)
    ensures
        point == spec_data_point(data, timestamp, iteration as int, measurement),
{
    let step: u64 = measurement.step(iteration);
    DataPoint {
        value: data,
        timestamp,
        channel: (step + 1) as u32,
        channel_type: match measurement {
            Measurement::CurrentLoopPt => ChannelType::CurrentLoop,
            Measurement::VValve => ChannelType::ValveVoltage,
            Measurement::IValve => ChannelType::ValveCurrent,
            Measurement::VPower => ChannelType::RailVoltage,
            Measurement::IPower => ChannelType::RailCurrent,
            Measurement::DiffSensors => ChannelType::DifferentialSignal,
            Measurement::Rtd => ChannelType::Rtd,
            Measurement::Tc1 | Measurement::Tc2 => ChannelType::Tc,
        },
    }
}

} // verus!
