//! The multiplexed converter channels: chip-select wiring, register
//! programs, round-robin multiplexer steps and conversion to engineering
//! units.
use vstd::prelude::*;
use crate::gpio::{
    drive_pins, lemma_drive_concat, lemma_drive_one, lemma_drive_pins, lemma_drive_two,
    spec_drive_all, spec_drive_pins, Action, Pin, PinMode, PinValue, SpiCommand,
};

verus! {

/// Settle delay around each write of the initialization program, in
/// microseconds. It exceeds 4000 converter clock periods.
pub const REGISTER_SETTLE_MICROS: u64 = 100_000;

/// Delay between programming a multiplexer step and reading its result, in
/// microseconds.
pub const CONVERSION_SETTLE_MICROS: u64 = 700;

/// Delay after the start-conversion command, in microseconds.
pub const START_SETTLE_MICROS: u64 = 1_000;

/// Delay after the self-calibration command, in microseconds.
pub const CALIBRATION_SETTLE_MICROS: u64 = 1_000_000;

/// The cold-junction temperature at which the values of the two
/// thermocouple channels are linearized, in tenths of a degree Celsius.
pub const COLD_JUNCTION_DECICELSIUS: u32 = 305;

/// Zero degrees Celsius in hundredths of a kelvin: what is added to a
/// linearized thermocouple temperature.
pub const ZERO_CELSIUS_CENTIKELVIN: u32 = 27_315;

/// What a converter channel measures.
#[derive(Debug, PartialEq, Eq, Hash, Clone, Copy, Structural)]
pub enum Measurement {
    CurrentLoopPt,
    VValve,
    IValve,
    VPower,
    IPower,
    Tc1,
    Tc2,
    DiffSensors,
    Rtd,
}

/// An exact value in engineering units: `numerator / denominator`.
#[derive(Debug, PartialEq, Eq, Clone, Copy, Structural)]
pub struct Reading {
    pub numerator: i64,
    pub denominator: i64,
}

/// One converter channel.
#[derive(Debug, PartialEq, Eq, Clone, Copy, Structural)]
pub struct ADC {
    pub measurement: Measurement,
}

/// A register write: the register and the byte written to it.
pub type RegWrite = (u8, u8);

impl Measurement {
    /// The chip-select pin of this channel.
    pub open spec fn spec_cs_pin(self) -> Pin {
        match self {
            Measurement::CurrentLoopPt => Pin { controller: 0, offset: 30 },
            Measurement::IValve => Pin { controller: 2, offset: 4 },
            Measurement::VValve => Pin { controller: 0, offset: 26 },
            Measurement::VPower => Pin { controller: 2, offset: 13 },
            Measurement::IPower => Pin { controller: 2, offset: 15 },
            Measurement::Tc1 => Pin { controller: 0, offset: 10 },
            Measurement::Tc2 => Pin { controller: 0, offset: 20 },
            Measurement::DiffSensors => Pin { controller: 3, offset: 16 },
            Measurement::Rtd => Pin { controller: 2, offset: 11 },
        }
    }

    pub fn cs_pin(&self) -> (pin: Pin)
        ensures
            pin == self.spec_cs_pin(),
    {
        match self {
            Measurement::CurrentLoopPt => Pin { controller: 0, offset: 30 },
            Measurement::IValve => Pin { controller: 2, offset: 4 },
            Measurement::VValve => Pin { controller: 0, offset: 26 },
            Measurement::VPower => Pin { controller: 2, offset: 13 },
            Measurement::IPower => Pin { controller: 2, offset: 15 },
            Measurement::Tc1 => Pin { controller: 0, offset: 10 },
            Measurement::Tc2 => Pin { controller: 0, offset: 20 },
            Measurement::DiffSensors => Pin { controller: 3, offset: 16 },
            Measurement::Rtd => Pin { controller: 2, offset: 11 },
        }
    }

    /// Number of multiplexer steps that this channel cycles through. The
    /// multiplexer program and the channel numbering both go by it.
    pub open spec fn spec_cycle_length(self) -> int {
        match self {
            Measurement::CurrentLoopPt | Measurement::IValve | Measurement::VValve => 2,
            Measurement::VPower => 5,
            Measurement::IPower | Measurement::Rtd => 2,
            Measurement::Tc1 | Measurement::Tc2 | Measurement::DiffSensors => 3,
        }
    }

    pub fn cycle_length(&self) -> (len: u64)
        ensures
            len == self.spec_cycle_length(),
    {
        match self {
            Measurement::CurrentLoopPt | Measurement::IValve | Measurement::VValve => 2,
            Measurement::VPower => 5,
            Measurement::IPower | Measurement::Rtd => 2,
            Measurement::Tc1 | Measurement::Tc2 | Measurement::DiffSensors => 3,
        }
    }

    /// The multiplexer step that is programmed at `iteration`.
    pub open spec fn spec_step(self, iteration: int) -> int {
        iteration % self.spec_cycle_length()
    }

    pub fn step(&self, iteration: u64) -> (step: u64)
        ensures
            step == self.spec_step(iteration as int),
            step < self.spec_cycle_length(),
    {
        iteration % self.cycle_length()
    }

    /// The register writes that configure this channel once.
    pub open spec fn spec_init_program(self) -> Seq<RegWrite> {
        match self {
            Measurement::CurrentLoopPt
            | Measurement::IValve
            | Measurement::VValve
            | Measurement::VPower
            | Measurement::IPower => seq![
                (0x03u8, 0x00u8),
                (0x04u8, 0x1Eu8),
                (0x08u8, 0x00u8),
                (0x05u8, 0x0Au8),
            ],
            Measurement::Rtd => seq![
                (0x03u8, 0x00u8),
                (0x04u8, 0x1Eu8),
                (0x06u8, 0x47u8),
                (0x07u8, 0x05u8),
            ],
            Measurement::Tc1 | Measurement::Tc2 | Measurement::DiffSensors => seq![
                (0x03u8, 0x0Du8),
                (0x04u8, 0x1Eu8),
                (0x05u8, 0x0Au8),
            ],
        }
    }

    pub fn init_program(&self) -> (program: Vec<RegWrite>)
        ensures
            program@ == self.spec_init_program(),
    {
        let mut program: Vec<RegWrite> = Vec::new();
        match self {
            Measurement::CurrentLoopPt
            | Measurement::IValve
            | Measurement::VValve
            | Measurement::VPower
            | Measurement::IPower => {
                program.push((0x03u8, 0x00u8));
                program.push((0x04u8, 0x1Eu8));
                program.push((0x08u8, 0x00u8));
                program.push((0x05u8, 0x0Au8));
            },
            Measurement::Rtd => {
                program.push((0x03u8, 0x00u8));
                program.push((0x04u8, 0x1Eu8));
                program.push((0x06u8, 0x47u8));
                program.push((0x07u8, 0x05u8));
            },
            Measurement::Tc1 | Measurement::Tc2 | Measurement::DiffSensors => {
                program.push((0x03u8, 0x0Du8));
                program.push((0x04u8, 0x1Eu8));
                program.push((0x05u8, 0x0Au8));
            },
        }
        assert(program@ =~= self.spec_init_program());
        program
    }

    /// The register writes that select the inputs of multiplexer step
    /// `step`, for `0 <= step < spec_cycle_length()`.
    pub open spec fn spec_mux_program(self, step: int) -> Seq<RegWrite> {
        match self {
            Measurement::CurrentLoopPt
            | Measurement::IValve
            | Measurement::VValve
            | Measurement::VPower
            | Measurement::IPower => seq![(0x02u8, (0x10 * step + 0x0C) as u8)],
            Measurement::Rtd => if step == 0 {
                seq![(0x02u8, 0x45u8), (0x05u8, 0x10u8)]
            } else {
                seq![(0x02u8, 0x21u8), (0x05u8, 0x14u8)]
            },
            Measurement::DiffSensors => if step == 0 {
                seq![(0x02u8, 0x54u8)]
            } else if step == 1 {
                seq![(0x02u8, 0x32u8)]
            } else {
                seq![(0x02u8, 0x10u8)]
            },
            Measurement::Tc1 | Measurement::Tc2 => if step == 0 {
                seq![(0x02u8, 0x10u8), (0x08u8, 0x02u8)]
            } else if step == 1 {
                seq![(0x02u8, 0x32u8), (0x08u8, 0x08u8)]
            } else {
                seq![(0x02u8, 0x54u8), (0x08u8, 0x20u8)]
            },
        }
    }

    pub fn mux_program(&self, step: u64) -> (program: Vec<RegWrite>)
        requires
            step < self.spec_cycle_length(),
        ensures
            program@ == self.spec_mux_program(step as int),
    {
        let mut program: Vec<RegWrite> = Vec::new();
        match self {
            Measurement::CurrentLoopPt
            | Measurement::IValve
            | Measurement::VValve
            | Measurement::VPower
            | Measurement::IPower => {
                let code: u8 = (0x10 * step + 0x0C) as u8;
                program.push((0x02u8, code));
            },
            Measurement::Rtd => {
                if step == 0 {
                    program.push((0x02u8, 0x45u8));
                    program.push((0x05u8, 0x10u8));
                } else {
                    program.push((0x02u8, 0x21u8));
                    program.push((0x05u8, 0x14u8));
                }
            },
            Measurement::DiffSensors => {
                if step == 0 {
                    program.push((0x02u8, 0x54u8));
                } else if step == 1 {
                    program.push((0x02u8, 0x32u8));
                } else {
                    program.push((0x02u8, 0x10u8));
                }
            },
            Measurement::Tc1 | Measurement::Tc2 => {
                if step == 0 {
                    program.push((0x02u8, 0x10u8));
                    program.push((0x08u8, 0x02u8));
                } else if step == 1 {
                    program.push((0x02u8, 0x32u8));
                    program.push((0x08u8, 0x08u8));
                } else {
                    program.push((0x02u8, 0x54u8));
                    program.push((0x08u8, 0x20u8));
                }
            },
        }
        assert(program@ =~= self.spec_mux_program(step as int));
        program
    }

    /// The value of raw code `raw` in engineering units. With the reference
    /// at 5/2 V and full scale at 32768 codes, one code is 5 / (2 * 32768) V.
    /// The inputs measured against the reference add half the code range
    /// first; the current loop divides by its 200 ohm sense resistor, the
    /// rail voltage multiplies by its divider ratio of 11, and the
    /// thermocouple and differential inputs divide by 32/1000. The valve
    /// inputs report the code itself.
    pub open spec fn spec_convert(self, raw: i16) -> Reading {
        match self {
            Measurement::VValve | Measurement::IValve => Reading {
                numerator: raw as i64,
                denominator: 1,
            },
            Measurement::CurrentLoopPt => Reading {
                numerator: ((raw + 32768) * 5) as i64,
                denominator: (2 * 32768 * 200) as i64,
            },
            Measurement::VPower => Reading {
                numerator: (raw * 5 * 11) as i64,
                denominator: (2 * 32768) as i64,
            },
            Measurement::IPower => Reading {
                numerator: ((raw + 32768) * 5) as i64,
                denominator: (2 * 32768) as i64,
            },
            Measurement::Rtd => Reading { numerator: (raw * 5) as i64, denominator: (2 * 32768) as i64 },
            Measurement::Tc1 | Measurement::Tc2 | Measurement::DiffSensors => Reading {
                numerator: (raw * 5 * 1000) as i64,
                denominator: (2 * 32768 * 32) as i64,
            },
        }
    }

    /// Converts a raw code to engineering units, exactly. For the two
    /// thermocouple channels the value is the junction voltage in
    /// millivolts, which the caller linearizes.
    pub fn convert(&self, raw: i16) -> (reading: Reading)
        ensures
            reading == self.spec_convert(raw),
            reading.denominator > 0,
    {
        let code: i64 = raw as i64;
        match self {
            Measurement::VValve | Measurement::IValve => Reading {
                numerator: code,
                denominator: 1,
            },
            Measurement::CurrentLoopPt => Reading {
                numerator: (code + 32768) * 5,
                denominator: 2 * 32768 * 200,
            },
            Measurement::VPower => Reading { numerator: code * 55, denominator: 2 * 32768 },
            Measurement::IPower => Reading {
                numerator: (code + 32768) * 5,
                denominator: 2 * 32768,
            },
            Measurement::Rtd => Reading { numerator: code * 5, denominator: 2 * 32768 },
            Measurement::Tc1 | Measurement::Tc2 | Measurement::DiffSensors => Reading {
                numerator: code * 5000,
                denominator: 2 * 32768 * 32,
            },
        }
    }
}

/// The signed 16-bit number whose big-endian bytes are `high`, `low`.
pub open spec fn spec_code(high: u8, low: u8) -> int {
    if high >= 128 {
        high * 256 + low - 65536
    } else {
        high * 256 + low
    }
}

/// The raw code in the reply to `SpiCommand::ReadData`: bytes 1 and 2.
pub open spec fn spec_decode_result(rx: Seq<u8>) -> Option<i16> {
    if rx.len() >= 3 {
        Some(spec_code(rx[1], rx[2]) as i16)
    } else {
        None
    }
}

/// Reads the raw code out of the reply to `SpiCommand::ReadData`. `None`
/// when the reply is shorter than three bytes.
pub fn decode_result(rx: &Vec<u8>) -> (raw: Option<i16>)
    ensures
        raw == spec_decode_result(rx@),
        raw is Some <==> rx@.len() >= 3,
        raw is Some ==> raw->0 == spec_code(rx@[1], rx@[2]),
{
    if rx.len() < 3 {
        return None;
    }
    let high: i32 = rx[1] as i32;
    let low: i32 = rx[2] as i32;
    let code: i32 = if high >= 128 {
        high * 256 + low - 65536
    } else {
        high * 256 + low
    };
    Some(code as i16)
}

/// The register contents in the reply to `SpiCommand::ReadRegs`: the
/// `num_regs` bytes from index 2.
pub open spec fn spec_register_contents(rx: Seq<u8>, num_regs: u8) -> Option<Seq<u8>> {
    if rx.len() >= 2 + num_regs {
        Some(rx.subrange(2, 2 + num_regs))
    } else {
        None
    }
}

/// Reads the register contents out of the reply to `SpiCommand::ReadRegs`.
/// `None` when the reply is shorter than `2 + num_regs` bytes.
pub fn register_contents(rx: &Vec<u8>, num_regs: u8) -> (regs: Option<Vec<u8>>)
    ensures
        regs is Some <==> rx@.len() >= 2 + num_regs,
        regs is Some ==> spec_register_contents(rx@, num_regs) == Some(regs->0@),
{
    let count: usize = num_regs as usize;
    if rx.len() < 2 || rx.len() - 2 < count {
        return None;
    }
    let mut regs: Vec<u8> = Vec::new();
    let mut k: usize = 0;
    while k < count
        invariant
            k <= count,
            count == num_regs,
            rx@.len() >= 2 + count,
            regs@ == rx@.subrange(2, 2 + k),
        decreases count - k,
    {
        regs.push(rx[2 + k]);
        k = k + 1;
        assert(regs@ =~= rx@.subrange(2, 2 + k));
    }
    Some(regs)
}

/// The actions that write `program`, in order.
pub open spec fn spec_writes(program: Seq<RegWrite>) -> Seq<Action> {
    Seq::new(
        program.len(),
        |i: int| Action::Spi(SpiCommand::WriteReg { reg: program[i].0, data: program[i].1 }),
    )
}

fn writes(program: &Vec<RegWrite>) -> (ops: Vec<Action>)
    ensures
        ops@ == spec_writes(program@),
{
    let mut ops: Vec<Action> = Vec::new();
    let mut k: usize = 0;
    while k < program.len()
        invariant
            k <= program.len(),
            ops@ == spec_writes(program@.take(k as int)),
        decreases program.len() - k,
    {
        let write: RegWrite = program[k];
        ops.push(Action::Spi(SpiCommand::WriteReg { reg: write.0, data: write.1 }));
        k = k + 1;
        assert(ops@ =~= spec_writes(program@.take(k as int)));
    }
    assert(program@.take(program.len() as int) =~= program@);
    ops
}

/// The initialization program with its settle delays: a delay, then each
/// write followed by a delay.
pub open spec fn spec_init_regs(m: Measurement) -> Seq<Action> {
    let program = m.spec_init_program();
    Seq::new(
        1 + 2 * program.len(),
        |i: int|
            if i % 2 == 0 {
                Action::Sleep(REGISTER_SETTLE_MICROS)
            } else {
                Action::Spi(SpiCommand::WriteReg { reg: program[i / 2].0, data: program[i / 2].1 })
            },
    )
}

/// Break before make: the previously selected channel is released, then
/// this one is selected.
pub open spec fn spec_init_gpio(m: Measurement, prev: Option<Measurement>) -> Seq<Action> {
    match prev {
        Some(old_adc) => seq![
            Action::Write(old_adc.spec_cs_pin(), PinValue::High),
            Action::Write(m.spec_cs_pin(), PinValue::Low),
        ],
        None => seq![Action::Write(m.spec_cs_pin(), PinValue::Low)],
    }
}

/// The writes that program the multiplexer step of `iteration`.
pub open spec fn spec_write_iteration(m: Measurement, iteration: u64) -> Seq<Action> {
    spec_writes(m.spec_mux_program(m.spec_step(iteration as int)))
}

/// Waiting for the conversion to settle, then asking for its result.
pub open spec fn spec_get_adc_reading() -> Seq<Action> {
    seq![Action::Sleep(CONVERSION_SETTLE_MICROS), Action::Spi(SpiCommand::ReadData)]
}

impl ADC {
    /// A channel for `measurement`.
    pub fn new(measurement: Measurement) -> (adc: ADC)
        ensures
            adc.measurement == measurement,
    {
        ADC { measurement }
    }

    /// The chip-select pin offsets, one entry per measurement.
    pub open spec fn spec_cs_mappings() -> Seq<(Measurement, usize)> {
        seq![
            (Measurement::CurrentLoopPt, 30usize),
            (Measurement::IValve, 4usize),
            (Measurement::VValve, 26usize),
            (Measurement::VPower, 13usize),
            (Measurement::IPower, 15usize),
            (Measurement::Tc1, 10usize),
            (Measurement::Tc2, 20usize),
            (Measurement::DiffSensors, 16usize),
            (Measurement::Rtd, 11usize),
        ]
    }

    /// The chip-select pin offset of every measurement.
    pub fn cs_mappings() -> (table: Vec<(Measurement, usize)>)
        ensures
            table@ == Self::spec_cs_mappings(),
            forall|i: int|
                0 <= i < table@.len() ==> (#[trigger] table@[i]).1
                    == table@[i].0.spec_cs_pin().offset,
    {
        let mut table: Vec<(Measurement, usize)> = Vec::new();
        table.push((Measurement::CurrentLoopPt, 30usize));
        table.push((Measurement::IValve, 4usize));
        table.push((Measurement::VValve, 26usize));
        table.push((Measurement::VPower, 13usize));
        table.push((Measurement::IPower, 15usize));
        table.push((Measurement::Tc1, 10usize));
        table.push((Measurement::Tc2, 20usize));
        table.push((Measurement::DiffSensors, 16usize));
        table.push((Measurement::Rtd, 11usize));
        assert(table@ =~= Self::spec_cs_mappings());
        table
    }

    /// Selects this channel on the bus after releasing `prev_adc`.
    pub fn init_gpio(&self, prev_adc: Option<Measurement>) -> (ops: Vec<Action>)
        ensures
            ops@ == spec_init_gpio(self.measurement, prev_adc),
    {
        let mut ops: Vec<Action> = Vec::new();
        if let Some(old_adc) = prev_adc {
            ops.push(Action::Write(old_adc.cs_pin(), PinValue::High));
        }
        ops.push(Action::Write(self.measurement.cs_pin(), PinValue::Low));
        assert(ops@ =~= spec_init_gpio(self.measurement, prev_adc));
        ops
    }

    /// Runs the initialization program of this channel.
    pub fn init_regs(&self) -> (ops: Vec<Action>)
        ensures
            ops@ == spec_init_regs(self.measurement),
    {
        let program: Vec<RegWrite> = self.measurement.init_program();
        let mut ops: Vec<Action> = Vec::new();
        ops.push(Action::Sleep(REGISTER_SETTLE_MICROS));
        let mut k: usize = 0;
        while k < program.len()
            invariant
                k <= program.len(),
                program@ == self.measurement.spec_init_program(),
                ops@ == spec_init_regs(self.measurement).take(1 + 2 * k),
            decreases program.len() - k,
        {
            let write: RegWrite = program[k];
            ops.push(Action::Spi(SpiCommand::WriteReg { reg: write.0, data: write.1 }));
            ops.push(Action::Sleep(REGISTER_SETTLE_MICROS));
            k = k + 1;
            assert(ops@ =~= spec_init_regs(self.measurement).take(1 + 2 * k));
        }
        assert(ops@ =~= spec_init_regs(self.measurement));
        ops
    }

    /// Resets the converter.
    pub fn reset_status(&self) -> (ops: Vec<Action>)
        ensures
            ops@ == seq![Action::Spi(SpiCommand::Reset)],
    {
        let mut ops: Vec<Action> = Vec::new();
        ops.push(Action::Spi(SpiCommand::Reset));
        ops
    }

    /// Starts continuous conversion and lets the first one settle.
    pub fn start_conversion(&self) -> (ops: Vec<Action>)
        ensures
            ops@ == seq![
                Action::Spi(SpiCommand::StartConversion),
                Action::Sleep(START_SETTLE_MICROS),
            ],
    {
        let mut ops: Vec<Action> = Vec::new();
        ops.push(Action::Spi(SpiCommand::StartConversion));
        ops.push(Action::Sleep(START_SETTLE_MICROS));
        ops
    }

    /// Runs the converter's self-calibration.
    pub fn self_calibrate(&self) -> (ops: Vec<Action>)
        ensures
            ops@ == seq![
                Action::Spi(SpiCommand::SelfCalibrate),
                Action::Sleep(CALIBRATION_SETTLE_MICROS),
            ],
    {
        let mut ops: Vec<Action> = Vec::new();
        ops.push(Action::Spi(SpiCommand::SelfCalibrate));
        ops.push(Action::Sleep(CALIBRATION_SETTLE_MICROS));
        ops
    }

    /// Reads `num_regs` registers from `reg` on.
    pub fn read_regs(&self, reg: u8, num_regs: u8) -> (ops: Vec<Action>)
        ensures
            ops@ == seq![Action::Spi(SpiCommand::ReadRegs { reg, num_regs })],
    {
        let mut ops: Vec<Action> = Vec::new();
        ops.push(Action::Spi(SpiCommand::ReadRegs { reg, num_regs }));
        ops
    }

    /// Writes `data` to register `reg`.
    pub fn write_reg(&self, reg: u8, data: u8) -> (ops: Vec<Action>)
        ensures
            ops@ == seq![Action::Spi(SpiCommand::WriteReg { reg, data })],
    {
        let mut ops: Vec<Action> = Vec::new();
        ops.push(Action::Spi(SpiCommand::WriteReg { reg, data }));
        ops
    }

    /// Waits for the conversion to settle and asks for its result. The
    /// reply goes to `test_read_individual`.
    pub fn get_adc_reading(&self) -> (ops: Vec<Action>)
        ensures
            ops@ == spec_get_adc_reading(),
    {
        let mut ops: Vec<Action> = Vec::new();
        ops.push(Action::Sleep(CONVERSION_SETTLE_MICROS));
        ops.push(Action::Spi(SpiCommand::ReadData));
        assert(ops@ =~= spec_get_adc_reading());
        ops
    }

    /// Programs the multiplexer step of `iteration`: step
    /// `iteration % cycle_length`.
    pub fn write_iteration(&self, iteration: u64) -> (ops: Vec<Action>)
        ensures
            ops@ == spec_write_iteration(self.measurement, iteration),
    {
        let step: u64 = self.measurement.step(iteration);
        let program: Vec<RegWrite> = self.measurement.mux_program(step);
        writes(&program)
    }

    /// Converts the reply to `SpiCommand::ReadData` to engineering units.
    /// `None` when the reply is shorter than three bytes.
    pub fn test_read_individual(&self, rx: &Vec<u8>) -> (reading: Option<Reading>)
        ensures
            reading is Some <==> rx@.len() >= 3,
            reading is Some ==> reading->0 == self.measurement.spec_convert(
                spec_decode_result(rx@)->0,
            ),
    {
        match decode_result(rx) {
            Some(raw) => Some(self.measurement.convert(raw)),
            None => None,
        }
    }
}

/// The indices of the pin controllers that the board uses.
pub fn open_controllers() -> (controllers: Vec<usize>)
    ensures
        controllers@ == seq![0usize, 1usize, 2usize, 3usize],
{
    let mut controllers: Vec<usize> = Vec::new();
    let mut i: usize = 0;
    while i <= 3
        invariant
            i <= 4,
            controllers@ == Seq::new(i as nat, |k: int| k as usize),
        decreases 4 - i,
    {
        controllers.push(i);
        i = i + 1;
        assert(controllers@ =~= Seq::new(i as nat, |k: int| k as usize));
    }
    assert(controllers@ =~= seq![0usize, 1usize, 2usize, 3usize]);
    controllers
}

/// The measurements in the order of the chip-select table.
pub open spec fn spec_measurements() -> Seq<Measurement> {
    seq![
        Measurement::CurrentLoopPt,
        Measurement::IValve,
        Measurement::VValve,
        Measurement::VPower,
        Measurement::IPower,
        Measurement::Tc1,
        Measurement::Tc2,
        Measurement::DiffSensors,
        Measurement::Rtd,
    ]
}

/// The chip-select table: each measurement with its pin.
pub open spec fn spec_gpio_controller_mappings() -> Seq<(Measurement, Pin)> {
    Seq::new(9, |i: int| (spec_measurements()[i], spec_measurements()[i].spec_cs_pin()))
}

/// The chip-select table, one entry per measurement, and the actions that
/// make each of its pins an output.
pub fn gpio_controller_mappings() -> (mapping: (Vec<(Measurement, Pin)>, Vec<Action>))
    ensures
        mapping.0@ == spec_gpio_controller_mappings(),
        mapping.1@ == Seq::new(
            9,
            |i: int| Action::SetMode(spec_measurements()[i].spec_cs_pin(), PinMode::Output),
        ),
{
    let mut order: Vec<Measurement> = Vec::new();
    order.push(Measurement::CurrentLoopPt);
    order.push(Measurement::IValve);
    order.push(Measurement::VValve);
    order.push(Measurement::VPower);
    order.push(Measurement::IPower);
    order.push(Measurement::Tc1);
    order.push(Measurement::Tc2);
    order.push(Measurement::DiffSensors);
    order.push(Measurement::Rtd);
    assert(order@ =~= spec_measurements());
    let mut table: Vec<(Measurement, Pin)> = Vec::new();
    let mut setup: Vec<Action> = Vec::new();
    let mut k: usize = 0;
    while k < order.len()
        invariant
            k <= order.len(),
            order@ == spec_measurements(),
            table@ == Seq::new(
                k as nat,
                |i: int| (spec_measurements()[i], spec_measurements()[i].spec_cs_pin()),
            ),
            setup@ == Seq::new(
                k as nat,
                |i: int| Action::SetMode(spec_measurements()[i].spec_cs_pin(), PinMode::Output),
            ),
        decreases order.len() - k,
    {
        let pin: Pin = order[k].cs_pin();
        table.push((order[k], pin));
        setup.push(Action::SetMode(pin, PinMode::Output));
        k = k + 1;
        assert(table@ =~= Seq::new(
            k as nat,
            |i: int| (spec_measurements()[i], spec_measurements()[i].spec_cs_pin()),
        ));
        assert(setup@ =~= Seq::new(
            k as nat,
            |i: int| Action::SetMode(spec_measurements()[i].spec_cs_pin(), PinMode::Output),
        ));
    }
    (table, setup)
}

/// Every pin that selects a device on the shared bus: the nine converter
/// channels, then the four other devices.
pub open spec fn spec_bus_pins() -> Seq<Pin> {
    seq![
        Pin { controller: 0, offset: 30 },
        Pin { controller: 2, offset: 4 },
        Pin { controller: 0, offset: 26 },
        Pin { controller: 2, offset: 13 },
        Pin { controller: 2, offset: 15 },
        Pin { controller: 0, offset: 10 },
        Pin { controller: 0, offset: 20 },
        Pin { controller: 3, offset: 16 },
        Pin { controller: 2, offset: 11 },
        Pin { controller: 0, offset: 5 },
        Pin { controller: 0, offset: 13 },
        Pin { controller: 0, offset: 23 },
        Pin { controller: 2, offset: 23 },
    ]
}

/// Idles the bus: every chip-select line on it becomes an output and is
/// driven High.
pub fn pull_gpios_high() -> (ops: Vec<Action>)
    ensures
        ops@ == spec_drive_pins(spec_bus_pins(), PinValue::High),
{
    let mut pins: Vec<Pin> = Vec::new();
    pins.push(Pin { controller: 0, offset: 30 });
    pins.push(Pin { controller: 2, offset: 4 });
    pins.push(Pin { controller: 0, offset: 26 });
    pins.push(Pin { controller: 2, offset: 13 });
    pins.push(Pin { controller: 2, offset: 15 });
    pins.push(Pin { controller: 0, offset: 10 });
    pins.push(Pin { controller: 0, offset: 20 });
    pins.push(Pin { controller: 3, offset: 16 });
    pins.push(Pin { controller: 2, offset: 11 });
    pins.push(Pin { controller: 0, offset: 5 });
    pins.push(Pin { controller: 0, offset: 13 });
    pins.push(Pin { controller: 0, offset: 23 });
    pins.push(Pin { controller: 2, offset: 23 });
    assert(pins@ =~= spec_bus_pins());
    drive_pins(&pins, PinValue::High)
}

/// No converter channel is selected.
pub open spec fn none_selected(lows: Set<Pin>) -> bool {
    forall|m: Measurement| !lows.contains(#[trigger] m.spec_cs_pin())
}

/// No converter channel but `active` is selected.
pub open spec fn only_selected(lows: Set<Pin>, active: Option<Measurement>) -> bool {
    forall|m: Measurement| lows.contains(#[trigger] m.spec_cs_pin()) ==> active == Some(m)
}

/// At most one converter channel is selected.
pub open spec fn at_most_one_selected(lows: Set<Pin>) -> bool {
    forall|a: Measurement, b: Measurement|
        lows.contains(#[trigger] a.spec_cs_pin()) && lows.contains(#[trigger] b.spec_cs_pin())
            ==> a == b
}

/// The pin writes of selecting each of `ms` in turn, where `prev` was
/// selected last.
pub open spec fn spec_activations(prev: Option<Measurement>, ms: Seq<Measurement>) -> Seq<Action>
    decreases ms.len(),
{
    if ms.len() == 0 {
        Seq::empty()
    } else {
        spec_init_gpio(ms[0], prev) + spec_activations(Some(ms[0]), ms.drop_first())
    }
}

/// Two measurements with one chip-select pin are the same measurement.
pub proof fn lemma_cs_pins_distinct(a: Measurement, b: Measurement)
    requires
        a.spec_cs_pin() == b.spec_cs_pin(),
    ensures
        a == b,
{
}

/// Once the bus is idled, whatever was selected before, no converter
/// channel is selected.
pub proof fn lemma_idle_bus(lows: Set<Pin>)
    ensures
        none_selected(spec_drive_all(lows, spec_drive_pins(spec_bus_pins(), PinValue::High))),
{
    lemma_drive_pins(lows, spec_bus_pins(), PinValue::High);
    let after = spec_drive_all(lows, spec_drive_pins(spec_bus_pins(), PinValue::High));
    assert forall|m: Measurement| !after.contains(#[trigger] m.spec_cs_pin()) by {
        let i: int = match m {
            Measurement::CurrentLoopPt => 0,
            Measurement::IValve => 1,
            Measurement::VValve => 2,
            Measurement::VPower => 3,
            Measurement::IPower => 4,
            Measurement::Tc1 => 5,
            Measurement::Tc2 => 6,
            Measurement::DiffSensors => 7,
            Measurement::Rtd => 8,
        };
        assert(spec_bus_pins()[i] == m.spec_cs_pin());
    }
}

/// Chip-select exclusivity. Let only `prev`, if any channel, be selected,
/// and let the channels `ms` then be selected one after another. After
/// each single pin write of that sequence at most one channel is selected,
/// and whenever a pin is about to be driven Low no channel is selected:
/// the one selected before has been released.
pub proof fn lemma_chip_select_exclusive(
    lows: Set<Pin>,
    prev: Option<Measurement>,
    ms: Seq<Measurement>,
    k: int,
)
    requires
        only_selected(lows, prev),
        0 <= k <= spec_activations(prev, ms).len(),
    ensures
        at_most_one_selected(spec_drive_all(lows, spec_activations(prev, ms).take(k))),
        k < spec_activations(prev, ms).len() ==> (spec_activations(prev, ms)[k] matches Action::Write(
            _,
            PinValue::Low,
        ) ==> none_selected(spec_drive_all(lows, spec_activations(prev, ms).take(k)))),
        k == spec_activations(prev, ms).len() ==> only_selected(
            spec_drive_all(lows, spec_activations(prev, ms)),
            if ms.len() == 0 {
                prev
            } else {
                Some(ms.last())
            },
        ),
    decreases ms.len(),
{
    let trace = spec_activations(prev, ms);
    if ms.len() == 0 {
        assert(trace.take(k) =~= trace);
    } else {
        let m = ms[0];
        let head = spec_init_gpio(m, prev);
        let rest = spec_activations(Some(m), ms.drop_first());
        assert(trace == head + rest);
        let released = match prev {
            Some(p) => lows.remove(p.spec_cs_pin()),
            None => lows,
        };
        let selected = released.insert(m.spec_cs_pin());
        assert(none_selected(released));
        assert(only_selected(selected, Some(m))) by {
            assert forall|x: Measurement| selected.contains(#[trigger] x.spec_cs_pin()) implies Some(
                m,
            ) == Some(x) by {
                lemma_cs_pins_distinct(x, m);
            }
        }
        match prev {
            Some(p) => {
                lemma_drive_one(lows, head[0]);
                lemma_drive_two(lows, head[0], head[1]);
                assert(head.take(1) =~= seq![head[0]]);
                assert(head.take(2) =~= head);
            },
            None => {
                lemma_drive_one(lows, head[0]);
                assert(head.take(1) =~= head);
            },
        }
        assert(head.take(0) =~= Seq::<Action>::empty());
        assert(spec_drive_all(lows, head) == selected);
        if k <= head.len() {
            assert(trace.take(k) =~= head.take(k));
            if k == head.len() {
                assert(trace.take(k) =~= head);
            }
            if k < head.len() {
                assert(trace[k] == head[k]);
            } else if k < trace.len() {
                assert(trace[k] == rest[0]);
                lemma_chip_select_exclusive(selected, Some(m), ms.drop_first(), 0);
                assert(rest.take(0) =~= Seq::<Action>::empty());
            }
            if k == trace.len() {
                assert(rest.len() == 0);
                lemma_chip_select_exclusive(selected, Some(m), ms.drop_first(), 0);
                assert(trace =~= head);
                if ms.len() > 1 {
                    assert(ms.drop_first().last() == ms.last());
                }
            }
        } else {
            let j = k - head.len();
            lemma_chip_select_exclusive(selected, Some(m), ms.drop_first(), j);
            assert(trace.take(k) =~= head + rest.take(j));
            lemma_drive_concat(lows, head, rest.take(j));
            if k < trace.len() {
                assert(trace[k] == rest[j]);
            } else {
                assert(rest.take(j) =~= rest);
                assert(trace.take(k) =~= trace);
                assert(ms.drop_first().last() == ms.last());
            }
        }
    }
}

} // verus!
