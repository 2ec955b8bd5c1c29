//! Actuation commands and the failsafe that overrides them.
use vstd::prelude::*;
use crate::gpio::{
    drive_pins, lemma_drive_pins, spec_drive_all, spec_drive_pins, Action, Pin, PinMode, PinValue,
};

verus! {

/// A command from the remote controller.
#[derive(Debug, PartialEq, Eq, Clone, Copy, Structural)]
pub enum SamControlMessage {
    SetLed { channel: u32, on: bool },
    ActuateValve { channel: u32, powered: bool },
}

/// The control pin of each valve, valve 1 first.
pub open spec fn spec_valve_pins() -> Seq<Pin> {
    seq![
        Pin { controller: 0, offset: 8 },
        Pin { controller: 2, offset: 16 },
        Pin { controller: 2, offset: 17 },
        Pin { controller: 2, offset: 25 },
        Pin { controller: 2, offset: 1 },
        Pin { controller: 1, offset: 14 },
    ]
}

/// The control pin of each valve, valve 1 first.
pub fn valve_pins() -> (pins: Vec<Pin>)
    ensures
        pins@ == spec_valve_pins(),
{
    let mut pins: Vec<Pin> = Vec::new();
    pins.push(Pin { controller: 0, offset: 8 });
    pins.push(Pin { controller: 2, offset: 16 });
    pins.push(Pin { controller: 2, offset: 17 });
    pins.push(Pin { controller: 2, offset: 25 });
    pins.push(Pin { controller: 2, offset: 1 });
    pins.push(Pin { controller: 1, offset: 14 });
    assert(pins@ =~= spec_valve_pins());
    pins
}

/// What a command asks for. A light is switched for channels 0 to 3; a
/// valve pin becomes an output and is driven High when powered and Low when
/// not, for channels 1 to 6. Any other channel asks for nothing.
pub open spec fn spec_execute(command: SamControlMessage) -> Seq<Action> {
    match command {
        SamControlMessage::SetLed { channel, on } => if channel <= 3 {
            seq![Action::SetLed { index: channel as u8, on }]
        } else {
            Seq::empty()
        },
        SamControlMessage::ActuateValve { channel, powered } => if 1 <= channel <= 6 {
            seq![
                Action::SetMode(spec_valve_pins()[channel - 1], PinMode::Output),
                Action::Write(
                    spec_valve_pins()[channel - 1],
                    if powered {
                        PinValue::High
                    } else {
                        PinValue::Low
                    },
                ),
            ]
        } else {
            Seq::empty()
        },
    }
}

/// Turns a command into the actions that carry it out.
pub fn execute(command: SamControlMessage) -> (ops: Vec<Action>)
    ensures
        ops@ == spec_execute(command),
{
    let mut ops: Vec<Action> = Vec::new();
    match command {
        SamControlMessage::SetLed { channel, on } => {
            if channel <= 3 {
                ops.push(Action::SetLed { index: channel as u8, on });
            }
        },
        SamControlMessage::ActuateValve { channel, powered } => {
            if 1 <= channel && channel <= 6 {
                let pins: Vec<Pin> = valve_pins();
                let pin: Pin = pins[(channel - 1) as usize];
                let value: PinValue = if powered {
                    PinValue::High
                } else {
                    PinValue::Low
                };
                ops.push(Action::SetMode(pin, PinMode::Output));
                ops.push(Action::Write(pin, value));
            }
        },
    }
    assert(ops@ =~= spec_execute(command));
    ops
}

/// The failsafe: every valve pin becomes an output and is driven Low.
pub open spec fn spec_abort() -> Seq<Action> {
    spec_drive_pins(spec_valve_pins(), PinValue::Low)
}

/// The actions that de-energize every valve.
pub fn abort() -> (ops: Vec<Action>)
    ensures
        ops@ == spec_abort(),
{
    let pins: Vec<Pin> = valve_pins();
    drive_pins(&pins, PinValue::Low)
}

/// After the failsafe every valve pin is Low, whatever the pins were
/// before.
pub proof fn lemma_abort_de_energizes(lows: Set<Pin>, valve: int)
    requires
        0 <= valve < spec_valve_pins().len(),
    ensures
        spec_drive_all(lows, spec_abort()).contains(spec_valve_pins()[valve]),
{
    lemma_drive_pins(lows, spec_valve_pins(), PinValue::Low);
}

} // verus!
