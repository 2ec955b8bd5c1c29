use sam::command::{abort, execute, valve_pins, SamControlMessage};
use sam::gpio::{Action, Pin, PinMode, PinValue};

const VALVES: [(usize, usize); 6] = [(0, 8), (2, 16), (2, 17), (2, 25), (2, 1), (1, 14)];

#[test]
fn valve_pin_table() {
    let pins = valve_pins();
    assert_eq!(pins.len(), 6);
    for (k, (controller, offset)) in VALVES.iter().enumerate() {
        assert_eq!(pins[k], Pin { controller: *controller, offset: *offset });
    }
}

#[test]
fn valve_commands_drive_the_valve_pin() {
    for (k, (controller, offset)) in VALVES.iter().enumerate() {
        let pin = Pin { controller: *controller, offset: *offset };
        let channel = k as u32 + 1;
        assert_eq!(
            execute(SamControlMessage::ActuateValve { channel, powered: true }),
            vec![Action::SetMode(pin, PinMode::Output), Action::Write(pin, PinValue::High)]
        );
        assert_eq!(
            execute(SamControlMessage::ActuateValve { channel, powered: false }),
            vec![Action::SetMode(pin, PinMode::Output), Action::Write(pin, PinValue::Low)]
        );
    }
}

#[test]
fn valve_commands_for_unknown_channels_do_nothing() {
    for channel in [0u32, 7, 8, 255, u32::MAX] {
        assert_eq!(execute(SamControlMessage::ActuateValve { channel, powered: true }), vec![]);
        assert_eq!(execute(SamControlMessage::ActuateValve { channel, powered: false }), vec![]);
    }
}

#[test]
fn light_commands() {
    for channel in 0..4u32 {
        assert_eq!(
            execute(SamControlMessage::SetLed { channel, on: true }),
            vec![Action::SetLed { index: channel as u8, on: true }]
        );
        assert_eq!(
            execute(SamControlMessage::SetLed { channel, on: false }),
            vec![Action::SetLed { index: channel as u8, on: false }]
        );
    }
    for channel in [4u32, 5, 256, u32::MAX] {
        assert_eq!(execute(SamControlMessage::SetLed { channel, on: true }), vec![]);
        assert_eq!(execute(SamControlMessage::SetLed { channel, on: false }), vec![]);
    }
}

#[test]
fn abort_drives_every_valve_low() {
    let ops = abort();
    assert_eq!(ops.len(), 12);
    for (k, (controller, offset)) in VALVES.iter().enumerate() {
        let pin = Pin { controller: *controller, offset: *offset };
        assert_eq!(ops[2 * k], Action::SetMode(pin, PinMode::Output));
        assert_eq!(ops[2 * k + 1], Action::Write(pin, PinValue::Low));
    }
    assert!(!ops.iter().any(|op| matches!(op, Action::Write(_, PinValue::High))));
}
