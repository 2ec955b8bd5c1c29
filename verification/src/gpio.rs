//! Pins, levels, and the actions that the core asks its caller to perform.
use vstd::prelude::*;

verus! {

/// Logic level of a pin.
#[derive(Clone, Copy, Debug, PartialEq, Eq, Structural)]
pub enum PinValue {
    High,
    Low,
}

/// Direction of a pin.
#[derive(Clone, Copy, Debug, PartialEq, Eq, Structural)]
pub enum PinMode {
    Output,
    Input,
}

/// A pin, named by the index of its controller and its offset there.
#[derive(Clone, Copy, Debug, PartialEq, Eq, Structural)]
pub struct Pin {
    pub controller: usize,
    pub offset: usize,
}

/// Settings of the shared serial bus.
#[derive(Clone, Copy, Debug, PartialEq, Eq, Structural)]
pub struct SpiConfig {
    pub bits_per_word: u8,
    pub max_speed_hz: u32,
    pub lsb_first: bool,
    /// Clock mode, 0 to 3.
    pub mode: u8,
}

/// One command of the converters' register protocol.
#[derive(Clone, Copy, Debug, PartialEq, Eq, Structural)]
pub enum SpiCommand {
    Reset,
    StartConversion,
    SelfCalibrate,
    ReadRegs { reg: u8, num_regs: u8 },
    WriteReg { reg: u8, data: u8 },
    ReadData,
}

/// One thing for the caller to do. A list of actions is performed in order.
#[derive(Clone, Copy, Debug, PartialEq, Eq, Structural)]
pub enum Action {
    /// Open the serial bus with these settings.
    ConfigureSpi(SpiConfig),
    /// Set the direction of a pin.
    SetMode(Pin, PinMode),
    /// Drive a pin.
    Write(Pin, PinValue),
    /// Wait at least this many microseconds.
    Sleep(u64),
    /// Send `SpiCommand::frame` in one bus transaction.
    Spi(SpiCommand),
    /// Switch one of the board's indicator lights.
    SetLed { index: u8, on: bool },
    /// Resolve the address of the remote controller, whose name is
    /// `state::FC_ADDR`.
    Resolve,
    /// Send the board's identity to the remote controller.
    SendIdentity,
    /// Try, without blocking, to receive one datagram.
    Receive,
    /// Start the heartbeat watchdog.
    SpawnWatchdog,
    /// Send the accumulated batch with the board's identity.
    SendBatch,
}

impl SpiCommand {
    /// The bytes of this command on the wire.
    pub open spec fn spec_frame(self) -> Seq<u8> {
        match self {
            SpiCommand::Reset => seq![0x06u8],
            SpiCommand::StartConversion => seq![0x08u8],
            SpiCommand::SelfCalibrate => seq![0x19u8],
            SpiCommand::ReadRegs { reg, num_regs } => seq![0x20u8 | reg, num_regs] + Seq::new(
                num_regs as nat,
                |i: int| 0u8,
            ),
            SpiCommand::WriteReg { reg, data } => seq![0x40u8 | reg, 0x00u8, data],
            SpiCommand::ReadData => seq![0x12u8] + Seq::new(12, |i: int| 0u8),
        }
    }

    /// Builds the bytes to send for this command.
    pub fn frame(&self) -> (tx: Vec<u8>)
        ensures
            tx@ == self.spec_frame(),
    {
        let mut tx: Vec<u8> = Vec::new();
        match self {
            SpiCommand::Reset => {
                tx.push(0x06u8);
            },
            SpiCommand::StartConversion => {
                tx.push(0x08u8);
            },
            SpiCommand::SelfCalibrate => {
                tx.push(0x19u8);
            },
            SpiCommand::ReadRegs { reg, num_regs } => {
                tx.push(0x20u8 | *reg);
                tx.push(*num_regs);
                pad(&mut tx, *num_regs);
            },
            SpiCommand::WriteReg { reg, data } => {
                tx.push(0x40u8 | *reg);
                tx.push(0x00u8);
                tx.push(*data);
            },
            SpiCommand::ReadData => {
                tx.push(0x12u8);
                pad(&mut tx, 12u8);
            },
        }
        assert(tx@ =~= self.spec_frame());
        tx
    }
}

/// Appends `count` zero bytes.
fn pad(tx: &mut Vec<u8>, count: u8)
    ensures
        final(tx)@ == old(tx)@ + Seq::new(count as nat, |i: int| 0u8),
{
    let mut k: u8 = 0;
    while k < count
        invariant
            k <= count,
            tx@ == old(tx)@ + Seq::new(k as nat, |i: int| 0u8),
        decreases count - k,
    {
        tx.push(0u8);
        k = k + 1;
        assert(tx@ =~= old(tx)@ + Seq::new(k as nat, |i: int| 0u8));
    }
}

/// Appends every action of `more` to `ops`, in order.
pub fn extend(ops: &mut Vec<Action>, more: &Vec<Action>)
    ensures
        final(ops)@ == old(ops)@ + more@,
{
    let mut k: usize = 0;
    while k < more.len()
        invariant
            k <= more.len(),
            ops@ == old(ops)@ + more@.take(k as int),
        decreases more.len() - k,
    {
        ops.push(more[k]);
        k = k + 1;
        assert(ops@ =~= old(ops)@ + more@.take(k as int));
    }
    assert(more@.take(more.len() as int) =~= more@);
}

/// The pins that are Low once `op` is performed, where `lows` were Low
/// before it.
pub open spec fn spec_drive(lows: Set<Pin>, op: Action) -> Set<Pin> {
    match op {
        Action::Write(pin, PinValue::Low) => lows.insert(pin),
        Action::Write(pin, PinValue::High) => lows.remove(pin),
        _ => lows,
    }
}

/// The pins that are Low once `ops` are performed in order.
pub open spec fn spec_drive_all(lows: Set<Pin>, ops: Seq<Action>) -> Set<Pin>
    decreases ops.len(),
{
    if ops.len() == 0 {
        lows
    } else {
        spec_drive(spec_drive_all(lows, ops.drop_last()), ops.last())
    }
}

/// Performing one action is `spec_drive`.
pub proof fn lemma_drive_one(lows: Set<Pin>, a: Action)
    ensures
        spec_drive_all(lows, seq![a]) == spec_drive(lows, a),
{
    let ops = seq![a];
    assert(ops.drop_last() =~= Seq::<Action>::empty());
    assert(spec_drive_all(lows, ops.drop_last()) == lows);
}

/// Performing `a + b` is performing `a`, then `b`.
pub proof fn lemma_drive_concat(lows: Set<Pin>, a: Seq<Action>, b: Seq<Action>)
    ensures
        spec_drive_all(lows, a + b) == spec_drive_all(spec_drive_all(lows, a), b),
    decreases b.len(),
{
    if b.len() == 0 {
        assert(a + b =~= a);
    } else {
        lemma_drive_concat(lows, a, b.drop_last());
        assert((a + b).drop_last() =~= a + b.drop_last());
        assert((a + b).last() == b.last());
    }
}

/// Performing two actions is `spec_drive` twice.
pub proof fn lemma_drive_two(lows: Set<Pin>, a: Action, b: Action)
    ensures
        spec_drive_all(lows, seq![a, b]) == spec_drive(spec_drive(lows, a), b),
{
    assert(seq![a, b] =~= seq![a] + seq![b]);
    lemma_drive_concat(lows, seq![a], seq![b]);
    lemma_drive_one(lows, a);
    lemma_drive_one(spec_drive(lows, a), b);
}

/// Making each of `pins` an output and driving it to `value`, in order.
pub open spec fn spec_drive_pins(pins: Seq<Pin>, value: PinValue) -> Seq<Action> {
    Seq::new(
        2 * pins.len(),
        |i: int|
            if i % 2 == 0 {
                Action::SetMode(pins[i / 2], PinMode::Output)
            } else {
                Action::Write(pins[i / 2], value)
            },
    )
}

/// The actions that make each of `pins` an output and drive it to `value`.
pub fn drive_pins(pins: &Vec<Pin>, value: PinValue) -> (ops: Vec<Action>)
    ensures
        ops@ == spec_drive_pins(pins@, value),
{
    let mut ops: Vec<Action> = Vec::new();
    let mut k: usize = 0;
    while k < pins.len()
        invariant
            k <= pins.len(),
            ops@ == spec_drive_pins(pins@.take(k as int), value),
        decreases pins.len() - k,
    {
        ops.push(Action::SetMode(pins[k], PinMode::Output));
        ops.push(Action::Write(pins[k], value));
        k = k + 1;
        assert(ops@ =~= spec_drive_pins(pins@.take(k as int), value));
    }
    assert(pins@.take(pins.len() as int) =~= pins@);
    ops
}

/// Driving `pins` High leaves none of them Low and drives no other pin
/// Low; driving them Low leaves each of them Low.
pub proof fn lemma_drive_pins(lows: Set<Pin>, pins: Seq<Pin>, value: PinValue)
    ensures
        value == PinValue::High ==> spec_drive_all(lows, spec_drive_pins(pins, value)).subset_of(
            lows,
        ),
        forall|i: int|
            0 <= i < pins.len() ==> (spec_drive_all(lows, spec_drive_pins(pins, value)).contains(
                #[trigger] pins[i],
            ) <==> value == PinValue::Low),
    decreases pins.len(),
{
    if pins.len() == 0 {
        assert(spec_drive_pins(pins, value) =~= Seq::<Action>::empty());
    } else {
        let front = pins.drop_last();
        let tail = seq![Action::SetMode(pins.last(), PinMode::Output), Action::Write(pins.last(), value)];
        lemma_drive_pins(lows, front, value);
        assert(spec_drive_pins(pins, value) =~= spec_drive_pins(front, value) + tail);
        lemma_drive_concat(lows, spec_drive_pins(front, value), tail);
        let mid = spec_drive_all(lows, spec_drive_pins(front, value));
        lemma_drive_two(mid, tail[0], tail[1]);
        let after = spec_drive_all(lows, spec_drive_pins(pins, value));
        assert(after == spec_drive(mid, tail[1]));
        assert forall|i: int| 0 <= i < pins.len() implies (after.contains(#[trigger] pins[i])
            <==> value == PinValue::Low) by {
            if i < front.len() {
                assert(front[i] == pins[i]);
            }
        }
    }
}

/// None of `ops` drives a pin.
pub open spec fn spec_quiet(ops: Seq<Action>) -> bool {
    forall|i: int| 0 <= i < ops.len() ==> !((#[trigger] ops[i]) is Write)
}

/// Actions that drive no pin leave every pin as it was.
pub proof fn lemma_quiet(lows: Set<Pin>, ops: Seq<Action>)
    requires
        spec_quiet(ops),
    ensures
        spec_drive_all(lows, ops) == lows,
    decreases ops.len(),
{
    if ops.len() > 0 {
        let front = ops.drop_last();
        assert forall|i: int| 0 <= i < front.len() implies !((#[trigger] front[i]) is Write) by {
            assert(front[i] == ops[i]);
        }
        lemma_quiet(lows, front);
        assert(!(ops[ops.len() - 1] is Write));
    }
}

} // verus!
