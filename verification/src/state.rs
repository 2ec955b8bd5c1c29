//! The board's lifecycle, from cold start through network rendezvous to
//! steady-state sampling.
//!
//! The caller runs the loop. In each state it performs what
//! [`State::requests`] asks for, reports the outcome as an [`Event`] to
//! [`State::next`], and performs the actions of the [`Step`] it gets back.
use vstd::prelude::*;
use crate::adc::{
    at_most_one_selected, gpio_controller_mappings, lemma_chip_select_exclusive, lemma_idle_bus,
    none_selected, only_selected, pull_gpios_high, spec_activations, spec_bus_pins,
    spec_get_adc_reading, spec_init_gpio, spec_init_regs, spec_measurements,
    spec_write_iteration, spec_writes, Measurement, ADC, START_SETTLE_MICROS,
};
use crate::data::{generate_data_point, spec_data_point, DataPoint};
use crate::gpio::{
    extend, lemma_drive_concat, lemma_quiet, spec_drive_all, spec_drive_pins, spec_quiet, Action,
    Pin, PinMode, PinValue, SpiCommand, SpiConfig,
};

verus! {

/// The host name of the remote controller.
pub const FC_ADDR: &'static str = "server-01";

/// The port of the remote controller's telemetry socket.
pub const FC_PORT: u16 = 4573;

/// An IPv4 socket address; `ip` holds the four octets, first octet highest.
#[derive(Debug, PartialEq, Eq, Clone, Copy, Structural)]
pub struct SocketAddress {
    pub ip: u32,
    pub port: u16,
}

/// A well-formed datagram from the remote controller.
#[derive(Debug, PartialEq, Eq, Clone, Copy, Structural)]
pub enum Datagram {
    Identity,
    FlightHeartbeat,
    Other,
}

/// The outcome of one attempt to receive without blocking.
#[derive(Debug, PartialEq, Eq, Clone, Copy, Structural)]
pub enum Received {
    Nothing,
    Malformed,
    Message(Datagram),
}

/// The raw code that one channel returned, and when.
#[derive(Debug, PartialEq, Eq, Clone, Copy, Structural)]
pub struct Sample {
    pub raw: i16,
    /// Microseconds since the epoch.
    pub timestamp: u64,
}

/// What came of the requests of a state.
#[derive(Debug)]
pub enum Event {
    /// Nothing to report.
    Done,
    /// The outcome of `Action::Resolve`: the address, if one was found.
    Resolved(Option<u32>),
    /// The outcome of `Action::Receive`.
    Received(Received),
    /// The replies to the `SpiCommand::ReadData` commands of a sweep, in
    /// the order in which they were sent.
    Samples(Vec<Sample>),
}

/// The states of the lifecycle.
#[derive(Debug, PartialEq, Eq, Clone, Copy, Structural)]
pub enum State {
    Init,
    DeviceDiscovery,
    ConnectToRemote,
    Identity,
    InitAdcs,
    PollAdcs,
}

/// The context that every transition reads and may change.
pub struct Data {
    /// The address that discovery found.
    pub resolved: Option<u32>,
    /// Where identity and telemetry are sent.
    pub flight_computer: Option<SocketAddress>,
    /// The converter channels, in sweep order.
    pub adcs: Vec<ADC>,
    /// The channel that is selected on the bus.
    pub curr_measurement: Option<Measurement>,
    /// The number of sweeps made.
    pub curr_iteration: u64,
    /// The batch of the last sweep.
    pub data_points: Vec<DataPoint>,
    /// The board's identity.
    pub board_id: Option<String>,
}

/// A transition: the state to go to, and what to do on the way.
pub struct Step {
    pub state: State,
    pub actions: Vec<Action>,
}

/// The context as mathematical values.
pub struct DataView {
    pub resolved: Option<u32>,
    pub flight_computer: Option<SocketAddress>,
    pub adcs: Seq<ADC>,
    pub curr_measurement: Option<Measurement>,
    pub curr_iteration: u64,
    pub data_points: Seq<DataPoint>,
    pub board_id: Option<Seq<char>>,
}

/// The characters of an optional string.
pub open spec fn spec_text(text: Option<String>) -> Option<Seq<char>> {
    match text {
        Some(s) => Some(s@),
        None => None,
    }
}

impl View for Data {
    type V = DataView;

    open spec fn view(&self) -> DataView {
        DataView {
            resolved: self.resolved,
            flight_computer: self.flight_computer,
            adcs: self.adcs@,
            curr_measurement: self.curr_measurement,
            curr_iteration: self.curr_iteration,
            data_points: self.data_points@,
            board_id: spec_text(self.board_id),
        }
    }
}

/// The settings that the converters need: 8-bit words, most significant
/// bit first, 10 MHz, clock mode 1.
pub open spec fn spec_spi_config() -> SpiConfig {
    SpiConfig { bits_per_word: 8, max_speed_hz: 10_000_000, lsb_first: false, mode: 1 }
}

/// The bus settings that the converters need.
pub fn spi_config() -> (config: SpiConfig)
    ensures
        config == spec_spi_config(),
{
    SpiConfig { bits_per_word: 8, max_speed_hz: 10_000_000, lsb_first: false, mode: 1 }
}

/// The board's channels in sweep order.
pub open spec fn spec_board_adcs() -> Seq<ADC> {
    seq![
        ADC { measurement: Measurement::DiffSensors },
        ADC { measurement: Measurement::CurrentLoopPt },
        ADC { measurement: Measurement::VPower },
        ADC { measurement: Measurement::IPower },
        ADC { measurement: Measurement::VValve },
        ADC { measurement: Measurement::IValve },
        ADC { measurement: Measurement::Rtd },
        ADC { measurement: Measurement::Tc1 },
        ADC { measurement: Measurement::Tc2 },
    ]
}

/// The board's nine channels in sweep order.
pub fn board_adcs() -> (adcs: Vec<ADC>)
    ensures
        adcs@ == spec_board_adcs(),
{
    let mut adcs: Vec<ADC> = Vec::new();
    adcs.push(ADC::new(Measurement::DiffSensors));
    adcs.push(ADC::new(Measurement::CurrentLoopPt));
    adcs.push(ADC::new(Measurement::VPower));
    adcs.push(ADC::new(Measurement::IPower));
    adcs.push(ADC::new(Measurement::VValve));
    adcs.push(ADC::new(Measurement::IValve));
    adcs.push(ADC::new(Measurement::Rtd));
    adcs.push(ADC::new(Measurement::Tc1));
    adcs.push(ADC::new(Measurement::Tc2));
    assert(adcs@ =~= spec_board_adcs());
    adcs
}

/// What one channel is told once it is selected. When it is initialized
/// it is reset, configured and started, and its first multiplexer step is
/// programmed. When it is polled the result of the step programmed before
/// is read, and the step of `iteration` is programmed.
pub open spec fn spec_conversation(m: Measurement, iteration: u64, init: bool) -> Seq<Action> {
    if init {
        seq![Action::Spi(SpiCommand::Reset)] + spec_init_regs(m) + seq![
            Action::Spi(SpiCommand::StartConversion),
            Action::Sleep(START_SETTLE_MICROS),
        ] + spec_write_iteration(m, iteration)
    } else {
        spec_get_adc_reading() + spec_write_iteration(m, iteration)
    }
}

/// What one channel is asked on a sweep: it is selected, after `prev` is
/// released, and then told what `spec_conversation` says.
pub open spec fn spec_channel(
    m: Measurement,
    prev: Option<Measurement>,
    iteration: u64,
    init: bool,
) -> Seq<Action> {
    spec_init_gpio(m, prev) + spec_conversation(m, iteration, init)
}

/// The channel that is selected after a sweep over `adcs`, where `prev` was
/// selected before it.
pub open spec fn spec_selected(adcs: Seq<ADC>, prev: Option<Measurement>) -> Option<Measurement> {
    if adcs.len() == 0 {
        prev
    } else {
        Some(adcs.last().measurement)
    }
}

/// What a sweep over `adcs` asks: each channel in turn, each after
/// releasing the one before it.
pub open spec fn spec_sweep(
    adcs: Seq<ADC>,
    prev: Option<Measurement>,
    iteration: u64,
    init: bool,
) -> Seq<Action>
    decreases adcs.len(),
{
    if adcs.len() == 0 {
        Seq::empty()
    } else {
        spec_sweep(adcs.drop_last(), prev, iteration, init) + spec_channel(
            adcs.last().measurement,
            spec_selected(adcs.drop_last(), prev),
            iteration,
            init,
        )
    }
}

/// The batch of the sweep at `iteration`: channel `k` with sample `k`, as
/// far as both go. Each sample is the result of the multiplexer step that
/// was programmed one iteration earlier.
pub open spec fn spec_sweep_points(adcs: Seq<ADC>, samples: Seq<Sample>, iteration: u64) -> Seq<
    DataPoint,
> {
    Seq::new(
        if adcs.len() <= samples.len() {
            adcs.len()
        } else {
            samples.len()
        },
        |k: int|
            spec_data_point(
                adcs[k].measurement.spec_convert(samples[k].raw),
                samples[k].timestamp,
                iteration - 1,
                adcs[k].measurement,
            ),
    )
}

/// The samples that an event carries.
pub open spec fn spec_samples(event: Event) -> Seq<Sample> {
    match event {
        Event::Samples(samples) => samples@,
        _ => Seq::empty(),
    }
}

/// The actions of one sweep over `adcs`.
pub fn sweep(adcs: &Vec<ADC>, prev: Option<Measurement>, iteration: u64, init: bool) -> (ops: Vec<
    Action,
>)
    ensures
        ops@ == spec_sweep(adcs@, prev, iteration, init),
{
    let mut ops: Vec<Action> = Vec::new();
    let mut selected: Option<Measurement> = prev;
    let mut k: usize = 0;
    while k < adcs.len()
        invariant
            k <= adcs.len(),
            selected == spec_selected(adcs@.take(k as int), prev),
            ops@ == spec_sweep(adcs@.take(k as int), prev, iteration, init),
        decreases adcs.len() - k,
    {
        let adc: ADC = adcs[k];
        let ghost before = ops@;
        extend(&mut ops, &adc.init_gpio(selected));
        if init {
            extend(&mut ops, &adc.reset_status());
            extend(&mut ops, &adc.init_regs());
            extend(&mut ops, &adc.start_conversion());
        } else {
            extend(&mut ops, &adc.get_adc_reading());
        }
        extend(&mut ops, &adc.write_iteration(iteration));
        proof {
            let done = adcs@.take(k as int + 1);
            assert(done.drop_last() =~= adcs@.take(k as int));
            assert(done.last() == adc);
            assert(ops@ =~= before + spec_channel(adc.measurement, selected, iteration, init));
        }
        selected = Some(adc.measurement);
        k = k + 1;
    }
    assert(adcs@.take(adcs.len() as int) =~= adcs@);
    ops
}

/// The batch of the sweep at `iteration`.
pub fn sweep_points(adcs: &Vec<ADC>, samples: &Vec<Sample>, iteration: u64) -> (points: Vec<
    DataPoint,
>)
    requires
        iteration >= 1,
    ensures
        points@ == spec_sweep_points(adcs@, samples@, iteration),
{
    let count: usize = if adcs.len() <= samples.len() {
        adcs.len()
    } else {
        samples.len()
    };
    let mut points: Vec<DataPoint> = Vec::new();
    let mut k: usize = 0;
    while k < count
        invariant
            k <= count,
            count <= adcs.len(),
            count <= samples.len(),
            iteration >= 1,
            points@ == spec_sweep_points(adcs@, samples@, iteration).take(k as int),
            spec_sweep_points(adcs@, samples@, iteration).len() == count,
        decreases count - k,
    {
        let m: Measurement = adcs[k].measurement;
        let sample: Sample = samples[k];
        points.push(generate_data_point(m.convert(sample.raw), sample.timestamp, iteration - 1, m));
        k = k + 1;
        assert(points@ =~= spec_sweep_points(adcs@, samples@, iteration).take(k as int));
    }
    assert(points@ =~= spec_sweep_points(adcs@, samples@, iteration));
    points
}

/// The channel that is selected after a sweep over `adcs`.
pub fn selected_after(adcs: &Vec<ADC>, prev: Option<Measurement>) -> (selected: Option<Measurement>)
    ensures
        selected == spec_selected(adcs@, prev),
{
    if adcs.len() == 0 {
        prev
    } else {
        Some(adcs[adcs.len() - 1].measurement)
    }
}

/// Asks the operating system for the host name, through `hostname::get`,
/// and turns it into text, replacing what is not Unicode. `None` when the
/// operating system reports an error. Nothing is claimed of the name.
#[verifier::external_body]
fn get_board_id() -> (id: Option<String>) {
    match hostname::get() {
        Ok(name) => Some(name.to_string_lossy().to_string()),
        Err(_) => None,
    }
}

impl Data {
    /// The context at cold start.
    pub fn new() -> (data: Data)
        ensures
            data@ == (DataView {
                resolved: None,
                flight_computer: None,
                adcs: Seq::empty(),
                curr_measurement: None,
                curr_iteration: 0,
                data_points: Seq::empty(),
                board_id: None,
            }),
            State::Init.accepts(data@),
    {
        let data = Data {
            resolved: None,
            flight_computer: None,
            adcs: Vec::new(),
            curr_measurement: None,
            curr_iteration: 0,
            data_points: Vec::new(),
            board_id: None,
        };
        assert(data@.adcs =~= Seq::empty());
        assert(data@.data_points =~= Seq::empty());
        data
    }
}

impl State {
    /// What the lifecycle guarantees of the context in each state: the
    /// channels have been initialized before they are polled, and the
    /// iteration counter can still advance.
    pub open spec fn accepts(self, data: DataView) -> bool {
        &&& data.curr_iteration < u64::MAX
        &&& (self == State::Identity || self == State::PollAdcs ==> data.curr_iteration >= 1)
    }

    /// The state that follows `self` on `event`.
    pub open spec fn spec_next(self, event: Event) -> State {
        match self {
            State::Init => State::DeviceDiscovery,
            State::DeviceDiscovery => match event {
                Event::Resolved(Some(_)) => State::ConnectToRemote,
                _ => State::DeviceDiscovery,
            },
            State::ConnectToRemote => State::InitAdcs,
            State::InitAdcs => State::Identity,
            State::Identity => match event {
                Event::Received(Received::Message(Datagram::Identity)) => State::PollAdcs,
                _ => State::Identity,
            },
            State::PollAdcs => State::PollAdcs,
        }
    }

    /// What `self` asks of the outside world before its transition.
    pub open spec fn spec_requests(self, data: DataView) -> Seq<Action> {
        match self {
            State::Init => seq![Action::ConfigureSpi(spec_spi_config())] + Seq::new(
                9,
                |i: int| Action::SetMode(spec_measurements()[i].spec_cs_pin(), PinMode::Output),
            ) + spec_drive_pins(spec_bus_pins(), PinValue::High),
            State::DeviceDiscovery => seq![Action::Resolve],
            State::ConnectToRemote => Seq::empty(),
            State::InitAdcs => spec_sweep(
                data.adcs,
                data.curr_measurement,
                data.curr_iteration,
                true,
            ),
            State::Identity => if data.board_id is Some && data.flight_computer is Some {
                seq![Action::SendIdentity, Action::Receive]
            } else {
                seq![Action::Receive]
            },
            State::PollAdcs => spec_sweep(
                data.adcs,
                data.curr_measurement,
                data.curr_iteration,
                false,
            ),
        }
    }

    /// The context after the transition of `self` on `event`. `board_id` is
    /// the host name, which only `Init` reads.
    pub open spec fn spec_data(
        self,
        data: DataView,
        event: Event,
        board_id: Option<Seq<char>>,
    ) -> DataView {
        match self {
            State::Init => DataView { adcs: spec_board_adcs(), board_id, ..data },
            State::DeviceDiscovery => match event {
                Event::Resolved(Some(ip)) => DataView { resolved: Some(ip), ..data },
                _ => data,
            },
            State::ConnectToRemote => match data.resolved {
                Some(ip) => DataView {
                    flight_computer: Some(SocketAddress { ip, port: FC_PORT }),
                    ..data
                },
                None => data,
            },
            State::InitAdcs => DataView {
                curr_measurement: spec_selected(data.adcs, data.curr_measurement),
                curr_iteration: (data.curr_iteration + 1) as u64,
                ..data
            },
            State::Identity => data,
            State::PollAdcs => DataView {
                curr_measurement: spec_selected(data.adcs, data.curr_measurement),
                curr_iteration: (data.curr_iteration + 1) as u64,
                data_points: spec_sweep_points(
                    data.adcs,
                    spec_samples(event),
                    data.curr_iteration,
                ),
                ..data
            },
        }
    }

    /// What the transition of `self` on `event` asks for: the watchdog once
    /// the identity is echoed, the batch after each sweep when there is an
    /// identity to send it under and an address to send it to.
    pub open spec fn spec_actions(self, data: DataView, event: Event) -> Seq<Action> {
        match self {
            State::Identity => if self.spec_next(event) == State::PollAdcs {
                seq![Action::SpawnWatchdog]
            } else {
                Seq::empty()
            },
            State::PollAdcs => if data.board_id is Some && data.flight_computer is Some {
                seq![Action::SendBatch]
            } else {
                Seq::empty()
            },
            _ => Seq::empty(),
        }
    }

    /// What to perform in this state before reporting to `next`.
    pub fn requests(&self, data: &Data) -> (ops: Vec<Action>)
        ensures
            ops@ == self.spec_requests(data@),
    {
        let mut ops: Vec<Action> = Vec::new();
        match self {
            State::Init => {
                ops.push(Action::ConfigureSpi(spi_config()));
                let mapping: (Vec<(Measurement, Pin)>, Vec<Action>) = gpio_controller_mappings();
                extend(&mut ops, &mapping.1);
                extend(&mut ops, &pull_gpios_high());
                ops
            },
            State::DeviceDiscovery => {
                ops.push(Action::Resolve);
                ops
            },
            State::ConnectToRemote => ops,
            State::InitAdcs => sweep(&data.adcs, data.curr_measurement, data.curr_iteration, true),
            State::Identity => {
                if data.board_id.is_some() && data.flight_computer.is_some() {
                    ops.push(Action::SendIdentity);
                }
                ops.push(Action::Receive);
                assert(ops@ =~= self.spec_requests(data@));
                ops
            },
            State::PollAdcs => sweep(
                &data.adcs,
                data.curr_measurement,
                data.curr_iteration,
                false,
            ),
        }
    }

    /// The transition of `self` on `event`, where `board_id` is the host
    /// name, which only `Init` reads.
    pub fn transition(self, data: &mut Data, event: Event, board_id: Option<String>) -> (step: Step)
        requires
            self.accepts(old(data)@),
        ensures
            step.state == self.spec_next(event),
            step.actions@ == self.spec_actions(old(data)@, event),
            final(data)@ == self.spec_data(old(data)@, event, spec_text(board_id)),
            final(data)@.curr_iteration < u64::MAX ==> step.state.accepts(final(data)@),
    {
        let mut actions: Vec<Action> = Vec::new();
        let state: State = match self {
            State::Init => {
                data.adcs = board_adcs();
                data.board_id = board_id;
                State::DeviceDiscovery
            },
            State::DeviceDiscovery => {
                match event {
                    Event::Resolved(Some(ip)) => {
                        data.resolved = Some(ip);
                        State::ConnectToRemote
                    },
                    _ => State::DeviceDiscovery,
                }
            },
            State::ConnectToRemote => {
                if let Some(ip) = data.resolved {
                    data.flight_computer = Some(SocketAddress { ip, port: FC_PORT });
                }
                State::InitAdcs
            },
            State::InitAdcs => {
                data.curr_measurement = selected_after(&data.adcs, data.curr_measurement);
                data.curr_iteration = data.curr_iteration + 1;
                State::Identity
            },
            State::Identity => {
                match event {
                    Event::Received(Received::Message(Datagram::Identity)) => {
                        actions.push(Action::SpawnWatchdog);
                        State::PollAdcs
                    },
                    _ => State::Identity,
                }
            },
            State::PollAdcs => {
                let points: Vec<DataPoint> = match event {
                    Event::Samples(samples) => sweep_points(
                        &data.adcs,
                        &samples,
                        data.curr_iteration,
                    ),
                    _ => {
                        let none: Vec<Sample> = Vec::new();
                        sweep_points(&data.adcs, &none, data.curr_iteration)
                    },
                };
                data.data_points = points;
                if data.board_id.is_some() && data.flight_computer.is_some() {
                    actions.push(Action::SendBatch);
                }
                data.curr_measurement = selected_after(&data.adcs, data.curr_measurement);
                data.curr_iteration = data.curr_iteration + 1;
                State::PollAdcs
            },
        };
        assert(data@ =~= self.spec_data(old(data)@, event, spec_text(board_id)));
        assert(actions@ =~= self.spec_actions(old(data)@, event));
        Step { state, actions }
    }

    /// The transition of `self` on `event`. In `Init` the board's identity
    /// becomes the host name that the operating system reports, or `None`
    /// when it reports an error.
    pub fn next(self, data: &mut Data, event: Event) -> (step: Step)
        requires
            self.accepts(old(data)@),
        ensures
            step.state == self.spec_next(event),
            step.actions@ == self.spec_actions(old(data)@, event),
            final(data)@ == self.spec_data(old(data)@, event, final(data)@.board_id),
            final(data)@.curr_iteration < u64::MAX ==> step.state.accepts(final(data)@),
    {
        let board_id: Option<String> = match self {
            State::Init => get_board_id(),
            _ => None,
        };
        self.transition(data, event, board_id)
    }
}

/// The state after one transition for each of `events`, in order.
pub open spec fn spec_run(state: State, events: Seq<Event>) -> State
    decreases events.len(),
{
    if events.len() == 0 {
        state
    } else {
        spec_run(state, events.drop_last()).spec_next(events.last())
    }
}

/// The event reports no address.
pub open spec fn spec_unresolved(event: Event) -> bool {
    !(event matches Event::Resolved(Some(_)))
}

/// Discovery retries without bound and without a trace. However many
/// transitions report no address, the state is still `DeviceDiscovery` and
/// the context is as it was; the first transition that reports an address
/// then leads to `ConnectToRemote` and records that address.
pub proof fn lemma_discovery_retries(
    data: DataView,
    events: Seq<Event>,
    ip: u32,
    id: Option<Seq<char>>,
)
    requires
        forall|i: int| 0 <= i < events.len() ==> spec_unresolved(#[trigger] events[i]),
    ensures
        spec_run(State::DeviceDiscovery, events) == State::DeviceDiscovery,
        forall|i: int|
            0 <= i < events.len() ==> State::DeviceDiscovery.spec_data(
                data,
                #[trigger] events[i],
                id,
            ) == data,
        spec_run(State::DeviceDiscovery, events.push(Event::Resolved(Some(ip))))
            == State::ConnectToRemote,
        State::DeviceDiscovery.spec_data(data, Event::Resolved(Some(ip)), id).resolved == Some(ip),
    decreases events.len(),
{
    if events.len() > 0 {
        let front = events.drop_last();
        assert forall|i: int| 0 <= i < front.len() implies spec_unresolved(#[trigger] front[i]) by {
            assert(front[i] == events[i]);
        }
        lemma_discovery_retries(data, front, ip, id);
        assert(spec_unresolved(events.last()));
    }
    let all = events.push(Event::Resolved(Some(ip)));
    assert(all.drop_last() =~= events);
    assert(all.last() == Event::Resolved(Some(ip)));
}

/// The multiplexer program and the channel number keep in step, one
/// iteration apart. In the sweep at `iteration`, channel `k` is asked to
/// program step `iteration % cycle_length`, and its sample is numbered by
/// the step that was programmed one iteration earlier,
/// `(iteration - 1) % cycle_length`, counted from 1.
pub proof fn lemma_one_step_lag(
    adcs: Seq<ADC>,
    samples: Seq<Sample>,
    prev: Option<Measurement>,
    iteration: u64,
    k: int,
)
    requires
        iteration >= 1,
        0 <= k < adcs.len(),
        k < samples.len(),
    ensures
        ({
            let m = adcs[k].measurement;
            let cycle = m.spec_cycle_length();
            &&& 0 <= (iteration as int) % cycle < cycle
            &&& spec_channel(m, prev, iteration, false) == spec_init_gpio(m, prev)
                + spec_get_adc_reading() + spec_writes(
                m.spec_mux_program((iteration as int) % cycle),
            )
            &&& spec_sweep_points(adcs, samples, iteration)[k].channel == (iteration - 1) % cycle
                + 1
            &&& spec_sweep_points(adcs, samples, iteration)[k].channel == m.spec_step(
                iteration - 1,
            ) + 1
        }),
{
}

/// Once a channel is selected, nothing that it is told drives a pin.
pub proof fn lemma_conversation_quiet(m: Measurement, iteration: u64, init: bool)
    ensures
        spec_quiet(spec_conversation(m, iteration, init)),
        spec_conversation(m, iteration, init).len() > 0,
{
}

/// The bus is idle after what `Init` asks for: no channel is selected,
/// whatever was selected before.
pub proof fn lemma_init_idles_bus(lows: Set<Pin>, data: DataView)
    ensures
        none_selected(spec_drive_all(lows, State::Init.spec_requests(data))),
{
    let setup = seq![Action::ConfigureSpi(spec_spi_config())] + Seq::new(
        9,
        |i: int| Action::SetMode(spec_measurements()[i].spec_cs_pin(), PinMode::Output),
    );
    let idle = spec_drive_pins(spec_bus_pins(), PinValue::High);
    assert(State::Init.spec_requests(data) == setup + idle);
    lemma_quiet(lows, setup);
    lemma_drive_concat(lows, setup, idle);
    lemma_idle_bus(lows);
}

/// Chip-select exclusivity on a sweep. Let only `prev`, if any channel, be
/// selected when a sweep over `adcs` begins. Then after each single action
/// of the sweep at most one channel is selected, and after the whole sweep
/// only its last channel is.
pub proof fn lemma_sweep_exclusive(
    lows: Set<Pin>,
    adcs: Seq<ADC>,
    prev: Option<Measurement>,
    iteration: u64,
    init: bool,
    k: int,
)
    requires
        only_selected(lows, prev),
        0 <= k <= spec_sweep(adcs, prev, iteration, init).len(),
    ensures
        at_most_one_selected(
            spec_drive_all(lows, spec_sweep(adcs, prev, iteration, init).take(k)),
        ),
        k == spec_sweep(adcs, prev, iteration, init).len() ==> only_selected(
            spec_drive_all(lows, spec_sweep(adcs, prev, iteration, init)),
            spec_selected(adcs, prev),
        ),
    decreases adcs.len(),
{
    let all = spec_sweep(adcs, prev, iteration, init);
    if adcs.len() == 0 {
        assert(all.take(k) =~= all);
    } else {
        let front = adcs.drop_last();
        let done = spec_sweep(front, prev, iteration, init);
        let m = adcs.last().measurement;
        let p = spec_selected(front, prev);
        let select = spec_init_gpio(m, p);
        let talk = spec_conversation(m, iteration, init);
        assert(all == done + (select + talk));
        lemma_conversation_quiet(m, iteration, init);
        if k <= done.len() {
            lemma_sweep_exclusive(lows, front, prev, iteration, init, k);
            assert(all.take(k) =~= done.take(k));
        } else {
            lemma_sweep_exclusive(lows, front, prev, iteration, init, done.len() as int);
            assert(done.take(done.len() as int) =~= done);
            let between = spec_drive_all(lows, done);
            let j = k - done.len();
            assert(all.take(k) =~= done + (select + talk).take(j));
            lemma_drive_concat(lows, done, (select + talk).take(j));
            assert(spec_activations(Some(m), seq![m].drop_first()) =~= Seq::<Action>::empty());
            assert(spec_activations(p, seq![m]) =~= select);
            if j <= select.len() {
                lemma_chip_select_exclusive(between, p, seq![m], j);
                assert((select + talk).take(j) =~= select.take(j));
            } else {
                lemma_chip_select_exclusive(between, p, seq![m], select.len() as int);
                assert(select.take(select.len() as int) =~= select);
                let selected = spec_drive_all(between, select);
                let told = talk.take(j - select.len());
                assert((select + talk).take(j) =~= select + told);
                lemma_drive_concat(between, select, told);
                assert forall|i: int| 0 <= i < told.len() implies !((#[trigger] told[i]) is Write) by {
                    assert(told[i] == talk[i]);
                }
                lemma_quiet(selected, told);
                assert(only_selected(selected, Some(m)));
                if k == all.len() {
                    assert(all.take(k) =~= all);
                }
            }
        }
    }
}

/// Polling is the steady state, and the watchdog is started on the way
/// into it and nowhere else. Whatever is reported, polling goes on; and a
/// transition that asks for the watchdog is the one from `Identity` to
/// `PollAdcs`.
pub proof fn lemma_polling_is_terminal(events: Seq<Event>, state: State, data: DataView, event: Event)
    ensures
        spec_run(State::PollAdcs, events) == State::PollAdcs,
        state.spec_actions(data, event).contains(Action::SpawnWatchdog) <==> state
            == State::Identity && state.spec_next(event) == State::PollAdcs,
    decreases events.len(),
{
    if events.len() > 0 {
        lemma_polling_is_terminal(events.drop_last(), state, data, event);
    }
    let actions = state.spec_actions(data, event);
    if state == State::Identity && state.spec_next(event) == State::PollAdcs {
        assert(actions[0] == Action::SpawnWatchdog);
    }
}

/// Chip-select exclusivity through the lifecycle. Let only the channel that
/// the context holds as selected, if any, be selected when a state is
/// entered. Then, in every state but `Init`, at most one channel is
/// selected after each single action that the state asks for; and in every
/// state, once all of them are performed, only the channel that the
/// context holds as selected after the transition is selected. `Init`
/// needs no assumption: it idles the bus whatever was selected before.
pub proof fn lemma_lifecycle_exclusive(
    lows: Set<Pin>,
    state: State,
    data: DataView,
    event: Event,
    id: Option<Seq<char>>,
    k: int,
)
    requires
        state == State::Init || only_selected(lows, data.curr_measurement),
        0 <= k <= state.spec_requests(data).len(),
    ensures
        state != State::Init ==> at_most_one_selected(
            spec_drive_all(lows, state.spec_requests(data).take(k)),
        ),
        only_selected(
            spec_drive_all(lows, state.spec_requests(data)),
            state.spec_data(data, event, id).curr_measurement,
        ),
        spec_quiet(state.spec_actions(data, event)),
{
    let asked = state.spec_requests(data);
    match state {
        State::Init => {
            lemma_init_idles_bus(lows, data);
        },
        State::InitAdcs => {
            lemma_sweep_exclusive(lows, data.adcs, data.curr_measurement, data.curr_iteration, true, k);
            lemma_sweep_exclusive(
                lows,
                data.adcs,
                data.curr_measurement,
                data.curr_iteration,
                true,
                asked.len() as int,
            );
        },
        State::PollAdcs => {
            lemma_sweep_exclusive(
                lows,
                data.adcs,
                data.curr_measurement,
                data.curr_iteration,
                false,
                k,
            );
            lemma_sweep_exclusive(
                lows,
                data.adcs,
                data.curr_measurement,
                data.curr_iteration,
                false,
                asked.len() as int,
            );
        },
        _ => {
            let part = asked.take(k);
            assert forall|i: int| 0 <= i < part.len() implies !((#[trigger] part[i]) is Write) by {
                assert(part[i] == asked[i]);
            }
            lemma_quiet(lows, part);
            lemma_quiet(lows, asked);
        },
    }
}

} // verus!
