use sam::adc::{gpio_controller_mappings, pull_gpios_high, Measurement, ADC};
use sam::data::{ChannelType, DataPoint};
use sam::gpio::{Action, Pin, PinValue, SpiCommand, SpiConfig};
use sam::state::{
    board_adcs, spi_config, sweep, sweep_points, Data, Datagram, Event, Received, Sample,
    SocketAddress, State, FC_PORT,
};

const ORDER: [Measurement; 9] = [
    Measurement::DiffSensors,
    Measurement::CurrentLoopPt,
    Measurement::VPower,
    Measurement::IPower,
    Measurement::VValve,
    Measurement::IValve,
    Measurement::Rtd,
    Measurement::Tc1,
    Measurement::Tc2,
];

fn discovered() -> (State, Data) {
    let mut data = Data::new();
    let step = State::Init.next(&mut data, Event::Done);
    assert_eq!(step.state, State::DeviceDiscovery);
    let step = step.state.next(&mut data, Event::Resolved(Some(0xC0A8_0105)));
    assert_eq!(step.state, State::ConnectToRemote);
    (step.state, data)
}

fn polling(board_id: Option<String>) -> (State, Data) {
    let mut data = Data::new();
    let mut state = State::Init.transition(&mut data, Event::Done, board_id).state;
    state = state.next(&mut data, Event::Resolved(Some(0x0A00_0001))).state;
    state = state.next(&mut data, Event::Done).state;
    state = state.next(&mut data, Event::Done).state;
    assert_eq!(state, State::Identity);
    state = state.next(&mut data, Event::Received(Received::Message(Datagram::Identity))).state;
    assert_eq!(state, State::PollAdcs);
    (state, data)
}

fn samples(raw: i16, base: u64, count: usize) -> Vec<Sample> {
    (0..count).map(|k| Sample { raw, timestamp: base + k as u64 }).collect()
}

#[test]
fn cold_start_context() {
    let data = Data::new();
    assert_eq!(data.resolved, None);
    assert_eq!(data.flight_computer, None);
    assert!(data.adcs.is_empty());
    assert_eq!(data.curr_measurement, None);
    assert_eq!(data.curr_iteration, 0);
    assert!(data.data_points.is_empty());
    assert_eq!(data.board_id, None);
}

#[test]
fn bus_settings() {
    assert_eq!(
        spi_config(),
        SpiConfig { bits_per_word: 8, max_speed_hz: 10_000_000, lsb_first: false, mode: 1 }
    );
    assert!(spi_config().max_speed_hz >= 1_000_000);
    assert_eq!(FC_PORT, 4573);
}

#[test]
fn init_creates_the_nine_channels() {
    let mut data = Data::new();
    let requests = State::Init.requests(&data);
    let mut expected = vec![Action::ConfigureSpi(spi_config())];
    expected.extend(gpio_controller_mappings().1);
    expected.extend(pull_gpios_high());
    assert_eq!(requests, expected);
    assert_eq!(requests.len(), 36);

    let step = State::Init.next(&mut data, Event::Done);
    assert_eq!(step.state, State::DeviceDiscovery);
    assert!(step.actions.is_empty());
    assert_eq!(data.adcs.len(), 9);
    for k in 0..9 {
        assert_eq!(data.adcs[k], ADC::new(ORDER[k]));
    }
    assert_eq!(data.adcs, board_adcs());
    assert_eq!(data.curr_iteration, 0);
    assert_eq!(data.curr_measurement, None);
}

#[test]
fn init_records_the_given_identity() {
    let mut data = Data::new();
    let step = State::Init.transition(&mut data, Event::Done, Some(String::from("sam-01")));
    assert_eq!(step.state, State::DeviceDiscovery);
    assert_eq!(data.board_id, Some(String::from("sam-01")));
    let mut data = Data::new();
    State::Init.transition(&mut data, Event::Done, None);
    assert_eq!(data.board_id, None);
}

#[test]
fn the_identity_is_only_read_in_init() {
    let (state, mut data) = polling(Some(String::from("sam-01")));
    state.transition(&mut data, Event::Done, Some(String::from("other")));
    assert_eq!(data.board_id, Some(String::from("sam-01")));
}

#[test]
fn discovery_retries_until_an_address_is_found() {
    let mut data = Data::new();
    let mut state = State::Init.next(&mut data, Event::Done).state;
    assert_eq!(state.requests(&data), vec![Action::Resolve]);
    for k in 0..1000 {
        let event = match k % 4 {
            0 => Event::Resolved(None),
            1 => Event::Done,
            2 => Event::Received(Received::Message(Datagram::Identity)),
            _ => Event::Samples(Vec::new()),
        };
        let step = state.next(&mut data, event);
        assert_eq!(step.state, State::DeviceDiscovery);
        assert!(step.actions.is_empty());
        assert_eq!(data.resolved, None);
        assert_eq!(data.flight_computer, None);
        assert_eq!(data.curr_iteration, 0);
        state = step.state;
    }
    let step = state.next(&mut data, Event::Resolved(Some(0xC0A8_0105)));
    assert_eq!(step.state, State::ConnectToRemote);
    assert!(step.actions.is_empty());
    assert_eq!(data.resolved, Some(0xC0A8_0105));
    assert_eq!(data.flight_computer, None);
}

#[test]
fn connect_records_the_socket_address() {
    let (state, mut data) = discovered();
    assert!(state.requests(&data).is_empty());
    let step = state.next(&mut data, Event::Done);
    assert_eq!(step.state, State::InitAdcs);
    assert!(step.actions.is_empty());
    assert_eq!(data.flight_computer, Some(SocketAddress { ip: 0xC0A8_0105, port: 4573 }));
}

#[test]
fn init_adcs_programs_the_first_step_of_each_channel() {
    let (state, mut data) = discovered();
    let state = state.next(&mut data, Event::Done).state;
    assert_eq!(state, State::InitAdcs);
    let requests = state.requests(&data);
    let mut expected = Vec::new();
    let mut prev = None;
    for m in ORDER {
        let adc = ADC::new(m);
        expected.extend(adc.init_gpio(prev));
        expected.extend(adc.reset_status());
        expected.extend(adc.init_regs());
        expected.extend(adc.start_conversion());
        expected.extend(adc.write_iteration(0));
        prev = Some(m);
    }
    assert_eq!(requests, expected);
    assert_eq!(requests[0], Action::Write(Measurement::DiffSensors.cs_pin(), PinValue::Low));
    assert_eq!(requests[1], Action::Spi(SpiCommand::Reset));

    let step = state.next(&mut data, Event::Done);
    assert_eq!(step.state, State::Identity);
    assert!(step.actions.is_empty());
    assert_eq!(data.curr_iteration, 1);
    assert_eq!(data.curr_measurement, Some(Measurement::Tc2));
}

#[test]
fn identity_waits_for_the_echo() {
    let mut data = Data::new();
    let mut state = State::Init.transition(&mut data, Event::Done, Some(String::from("sam-01"))).state;
    state = state.next(&mut data, Event::Resolved(Some(1))).state;
    state = state.next(&mut data, Event::Done).state;
    state = state.next(&mut data, Event::Done).state;
    assert_eq!(state, State::Identity);
    assert_eq!(state.requests(&data), vec![Action::SendIdentity, Action::Receive]);
    for _ in 0..50 {
        for received in [
            Received::Nothing,
            Received::Malformed,
            Received::Message(Datagram::FlightHeartbeat),
            Received::Message(Datagram::Other),
        ] {
            let step = state.next(&mut data, Event::Received(received));
            assert_eq!(step.state, State::Identity);
            assert!(step.actions.is_empty());
        }
        let step = state.next(&mut data, Event::Done);
        assert_eq!(step.state, State::Identity);
        assert!(step.actions.is_empty());
    }
    assert_eq!(data.curr_iteration, 1);
    let step = state.next(&mut data, Event::Received(Received::Message(Datagram::Identity)));
    assert_eq!(step.state, State::PollAdcs);
    assert_eq!(step.actions, vec![Action::SpawnWatchdog]);
    assert_eq!(data.curr_iteration, 1);
    assert_eq!(data.board_id, Some(String::from("sam-01")));
}

#[test]
fn identity_without_a_board_id_only_listens() {
    let mut data = Data::new();
    let mut state = State::Init.transition(&mut data, Event::Done, None).state;
    state = state.next(&mut data, Event::Resolved(Some(1))).state;
    state = state.next(&mut data, Event::Done).state;
    state = state.next(&mut data, Event::Done).state;
    assert_eq!(state, State::Identity);
    assert_eq!(state.requests(&data), vec![Action::Receive]);
}

#[test]
fn poll_reads_then_programs_the_next_step() {
    let (state, data) = polling(Some(String::from("sam-01")));
    assert_eq!(data.curr_iteration, 1);
    let requests = state.requests(&data);
    let mut expected = Vec::new();
    let mut prev = Some(Measurement::Tc2);
    for m in ORDER {
        let adc = ADC::new(m);
        expected.extend(adc.init_gpio(prev));
        expected.extend(adc.get_adc_reading());
        expected.extend(adc.write_iteration(1));
        prev = Some(m);
    }
    assert_eq!(requests, expected);
    let reads = requests.iter().filter(|op| **op == Action::Spi(SpiCommand::ReadData)).count();
    assert_eq!(reads, 9);
}

#[test]
fn poll_numbers_each_sample_by_the_step_before() {
    let (mut state, mut data) = polling(Some(String::from("sam-01")));
    for i in 1..=31u64 {
        assert_eq!(data.curr_iteration, i);
        let requests = state.requests(&data);
        for m in ORDER {
            let programmed = ADC::new(m).write_iteration(i);
            assert_eq!(programmed, ADC::new(m).write_iteration(i % m.cycle_length()));
            assert!(requests.windows(programmed.len()).any(|w| w == programmed.as_slice()));
        }
        let step = state.next(&mut data, Event::Samples(samples(16384, 1_000 * i, 9)));
        assert_eq!(step.state, State::PollAdcs);
        assert_eq!(step.actions, vec![Action::SendBatch]);
        assert_eq!(data.data_points.len(), 9);
        for k in 0..9 {
            let m = ORDER[k];
            let point = data.data_points[k];
            assert_eq!(point.channel as u64, (i - 1) % m.cycle_length() + 1);
            assert_eq!(point.channel as u64, m.step(i - 1) + 1);
            assert_eq!(point.timestamp, 1_000 * i + k as u64);
            assert_eq!(point.value, m.convert(16384));
        }
        assert_eq!(data.curr_measurement, Some(Measurement::Tc2));
        state = step.state;
    }
    assert_eq!(data.curr_iteration, 32);
}

#[test]
fn first_batch_in_full() {
    let (state, mut data) = polling(Some(String::from("sam-01")));
    let step = state.next(&mut data, Event::Samples(samples(0, 50, 9)));
    assert_eq!(step.state, State::PollAdcs);
    let kinds = [
        ChannelType::DifferentialSignal,
        ChannelType::CurrentLoop,
        ChannelType::RailVoltage,
        ChannelType::RailCurrent,
        ChannelType::ValveVoltage,
        ChannelType::ValveCurrent,
        ChannelType::Rtd,
        ChannelType::Tc,
        ChannelType::Tc,
    ];
    for k in 0..9 {
        assert_eq!(
            data.data_points[k],
            DataPoint {
                value: ORDER[k].convert(0),
                timestamp: 50 + k as u64,
                channel: 1,
                channel_type: kinds[k],
            }
        );
    }
    assert_eq!(data.curr_iteration, 2);
}

#[test]
fn poll_pairs_channels_and_samples_as_far_as_both_go() {
    let (state, mut data) = polling(Some(String::from("sam-01")));
    let step = state.next(&mut data, Event::Samples(samples(5, 0, 4)));
    assert_eq!(step.state, State::PollAdcs);
    assert_eq!(data.data_points.len(), 4);
    assert_eq!(data.curr_iteration, 2);
    let step = step.state.next(&mut data, Event::Samples(samples(5, 0, 12)));
    assert_eq!(data.data_points.len(), 9);
    assert_eq!(data.curr_iteration, 3);
    let step = step.state.next(&mut data, Event::Done);
    assert_eq!(step.state, State::PollAdcs);
    assert!(data.data_points.is_empty());
    assert_eq!(data.curr_iteration, 4);
}

#[test]
fn poll_without_a_board_id_sends_nothing() {
    let (state, mut data) = polling(None);
    let step = state.next(&mut data, Event::Samples(samples(1, 0, 9)));
    assert_eq!(step.state, State::PollAdcs);
    assert!(step.actions.is_empty());
    assert_eq!(data.data_points.len(), 9);
}

#[test]
fn sweep_over_no_channels_asks_nothing() {
    assert!(sweep(&Vec::new(), Some(Measurement::Rtd), 3, false).is_empty());
    assert!(sweep(&Vec::new(), None, 0, true).is_empty());
    assert!(sweep_points(&Vec::new(), &samples(1, 0, 3), 1).is_empty());
}

#[test]
fn sweep_points_use_channel_formulas() {
    let adcs = vec![ADC::new(Measurement::CurrentLoopPt), ADC::new(Measurement::VPower)];
    let points = sweep_points(&adcs, &samples(16384, 9, 2), 4);
    assert_eq!(points.len(), 2);
    assert_eq!(points[0].value.numerator, 245760);
    assert_eq!(points[0].value.denominator, 13107200);
    assert_eq!(points[0].channel, 2);
    assert_eq!(points[1].value.numerator, 901120);
    assert_eq!(points[1].value.denominator, 65536);
    assert_eq!(points[1].channel, 4);
}

fn drive(low: &mut Vec<Pin>, ops: &[Action]) {
    for op in ops {
        match *op {
            Action::Write(pin, PinValue::Low) => {
                assert!(ORDER.iter().all(|m| !low.contains(&m.cs_pin())));
                if !low.contains(&pin) {
                    low.push(pin);
                }
            }
            Action::Write(pin, PinValue::High) => low.retain(|p| *p != pin),
            _ => {}
        }
        let selected = ORDER.iter().filter(|m| low.contains(&m.cs_pin())).count();
        assert!(selected <= 1);
    }
}

#[test]
fn init_idles_the_bus() {
    let mut low: Vec<Pin> = ORDER.iter().map(|m| m.cs_pin()).collect();
    for op in State::Init.requests(&Data::new()) {
        match op {
            Action::Write(pin, PinValue::Low) => low.push(pin),
            Action::Write(pin, PinValue::High) => low.retain(|p| *p != pin),
            _ => {}
        }
    }
    assert!(low.is_empty());
}

#[test]
fn one_channel_at_a_time_through_the_lifecycle() {
    let mut low: Vec<Pin> = Vec::new();
    let mut data = Data::new();
    let mut state = State::Init;
    for round in 0..40u64 {
        let requests = state.requests(&data);
        drive(&mut low, &requests);
        let event = match state {
            State::DeviceDiscovery if round < 3 => Event::Resolved(None),
            State::DeviceDiscovery => Event::Resolved(Some(7)),
            State::Identity if round < 9 => Event::Received(Received::Nothing),
            State::Identity => Event::Received(Received::Message(Datagram::Identity)),
            State::PollAdcs => Event::Samples(samples(1, round, 9)),
            _ => Event::Done,
        };
        let step = state.next(&mut data, event);
        drive(&mut low, &step.actions);
        if state == State::InitAdcs || state == State::PollAdcs {
            assert_eq!(low, vec![Measurement::Tc2.cs_pin()]);
        }
        state = step.state;
    }
    assert_eq!(state, State::PollAdcs);
    assert_eq!(data.curr_iteration, 31);
}

#[test]
fn the_watchdog_is_started_once() {
    let mut data = Data::new();
    let mut state = State::Init;
    let mut spawned = 0;
    for round in 0..60u64 {
        let event = match state {
            State::DeviceDiscovery => Event::Resolved(Some(7)),
            State::Identity => Event::Received(Received::Message(Datagram::Identity)),
            State::PollAdcs if round % 2 == 0 => {
                Event::Received(Received::Message(Datagram::Identity))
            }
            State::PollAdcs => Event::Samples(samples(1, round, 9)),
            _ => Event::Done,
        };
        let step = state.next(&mut data, event);
        spawned += step.actions.iter().filter(|op| **op == Action::SpawnWatchdog).count();
        state = step.state;
    }
    assert_eq!(state, State::PollAdcs);
    assert_eq!(spawned, 1);
}

#[test]
fn every_read_waits_for_the_conversion_to_settle() {
    let (state, data) = polling(None);
    let requests = state.requests(&data);
    for (k, op) in requests.iter().enumerate() {
        if *op == Action::Spi(SpiCommand::ReadData) {
            assert_eq!(requests[k - 1], Action::Sleep(700));
            assert!(matches!(requests[k - 2], Action::Write(_, PinValue::Low)));
        }
    }
}
