use rpi_cc1101_driver::action::{Action, Event, PinMode};
use rpi_cc1101_driver::error::{DriverError, InvalidArgument};
use rpi_cc1101_driver::level::{Level, TriggerDirection};
use rpi_cc1101_driver::protocol::{replay, Protocol, Step};
use rpi_cc1101_driver::sync_write::{
    synchronous_serial_write, SyncWriter, CLOCK_TIMEOUT_MS, SETTLE_NANOS,
};

/// Runs a transmit against a clock that keeps running for `edges` edges.
fn transmit(mut writer: SyncWriter, edges: usize) -> (Vec<Action>, Result<(), DriverError>) {
    let mut actions = Vec::new();
    let mut seen = 0usize;
    loop {
        let action = writer.action();
        actions.push(action);
        let event = match action {
            Action::WaitForEdge { direction, .. } => {
                if seen == edges {
                    Event::NoEdge
                } else {
                    seen += 1;
                    match direction {
                        TriggerDirection::FallingEdge => Event::Edge(Level::Low),
                        _ => Event::Edge(Level::High),
                    }
                }
            }
            _ => Event::Done,
        };
        match writer.step(&event) {
            Step::Continue(next) => writer = next,
            Step::Finished(result) => return (actions, result),
        }
    }
}

fn levels_of(actions: &[Action]) -> Vec<Level> {
    actions
        .iter()
        .filter_map(|action| match action {
            Action::SetLevel { level, .. } => Some(*level),
            _ => None,
        })
        .collect()
}

#[test]
fn settle_delay_and_clock_timeout() {
    assert_eq!(SETTLE_NANOS, 10_000_000);
    assert_eq!(CLOCK_TIMEOUT_MS, 1_000);
}

#[test]
fn sync_write_drives_the_most_significant_bit_after_the_first_falling_edge() {
    let writer = synchronous_serial_write(17, 27, vec![0xA5]);
    let events = vec![Event::Done, Event::Done, Event::Done, Event::Done];
    let Step::Continue(writer) = replay(writer, &events) else {
        panic!("the transmit ended before the first bit");
    };
    assert_eq!(
        writer.action(),
        Action::WaitForEdge {
            pin: 17,
            direction: TriggerDirection::FallingEdge,
            timeout_ms: 1_000
        }
    );
    let Step::Continue(writer) = writer.step(&Event::Edge(Level::Low)) else {
        panic!("the transmit ended on the first falling edge");
    };
    assert_eq!(writer.action(), Action::SetLevel { pin: 27, level: Level::High });
}

#[test]
fn sync_write_sends_each_byte_most_significant_bit_first() {
    let writer = synchronous_serial_write(17, 27, vec![0xA5]);
    let (actions, result) = transmit(writer, 16);
    assert_eq!(result, Ok(()));
    let (l, h) = (Level::Low, Level::High);
    // The first level is the idle state, the eight that follow are 10100101.
    assert_eq!(levels_of(&actions), vec![l, h, l, h, l, l, h, l, h]);
}

#[test]
fn sync_write_idles_low_and_settles_before_the_clock() {
    let writer = synchronous_serial_write(17, 27, vec![0x80]);
    let (actions, result) = transmit(writer, 16);
    assert_eq!(result, Ok(()));
    let falling = Action::WaitForEdge {
        pin: 17,
        direction: TriggerDirection::FallingEdge,
        timeout_ms: 1_000,
    };
    let rising =
        Action::WaitForEdge { pin: 17, direction: TriggerDirection::RisingEdge, timeout_ms: 1_000 };
    let low = Action::SetLevel { pin: 27, level: Level::Low };
    let high = Action::SetLevel { pin: 27, level: Level::High };
    let mut expected = vec![
        Action::Acquire { pin: 27, mode: PinMode::Output },
        low,
        Action::Sleep { nanos: 10_000_000 },
        Action::Acquire { pin: 17, mode: PinMode::Input },
        falling,
        high,
        rising,
    ];
    for _ in 0..7 {
        expected.push(falling);
        expected.push(low);
        expected.push(rising);
    }
    assert_eq!(actions, expected);
}

#[test]
fn sync_write_sends_the_bytes_in_order() {
    let writer = synchronous_serial_write(17, 27, vec![0x0F, 0x01]);
    let (actions, result) = transmit(writer, 32);
    assert_eq!(result, Ok(()));
    let (l, h) = (Level::Low, Level::High);
    assert_eq!(levels_of(&actions), vec![l, l, l, l, l, h, h, h, h, l, l, l, l, l, l, l, h]);
    assert_eq!(actions.len(), 4 + 3 * 16);
}

#[test]
fn sync_write_of_nothing_idles_the_line_and_ends() {
    let writer = synchronous_serial_write(17, 27, Vec::new());
    let (actions, result) = transmit(writer, 0);
    assert_eq!(result, Ok(()));
    assert_eq!(
        actions,
        vec![
            Action::Acquire { pin: 27, mode: PinMode::Output },
            Action::SetLevel { pin: 27, level: Level::Low },
            Action::Sleep { nanos: 10_000_000 },
            Action::Acquire { pin: 17, mode: PinMode::Input },
        ]
    );
}

#[test]
fn sync_write_without_falling_edge_times_out() {
    let writer = synchronous_serial_write(17, 27, vec![0xA5]);
    let (actions, result) = transmit(writer, 0);
    assert_eq!(
        result,
        Err(DriverError::Timeout { pin: 17, direction: TriggerDirection::FallingEdge })
    );
    assert_eq!(levels_of(&actions), vec![Level::Low]);
    let writer = synchronous_serial_write(17, 27, vec![0xA5]);
    let (actions, result) = transmit(writer, 6);
    assert_eq!(
        result,
        Err(DriverError::Timeout { pin: 17, direction: TriggerDirection::FallingEdge })
    );
    assert_eq!(levels_of(&actions).len(), 1 + 3);
}

#[test]
fn sync_write_without_rising_edge_times_out() {
    let writer = synchronous_serial_write(17, 27, vec![0xA5]);
    let (actions, result) = transmit(writer, 1);
    assert_eq!(
        result,
        Err(DriverError::Timeout { pin: 17, direction: TriggerDirection::RisingEdge })
    );
    assert_eq!(levels_of(&actions), vec![Level::Low, Level::High]);
}

#[test]
fn sync_write_hardware_failure_is_an_error() {
    let writer = synchronous_serial_write(17, 27, vec![0xA5]);
    let events = vec![
        Event::Done,
        Event::Done,
        Event::Done,
        Event::Done,
        Event::Failed(String::from("interrupt failed")),
    ];
    assert_eq!(
        replay(writer, &events),
        Step::Finished(Err(DriverError::Hardware(String::from("interrupt failed"))))
    );
}

#[test]
fn sync_write_rejects_an_answer_to_another_action() {
    let writer = synchronous_serial_write(17, 27, vec![0xA5]);
    let events = vec![Event::Done, Event::Done, Event::Done, Event::Done, Event::Done];
    assert_eq!(
        replay(writer, &events),
        Step::Finished(Err(DriverError::InvalidArgument(InvalidArgument::UnexpectedEvent)))
    );
}
