use rpi_cc1101_driver::action::{Action, Event, PinMode};
use rpi_cc1101_driver::async_read::{asynchronous_serial_read, AsyncReader};
use rpi_cc1101_driver::error::{DriverError, InvalidArgument};
use rpi_cc1101_driver::level::{Level, TriggerDirection};
use rpi_cc1101_driver::protocol::{replay, Protocol, Step};
use rpi_cc1101_driver::time::Timestamp;

fn at(nanos: u128) -> Event {
    Event::Time(Timestamp { nanos })
}

fn actions_of(mut reader: AsyncReader, events: &[Event]) -> Vec<Action> {
    let mut actions = Vec::new();
    for event in events {
        actions.push(reader.action());
        match reader.step(event) {
            Step::Continue(next) => reader = next,
            Step::Finished(_) => return actions,
        }
    }
    actions
}

#[test]
fn async_read_without_threshold_edge_is_empty() {
    for timeout_ms in [0u64, 1, 250, u64::MAX] {
        let reader = asynchronous_serial_read(24, 25, timeout_ms);
        let events = vec![Event::Done, Event::Done, Event::NoEdge];
        assert_eq!(replay(reader, &events), Step::Finished(Ok(None)));
    }
}

#[test]
fn async_read_without_data_edge_is_empty() {
    let reader = asynchronous_serial_read(24, 25, 250);
    let events = vec![
        Event::Done,
        Event::Done,
        Event::Edge(Level::High),
        at(1_000),
        Event::Level(Level::High),
        Event::NoEdge,
    ];
    assert_eq!(replay(reader, &events), Step::Finished(Ok(None)));
}

#[test]
fn async_read_drops_a_capture_that_breaks_off() {
    let reader = asynchronous_serial_read(24, 25, 250);
    let events = vec![
        Event::Done,
        Event::Done,
        Event::Edge(Level::High),
        at(1_000),
        Event::Level(Level::High),
        Event::Edge(Level::Low),
        at(1_100),
        Event::Level(Level::High),
        Event::Edge(Level::High),
        at(1_250),
        Event::Level(Level::High),
        Event::NoEdge,
    ];
    assert_eq!(replay(reader, &events), Step::Finished(Ok(None)));
}

#[test]
fn async_read_records_edges_until_the_carrier_drops() {
    let reader = asynchronous_serial_read(24, 25, 250);
    let events = vec![
        Event::Done,
        Event::Done,
        Event::Edge(Level::High),
        at(1_000),
        Event::Level(Level::High),
        Event::Edge(Level::Low),
        at(1_100),
        Event::Level(Level::High),
        Event::Edge(Level::High),
        at(1_250),
        Event::Level(Level::High),
        Event::Edge(Level::Low),
        at(1_250),
        Event::Level(Level::Low),
        at(1_900),
    ];
    let Step::Finished(Ok(Some(capture))) = replay(reader, &events) else {
        panic!("the capture did not succeed");
    };
    assert_eq!(capture.get_start_capture(), Timestamp { nanos: 1_000 });
    assert_eq!(capture.get_end_capture(), Timestamp { nanos: 1_900 });
    assert_eq!(
        capture.get_transitions(),
        vec![
            (Timestamp { nanos: 1_100 }, Level::Low),
            (Timestamp { nanos: 1_250 }, Level::High),
            (Timestamp { nanos: 1_250 }, Level::Low),
        ]
    );
}

#[test]
fn async_read_capture_is_ordered_within_its_bounds() {
    let reader = asynchronous_serial_read(24, 25, 250);
    let mut events = vec![Event::Done, Event::Done, Event::Edge(Level::High), at(50)];
    for k in 0..20u128 {
        events.push(Event::Level(Level::High));
        events.push(Event::Edge(if k % 2 == 0 { Level::Low } else { Level::High }));
        events.push(at(50 + 7 * k));
    }
    events.push(Event::Level(Level::Low));
    events.push(at(50 + 7 * 19));
    let Step::Finished(Ok(Some(capture))) = replay(reader, &events) else {
        panic!("the capture did not succeed");
    };
    let start = capture.get_start_capture();
    let end = capture.get_end_capture();
    let transitions = capture.get_transitions();
    assert_eq!(transitions.len(), 20);
    assert!(start.nanos <= end.nanos);
    for pair in transitions.windows(2) {
        assert!(pair[0].0.nanos <= pair[1].0.nanos);
    }
    for (time, _) in &transitions {
        assert!(start.nanos <= time.nanos && time.nanos <= end.nanos);
    }
}

#[test]
fn async_read_of_a_carrier_that_drops_at_once_holds_no_edge() {
    let reader = asynchronous_serial_read(24, 25, 250);
    let events = vec![
        Event::Done,
        Event::Done,
        Event::Edge(Level::High),
        at(7),
        Event::Level(Level::Low),
        at(9),
    ];
    let Step::Finished(Ok(Some(capture))) = replay(reader, &events) else {
        panic!("the capture did not succeed");
    };
    assert_eq!(capture.get_start_capture(), Timestamp { nanos: 7 });
    assert_eq!(capture.get_end_capture(), Timestamp { nanos: 9 });
    assert_eq!(capture.get_transitions(), Vec::new());
}

#[test]
fn async_read_asks_for_its_actions_in_order() {
    let reader = asynchronous_serial_read(24, 25, 300);
    let events = vec![
        Event::Done,
        Event::Done,
        Event::Edge(Level::High),
        at(1),
        Event::Level(Level::High),
        Event::Edge(Level::Low),
        at(2),
        Event::Level(Level::Low),
        at(3),
    ];
    assert_eq!(
        actions_of(reader, &events),
        vec![
            Action::Acquire { pin: 24, mode: PinMode::Input },
            Action::Acquire { pin: 25, mode: PinMode::Input },
            Action::WaitForEdge {
                pin: 24,
                direction: TriggerDirection::RisingEdge,
                timeout_ms: 300
            },
            Action::ReadClock,
            Action::ReadLevel { pin: 24 },
            Action::WaitForEdge { pin: 25, direction: TriggerDirection::BothEdges, timeout_ms: 300 },
            Action::ReadClock,
            Action::ReadLevel { pin: 24 },
            Action::ReadClock,
        ]
    );
}

#[test]
fn async_read_hardware_failure_is_an_error() {
    let reader = asynchronous_serial_read(24, 25, 250);
    let events = vec![
        Event::Done,
        Event::Done,
        Event::Edge(Level::High),
        at(1_000),
        Event::Level(Level::High),
        Event::Failed(String::from("interrupt lost")),
    ];
    assert_eq!(
        replay(reader, &events),
        Step::Finished(Err(DriverError::Hardware(String::from("interrupt lost"))))
    );
    let reader = asynchronous_serial_read(24, 25, 250);
    let events = vec![Event::Failed(String::from("no gpio"))];
    assert_eq!(
        replay(reader, &events),
        Step::Finished(Err(DriverError::Hardware(String::from("no gpio"))))
    );
}

#[test]
fn async_read_rejects_an_answer_to_another_action() {
    let reader = asynchronous_serial_read(24, 25, 250);
    let events = vec![Event::Done, Event::Done, at(5)];
    assert_eq!(
        replay(reader, &events),
        Step::Finished(Err(DriverError::InvalidArgument(InvalidArgument::UnexpectedEvent)))
    );
}

#[test]
fn async_read_keeps_clock_readings_as_they_come() {
    let reader = asynchronous_serial_read(24, 25, 250);
    let events = vec![
        Event::Done,
        Event::Done,
        Event::Edge(Level::High),
        at(500),
        Event::Level(Level::High),
        Event::Edge(Level::Low),
        at(400),
        Event::Level(Level::Low),
        at(450),
    ];
    let Step::Finished(Ok(Some(capture))) = replay(reader, &events) else {
        panic!("the capture did not succeed");
    };
    assert_eq!(capture.get_start_capture(), Timestamp { nanos: 500 });
    assert_eq!(capture.get_end_capture(), Timestamp { nanos: 450 });
    assert_eq!(capture.get_transitions(), vec![(Timestamp { nanos: 400 }, Level::Low)]);
}
