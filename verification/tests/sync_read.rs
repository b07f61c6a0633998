use rpi_cc1101_driver::action::{Action, Event, PinMode};
use rpi_cc1101_driver::error::{DriverError, InvalidArgument};
use rpi_cc1101_driver::level::{Level, TriggerDirection};
use rpi_cc1101_driver::protocol::{replay, Protocol, Step};
use rpi_cc1101_driver::sync_read::{synchronous_serial_read, CapturedBits, SyncReader};
use rpi_cc1101_driver::time::Timestamp;

const CLOCK_PERIOD_NANOS: u128 = 2_000_000;

fn level_of(bit: u8) -> Level {
    if bit == 1 {
        Level::High
    } else {
        Level::Low
    }
}

/// Runs a capture against a clock that never stops and a data line that
/// shows `samples` at the successive rising edges, then stays as it is.
/// Returns the capture and the number of samples that were taken.
fn capture(max_same_bits: u8, samples: &[u8]) -> (Result<CapturedBits, DriverError>, usize) {
    let mut reader: SyncReader = synchronous_serial_read(17, 27, 100, max_same_bits);
    let mut taken = 0usize;
    let mut now = 0u128;
    loop {
        let event = match reader.action() {
            Action::Acquire { .. } => Event::Done,
            Action::WaitForEdge { pin: 27, .. } => Event::Edge(Level::High),
            Action::WaitForEdge { .. } => {
                if taken == samples.len() {
                    Event::NoEdge
                } else {
                    now += CLOCK_PERIOD_NANOS;
                    Event::Edge(Level::High)
                }
            }
            Action::ReadLevel { .. } => {
                taken += 1;
                Event::Level(level_of(samples[taken - 1]))
            }
            Action::ReadClock => Event::Time(Timestamp { nanos: now }),
            other => panic!("a capture does not ask for {:?}", other),
        };
        match reader.step(&event) {
            Step::Continue(next) => reader = next,
            Step::Finished(result) => return (result, taken),
        }
    }
}

fn bits_of(max_same_bits: u8, samples: &[u8]) -> (Vec<u8>, usize) {
    let (result, taken) = capture(max_same_bits, samples);
    (result.expect("the capture did not succeed").get_bits(), taken)
}

#[test]
fn sync_read_counts_the_start_condition_into_a_run_of_highs() {
    // Three highs, then three lows, closing run of three: the rising data
    // line that starts the capture is the first high of the run, so the
    // second high sample completes it.
    let (bits, taken) = bits_of(3, &[1, 1, 1, 0, 0, 0]);
    assert_eq!(bits, vec![1, 1]);
    assert_eq!(taken, 2);
}

#[test]
fn sync_read_stops_after_the_sixth_sample() {
    let (bits, taken) = bits_of(3, &[1, 0, 1, 0, 0, 0, 1, 1, 1]);
    assert_eq!(bits, vec![1, 0, 1, 0, 0, 0]);
    assert_eq!(taken, 6);
}

#[test]
fn sync_read_run_of_lows_needs_all_its_samples() {
    let (bits, taken) = bits_of(3, &[0, 0, 0, 0]);
    assert_eq!(bits, vec![0, 0, 0]);
    assert_eq!(taken, 3);
}

#[test]
fn sync_read_run_of_highs_after_a_low_needs_all_its_samples() {
    let (bits, taken) = bits_of(3, &[0, 1, 1, 1, 1]);
    assert_eq!(bits, vec![0, 1, 1, 1]);
    assert_eq!(taken, 4);
}

#[test]
fn sync_read_final_entries_are_equal_and_no_earlier_run_was_complete() {
    let samples = [0u8, 1, 0, 1, 1, 0, 1, 0, 0, 1, 1, 1, 0, 0, 0, 0, 1, 1, 1, 1, 1, 0];
    for n in 2u8..=5 {
        let (bits, taken) = bits_of(n, &samples);
        let len = bits.len();
        assert_eq!(len, taken);
        assert!(len >= n as usize);
        assert_eq!(bits[..], samples[..len]);
        let last = bits[len - 1];
        assert!(bits[len - n as usize..].iter().all(|b| *b == last));
        if len > n as usize {
            assert_ne!(bits[len - n as usize - 1], last);
        }
        // No shorter capture ended in a run of n.
        for k in 1..len {
            let tail = bits[..k].iter().rev().take_while(|b| **b == bits[k - 1]).count();
            let run = if tail == k && bits[0] == 1 { tail + 1 } else { tail };
            assert_ne!(run, n as usize);
        }
    }
}

#[test]
fn sync_read_with_a_run_of_one_closes_on_the_first_change() {
    let (bits, taken) = bits_of(1, &[1, 1, 1, 0, 1]);
    assert_eq!(bits, vec![1, 1, 1, 0]);
    assert_eq!(taken, 4);
    let (bits, taken) = bits_of(1, &[0, 0]);
    assert_eq!(bits, vec![0]);
    assert_eq!(taken, 1);
}

#[test]
fn sync_read_with_a_run_of_two_closes_on_the_first_high() {
    let (bits, taken) = bits_of(2, &[1, 0, 0]);
    assert_eq!(bits, vec![1]);
    assert_eq!(taken, 1);
}

#[test]
fn sync_read_with_a_run_of_zero_never_closes() {
    let (result, taken) = capture(0, &[1, 1, 0, 0, 0, 1]);
    assert_eq!(
        result,
        Err(DriverError::Timeout { pin: 17, direction: TriggerDirection::RisingEdge })
    );
    assert_eq!(taken, 6);
}

#[test]
fn sync_read_longest_run() {
    let mut samples = vec![0u8];
    samples.extend(std::iter::repeat(1u8).take(300));
    let (bits, taken) = bits_of(255, &samples);
    assert_eq!(taken, 256);
    assert_eq!(bits.len(), 256);
    assert_eq!(bits[0], 0);
    assert!(bits[1..].iter().all(|b| *b == 1));
}

#[test]
fn sync_read_stamps_start_and_end() {
    let (result, _) = capture(3, &[0, 1, 0, 0, 0]);
    let capture = result.expect("the capture did not succeed");
    assert_eq!(capture.get_start_capture(), Timestamp { nanos: 0 });
    assert_eq!(capture.get_end_capture(), Timestamp { nanos: 5 * CLOCK_PERIOD_NANOS });
    assert_eq!(capture.get_bits(), vec![0, 1, 0, 0, 0]);
}

#[test]
fn sync_read_without_start_condition_times_out() {
    let reader = synchronous_serial_read(17, 27, 100, 3);
    let events = vec![Event::Done, Event::Done, Event::NoEdge];
    assert_eq!(
        replay(reader, &events),
        Step::Finished(Err(DriverError::Timeout {
            pin: 27,
            direction: TriggerDirection::RisingEdge
        }))
    );
}

#[test]
fn sync_read_without_clock_edge_times_out() {
    let (result, taken) = capture(3, &[1]);
    assert_eq!(
        result,
        Err(DriverError::Timeout { pin: 17, direction: TriggerDirection::RisingEdge })
    );
    assert_eq!(taken, 1);
}

#[test]
fn sync_read_asks_for_its_actions_in_order() {
    let mut reader = synchronous_serial_read(17, 27, 40, 2);
    let events = vec![
        Event::Done,
        Event::Done,
        Event::Edge(Level::High),
        Event::Time(Timestamp { nanos: 10 }),
        Event::Edge(Level::High),
        Event::Level(Level::Low),
        Event::Edge(Level::High),
        Event::Level(Level::Low),
        Event::Time(Timestamp { nanos: 30 }),
    ];
    let mut actions = Vec::new();
    let mut outcome = None;
    for event in &events {
        actions.push(reader.action());
        match reader.step(event) {
            Step::Continue(next) => reader = next,
            Step::Finished(result) => {
                outcome = Some(result);
                break;
            }
        }
    }
    let clock_wait =
        Action::WaitForEdge { pin: 17, direction: TriggerDirection::RisingEdge, timeout_ms: 40 };
    assert_eq!(
        actions,
        vec![
            Action::Acquire { pin: 27, mode: PinMode::Input },
            Action::Acquire { pin: 17, mode: PinMode::Input },
            Action::WaitForEdge {
                pin: 27,
                direction: TriggerDirection::RisingEdge,
                timeout_ms: 40
            },
            Action::ReadClock,
            clock_wait,
            Action::ReadLevel { pin: 27 },
            clock_wait,
            Action::ReadLevel { pin: 27 },
            Action::ReadClock,
        ]
    );
    let capture = outcome.expect("the capture did not end").expect("the capture failed");
    assert_eq!(capture.get_bits(), vec![0, 0]);
    assert_eq!(capture.get_start_capture(), Timestamp { nanos: 10 });
    assert_eq!(capture.get_end_capture(), Timestamp { nanos: 30 });
}

#[test]
fn sync_read_hardware_failure_is_an_error() {
    let reader = synchronous_serial_read(17, 27, 100, 3);
    let events = vec![Event::Done, Event::Failed(String::from("pin 17 busy"))];
    assert_eq!(
        replay(reader, &events),
        Step::Finished(Err(DriverError::Hardware(String::from("pin 17 busy"))))
    );
}

#[test]
fn sync_read_rejects_an_answer_to_another_action() {
    let reader = synchronous_serial_read(17, 27, 100, 3);
    let events = vec![Event::Done, Event::Done, Event::Edge(Level::High), Event::Done];
    assert_eq!(
        replay(reader, &events),
        Step::Finished(Err(DriverError::InvalidArgument(InvalidArgument::UnexpectedEvent)))
    );
}
