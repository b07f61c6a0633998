use rpi_cc1101_driver::action::{Action, Event, PinMode};
use rpi_cc1101_driver::error::{DriverError, InvalidArgument};
use rpi_cc1101_driver::interrupt::{wait_for_interrupt, InterruptWaiter, WaitPhase};
use rpi_cc1101_driver::level::{Level, TriggerDirection};
use rpi_cc1101_driver::protocol::{replay, Protocol, Step};

#[test]
fn wait_begins_with_the_pin() {
    let waiter = wait_for_interrupt(17, 250, 1).unwrap();
    assert_eq!(
        waiter,
        InterruptWaiter {
            pin: 17,
            timeout_ms: 250,
            direction: TriggerDirection::RisingEdge,
            phase: WaitPhase::Acquire,
        }
    );
    assert_eq!(waiter.action(), Action::Acquire { pin: 17, mode: PinMode::Input });
}

#[test]
fn wait_rejects_unknown_direction_before_any_action() {
    assert_eq!(
        wait_for_interrupt(17, 250, 4),
        Err(DriverError::InvalidArgument(InvalidArgument::TriggerDirection(4)))
    );
    assert_eq!(
        wait_for_interrupt(0, 0, 200),
        Err(DriverError::InvalidArgument(InvalidArgument::TriggerDirection(200)))
    );
}

#[test]
fn wait_asks_for_the_edge_with_direction_and_timeout() {
    let waiter = wait_for_interrupt(4, 1500, 2).unwrap();
    let Step::Continue(waiter) = waiter.step(&Event::Done) else {
        panic!("the wait ended on the acquisition");
    };
    assert_eq!(
        waiter.action(),
        Action::WaitForEdge { pin: 4, direction: TriggerDirection::FallingEdge, timeout_ms: 1500 }
    );
}

#[test]
fn wait_returns_the_level_after_the_edge() {
    let waiter = wait_for_interrupt(4, 100, 3).unwrap();
    let events = vec![Event::Done, Event::Edge(Level::Low)];
    assert_eq!(replay(waiter, &events), Step::Finished(Ok(Some(Level::Low))));
    let waiter = wait_for_interrupt(4, 100, 1).unwrap();
    let events = vec![Event::Done, Event::Edge(Level::High)];
    assert_eq!(replay(waiter, &events), Step::Finished(Ok(Some(Level::High))));
}

#[test]
fn wait_timeout_is_no_error() {
    let waiter = wait_for_interrupt(4, 100, 1).unwrap();
    let events = vec![Event::Done, Event::NoEdge];
    assert_eq!(replay(waiter, &events), Step::Finished(Ok(None)));
}

#[test]
fn disabled_wait_times_out_whatever_the_pin_does() {
    for answer in [Event::Edge(Level::High), Event::Edge(Level::Low), Event::NoEdge] {
        let waiter = wait_for_interrupt(22, 10, 0).unwrap();
        let events = vec![Event::Done, answer];
        assert_eq!(replay(waiter, &events), Step::Finished(Ok(None)));
    }
}

#[test]
fn disabled_wait_still_blocks_on_the_pin() {
    let waiter = InterruptWaiter::new(22, 10, TriggerDirection::Disabled);
    let Step::Continue(waiter) = waiter.step(&Event::Done) else {
        panic!("the wait ended on the acquisition");
    };
    assert_eq!(
        waiter.action(),
        Action::WaitForEdge { pin: 22, direction: TriggerDirection::Disabled, timeout_ms: 10 }
    );
}

#[test]
fn wait_hardware_failure_surfaces_with_its_diagnostic() {
    let waiter = wait_for_interrupt(4, 100, 1).unwrap();
    let events = vec![Event::Failed(String::from("pin 4 is in use"))];
    assert_eq!(
        replay(waiter, &events),
        Step::Finished(Err(DriverError::Hardware(String::from("pin 4 is in use"))))
    );
    let waiter = wait_for_interrupt(4, 100, 1).unwrap();
    let events = vec![Event::Done, Event::Failed(String::from("epoll failed"))];
    assert_eq!(
        replay(waiter, &events),
        Step::Finished(Err(DriverError::Hardware(String::from("epoll failed"))))
    );
}

#[test]
fn wait_rejects_an_answer_to_another_action() {
    let waiter = wait_for_interrupt(4, 100, 1).unwrap();
    assert_eq!(
        waiter.step(&Event::NoEdge),
        Step::Finished(Err(DriverError::InvalidArgument(InvalidArgument::UnexpectedEvent)))
    );
    let waiter = wait_for_interrupt(4, 100, 1).unwrap();
    let events = vec![Event::Done, Event::Level(Level::High)];
    assert_eq!(
        replay(waiter, &events),
        Step::Finished(Err(DriverError::InvalidArgument(InvalidArgument::UnexpectedEvent)))
    );
}

#[test]
fn replay_of_a_short_record_leaves_the_wait_open() {
    let waiter = wait_for_interrupt(4, 100, 1).unwrap();
    let events = vec![Event::Done];
    assert_eq!(
        replay(waiter, &events),
        Step::Continue(InterruptWaiter {
            pin: 4,
            timeout_ms: 100,
            direction: TriggerDirection::RisingEdge,
            phase: WaitPhase::Wait,
        })
    );
    let waiter = wait_for_interrupt(4, 100, 1).unwrap();
    assert_eq!(replay(waiter, &Vec::new()), Step::Continue(waiter));
}

#[test]
fn replay_ignores_what_follows_the_end() {
    let waiter = wait_for_interrupt(4, 100, 1).unwrap();
    let events = vec![
        Event::Done,
        Event::NoEdge,
        Event::Edge(Level::High),
        Event::Failed(String::from("late")),
    ];
    assert_eq!(replay(waiter, &events), Step::Finished(Ok(None)));
}
