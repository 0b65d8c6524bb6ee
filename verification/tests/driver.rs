use tx_tracker::driver::{Action, Driver, DriverState, Event, Resolution, StopReason};
use tx_tracker::error::TrackerError;
use tx_tracker::primitives::{Address, Hash256, U256};
use tx_tracker::record::TransactionRecord;
use tx_tracker::report::sort_by_value;

fn target() -> Address {
    Address { bytes: [0xc0; 20] }
}

fn id(n: u8) -> Hash256 {
    Hash256 { bytes: [n; 32] }
}

fn record(n: u8, to: Option<Address>, value: u64) -> TransactionRecord {
    TransactionRecord {
        hash: id(n),
        from: Address { bytes: [2; 20] },
        to,
        value: U256::from_u64(value),
        gas_price: None,
        gas: U256::from_u64(21000),
        nonce: U256::zero(),
        input: Vec::new(),
        block_number: None,
        transaction_index: None,
        block_hash: None,
        chain_id: None,
    }
}

/// Feeds identifiers to the driver as a source would, answering each lookup
/// with `resolve`, until the driver stops or the identifiers run out.
fn drive(driver: &mut Driver, ids: &[u8], resolve: &dyn Fn(u8) -> Resolution) -> Vec<Action> {
    let mut actions = Vec::new();
    for &n in ids {
        let asked = driver.step(Event::Identifier(id(n)));
        if asked != Action::Resolve(id(n)) {
            actions.push(asked);
            return actions;
        }
        let action = driver.step(Event::Resolved(resolve(n)));
        let stop = matches!(action, Action::Stop(_));
        actions.push(action);
        if stop {
            return actions;
        }
    }
    actions.push(driver.step(Event::SourceEnded));
    actions
}

#[test]
fn starts_running_and_empty() {
    let driver = Driver::new(target(), 5);
    assert_eq!(driver.state(), DriverState::Running);
    assert_eq!(driver.target(), target());
    assert_eq!(driver.collected(), 0);
}

#[test]
fn asks_for_each_identifier_to_be_resolved() {
    let mut driver = Driver::new(target(), 5);
    assert_eq!(driver.step(Event::Identifier(id(7))), Action::Resolve(id(7)));
    assert_eq!(driver.state(), DriverState::Running);
}

#[test]
fn seven_identifiers_three_matches() {
    let resolve = |n: u8| match n {
        2 => Resolution::Found(record(2, Some(target()), 30)),
        4 => Resolution::Found(record(4, Some(target()), 10)),
        5 => Resolution::Found(record(5, Some(target()), 20)),
        1 => Resolution::Absent,
        3 => Resolution::Found(record(3, Some(Address { bytes: [9; 20] }), 1)),
        6 => Resolution::Found(record(6, None, 1)),
        _ => Resolution::Failed("timeout".to_string()),
    };
    let mut driver = Driver::new(target(), 3);
    let actions = drive(&mut driver, &[1, 2, 3, 4, 5, 6, 7], &resolve);
    assert_eq!(
        actions,
        vec![
            Action::Continue,
            Action::Continue,
            Action::Continue,
            Action::Continue,
            Action::Stop(StopReason::Full),
        ]
    );
    assert_eq!(driver.state(), DriverState::Stopped(StopReason::Full));
    let sample = driver.finish().expect("the driver has stopped");
    assert_eq!(
        sample,
        vec![
            record(2, Some(target()), 30),
            record(4, Some(target()), 10),
            record(5, Some(target()), 20),
        ]
    );
    let order: Vec<u8> = sort_by_value(sample).iter().map(|tx| tx.hash.bytes[0]).collect();
    assert_eq!(order, vec![4, 5, 2]);
}

#[test]
fn failed_lookup_is_diagnosed_and_skipped() {
    let resolve = |n: u8| match n {
        2 => Resolution::Failed("connection reset".to_string()),
        _ => Resolution::Found(record(n, Some(target()), n as u64)),
    };
    let mut driver = Driver::new(target(), 3);
    let actions = drive(&mut driver, &[1, 2, 3, 4], &resolve);
    assert_eq!(
        actions,
        vec![
            Action::Continue,
            Action::Diagnose(TrackerError::Resolution("connection reset".to_string())),
            Action::Continue,
            Action::Stop(StopReason::Full),
        ]
    );
    let sample = driver.finish().expect("the driver has stopped");
    assert_eq!(
        sample,
        vec![
            record(1, Some(target()), 1),
            record(3, Some(target()), 3),
            record(4, Some(target()), 4),
        ]
    );
}

#[test]
fn failed_lookup_leaves_the_state_alone() {
    let mut driver = Driver::new(target(), 2);
    driver.step(Event::Resolved(Resolution::Found(record(1, Some(target()), 1))));
    let action = driver.step(Event::Resolved(Resolution::Failed("boom".to_string())));
    assert_eq!(action, Action::Diagnose(TrackerError::Resolution("boom".to_string())));
    assert_eq!(driver.state(), DriverState::Running);
    assert_eq!(driver.collected(), 1);
}

#[test]
fn source_end_stops_with_the_partial_sample() {
    let resolve = |n: u8| Resolution::Found(record(n, Some(target()), n as u64));
    let mut driver = Driver::new(target(), 5);
    let actions = drive(&mut driver, &[1, 2], &resolve);
    assert_eq!(
        actions,
        vec![Action::Continue, Action::Continue, Action::Stop(StopReason::SourceEnded)]
    );
    assert_eq!(driver.state(), DriverState::Stopped(StopReason::SourceEnded));
    assert_eq!(
        driver.finish().expect("the driver has stopped"),
        vec![record(1, Some(target()), 1), record(2, Some(target()), 2)]
    );
}

#[test]
fn stopped_driver_issues_no_lookups() {
    let mut driver = Driver::new(target(), 1);
    assert_eq!(
        driver.step(Event::Resolved(Resolution::Found(record(1, Some(target()), 1)))),
        Action::Stop(StopReason::Full)
    );
    assert_eq!(driver.step(Event::Identifier(id(2))), Action::Stop(StopReason::Full));
    assert_eq!(
        driver.step(Event::Resolved(Resolution::Found(record(2, Some(target()), 2)))),
        Action::Stop(StopReason::Full)
    );
    assert_eq!(driver.step(Event::SourceEnded), Action::Stop(StopReason::Full));
    assert_eq!(driver.state(), DriverState::Stopped(StopReason::Full));
    assert_eq!(driver.collected(), 1);
}

#[test]
fn unconnected_driver_is_fatal_and_empty() {
    let mut driver = Driver::unconnected(target(), 5);
    assert_eq!(driver.state(), DriverState::Stopped(StopReason::Fatal));
    assert_eq!(driver.step(Event::Identifier(id(1))), Action::Stop(StopReason::Fatal));
    assert_eq!(
        driver.step(Event::Resolved(Resolution::Found(record(1, Some(target()), 1)))),
        Action::Stop(StopReason::Fatal)
    );
    assert_eq!(driver.finish().expect("the driver has stopped"), Vec::new());
}

#[test]
fn running_driver_keeps_its_sample() {
    let mut driver = Driver::new(target(), 3);
    driver.step(Event::Resolved(Resolution::Found(record(1, Some(target()), 1))));
    let driver = driver.finish().expect_err("the driver is still running");
    assert_eq!(driver.state(), DriverState::Running);
    assert_eq!(driver.collected(), 1);
}

#[test]
fn zero_capacity_stops_on_the_first_match_and_keeps_nothing() {
    let mut driver = Driver::new(target(), 0);
    assert_eq!(driver.step(Event::Resolved(Resolution::Absent)), Action::Continue);
    assert_eq!(
        driver.step(Event::Resolved(Resolution::Found(record(1, Some(target()), 1)))),
        Action::Stop(StopReason::Full)
    );
    assert_eq!(driver.collected(), 0);
}
