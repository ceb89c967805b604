use game_of_life::clock::{ClockError, SimulationClock};

const MS: u64 = 1_000_000;

#[test]
fn zero_interval_is_refused() {
    assert_eq!(SimulationClock::new(0).err(), Some(ClockError::NonPositiveInterval));
}

#[test]
fn due_on_the_third_advance() {
    let mut c = SimulationClock::new(500 * MS).unwrap();
    c.advance(200 * MS);
    assert!(!c.consume_due_step());
    c.advance(200 * MS);
    assert!(!c.consume_due_step());
    c.advance(200 * MS);
    assert!(c.consume_due_step());
    assert_eq!(c.elapsed(), 100 * MS);
    assert!(!c.consume_due_step());
}

#[test]
fn one_interval_per_call() {
    let mut c = SimulationClock::new(10).unwrap();
    c.advance(35);
    assert!(c.consume_due_step());
    assert!(c.consume_due_step());
    assert!(c.consume_due_step());
    assert!(!c.consume_due_step());
    assert_eq!(c.elapsed(), 5);
}

#[test]
fn set_interval_keeps_elapsed() {
    let mut c = SimulationClock::new(500 * MS).unwrap();
    c.advance(300 * MS);
    assert_eq!(c.set_interval(100 * MS), Ok(()));
    assert_eq!(c.interval(), 100 * MS);
    assert_eq!(c.elapsed(), 300 * MS);
    assert!(c.consume_due_step());
    assert_eq!(c.elapsed(), 200 * MS);
}

#[test]
fn set_interval_refuses_zero() {
    let mut c = SimulationClock::new(7).unwrap();
    c.advance(3);
    assert_eq!(c.set_interval(0), Err(ClockError::NonPositiveInterval));
    assert_eq!(c.interval(), 7);
    assert_eq!(c.elapsed(), 3);
}
