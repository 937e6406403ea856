use ycsb_core::generator::acknowledge::AcknowledgedUsizeCounter;
use ycsb_core::generator::{AcknowledgedCounter, Counter, Generator};

#[test]
fn reverse_acknowledge_blocks_watermark_until_gap_closes() {
    let mut c = AcknowledgedUsizeCounter::new(1);
    for i in 1..=10usize {
        assert_eq!(c.next(), i);
    }
    // Acknowledge everything but the lowest number, in reverse order:
    // the watermark cannot pass the gap at 1.
    for v in (2..=10usize).rev() {
        assert!(c.acknowledge(v).is_ok());
        assert_eq!(c.last(), 0, "watermark moved past the gap at 1");
    }
    // Closing the gap releases the whole contiguous prefix at once.
    assert!(c.acknowledge(1).is_ok());
    assert_eq!(c.last(), 10);
}

#[test]
fn in_order_acknowledge_advances_watermark_each_step() {
    let mut c = AcknowledgedUsizeCounter::new(1);
    for i in 1..=10usize {
        assert_eq!(c.next(), i);
    }
    for v in 1..=10usize {
        assert!(c.acknowledge(v).is_ok());
        assert_eq!(c.last(), v);
    }
}

#[test]
fn double_acknowledge_of_pending_number_is_fatal() {
    let mut c = AcknowledgedUsizeCounter::new(1);
    for i in 1..=10usize {
        assert_eq!(c.next(), i);
    }
    // 5 stays pending (1 is not acknowledged), so a second
    // acknowledgment of it must raise the overflow condition.
    assert!(c.acknowledge(5).is_ok());
    assert!(c.acknowledge(5).is_err());
}

#[test]
fn watermark_is_monotone() {
    let mut c = AcknowledgedUsizeCounter::new(1);
    for i in 1..=20usize {
        assert_eq!(c.next(), i);
    }
    let mut prev = c.last();
    for v in [3usize, 1, 2, 7, 5, 4, 6, 10, 9, 8] {
        assert!(c.acknowledge(v).is_ok());
        let now = c.last();
        assert!(now >= prev, "watermark moved backwards");
        prev = now;
    }
    assert_eq!(c.last(), 10);
}

#[test]
fn fresh_counter_watermark_sits_below_start() {
    let c = AcknowledgedUsizeCounter::new(7);
    assert_eq!(c.last(), 6);
}

#[test]
fn more_than_a_window_in_flight_is_fatal() {
    let window = ycsb_core::generator::acknowledge::WINDOW_SIZE;
    let mut c = AcknowledgedUsizeCounter::new(1);
    for _ in 0..window + 2 {
        c.next();
    }
    // Nothing below has been acknowledged, so this number lies beyond
    // the window of the watermark.
    assert!(c.acknowledge(window + 2).is_err());
    // A number still inside the window is accepted.
    assert!(c.acknowledge(window).is_ok());
}
