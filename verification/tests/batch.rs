use statsd_sink::batch::{Batch, BatchConfig};

#[test]
fn exact_byte_bound_does_not_flush() {
    let mut b = Batch::new(10, 100, 1000);
    assert_eq!(b.push(&vec![1u8; 5], 0), None);
    assert_eq!(b.push(&vec![2u8; 5], 0), None);
    assert_eq!(b.events, 2);
    assert_eq!(b.buf.len(), 10);
}

#[test]
fn next_event_after_exact_fill_flushes_first() {
    let mut b = Batch::new(10, 100, 1000);
    assert_eq!(b.push(&vec![1u8; 5], 0), None);
    assert_eq!(b.push(&vec![2u8; 5], 0), None);
    let mut expected = vec![1u8; 5];
    expected.extend_from_slice(&[2u8; 5]);
    assert_eq!(b.push(&vec![3u8; 1], 7), Some(expected));
    assert_eq!(b.buf, vec![3u8]);
    assert_eq!(b.events, 1);
}

#[test]
fn event_count_bound_flushes() {
    let mut b = Batch::new(1000, 2, 1000);
    assert_eq!(b.push(&vec![1u8], 0), None);
    assert_eq!(b.push(&vec![2u8], 0), None);
    assert_eq!(b.push(&vec![3u8], 0), Some(vec![1u8, 2u8]));
    assert_eq!(b.events, 1);
}

#[test]
fn oversized_event_goes_out_as_its_own_batch() {
    let mut b = Batch::new(10, 100, 1000);
    let big = vec![9u8; 25];
    assert_eq!(b.push(&big, 0), None);
    assert_eq!(b.push(&vec![1u8], 0), Some(big));
    assert_eq!(b.buf, vec![1u8]);
}

#[test]
fn time_bound_is_checked_against_the_open_instant() {
    let mut b = Batch::new(100, 100, 1000);
    assert!(!b.flush_due(5000));
    b.push(&vec![1u8], 4500);
    assert!(!b.flush_due(5499));
    assert!(b.flush_due(5500));
    assert_eq!(b.flush(), Some(vec![1u8]));
    assert_eq!(b.flush(), None);
    assert!(!b.flush_due(9999));
}

#[test]
fn unset_config_has_no_bounds() {
    let c = BatchConfig::unset();
    assert_eq!(c.max_bytes, None);
    assert_eq!(c.max_events, None);
    assert_eq!(c.timeout_secs, None);
}
