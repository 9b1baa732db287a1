use oxidesip::media::reorder::{ReorderBuffer, REORDER_WINDOW};

#[test]
fn in_order_passes_through_immediately() {
    let mut rb = ReorderBuffer::new();
    assert_eq!(rb.push(0, vec![1]), vec![1]);
    assert_eq!(rb.push(1, vec![2]), vec![2]);
}

#[test]
fn single_swap_is_reordered() {
    let mut rb = ReorderBuffer::new();
    assert_eq!(rb.push(0, vec![1]), vec![1]);
    assert!(rb.push(2, vec![3]).is_empty());
    assert_eq!(rb.push(1, vec![2]), vec![2, 3]);
}

#[test]
fn duplicate_is_dropped() {
    let mut rb = ReorderBuffer::new();
    assert_eq!(rb.push(0, vec![1]), vec![1]);
    assert!(rb.push(0, vec![1]).is_empty());
}

#[test]
fn sustained_loss_forces_window_forward() {
    let mut rb = ReorderBuffer::new();
    assert_eq!(rb.push(0, vec![1]), vec![1]); // expected -> 1
    // 1 is missing; push enough successors to fill the window exactly...
    let last_tolerated = 1 + REORDER_WINDOW as u16;
    for seq in 2..=last_tolerated {
        assert!(rb.push(seq, vec![seq as i16]).is_empty());
    }
    // ...one more goes beyond the window: everything that waited is released.
    let overflow_seq = last_tolerated + 1;
    let released = rb.push(overflow_seq, vec![overflow_seq as i16]);
    let expected: Vec<i16> = (2..=overflow_seq).map(|s| s as i16).collect();
    assert_eq!(released, expected);
}

#[test]
fn sequence_number_wraps_around() {
    let mut rb = ReorderBuffer::new();
    assert_eq!(rb.push(65535, vec![1]), vec![1]);
    assert_eq!(rb.push(0, vec![2]), vec![2]);
}

#[test]
fn late_packet_is_dropped() {
    let mut rb = ReorderBuffer::new();
    assert_eq!(rb.push(10, vec![1]), vec![1]);
    assert!(rb.push(9, vec![2]).is_empty());
    assert_eq!(rb.push(11, vec![3]), vec![3]);
}

#[test]
fn runs_come_out_in_order_and_lose_nothing_new() {
    let mut rb = ReorderBuffer::new();
    let mut out = Vec::new();
    for seq in [65_534u16, 0, 65_535, 3, 2, 9, 1, 0, 8, 7, 6, 5, 11] {
        out.extend(rb.push(seq, vec![seq as i16]));
    }
    assert_eq!(out, vec![-2, -1, 0, 1, 2, 3, 5, 6, 7, 8, 9]);
    assert_eq!(rb.pending.len(), 1);
    assert_eq!(rb.push(10, vec![10]), vec![10, 11]);
}
