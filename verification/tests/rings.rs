use kernel_core::xhci::ring::{EventRing, TransferRing, Trb};

#[test]
fn ring_wrap_toggles_cycle_at_the_link() {
    // Capacity 4: three usable slots plus the Link TRB.
    let mut ring = TransferRing::new(4, 0x1000);
    assert!(ring.cycle);
    assert_eq!(ring.trbs[3].parameter, 0x1000);
    assert_eq!(ring.trbs[3].control, 6 * 1024 + 1 + 2);

    // A, B, C land at slots 0..3 with cycle bit 1.
    ring.enqueue_work(0xA, 0, 23 * 1024 + 32);
    assert!(ring.cycle);
    ring.enqueue_work(0xB, 0, 23 * 1024 + 32);
    assert!(ring.cycle);
    ring.enqueue_work(0xC, 0, 23 * 1024 + 32);
    // Crossing the Link TRB flips the producer's cycle state.
    assert!(!ring.cycle);
    assert_eq!(ring.enqueue, 0);
    assert_eq!(ring.trbs[0].parameter, 0xA);
    assert_eq!(ring.trbs[1].parameter, 0xB);
    assert_eq!(ring.trbs[2].parameter, 0xC);
    assert_eq!(ring.trbs[0].control & 1, 1);
    assert_eq!(ring.trbs[1].control & 1, 1);
    assert_eq!(ring.trbs[2].control & 1, 1);

    // D and E wrap to slots 0 and 1 carrying cycle bit 0.
    ring.enqueue_work(0xD, 0, 23 * 1024 + 32);
    ring.enqueue_work(0xE, 0, 23 * 1024 + 32);
    assert!(!ring.cycle);
    assert_eq!(ring.enqueue, 2);
    assert_eq!(ring.trbs[0].parameter, 0xD);
    assert_eq!(ring.trbs[1].parameter, 0xE);
    assert_eq!(ring.trbs[0].control & 1, 0);
    assert_eq!(ring.trbs[1].control & 1, 0);
    // C is still there from the first pass.
    assert_eq!(ring.trbs[2].parameter, 0xC);
    assert_eq!(ring.trbs[2].control & 1, 1);
}

#[test]
fn fresh_ring_has_no_pending_work_for_the_consumer() {
    let ring = TransferRing::new(8, 0x2000);
    // Work slots carry cycle bit 0, so a consumer with cycle state 1 stops.
    for i in 0..7 {
        assert_eq!(ring.trbs[i].control & 1, 0);
    }
}

#[test]
fn producer_order_is_consumer_order() {
    // Fill three of seven usable slots; the consumer sees exactly those,
    // in order, each with the producer's cycle bit.
    let mut ring = TransferRing::new(8, 0x3000);
    ring.enqueue_work(0x111, 1, 9 * 1024 + 32);
    ring.enqueue_work(0x222, 2, 9 * 1024 + 32);
    ring.enqueue_work(0x333, 3, 9 * 1024 + 32);
    let expected = [(0x111u64, 1u32), (0x222, 2), (0x333, 3)];
    let mut seen = Vec::new();
    let mut d = 0usize;
    while ring.trbs[d].control & 1 == 1 {
        seen.push((ring.trbs[d].parameter, ring.trbs[d].status));
        d += 1;
    }
    assert_eq!(seen, expected.to_vec());
}

#[test]
fn event_ring_consumer_toggles_on_wrap() {
    let mut er = EventRing::new(2);
    er.trbs[0] = Trb { parameter: 1, status: 0, control: (0x21 << 10) | 1 };
    er.trbs[1] = Trb { parameter: 2, status: 0, control: (0x21 << 10) | 1 };
    assert!(er.cycle);

    let a = er.next_event().unwrap();
    assert_eq!(a.parameter, 1);
    assert!(er.cycle);
    let b = er.next_event().unwrap();
    assert_eq!(b.parameter, 2);
    // Wrapping past the last slot flips the consumer's cycle state,
    // so the stale entries no longer look pending.
    assert!(!er.cycle);
    assert_eq!(er.dequeue, 0);
    assert!(er.next_event().is_none());
}

#[test]
fn command_ring_keeps_its_link_and_toggles_there() {
    // Four slots: three usable, the Link TRB in the last.
    let mut buffer = vec![Trb { parameter: 0, status: 0, control: 0 }; 4];
    buffer[3] = Trb { parameter: 0x1000, status: 0, control: (6 << 10) | 2 | 1 };
    let mut ring = kernel_core::xhci::ring::CommandRing::new(buffer);
    assert!(ring.cycle_state());
    ring.enqueue_slot(Trb { parameter: 7, status: 0, control: 1 });
    ring.enqueue_slot(Trb { parameter: 8, status: 0, control: 1 });
    assert!(ring.cycle_state());
    // The third enqueue crosses the Link TRB: wrap to slot 0, cycle flips.
    ring.enqueue_slot(Trb { parameter: 9, status: 0, control: 1 });
    assert!(!ring.cycle_state());
    assert_eq!(ring.enqueue, 0);
    ring.enqueue_slot(Trb { parameter: 10, status: 0, control: 0 });
    assert_eq!(ring.trbs[0].parameter, 10);
    assert_eq!(ring.trbs[1].parameter, 8);
    assert_eq!(ring.trbs[2].parameter, 9);
    // The Link TRB is never overwritten.
    assert_eq!(ring.trbs[3].parameter, 0x1000);
    assert_eq!(ring.trbs[3].control, (6 << 10) | 2 | 1);
    assert_eq!(ring.enqueue, 1);
    assert!(!ring.cycle_state());
}
