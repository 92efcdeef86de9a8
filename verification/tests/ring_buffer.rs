use calvera::ring_buffer::{size_is_power_of_two, RingBuffer};

#[test]
fn free_slots() {
    let ring_buffer = RingBuffer::new(8, || 0);

    // Round 1:
    // Publisher has just published 7 and consumer has read 0.
    assert_eq!(1, ring_buffer.free_slots(7, 0));
    // Consumer had read 0 and the publisher has just published 8.
    assert_eq!(0, ring_buffer.free_slots(8, 0));
    // Producer has published 0 and comsumer read 0.
    assert_eq!(8, ring_buffer.free_slots(0, 0));
    // Publisher has just published 3 and consumer is (still) reading 0.
    assert_eq!(4, ring_buffer.free_slots(3, -1));
    // Publisher has just published 7 and consumer is (still) reading 0.
    assert_eq!(0, ring_buffer.free_slots(7, -1));
    // Publisher has just published 7 and consumer has read 0.
    assert_eq!(1, ring_buffer.free_slots(7, 0));
    // Publisher has just released 5 and consumer has read 2.
    assert_eq!(5, ring_buffer.free_slots(5, 2));
    // Publisher has just released 5 and consumer has read 3.
    assert_eq!(6, ring_buffer.free_slots(5, 3));
    // Publisher has just released 5 and consumer has read 4.
    assert_eq!(7, ring_buffer.free_slots(5, 4));
    // Publisher has just released 5 and consumer has read 5.
    assert_eq!(8, ring_buffer.free_slots(5, 5));

    // Round 2:
    // Publisher has just published 11 and consumer has read 9.
    assert_eq!(6, ring_buffer.free_slots(11, 9));
    // Publisher has just published 12 and consumer has read 12.
    assert_eq!(8, ring_buffer.free_slots(12, 12));
    // Consumer has read 7 and the publisher has just published 15.
    assert_eq!(0, ring_buffer.free_slots(15, 7));
}

#[test]
fn size_reports_slot_count() {
    let ring_buffer = RingBuffer::new(16, || 0u8);
    assert_eq!(16, ring_buffer.size());
}

#[test]
fn slots_are_filled_by_the_factory_in_order() {
    let mut next = 0;
    let ring_buffer = RingBuffer::new(4, || {
        next += 1;
        next
    });
    assert_eq!(*ring_buffer.get(0), 1);
    assert_eq!(*ring_buffer.get(1), 2);
    assert_eq!(*ring_buffer.get(2), 3);
    assert_eq!(*ring_buffer.get(3), 4);
}

#[test]
fn sequence_maps_to_slot_modulo_size() {
    let mut next = 0;
    let ring_buffer = RingBuffer::new(8, || {
        next += 1;
        next
    });
    // A sequence and the one a lap later share a slot.
    assert!(std::ptr::eq(ring_buffer.get(3), ring_buffer.get(11)));
    assert!(std::ptr::eq(ring_buffer.get_ref(0), ring_buffer.get_ref(8)));
    assert_eq!(*ring_buffer.get(13), 6);
    // Negative sequences wrap the same way.
    assert_eq!(*ring_buffer.get(-1), 8);
    assert_eq!(*ring_buffer.get_ref(-8), 1);
    // Consecutive sequences within a lap use distinct slots.
    for a in 0..8i64 {
        for b in (a + 1)..(a + 8) {
            assert!(!std::ptr::eq(ring_buffer.get(a), ring_buffer.get(b)));
        }
    }
    assert_eq!(*ring_buffer.get(i64::MAX), 8);
}

#[test]
fn powers_of_two_are_recognised() {
    assert!(size_is_power_of_two(1));
    assert!(size_is_power_of_two(2));
    assert!(size_is_power_of_two(64));
    assert!(size_is_power_of_two(1 << 40));
    assert!(!size_is_power_of_two(0));
    assert!(!size_is_power_of_two(3));
    assert!(!size_is_power_of_two(12));
    assert!(!size_is_power_of_two(usize::MAX));
}

#[test]
fn free_slots_and_events_in_flight_fill_the_ring() {
    let ring_buffer = RingBuffer::new(8, || 0);
    for producer in 0..20i64 {
        for consumer in (producer - 8)..=producer {
            let free = ring_buffer.free_slots(producer, consumer);
            assert_eq!(free + (producer - consumer) as i128, 8);
        }
    }
    assert_eq!(
        ring_buffer.free_slots(i64::MIN, i64::MAX),
        i64::MAX as i128 - i64::MIN as i128 + 8
    );
}
