use spling::Spling;

#[test]
fn new_is_default_filled() {
    let spling: Spling<u32> = Spling::new(5);

    assert_eq!(spling.data, vec![0u32; 5]);
    assert_eq!(0, spling.head);
    assert_eq!(0, spling.tail);
    assert_eq!(0, spling.split);
}

#[test]
fn reserve_too_large_is_none() {
    let mut spling: Spling<u8> = Spling::new(100);

    assert!(spling.reserve(101).is_none());
    assert!(spling.reserve(100).is_some());
}

#[test]
fn reserve_prefers_tail_end() {
    let mut spling: Spling<u8> = Spling {
        data: vec![0; 10],
        head: 4,
        tail: 6,
        split: 0,
    };

    let reservation = spling.reserve(4).unwrap();
    assert_eq!(6, reservation.start);
    assert_eq!(4, reservation.len());
}

#[test]
fn reserve_wraps_to_front() {
    let mut spling: Spling<u8> = Spling {
        data: vec![0; 10],
        head: 4,
        tail: 8,
        split: 0,
    };

    let reservation = spling.reserve(3).unwrap();
    assert_eq!(0, reservation.start);
    assert_eq!(3, reservation.len());
}

#[test]
fn reserve_zero_unwrapped_starts_at_tail() {
    let mut spling: Spling<u8> = Spling {
        data: vec![0; 10],
        head: 2,
        tail: 5,
        split: 0,
    };

    let reservation = spling.reserve(0).unwrap();
    assert_eq!(5, reservation.start);
}

#[test]
fn reserve_zero_wrapped_starts_at_front() {
    // In a wrapped state the first policy branch is guarded away, so even a
    // zero-length reservation lands at the front rather than at the tail.
    let mut spling: Spling<u8> = Spling {
        data: vec![0; 10],
        head: 5,
        tail: 2,
        split: 8,
    };

    let reservation = spling.reserve(0).unwrap();
    assert_eq!(0, reservation.start);
}

#[test]
fn dropped_reservation_leaves_cursors() {
    let mut spling: Spling<u8> = Spling::new(10);

    {
        let reservation = spling.reserve(4).unwrap();
        assert_eq!(4, reservation.len());
    }

    assert_eq!(0, spling.head);
    assert_eq!(0, spling.tail);
    assert_eq!(0, spling.split);
}

#[test]
fn dropped_availability_leaves_cursors() {
    let mut spling: Spling<u8> = Spling {
        data: vec![0; 10],
        head: 2,
        tail: 7,
        split: 0,
    };

    {
        let availability = spling.avail();
        assert_eq!(5, availability.len());
    }

    assert_eq!(2, spling.head);
    assert_eq!(7, spling.tail);
    assert_eq!(0, spling.split);
}

#[test]
fn avail_repeats_same_window() {
    // The drained-wrap collapse is the one state change a query makes, and it
    // does not alter the window: repeated calls agree in start and length.
    let mut spling: Spling<u8> = Spling {
        data: vec![0; 10],
        head: 8,
        tail: 5,
        split: 8,
    };

    let (first_start, first_len) = {
        let availability = spling.avail();
        (availability.start, availability.len())
    };
    let (second_start, second_len) = {
        let availability = spling.avail();
        (availability.start, availability.len())
    };

    assert_eq!(first_start, second_start);
    assert_eq!(first_len, second_len);
    assert_eq!(0, first_start);
    assert_eq!(5, first_len);
}

#[test]
fn wrap_exposes_remainder_before_new_data() {
    let mut spling: Spling<u8> = Spling {
        data: vec![10, 11, 12, 13, 14, 15, 16, 17, 18, 19],
        head: 3,
        tail: 8,
        split: 0,
    };

    {
        let reservation = spling.reserve(3).unwrap();
        assert_eq!(0, reservation.start);
        let reservation = reservation.set(0, 99).set(1, 98).set(2, 97);
        reservation.commit();
    }
    assert_eq!(8, spling.split);
    assert_eq!(3, spling.tail);

    {
        let availability = spling.avail();
        assert_eq!(3, availability.start);
        assert_eq!(5, availability.len());
        assert_eq!(&[13, 14, 15, 16, 17], availability.as_ref());
        availability.consume();
    }
    assert_eq!(0, spling.head);

    {
        let availability = spling.avail();
        assert_eq!(0, availability.start);
        assert_eq!(3, availability.len());
        assert_eq!(&[99, 98, 97], availability.as_ref());
    }
}

#[test]
fn written_data_round_trips() {
    let mut buf: Spling<u8> = Spling::new(4);

    {
        let reservation = buf.reserve(2).unwrap();
        let reservation = reservation.set(0, 7).set(1, 9);
        reservation.commit();
    }

    {
        let availability = buf.avail();
        assert_eq!(2, availability.len());
        assert_eq!(&[7, 9], availability.as_ref());
        availability.consume();
    }

    assert_eq!(2, buf.head);
    assert_eq!(2, buf.tail);
}

#[test]
fn consumed_never_exceeds_committed() {
    let mut buf: Spling<u8> = Spling::new(16);

    buf.reserve(3).unwrap().commit();
    buf.reserve(4).unwrap().commit();

    let mut consumed: usize = 0;
    {
        let availability = buf.avail();
        consumed += availability.len();
        availability.consume();
    }
    {
        let availability = buf.avail();
        consumed += availability.len();
        availability.consume();
    }

    assert_eq!(7, consumed);
}

#[test]
fn full_cycle_reuses_whole_store() {
    let mut buf: Spling<u8> = Spling::new(8);

    buf.reserve(8).unwrap().commit();
    {
        let availability = buf.avail();
        assert_eq!(8, availability.len());
        availability.consume();
    }
    {
        let availability = buf.avail();
        assert_eq!(0, availability.len());
        availability.consume();
    }

    let reservation = buf.reserve(8).unwrap();
    assert_eq!(0, reservation.start);
}
