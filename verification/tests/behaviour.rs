use hybrid_clocks::codec::{decode_key, encode_key, u32_from_be, u32_to_be, u64_from_be, u64_to_be};
use hybrid_clocks::{
    v1, Clock, ClockSource, Error, ManualClock, ManualT, Nanos, Offset, Render, TimePoint,
    Timestamp, WallMS, WallMST, WallNS, WallNST,
};
use std::time::{Duration, SystemTime};

fn ts(epoch: u32, time: u64, count: u32) -> Timestamp<u64> {
    Timestamp { epoch, time, count }
}

#[test]
fn outputs_only_move_forward_over_a_run_of_calls() {
    let mut clock = Clock::manual(5).unwrap();
    let mut handed_out: Vec<Timestamp<u64>> = Vec::new();
    let mut observed: Vec<Timestamp<u64>> = Vec::new();
    let seen = [ts(0, 3, 9), ts(0, 5, 0), ts(0, 5, 7), ts(0, 40, 2), ts(1, 0, 0), ts(0, 99, 99)];
    let times = [5u64, 4, 6, 6, 50, 2, 1, 100];
    for (round, &t) in times.iter().enumerate() {
        clock.set_time(t);
        if round % 3 == 2 {
            clock.set_epoch((round / 3) as u32);
        }
        assert!(clock.can_now());
        let out = clock.now().unwrap();
        for earlier in handed_out.iter() {
            assert!(earlier < &out);
            assert!(earlier.is_before(&out));
        }
        for msg in observed.iter() {
            assert!(msg < &out);
            assert!(msg.is_before(&out));
        }
        handed_out.push(out);
        if round < seen.len() {
            let msg = seen[round];
            assert!(clock.can_observe(&msg));
            let before = clock.last_observed();
            clock.observe(&msg);
            assert!(before < clock.last_observed());
            assert!(msg <= clock.last_observed());
            observed.push(msg);
        }
    }
}

#[test]
fn the_three_cases_of_taking_a_timestamp_in() {
    // Ahead by time: taken as it is.
    let mut clock = Clock::manual(5).unwrap();
    clock.observe(&ts(0, 6, 4));
    assert_eq!(clock.last_observed(), ts(0, 6, 4));
    // Ahead by epoch, whatever the time: taken as it is.
    clock.observe(&ts(2, 1, 0));
    assert_eq!(clock.last_observed(), ts(2, 1, 0));
    // Same epoch and time, larger counter: one past the counter seen.
    clock.observe(&ts(2, 1, 8));
    assert_eq!(clock.last_observed(), ts(2, 1, 9));
    // Same epoch and time, counter not larger: one past the counter held.
    clock.observe(&ts(2, 1, 9));
    assert_eq!(clock.last_observed(), ts(2, 1, 10));
    clock.observe(&ts(2, 1, 3));
    assert_eq!(clock.last_observed(), ts(2, 1, 11));
    // Behind by time or epoch: one past the counter held.
    clock.observe(&ts(2, 0, 500));
    assert_eq!(clock.last_observed(), ts(2, 1, 12));
    clock.observe(&ts(1, 700, 500));
    assert_eq!(clock.last_observed(), ts(2, 1, 13));
}

#[test]
fn a_later_epoch_orders_after_any_time_and_counter() {
    let early = ts(0, u64::MAX, u32::MAX);
    let late = ts(1, 0, 0);
    assert!(early < late);
    assert!(early.is_before(&late));
    assert!(!late.is_before(&early));
    assert!(!late.is_before(&late));
}

#[test]
fn order_goes_by_epoch_then_time_then_counter() {
    assert!(ts(1, 5, 5).is_before(&ts(2, 0, 0)));
    assert!(ts(1, 5, 5).is_before(&ts(1, 6, 0)));
    assert!(ts(1, 5, 5).is_before(&ts(1, 5, 6)));
    assert!(!ts(1, 5, 5).is_before(&ts(1, 5, 5)));
    assert!(!ts(1, 5, 5).is_before(&ts(1, 5, 4)));
    assert!(!ts(1, 5, 5).is_before(&ts(1, 4, 9)));
    assert!(!ts(1, 5, 5).is_before(&ts(0, 9, 9)));
}

#[test]
fn set_epoch_leaves_the_held_timestamp() {
    let mut clock = Clock::manual(10).unwrap();
    let held = clock.last_observed();
    clock.set_epoch(7);
    assert_eq!(clock.last_observed(), held);
    assert_eq!(clock.now().unwrap(), ts(7, 10, 0));
    // An epoch behind that of the held timestamp does not pull it back.
    clock.set_epoch(3);
    clock.set_time(1000);
    assert_eq!(clock.now().unwrap(), ts(7, 10, 1));
}

#[test]
fn the_counter_tells_when_it_has_no_room() {
    let mut clock = Clock::manual(10).unwrap();
    assert!(clock.can_observe(&ts(0, 10, u32::MAX - 1)));
    assert!(!clock.can_observe(&ts(0, 10, u32::MAX)));
    assert!(clock.can_observe(&ts(0, 11, u32::MAX)));
    clock.observe(&ts(0, 11, u32::MAX));
    assert_eq!(clock.last_observed(), ts(0, 11, u32::MAX));
    assert!(!clock.can_now());
    assert!(!clock.can_observe(&ts(0, 11, 0)));
    assert!(!clock.can_observe(&ts(0, 3, 0)));
    assert!(clock.can_observe(&ts(0, 12, 0)));
    // With the clock's epoch ahead, every reading is taken as it is.
    clock.set_epoch(1);
    assert!(clock.can_now());
    assert_eq!(clock.now().unwrap(), ts(1, 10, 0));
    assert!(ts(0, 0, u32::MAX).has_room_for(&ts(0, 1, 0)));
    assert!(!ts(0, 0, u32::MAX).has_room_for(&ts(0, 0, 0)));
}

#[test]
fn a_full_counter_stays_where_it_is() {
    let full = ts(0, 11, u32::MAX);
    let mut clock = Clock::manual(10).unwrap();
    clock.observe(&full);
    assert_eq!(clock.last_observed(), full);
    // Behind, level and with the same counter: the held timestamp stays.
    clock.observe(&ts(0, 11, 0));
    assert_eq!(clock.last_observed(), full);
    clock.observe(&ts(0, 3, 7));
    assert_eq!(clock.last_observed(), full);
    clock.observe(&full);
    assert_eq!(clock.last_observed(), full);
    // A reading that is not ahead gives the held timestamp again.
    assert_eq!(clock.now().unwrap(), full);
    clock.set_time(11);
    assert_eq!(clock.now().unwrap(), full);
    // A counter that would step past the largest one stays at it.
    let mut clock = Clock::manual(10).unwrap();
    clock.observe(&ts(0, 10, u32::MAX - 1));
    assert_eq!(clock.last_observed(), ts(0, 10, u32::MAX));
    let mut clock = Clock::manual(10).unwrap();
    clock.observe(&ts(0, 10, u32::MAX));
    assert_eq!(clock.last_observed(), ts(0, 10, u32::MAX));
    // Time or epoch that moves on frees the counter again.
    clock.set_time(12);
    assert_eq!(clock.now().unwrap(), ts(0, 12, 0));
    // The limiter refuses before it steps, and steps like the clock.
    let mut limiter = Clock::manual(10).unwrap().with_max_diff(5);
    assert!(limiter.observe(&ts(0, 10, u32::MAX)).is_ok());
    assert!(limiter.observe(&ts(0, 10, u32::MAX)).is_ok());
    assert!(matches!(
        limiter.observe(&ts(0, 16, u32::MAX)),
        Err(Error::OffsetTooGreat)
    ));
    assert_eq!(limiter.inner().last_observed(), ts(0, 10, u32::MAX));
    assert_eq!(limiter.now().unwrap(), ts(0, 10, u32::MAX));
}

#[test]
fn the_limiter_refuses_only_what_is_too_far_ahead() {
    let mut limiter = Clock::manual(100).unwrap().with_max_diff(10);
    let held = limiter.inner().last_observed();
    match limiter.observe(&ts(0, 111, 0)) {
        Err(Error::OffsetTooGreat) => {}
        other => panic!("{:?}", other),
    }
    assert_eq!(limiter.inner().last_observed(), held);
    assert!(limiter.observe(&ts(0, 110, 0)).is_ok());
    assert_eq!(limiter.inner().last_observed(), ts(0, 110, 0));
    assert!(limiter.observe(&ts(0, 0, 0)).is_ok());
    assert!(limiter.observe(&ts(9, 99, 0)).is_ok());
    assert_eq!(limiter.now().unwrap(), ts(9, 99, 1));
    let clock = limiter.into_inner();
    assert_eq!(clock.last_observed(), ts(9, 99, 1));
}

#[test]
fn verify_offset_compares_the_lead_with_the_limit() {
    let limiter = Clock::manual(0).unwrap().with_max_diff(10);
    assert!(limiter.verify_offset(&ts(0, 5, 0), &ts(0, 15, 0)).is_ok());
    assert!(matches!(
        limiter.verify_offset(&ts(0, 5, 0), &ts(0, 16, 0)),
        Err(Error::OffsetTooGreat)
    ));
    assert!(limiter.verify_offset(&ts(0, 5, 0), &ts(0, 0, 0)).is_ok());
    assert!(limiter.verify_offset(&ts(0, u64::MAX, 0), &ts(0, 0, 0)).is_ok());
    assert!(matches!(
        limiter.verify_offset(&ts(0, 0, 0), &ts(0, u64::MAX, 0)),
        Err(Error::OffsetTooGreat)
    ));
}

#[test]
fn leads_do_not_wrap() {
    assert_eq!(7u64.offset_from(3), 4);
    assert_eq!(3u64.offset_from(7), 0);
    assert_eq!(ManualT::from(7).offset_from(ManualT::from(3)), 4);
    assert_eq!(ManualT::from(3).offset_from(ManualT::from(7)), 0);
    assert_eq!(WallNST::of_u64(7).offset_from(WallNST::of_u64(3)), Nanos(4));
    assert_eq!(WallNST::of_u64(3).offset_from(WallNST::of_u64(7)), Nanos(0));
    assert_eq!(WallMST::of_u64(7).offset_from(WallMST::of_u64(3)), Nanos(4 * 15_258));
    assert_eq!(WallMST::of_u64(3).offset_from(WallMST::of_u64(7)), Nanos(0));
    assert_eq!(
        WallMST::of_u64(u64::MAX).offset_from(WallMST::of_u64(0)),
        Nanos(u64::MAX as u128 * 15_258)
    );
    assert!(Nanos(5).exceeds(&Nanos(4)));
    assert!(!Nanos(5).exceeds(&Nanos(5)));
    assert!(5u64.exceeds(&4));
    assert!(!4u64.exceeds(&4));
    assert!(WallNST::of_u64(1).is_before(&WallNST::of_u64(2)));
    assert!(!WallMST::of_u64(2).is_before(&WallMST::of_u64(2)));
    assert!(ManualT::from(1).is_before(&ManualT::from(2)));
}

#[test]
fn the_bytes_are_big_endian_fields() {
    let t = Timestamp {
        epoch: 0x0102_0304,
        time: WallNST::of_u64(0x1112_1314_1516_1718),
        count: 0x2122_2324,
    };
    let expected: [u8; 16] = [
        0x01, 0x02, 0x03, 0x04, 0x11, 0x12, 0x13, 0x14, 0x15, 0x16, 0x17, 0x18, 0x21, 0x22, 0x23,
        0x24,
    ];
    assert_eq!(t.to_bytes(), expected);
    assert_eq!(Timestamp::<WallNST>::from_bytes(expected), t);
    let m = Timestamp {
        epoch: 1,
        time: WallMST::of_u64(2),
        count: 3,
    };
    assert_eq!(m.to_bytes(), [0, 0, 0, 1, 0, 0, 0, 0, 0, 0, 0, 2, 0, 0, 0, 3]);
    assert_eq!(Timestamp::<WallMST>::from_bytes(m.to_bytes()), m);
    assert_eq!(encode_key(1, 2, 3), m.to_bytes());
    assert_eq!(decode_key(&expected), (0x0102_0304, 0x1112_1314_1516_1718, 0x2122_2324));
    assert_eq!(u32_to_be(0xdead_beef), 0xdead_beefu32.to_be_bytes());
    assert_eq!(u64_to_be(0x0123_4567_89ab_cdef), 0x0123_4567_89ab_cdefu64.to_be_bytes());
    assert_eq!(u32_from_be([0xde, 0xad, 0xbe, 0xef]), 0xdead_beef);
    assert_eq!(u64_from_be([1, 0x23, 0x45, 0x67, 0x89, 0xab, 0xcd, 0xef]), 0x0123_4567_89ab_cdef);
    assert_eq!(u32_to_be(u32::MAX), [255; 4]);
    assert_eq!(u64_from_be([255; 8]), u64::MAX);
}

#[test]
fn reading_bytes_takes_the_first_sixteen() {
    let t = Timestamp {
        epoch: 9,
        time: WallNST::of_u64(8),
        count: 7,
    };
    let mut bytes = vec![0xaa, 0xbb];
    t.write_bytes(&mut bytes);
    assert_eq!(bytes.len(), 18);
    assert_eq!(&bytes[..2], &[0xaa, 0xbb]);
    assert_eq!(&bytes[2..], &t.to_bytes());
    assert_eq!(Timestamp::<WallNST>::read_bytes(&bytes[2..]), Some(t));
    bytes.push(0xcc);
    assert_eq!(Timestamp::<WallNST>::read_bytes(&bytes[2..]), Some(t));
    assert_eq!(Timestamp::<WallNST>::read_bytes(&bytes[4..]), None);
    assert_eq!(Timestamp::<WallNST>::read_bytes(&[]), None);
}

#[test]
fn nanoseconds_since_the_epoch() {
    assert_eq!(WallNST::of_u64(0).duration_since_epoch(), Nanos(0));
    assert_eq!(WallNST::of_u64(u64::MAX).duration_since_epoch(), Nanos(u64::MAX as u128));
    assert_eq!(WallNST::from_since_epoch(Nanos(1_500_000_000)).unwrap().as_u64(), 1_500_000_000);
    assert_eq!(WallNST::from_since_epoch(Nanos(u64::MAX as u128)).unwrap().as_u64(), u64::MAX);
    assert!(matches!(
        WallNST::from_since_epoch(Nanos(u64::MAX as u128 + 1)),
        Err(Error::FromInt(_))
    ));
}

#[test]
fn ticks_since_the_epoch() {
    assert_eq!(WallMST::TICKS_PER_SEC, 1 << 16);
    assert_eq!(WallMST::of_u64(0).duration_since_epoch(), Nanos(0));
    assert_eq!(WallMST::of_u64(1).duration_since_epoch(), Nanos(15_258));
    assert_eq!(WallMST::of_u64(65_536).duration_since_epoch(), Nanos(1_000_000_000));
    assert_eq!(WallMST::of_u64(65_537).duration_since_epoch(), Nanos(1_000_015_258));
    assert_eq!(WallMST::of_u64(98_304).duration_since_epoch(), Nanos(1_500_000_000));
    assert_eq!(
        WallMST::of_u64(u64::MAX).duration_since_epoch(),
        Nanos(u64::MAX as u128 * 1_000_000_000 / 65_536)
    );
    assert_eq!(WallMST::from_since_epoch(Nanos(0)).unwrap().as_u64(), 0);
    assert_eq!(WallMST::from_since_epoch(Nanos(15_258)).unwrap().as_u64(), 0);
    assert_eq!(WallMST::from_since_epoch(Nanos(15_259)).unwrap().as_u64(), 1);
    assert_eq!(WallMST::from_since_epoch(Nanos(1_000_000_000)).unwrap().as_u64(), 65_536);
    assert_eq!(WallMST::from_since_epoch(Nanos(1_500_000_000)).unwrap().as_u64(), 98_304);
    // The most nanoseconds whose ticks fit 64 bits, and one more.
    let most = ((u64::MAX as u128 + 1) * 1_000_000_000 - 1) / 65_536;
    assert_eq!(WallMST::from_since_epoch(Nanos(most)).unwrap().as_u64(), u64::MAX);
    assert!(matches!(
        WallMST::from_since_epoch(Nanos(most + 1)),
        Err(Error::FromInt(_))
    ));
    // The most nanoseconds whose product with the ticks per second fits 128
    // bits, and one more.
    assert!(matches!(
        WallMST::from_since_epoch(Nanos(u128::MAX / 65_536)),
        Err(Error::FromInt(_))
    ));
    match WallMST::from_since_epoch(Nanos(u128::MAX / 65_536 + 1)) {
        Err(Error::SupportedTime(nanos)) => assert_eq!(nanos, u128::MAX / 65_536 + 1),
        other => panic!("{:?}", other),
    }
}

#[test]
fn a_tick_time_loses_one_tick_at_most_on_its_way_through_nanoseconds() {
    for ticks in [0u64, 1, 2, 3, 65_535, 65_536, 65_537, 1 << 40, u64::MAX - 1, u64::MAX] {
        let t = WallMST::of_u64(ticks);
        let back = WallMST::from_since_epoch(t.duration_since_epoch()).unwrap();
        assert!(back.as_u64() <= ticks);
        assert!(ticks - back.as_u64() <= 1);
        if ticks < u64::MAX {
            assert!(t.duration_since_epoch() < WallMST::of_u64(ticks + 1).duration_since_epoch());
        }
    }
}

#[test]
fn times_of_the_system_clock() {
    let five = SystemTime::UNIX_EPOCH + Duration::new(3, 5);
    assert_eq!(WallNST::from_timespec(five).unwrap().as_u64(), 3_000_000_005);
    assert_eq!(WallNST::of_u64(3_000_000_005).as_timespec(), Some(five));
    assert_eq!(WallNST::of_u64(0).as_timespec(), Some(SystemTime::UNIX_EPOCH));
    let half = SystemTime::UNIX_EPOCH + Duration::new(1, 500_000_000);
    assert_eq!(WallMST::from_timespec(half).unwrap().as_u64(), 98_304);
    assert_eq!(WallMST::of_u64(98_304).as_systemtime(), Some(half));
    let before = SystemTime::UNIX_EPOCH - Duration::new(1, 0);
    assert!(matches!(WallNST::from_timespec(before), Err(Error::SystemTime(_))));
    assert!(matches!(WallMST::from_timespec(before), Err(Error::SystemTime(_))));
    if let Some(far) = SystemTime::UNIX_EPOCH.checked_add(Duration::new(1 << 40, 0)) {
        assert!(matches!(WallNST::from_timespec(far), Err(Error::FromInt(_))));
        assert_eq!(WallMST::from_timespec(far).unwrap().as_u64(), 1 << 56);
    }
}

#[test]
fn wall_clocks_read_the_present_and_move_forward() {
    let started = SystemTime::now()
        .duration_since(SystemTime::UNIX_EPOCH)
        .unwrap();
    let mut ns = Clock::wall_ns().unwrap();
    let a = ns.now().unwrap();
    let b = ns.now().unwrap();
    assert!(a < b);
    assert!(a.time.duration_since_epoch().0 >= started.as_nanos());
    assert!(a.time.duration_since_epoch().0 < started.as_nanos() + 3_600_000_000_000);
    let mut ms = Clock::wall_ms().unwrap();
    let c = ms.now().unwrap();
    let d = ms.now().unwrap();
    assert!(c < d);
    assert!(c.time.duration_since_epoch().0 + 15_259 >= started.as_nanos());
    let mut src = WallNS;
    assert!(ClockSource::now(&mut src).is_ok());
    let mut src = WallMS;
    assert!(ClockSource::now(&mut src).is_ok());
    // A limiter over the system clock takes in what another clock just gave.
    let mut limiter = Clock::wall_ns().unwrap().with_max_diff(Nanos(60_000_000_000));
    assert!(limiter.observe(&b).is_ok());
    let far = Timestamp {
        epoch: 0,
        time: WallNST::of_u64(b.time.as_u64() + 3_600_000_000_000),
        count: 0,
    };
    assert!(matches!(limiter.observe(&far), Err(Error::OffsetTooGreat)));
    assert!(b < limiter.now().unwrap());
}

#[test]
fn the_manual_source_hands_out_what_it_was_set_to() {
    let mut src = ManualClock::new(4);
    assert_eq!(src.now().unwrap(), 4);
    assert_eq!(src.now().unwrap(), 4);
    src.set_time(2);
    assert_eq!(src.now().unwrap(), 2);
    let clock = Clock::new(src).unwrap();
    assert_eq!(clock.last_observed(), ts(0, 2, 0));
}

#[test]
fn timestamps_as_text() {
    assert_eq!(ts(0, 10, 2).to_string(), "0:10+2");
    assert_eq!(ts(0, 0, 0).to_string(), "0:0+0");
    assert_eq!(
        ts(u32::MAX, u64::MAX, u32::MAX).to_string(),
        "4294967295:18446744073709551615+4294967295"
    );
    let typed = ts(7, 1234567890, 100).time_into::<ManualT>();
    assert_eq!(typed.to_string(), "7:1234567890+100");
    let mut out = String::from("t=");
    ManualT::from(90).render(&mut out);
    out.push('/');
    909u64.render(&mut out);
    assert_eq!(out, "t=90/909");
}

#[test]
fn errors_as_text() {
    assert_eq!(Error::OffsetTooGreat.to_string(), "Offset greater than limit");
    assert_eq!(
        Error::SupportedTime(340282366920938463463374607431768211455).to_string(),
        "Outside supported time range: 340282366920938463463374607431768211455ticks"
    );
    assert_eq!(Error::SupportedTime(0).to_string(), "Outside supported time range: 0ticks");
    let from_int = WallNST::from_since_epoch(Nanos(u128::MAX)).unwrap_err();
    assert_eq!(from_int.to_string(), "Integer conversion error");
    let before = SystemTime::UNIX_EPOCH - Duration::new(1, 0);
    let system = WallNST::from_timespec(before).unwrap_err();
    assert_eq!(system.to_string(), "Outside of specified offset");
    let e = before.duration_since(SystemTime::UNIX_EPOCH).unwrap_err();
    assert!(matches!(Error::from(e), Error::SystemTime(_)));
    let e = u8::try_from(300u32).unwrap_err();
    assert!(matches!(Error::from(e), Error::FromInt(_)));
}

#[test]
fn the_time_of_a_timestamp_changes_its_type_and_nothing_else() {
    let t = ts(3, 77, 5);
    let typed: Timestamp<ManualT> = t.time_into();
    assert_eq!(typed, Timestamp { epoch: 3, time: ManualT::from(77), count: 5 });
    assert!(typed.is_before(&ts(3, 78, 0).time_into()));
    let wall = Timestamp { epoch: 1, time: WallNST::of_u64(42), count: 2 };
    let old: Timestamp<v1::WallNST> = wall.time_into();
    assert_eq!(old.time.into_tuple(), (42,));
    assert_eq!(old.time_into::<WallNST>(), wall);
    assert_eq!(v1::WallNST::from_tuple((42,)), old.time);
    assert_eq!(t.into_tuple(), (3, 77, 5));
    assert_eq!(Timestamp::from_tuple((3, 77, 5)), t);
}
