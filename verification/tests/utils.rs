use atlas_txn_sender::utils::{
    elapsed, elapsed_at, elapsed_between, has_begun, round_to_nearest_10000, unix_to_time,
    UnixTime,
};

#[test]
fn timestamps_become_points_in_time() {
    assert_eq!(unix_to_time(1_700_000_000), UnixTime { secs: 1_700_000_000, nanos: 0 });
    let start = unix_to_time(10);
    assert_eq!(elapsed_between(start, UnixTime { secs: 12, nanos: 5_999_999 }), 2005);
    assert!(has_begun(start, start));
    assert!(!has_begun(start, UnixTime { secs: 9, nanos: 999_999_999 }));
    assert_eq!(elapsed_between(start, start), 0);
}

#[test]
fn elapsed_time_follows_the_reading() {
    let start = UnixTime { secs: 10, nanos: 500_000_000 };
    let later = UnixTime { secs: 12, nanos: 499_999_999 };
    assert_eq!(elapsed_at(start, Some(later)), Some(1_999));
    assert_eq!(elapsed_at(start, Some(start)), Some(0));
    assert_eq!(elapsed_at(later, Some(start)), None);
    assert_eq!(elapsed_at(start, None), None);
    let early = UnixTime { secs: -2, nanos: 250_000_000 };
    assert_eq!(elapsed_at(early, Some(start)), Some(12_250));
    assert_eq!(elapsed_at(start, Some(early)), None);
}

#[test]
fn wall_clock_runs() {
    let passed = elapsed(UnixTime { secs: 0, nanos: 0 }).unwrap();
    assert!(passed > 1_600_000_000_000);
    let more = elapsed(UnixTime { secs: -1, nanos: 0 }).unwrap();
    assert!(more >= passed + 1_000);
    assert_eq!(elapsed(UnixTime { secs: 1 << 40, nanos: 0 }), None);
}

fn in_single_precision(num: u32) -> u32 {
    let rounded = (num as f32 / 10_000_f32).round() * 10_000_f32;
    rounded as u32
}

#[test]
fn rounding_to_ten_thousands() {
    assert_eq!(round_to_nearest_10000(0), 0);
    assert_eq!(round_to_nearest_10000(4_999), 0);
    assert_eq!(round_to_nearest_10000(5_000), 10_000);
    assert_eq!(round_to_nearest_10000(14_999), 10_000);
    assert_eq!(round_to_nearest_10000(15_000), 20_000);
    assert_eq!(round_to_nearest_10000(1_234_567), 1_230_000);
    assert_eq!(round_to_nearest_10000(16_784_998), 16_780_000);
    assert_eq!(round_to_nearest_10000(16_784_999), 16_790_000);
    assert_eq!(round_to_nearest_10000(u32::MAX), u32::MAX);
}

#[test]
fn rounding_agrees_with_single_precision() {
    for num in 0..60_000u32 {
        assert_eq!(round_to_nearest_10000(num), in_single_precision(num), "{}", num);
    }
    let mut num: u32 = 1;
    while num < u32::MAX - 60_000 {
        for near in num..num + 3 {
            assert_eq!(round_to_nearest_10000(near), in_single_precision(near), "{}", near);
        }
        num += 25_013;
    }
    for k in 0..429_496u32 {
        let tie = k * 10_000 + 5_000;
        for near in tie - 2..tie + 3 {
            assert_eq!(round_to_nearest_10000(near), in_single_precision(near), "{}", near);
        }
    }
}

#[test]
fn rounding_keeps_order() {
    let mut last: u32 = 0;
    let mut num: u32 = 0;
    while num < u32::MAX - 997 {
        let rounded = round_to_nearest_10000(num);
        assert!(rounded >= last, "{}", num);
        last = rounded;
        num += 997;
    }
}
