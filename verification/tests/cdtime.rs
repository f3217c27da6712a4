use collectd_plugin::cdtime::{collectd_to_nanos, nanos_to_collectd, utc_calendar, CdTime};

#[test]
fn test_nanos_to_collectd() {
    // Taken from utils_time_test.c

    assert_eq!(nanos_to_collectd(1439981652801860766), 1546168526406004689);
    assert_eq!(nanos_to_collectd(1439981836985281914), 1546168724171447263);
    assert_eq!(nanos_to_collectd(1439981880053705608), 1546168770415815077);
}

#[test]
fn test_collectd_to_nanos() {
    assert_eq!(collectd_to_nanos(1546168526406004689), 1439981652801860766);
    assert_eq!(collectd_to_nanos(1546168724171447263), 1439981836985281914);
    assert_eq!(collectd_to_nanos(1546168770415815077), 1439981880053705608);
}

#[test]
fn test_collectd_to_duration() {
    let v: u64 = nanos_to_collectd(1_000_000_000);
    let dur = CdTime::from_fixed(v).to_duration();
    assert_eq!(dur.num_seconds(), 1);
}

#[test]
fn test_collectd_to_datetime() {
    let v: u64 = nanos_to_collectd(1_000_000_000);
    let dt = CdTime::from_fixed(v).to_datetime();
    let expected = utc_calendar(1970, 1, 1, 0, 0, 1).unwrap();
    assert!(dt.same_instant(&expected));
}

#[test]
fn test_datetime_to_collectd() {
    let dt = utc_calendar(1970, 1, 1, 0, 0, 1).unwrap();
    let cd = CdTime::from_datetime(&dt).unwrap();
    assert_eq!(cd.0, 1_000_000_000);
}

#[test]
fn round_trip_is_exact() {
    for n in [
        0u64,
        1,
        999_999_999,
        1_000_000_000,
        1_000_000_001,
        1439981652801860766,
        1439981836985281914,
        1439981880053705608,
        17_179_869_183_999_999_999,
    ] {
        let once = collectd_to_nanos(nanos_to_collectd(n));
        assert_eq!(once, n);
        let twice = collectd_to_nanos(nanos_to_collectd(once));
        assert_eq!(twice, once);
    }
}

#[test]
fn encode_preserves_order() {
    let samples = [
        0u64,
        1,
        499_999_999,
        500_000_000,
        999_999_999,
        1_000_000_000,
        1439981652801860766,
        1439981836985281914,
        17_179_869_183_999_999_999,
    ];
    for (i, &a) in samples.iter().enumerate() {
        for &b in &samples[i..] {
            assert!(nanos_to_collectd(a) <= nanos_to_collectd(b));
        }
    }
}

#[test]
fn decode_preserves_order() {
    let samples = [0u64, 1, 0x3fff_ffff, 0x4000_0000, 1546168526406004689, u64::MAX];
    for (i, &a) in samples.iter().enumerate() {
        for &b in &samples[i..] {
            assert!(collectd_to_nanos(a) <= collectd_to_nanos(b));
        }
    }
}

#[test]
fn epoch_parts_round_trip() {
    let t = CdTime::from_epoch(1, 500_000_000).unwrap();
    assert_eq!(t.0, 1_500_000_000);
    let (secs, rem) = t.to_epoch();
    assert_eq!((secs, rem), (1, 500_000_000));
    assert!(CdTime::from_epoch(u64::MAX, 0).is_none());
}

#[test]
fn duration_rejects_negative() {
    let d = chrono::TimeDelta::nanoseconds(-1);
    assert!(CdTime::from_duration(&d).is_none());
    let d = chrono::TimeDelta::nanoseconds(42);
    assert_eq!(CdTime::from_duration(&d).unwrap(), CdTime(42));
}

#[test]
fn datetime_before_epoch_is_rejected() {
    let dt = utc_calendar(1969, 12, 31, 23, 59, 59).unwrap();
    assert!(CdTime::from_datetime(&dt).is_none());
}
