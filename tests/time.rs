use tendermint::error::ParseError;
use tendermint::time::{Msg, Time};

#[test]
fn timestamp_after_epoch() {
    let m = Msg { seconds: 1_500_000_000, nanos: 123 };
    let t = m.parse_timestamp().unwrap();
    assert_eq!(t.unix_nanos, 1_500_000_000_000_000_123);
    assert_eq!(Msg::from_time(t), Some(m));
}

#[test]
fn timestamp_before_epoch_subtracts_nanos() {
    let m = Msg { seconds: -1, nanos: 5 };
    let t = m.parse_timestamp().unwrap();
    assert_eq!(t.unix_nanos, -1_000_000_005);
    assert_eq!(Msg::from_time(t), Some(m));
}

#[test]
fn timestamp_round_trip_extremes() {
    for m in [
        Msg { seconds: 0, nanos: 0 },
        Msg { seconds: i64::MAX, nanos: 999_999_999 },
        Msg { seconds: i64::MIN, nanos: 999_999_999 },
        Msg { seconds: -42, nanos: 0 },
    ] {
        let t = m.parse_timestamp().unwrap();
        assert_eq!(Msg::from_time(t), Some(m));
    }
}

#[test]
fn timestamp_rejects_bad_nanos() {
    assert_eq!(Msg { seconds: 1, nanos: -1 }.parse_timestamp(), Err(ParseError::Timestamp));
    assert_eq!(
        Msg { seconds: 1, nanos: 1_000_000_000 }.parse_timestamp(),
        Err(ParseError::Timestamp)
    );
}

#[test]
fn time_to_msg() {
    assert_eq!(Msg::from_time(Time::unix_epoch()), Some(Msg { seconds: 0, nanos: 0 }));
    assert_eq!(
        Msg::from_time(Time::from_unix_nanos(-1_000_000_500)),
        Some(Msg { seconds: -1, nanos: 500 })
    );
    assert_eq!(
        Msg::from_time(Time::from_unix_nanos(2_000_000_001)),
        Some(Msg { seconds: 2, nanos: 1 })
    );
}

#[test]
fn time_just_before_epoch_has_no_msg() {
    assert_eq!(Msg::from_time(Time::from_unix_nanos(-500)), None);
    assert_eq!(Msg::from_time(Time::from_unix_nanos(i128::MAX)), None);
}

#[test]
fn unix_parts_use_floor_seconds() {
    assert_eq!(Time::from_unix_nanos(-1).to_unix_parts(), Some((-1, 999_999_999)));
    assert_eq!(Time::from_unix_nanos(2_500_000_000).to_unix_parts(), Some((2, 500_000_000)));
    assert_eq!(Time::from_unix_nanos(i128::MIN).to_unix_parts(), None);
    assert_eq!(Time::from_unix_parts(-1, 999_999_999).unix_nanos, -1);
    assert_eq!(Time::from_unix_parts(3, 7).unix_nanos, 3_000_000_007);
}
