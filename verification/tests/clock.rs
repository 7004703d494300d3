use chrono::{DateTime, Utc};
use guideng::clock::{text_to_time, time_to_text, Timestamp, FIRST_SECOND, LAST_SECOND};
use guideng::coordinates::{is_latitude, is_longitude};
use guideng::device_id::{id_to_text, new_device_id, text_to_id};

fn at(secs: i64, nanos: u32) -> Timestamp {
    Timestamp::new(secs, nanos).unwrap()
}

#[test]
fn moments_are_written_in_utc() {
    assert_eq!(time_to_text(at(0, 0)), "1970-01-01T00:00:00+00:00");
    assert_eq!(
        time_to_text(at(1_700_000_000, 500_000_000)),
        "2023-11-14T22:13:20.500+00:00"
    );
    assert_eq!(
        time_to_text(at(1_700_000_000, 1)),
        "2023-11-14T22:13:20.000000001+00:00"
    );
}

#[test]
fn moments_read_back_what_was_written() {
    for (secs, nanos) in [
        (0, 0),
        (1_700_000_000, 123_456_789),
        (-62_167_219_200, 0),
        (253_402_300_799, 999_999_999),
        (1_483_228_799, 1_500_000_000),
    ] {
        let read = text_to_time(&time_to_text(at(secs, nanos))).unwrap();
        assert_eq!((read.secs(), read.nanos()), (secs, nanos));
    }
}

#[test]
fn texts_sort_as_their_moments_do() {
    let moments = [
        (-62_167_219_200, 0),
        (-1, 999_999_999),
        (0, 0),
        (0, 1),
        (0, 1_000),
        (0, 1_000_000),
        (0, 1_000_001),
        (0, 500_000_000),
        (0, 500_000_001),
        (1, 0),
        (1_483_228_799, 999_999_999),
        (1_483_228_799, 1_000_000_000),
        (1_483_228_799, 1_999_999_999),
        (1_483_228_800, 0),
        (253_402_300_799, 999_999_999),
    ];
    for pair in moments.windows(2) {
        let earlier = time_to_text(at(pair[0].0, pair[0].1));
        let later = time_to_text(at(pair[1].0, pair[1].1));
        assert!(earlier < later, "{earlier} {later}");
    }
}

#[test]
fn offsets_are_taken_to_utc() {
    let read = text_to_time("2023-11-15T06:13:20+08:00").unwrap();
    assert_eq!((read.secs(), read.nanos()), (1_700_000_000, 0));
}

#[test]
fn unreadable_moments_have_a_message() {
    for text in ["", "yesterday", "2023-11-15", "2023-13-01T00:00:00Z"] {
        let outside = DateTime::parse_from_rfc3339(text).unwrap_err().to_string();
        assert_eq!(text_to_time(text).unwrap_err(), outside);
    }
}

#[test]
fn the_calendar_has_ends() {
    assert_eq!(DateTime::<Utc>::MIN_UTC.timestamp(), FIRST_SECOND);
    assert_eq!(DateTime::<Utc>::MAX_UTC.timestamp(), LAST_SECOND);
    assert!(Timestamp::new(FIRST_SECOND, 0).is_some());
    assert!(Timestamp::new(FIRST_SECOND - 1, 0).is_none());
    assert!(Timestamp::new(LAST_SECOND, 999_999_999).is_some());
    assert!(Timestamp::new(LAST_SECOND + 1, 0).is_none());
    assert!(Timestamp::new(0, 2_000_000_000).is_none());
    time_to_text(at(FIRST_SECOND, 0));
    time_to_text(at(LAST_SECOND, 999_999_999));
}

#[test]
fn leap_seconds_follow_the_last_second_of_a_minute() {
    for secs in [-61, -60, -2, -1, 0, 58, 59, 60, 119] {
        let leap = DateTime::from_timestamp(secs, 1_000_000_000).is_some();
        assert_eq!(Timestamp::new(secs, 1_000_000_000).is_some(), leap);
        assert_eq!(leap, (secs as i64).rem_euclid(60) == 59);
    }
}

#[test]
fn the_clock_shows_the_present() {
    let before = Utc::now().timestamp();
    let shown = Timestamp::now().secs();
    let after = Utc::now().timestamp();
    assert!(before <= shown && shown <= after);
}

#[test]
fn days_are_counted_back() {
    let now = at(1_700_000_000, 5);
    let earlier = now.days_earlier(7);
    assert_eq!(
        (earlier.secs(), earlier.nanos()),
        (1_700_000_000 - 7 * 86_400, 5)
    );
    assert!(now.has_days_before(36_500));
    assert!(now.has_days_before(0));
    assert!(!now.has_days_before(i64::MAX));
    assert!(!now.has_days_before(i64::MIN));
}

#[test]
fn identifiers_are_written_with_hyphens() {
    let id = 0x0123_4567_89ab_cdef_0011_2233_4455_6677;
    assert_eq!(id_to_text(id), "01234567-89ab-cdef-0011-223344556677");
    assert_eq!(id_to_text(0), "00000000-0000-0000-0000-000000000000");
    assert_eq!(text_to_id(&id_to_text(id)), Ok(id));
    assert_eq!(text_to_id(&id_to_text(u128::MAX)), Ok(u128::MAX));
}

#[test]
fn identifiers_are_read_as_uuid_reads_them() {
    for text in [
        "",
        "x",
        "0123456789abcdef0011223344556677",
        "{01234567-89AB-CDEF-0011-223344556677}",
        "urn:uuid:01234567-89ab-cdef-0011-223344556677",
        "01234567-89ab-cdef-0011-22334455667",
        "01234567-89ab-cdef-0011-22334455667g",
    ] {
        let outside = uuid::Uuid::parse_str(text)
            .map(|id| id.as_u128())
            .map_err(|error| error.to_string());
        assert_eq!(text_to_id(text), outside);
    }
}

#[test]
fn fresh_identifiers_are_random() {
    let id = new_device_id();
    let uuid = uuid::Uuid::from_u128(id);
    assert_eq!(uuid.get_version_num(), 4);
    assert_eq!(uuid.get_variant(), uuid::Variant::RFC4122);
    assert_ne!(id, new_device_id());
}

#[test]
fn latitudes_end_at_the_poles() {
    for value in [
        0.0f64,
        -0.0,
        90.0,
        -90.0,
        89.999999,
        90.00000000000001,
        -90.00000000000001,
        180.0,
        1e-300,
        5e-324,
        f64::MAX,
        f64::INFINITY,
        f64::NEG_INFINITY,
        f64::NAN,
    ] {
        assert_eq!(
            is_latitude(value.to_bits()),
            (-90.0..=90.0).contains(&value),
            "{value}"
        );
    }
}

#[test]
fn longitudes_end_at_the_antimeridian() {
    for value in [
        0.0f64,
        180.0,
        -180.0,
        179.99999999999997,
        180.00000000000003,
        -180.00000000000003,
        255.9,
        256.0,
        90.5,
        f64::MIN,
        f64::NAN,
        f64::INFINITY,
    ] {
        assert_eq!(
            is_longitude(value.to_bits()),
            (-180.0..=180.0).contains(&value),
            "{value}"
        );
    }
}
