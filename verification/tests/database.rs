use guideng::api::ApiError;
use guideng::clock::{time_to_text, Timestamp};
use guideng::console::{
    admin_delete_device, admin_delete_locations, admin_delete_stale, admin_index,
    admin_set_auto_cleanup, AdminStep, AutoCleanupForm, DaysForm, LangForm, WebAnswer,
};
use guideng::admin::{AdminQuery, AppState};
use guideng::device_id::id_to_text;
use guideng::query::{Query, SqlValue, FOREIGN_KEYS, SCHEMA};
use guideng::records::{
    AdminDeviceRow, Device, DeviceRow, Location, LocationRequest, LocationRow, Reading,
    RegisterDeviceRequest, TrackQuery, UpdateDeviceRequest,
};
use guideng::requests::{
    list_tracks, register_as, register_device, report_at, run_auto_cleanup, update_device,
    update_location, ReportJob, ReportStep, SweepNote, SweepStep, SWEEP_INTERVAL_SECS,
};
use guideng::settings::MapConfig;
use guideng::store::{Outcome, Reply, Step, StoreOp};
use rusqlite::types::Value;
use rusqlite::{params_from_iter, Connection, OptionalExtension, Row};

fn open() -> Connection {
    let conn = Connection::open_in_memory().unwrap();
    conn.pragma_update(None, "foreign_keys", FOREIGN_KEYS)
        .unwrap();
    conn.execute_batch(SCHEMA).unwrap();
    conn
}

fn values(query: &Query) -> Vec<Value> {
    query
        .bindings()
        .into_iter()
        .map(|value| match value {
            SqlValue::Null => Value::Null,
            SqlValue::Real(bits) => Value::Real(f64::from_bits(bits)),
            SqlValue::Text(text) => Value::Text(text),
        })
        .collect()
}

fn bits(value: Option<f64>) -> Option<u64> {
    value.map(f64::to_bits)
}

fn location_row(row: &Row<'_>, first: usize) -> rusqlite::Result<LocationRow> {
    Ok(LocationRow {
        id: row.get(first)?,
        reading: Reading {
            latitude: row.get::<_, f64>(first + 1)?.to_bits(),
            longitude: row.get::<_, f64>(first + 2)?.to_bits(),
            accuracy: bits(row.get(first + 3)?),
            altitude: bits(row.get(first + 4)?),
            heading: bits(row.get(first + 5)?),
            speed: bits(row.get(first + 6)?),
            battery_level: bits(row.get(first + 7)?),
        },
        captured_at: row.get(first + 8)?,
        received_at: row.get(first + 9)?,
    })
}

fn device_row(row: &Row<'_>) -> rusqlite::Result<DeviceRow> {
    let location_id: Option<i64> = row.get(5)?;
    Ok(DeviceRow {
        id: row.get(0)?,
        name: row.get(1)?,
        platform: row.get(2)?,
        created_at: row.get(3)?,
        updated_at: row.get(4)?,
        location: match location_id {
            Some(_) => Some(location_row(row, 5)?),
            None => None,
        },
    })
}

fn admin_row(row: &Row<'_>) -> rusqlite::Result<AdminDeviceRow> {
    let device = device_row(row)?;
    let coordinates = match &device.location {
        Some(location) => (
            format!("{:.6}", f64::from_bits(location.reading.latitude)),
            format!("{:.6}", f64::from_bits(location.reading.longitude)),
        ),
        None => (String::new(), String::new()),
    };
    Ok(AdminDeviceRow {
        device,
        location_count: row.get(15)?,
        coordinates,
    })
}

fn perform(conn: &Connection, query: &Query) -> rusqlite::Result<Reply> {
    let bound = params_from_iter(values(query));
    match query {
        Query::Begin | Query::Commit | Query::Rollback => {
            conn.execute_batch(query.sql())?;
            Ok(Reply::Changed(0))
        }
        Query::FindDevice { .. } => {
            let found: Option<String> = conn
                .query_row(query.sql(), bound, |row| row.get(0))
                .optional()?;
            Ok(Reply::Found(found.is_some()))
        }
        Query::DeviceById { .. } => Ok(Reply::Device(
            conn.query_row(query.sql(), bound, device_row).optional()?,
        )),
        Query::AllDevices => {
            let mut statement = conn.prepare(query.sql())?;
            let rows = statement
                .query_map([], device_row)?
                .collect::<rusqlite::Result<Vec<_>>>()?;
            Ok(Reply::Devices {
                rows,
                failure: None,
            })
        }
        Query::AllAdminDevices => {
            let mut statement = conn.prepare(query.sql())?;
            let rows = statement
                .query_map([], admin_row)?
                .collect::<rusqlite::Result<Vec<_>>>()?;
            Ok(Reply::AdminDevices {
                rows,
                failure: None,
            })
        }
        Query::Track { .. } => {
            let mut statement = conn.prepare(query.sql())?;
            let rows = statement
                .query_map(bound, |row| location_row(row, 0))?
                .collect::<rusqlite::Result<Vec<_>>>()?;
            Ok(Reply::Locations {
                rows,
                failure: None,
            })
        }
        Query::ReadSetting { .. } => Ok(Reply::Setting(
            conn.query_row(query.sql(), bound, |row| row.get(0))
                .optional()?,
        )),
        _ => Ok(Reply::Changed(conn.execute(query.sql(), bound)?)),
    }
}

fn reply(conn: &Connection, query: &Query) -> Reply {
    perform(conn, query).unwrap_or_else(|error| Reply::Failed(error.to_string()))
}

/// Carries out an operation at one moment.
fn run_at(conn: &Connection, op: StoreOp, now: Timestamp) -> Result<Outcome, ApiError> {
    let mut step = op.begin(now);
    loop {
        match step {
            Step::Done(result) => return result,
            Step::Ask { query, next } => step = next.resume(reply(conn, &query), now),
        }
    }
}

/// Carries out an operation now.
fn run(conn: &Connection, op: StoreOp) -> Result<Outcome, ApiError> {
    let mut step = op.start().unwrap();
    loop {
        match step {
            Step::Done(result) => return result,
            Step::Ask { query, next } => step = next.proceed(reply(conn, &query)).unwrap(),
        }
    }
}

const DAY: i64 = 86_400;
const NOON: i64 = 1_700_000_000;

fn at(secs: i64) -> Timestamp {
    Timestamp::new(secs, 0).unwrap()
}

fn device(result: Result<Outcome, ApiError>) -> Device {
    match result {
        Ok(Outcome::Device(device)) => device,
        other => panic!("no device: {other:?}"),
    }
}

fn devices(result: Result<Outcome, ApiError>) -> Vec<Device> {
    match result {
        Ok(Outcome::Devices(devices)) => devices,
        other => panic!("no devices: {other:?}"),
    }
}

fn track(result: Result<Outcome, ApiError>) -> Vec<Location> {
    match result {
        Ok(Outcome::Track(locations)) => locations,
        other => panic!("no track: {other:?}"),
    }
}

fn deleted(result: Result<Outcome, ApiError>) -> usize {
    match result {
        Ok(Outcome::Deleted(count)) => count,
        other => panic!("nothing deleted: {other:?}"),
    }
}

fn refused(result: Result<Outcome, ApiError>) -> (u16, String) {
    let error = result.unwrap_err();
    (error.status, error.message)
}

fn count(conn: &Connection, table: &str) -> i64 {
    conn.query_row(&format!("SELECT COUNT(*) FROM {table}"), [], |row| {
        row.get(0)
    })
    .unwrap()
}

fn register(conn: &Connection, id: u128, name: &str, now: i64) -> Device {
    let op = register_as(
        RegisterDeviceRequest {
            id: Some(id),
            name: name.to_string(),
            platform: Some("web".to_string()),
        },
        0,
    )
    .unwrap();
    device(run_at(conn, op, at(now)))
}

fn reading(latitude: f64, longitude: f64) -> Reading {
    Reading {
        latitude: latitude.to_bits(),
        longitude: longitude.to_bits(),
        accuracy: Some(12.5f64.to_bits()),
        altitude: None,
        heading: None,
        speed: Some(0.0f64.to_bits()),
        battery_level: Some(0.75f64.to_bits()),
    }
}

fn report(conn: &Connection, id: u128, latitude: f64, now: i64) -> Result<Outcome, ApiError> {
    let payload = LocationRequest {
        reading: reading(latitude, 121.5),
        captured_at: None,
    };
    run_at(
        conn,
        report_at(id, payload, at(now), at(now)).unwrap(),
        at(now),
    )
}

#[test]
fn new_device_is_answered_as_it_registered() {
    let conn = open();
    let device = register(&conn, 7, "  Phone ", NOON);
    assert_eq!(device.id, 7);
    assert_eq!(device.name, "Phone");
    assert_eq!(device.platform.as_deref(), Some("web"));
    assert_eq!(device.created_at.secs(), NOON);
    assert_eq!(device.updated_at.secs(), NOON);
    assert!(device.last_location.is_none());
}

#[test]
fn device_that_registers_again_keeps_its_creation() {
    let conn = open();
    register(&conn, 7, "Phone", NOON);
    let device = register(&conn, 7, "Tablet", NOON + 60);
    assert_eq!(device.name, "Tablet");
    assert_eq!(device.created_at.secs(), NOON);
    assert_eq!(device.updated_at.secs(), NOON + 60);
    assert_eq!(count(&conn, "devices"), 1);
}

#[test]
fn device_without_an_identifier_gets_one() {
    let conn = open();
    let op = register_device(RegisterDeviceRequest {
        id: None,
        name: "Phone".to_string(),
        platform: None,
    })
    .unwrap();
    let device = device(run(&conn, op));
    assert_ne!(device.id, 0);
    assert_eq!(device.platform, None);
    let stored: String = conn
        .query_row("SELECT id FROM devices", [], |row| row.get(0))
        .unwrap();
    assert_eq!(stored, id_to_text(device.id));
}

#[test]
fn change_keeps_what_it_does_not_name() {
    let conn = open();
    register(&conn, 7, "Phone", NOON);
    let rename = update_device(
        7,
        UpdateDeviceRequest {
            name: Some(" Work phone ".to_string()),
            platform: None,
        },
    );
    let changed = device(run_at(&conn, rename.unwrap(), at(NOON + 5)));
    assert_eq!(changed.name, "Work phone");
    assert_eq!(changed.platform.as_deref(), Some("web"));
    let move_on = update_device(
        7,
        UpdateDeviceRequest {
            name: None,
            platform: Some("android".to_string()),
        },
    );
    let changed = device(run_at(&conn, move_on.unwrap(), at(NOON + 9)));
    assert_eq!(changed.name, "Work phone");
    assert_eq!(changed.platform.as_deref(), Some("android"));
    assert_eq!(changed.created_at.secs(), NOON);
    assert_eq!(changed.updated_at.secs(), NOON + 9);
}

#[test]
fn nothing_is_done_to_a_device_that_is_not_there() {
    let conn = open();
    let missing = (404, "device not found".to_string());
    let change = update_device(
        7,
        UpdateDeviceRequest {
            name: Some("x".to_string()),
            platform: None,
        },
    );
    assert_eq!(refused(run_at(&conn, change.unwrap(), at(NOON))), missing);
    assert_eq!(refused(report(&conn, 7, 1.0, NOON)), missing);
    assert_eq!(
        refused(run_at(&conn, StoreOp::DeleteDevice { id: 7 }, at(NOON))),
        missing
    );
    assert_eq!(
        refused(run_at(
            &conn,
            StoreOp::DeleteDeviceLocations { id: 7 },
            at(NOON)
        )),
        missing
    );
    assert_eq!(
        refused(run_at(
            &conn,
            StoreOp::ListTracks { id: 7, days: 7 },
            at(NOON)
        )),
        missing
    );
    assert!(conn.is_autocommit());
    assert_eq!(count(&conn, "devices"), 0);
    assert_eq!(count(&conn, "locations"), 0);
}

#[test]
fn reported_location_is_the_last_one_of_its_device() {
    let conn = open();
    register(&conn, 7, "Phone", NOON);
    let device = device(report(&conn, 7, 31.25, NOON + 30));
    let last = device.last_location.unwrap();
    assert_eq!(last.id, Some(1));
    assert_eq!(last.reading, reading(31.25, 121.5));
    assert_eq!(last.captured_at.secs(), NOON + 30);
    assert_eq!(last.received_at.secs(), NOON + 30);
    assert_eq!(device.updated_at.secs(), NOON + 30);
    assert!(conn.is_autocommit());
}

#[test]
fn report_keeps_a_week_and_deletes_what_is_older() {
    let conn = open();
    register(&conn, 7, "Phone", NOON);
    register(&conn, 8, "Tablet", NOON);
    report(&conn, 7, 1.0, NOON).unwrap();
    report(&conn, 8, 2.0, NOON + 1).unwrap();
    report(&conn, 7, 3.0, NOON + 7 * DAY).unwrap();
    assert_eq!(count(&conn, "locations"), 3);
    report(&conn, 7, 4.0, NOON + 7 * DAY + 1).unwrap();
    assert_eq!(count(&conn, "locations"), 3);
    report(&conn, 7, 5.0, NOON + 7 * DAY + 2).unwrap();
    assert_eq!(count(&conn, "locations"), 3);
    let other = run_at(&conn, StoreOp::ListTracks { id: 8, days: 7 }, at(NOON + 2));
    assert_eq!(track(other).len(), 0);
}

#[test]
fn report_that_fails_changes_nothing() {
    let conn = open();
    register(&conn, 7, "Phone", NOON);
    report(&conn, 7, 1.0, NOON).unwrap();
    conn.execute_batch(
        "CREATE TRIGGER stop BEFORE UPDATE ON devices BEGIN SELECT RAISE(ABORT, 'stopped'); END",
    )
    .unwrap();
    let (status, message) = refused(report(&conn, 7, 2.0, NOON + 8 * DAY));
    assert_eq!(status, 500);
    assert_eq!(message, "stopped");
    assert!(conn.is_autocommit());
    assert_eq!(count(&conn, "locations"), 1);
    let device = devices(run_at(&conn, StoreOp::ListDevices, at(NOON))).remove(0);
    assert_eq!(device.updated_at.secs(), NOON);
    assert_eq!(
        device.last_location.unwrap().reading.latitude,
        1.0f64.to_bits()
    );
}

#[test]
fn devices_are_listed_last_updated_first() {
    let conn = open();
    register(&conn, 1, "one", NOON);
    register(&conn, 2, "two", NOON + 2);
    register(&conn, 3, "three", NOON + 1);
    report(&conn, 1, 10.0, NOON + 3).unwrap();
    report(&conn, 1, 11.0, NOON + 3).unwrap();
    let listed = devices(run_at(&conn, StoreOp::ListDevices, at(NOON + 4)));
    let ids: Vec<u128> = listed.iter().map(|device| device.id).collect();
    assert_eq!(ids, vec![1, 2, 3]);
    let last = listed[0].last_location.as_ref().unwrap();
    assert_eq!(last.reading.latitude, 11.0f64.to_bits());
    assert!(listed[1].last_location.is_none());
}

#[test]
fn track_is_in_the_order_of_receipt() {
    let conn = open();
    register(&conn, 7, "Phone", NOON);
    for (latitude, now) in [(2.0, NOON + 2), (1.0, NOON + 1), (3.0, NOON + 2)] {
        report(&conn, 7, latitude, now).unwrap();
    }
    let listed = track(run_at(
        &conn,
        StoreOp::ListTracks { id: 7, days: 1 },
        at(NOON + 5),
    ));
    let latitudes: Vec<f64> = listed
        .iter()
        .map(|location| f64::from_bits(location.reading.latitude))
        .collect();
    assert_eq!(latitudes, vec![1.0, 2.0, 3.0]);
    assert_eq!(
        listed.iter().map(|l| l.id.unwrap()).collect::<Vec<_>>(),
        vec![2, 1, 3]
    );
}

#[test]
fn track_goes_back_as_many_days_as_asked() {
    let conn = open();
    register(&conn, 7, "Phone", NOON);
    for days in 0..7 {
        report(&conn, 7, days as f64, NOON + days * DAY).unwrap();
    }
    let now = at(NOON + 6 * DAY);
    for (asked, listed) in [
        (None, 7),
        (Some(1), 2),
        (Some(3), 4),
        (Some(0), 2),
        (Some(-5), 2),
        (Some(100), 7),
    ] {
        let op = list_tracks(7, TrackQuery { days: asked });
        assert_eq!(track(run_at(&conn, op, now)).len(), listed);
    }
}

#[test]
fn deleting_a_device_deletes_its_locations() {
    let conn = open();
    register(&conn, 7, "Phone", NOON);
    register(&conn, 8, "Tablet", NOON);
    report(&conn, 7, 1.0, NOON).unwrap();
    report(&conn, 8, 2.0, NOON).unwrap();
    assert_eq!(
        deleted(run_at(&conn, StoreOp::DeleteDevice { id: 7 }, at(NOON))),
        1
    );
    assert_eq!(count(&conn, "devices"), 1);
    assert_eq!(count(&conn, "locations"), 1);
}

#[test]
fn deleting_locations_leaves_the_device() {
    let conn = open();
    register(&conn, 7, "Phone", NOON);
    register(&conn, 8, "Tablet", NOON);
    for now in [NOON, NOON + 1, NOON + 2] {
        report(&conn, 7, 1.0, now).unwrap();
    }
    report(&conn, 8, 2.0, NOON).unwrap();
    let op = StoreOp::DeleteDeviceLocations { id: 7 };
    assert_eq!(deleted(run_at(&conn, op, at(NOON))), 3);
    assert_eq!(count(&conn, "devices"), 2);
    assert_eq!(count(&conn, "locations"), 1);
    let op = StoreOp::DeleteDeviceLocations { id: 7 };
    assert_eq!(deleted(run_at(&conn, op, at(NOON))), 0);
}

#[test]
fn sweep_deletes_what_was_updated_before_the_cutoff() {
    let conn = open();
    register(&conn, 1, "old", NOON - 1);
    register(&conn, 2, "edge", NOON);
    register(&conn, 3, "new", NOON + 5 * DAY);
    report(&conn, 1, 1.0, NOON - 1).unwrap();
    let op = StoreOp::DeleteStaleDevices { days: 30 };
    assert_eq!(deleted(run_at(&conn, op, at(NOON + 30 * DAY))), 1);
    let left = devices(run_at(&conn, StoreOp::ListDevices, at(NOON)));
    let ids: Vec<u128> = left.iter().map(|device| device.id).collect();
    assert_eq!(ids, vec![3, 2]);
    assert_eq!(count(&conn, "locations"), 0);
}

fn days_set(conn: &Connection) -> Option<i64> {
    match run_at(conn, StoreOp::AutoCleanupDays, at(NOON)) {
        Ok(Outcome::Days(days)) => days,
        other => panic!("no setting: {other:?}"),
    }
}

fn set_days(conn: &Connection, days: Option<i64>) {
    let result = run_at(conn, StoreOp::SetAutoCleanupDays { days }, at(NOON));
    assert!(matches!(result, Ok(Outcome::Saved)));
}

#[test]
fn setting_reads_back_what_was_set() {
    let conn = open();
    assert_eq!(days_set(&conn), None);
    set_days(&conn, Some(30));
    assert_eq!(days_set(&conn), Some(30));
    set_days(&conn, Some(36500));
    assert_eq!(days_set(&conn), Some(36500));
    set_days(&conn, None);
    assert_eq!(days_set(&conn), None);
    set_days(&conn, None);
    assert_eq!(count(&conn, "settings"), 0);
}

#[test]
fn setting_that_is_no_number_is_refused() {
    let conn = open();
    set_days(&conn, Some(30));
    conn.execute("UPDATE settings SET value = 'soon'", [])
        .unwrap();
    assert_eq!(
        refused(run_at(&conn, StoreOp::AutoCleanupDays, at(NOON))),
        (500, "invalid auto cleanup setting".to_string())
    );
}

#[test]
fn unreadable_rows_are_named_in_the_refusal() {
    let conn = open();
    register(&conn, 7, "Phone", NOON);
    conn.execute("UPDATE devices SET created_at = 'long ago'", [])
        .unwrap();
    let detail = chrono::DateTime::parse_from_rfc3339("long ago").unwrap_err();
    let outside = rusqlite::Error::FromSqlConversionFailure(
        0,
        rusqlite::types::Type::Text,
        Box::new(detail),
    );
    let expected = (500, outside.to_string());
    assert_eq!(
        expected.1,
        format!("Conversion error from type Text at index: 0, {detail}")
    );
    assert_eq!(
        refused(run_at(&conn, StoreOp::ListDevices, at(NOON))),
        expected
    );
    assert_eq!(
        refused(run_at(&conn, StoreOp::ListAdminDevices, at(NOON))),
        expected
    );
    conn.execute("UPDATE devices SET id = 'seven'", []).unwrap();
    let detail = uuid::Uuid::parse_str("seven").unwrap_err();
    assert_eq!(
        refused(run_at(&conn, StoreOp::ListDevices, at(NOON))),
        (
            500,
            format!("Conversion error from type Text at index: 0, {detail}")
        )
    );
}

#[test]
fn failures_of_the_database_are_internal() {
    let conn = Connection::open_in_memory().unwrap();
    let (status, message) = refused(run_at(&conn, StoreOp::ListDevices, at(NOON)));
    assert_eq!(status, 500);
    assert!(message.contains("no such table: devices"));
}

#[test]
fn replies_that_do_not_belong_are_refused() {
    let step = StoreOp::ListDevices.begin(at(NOON));
    match step {
        Step::Ask { query: _, next } => match next.resume(Reply::Changed(1), at(NOON)) {
            Step::Done(result) => assert_eq!(
                refused(result),
                (500, "unexpected reply of the database".to_string())
            ),
            Step::Ask { .. } => panic!("asked on"),
        },
        Step::Done(_) => panic!("done"),
    }
}

#[test]
fn rows_that_break_off_are_refused() {
    let step = StoreOp::ListDevices.begin(at(NOON));
    match step {
        Step::Ask { query: _, next } => {
            let reply = Reply::Devices {
                rows: vec![],
                failure: Some("disk I/O error".to_string()),
            };
            match next.resume(reply, at(NOON)) {
                Step::Done(result) => {
                    assert_eq!(refused(result), (500, "disk I/O error".to_string()))
                }
                Step::Ask { .. } => panic!("asked on"),
            }
        }
        Step::Done(_) => panic!("done"),
    }
}

#[test]
fn cutoffs_off_the_calendar_are_not_begun() {
    assert!(StoreOp::DeleteStaleDevices { days: i64::MAX }
        .start()
        .is_none());
    assert!(StoreOp::DeleteStaleDevices { days: 36500 }
        .start()
        .is_some());
    assert!(!StoreOp::DeleteStaleDevices { days: i64::MIN }.can_begin(at(NOON)));
    match (StoreOp::ListTracks {
        id: 1,
        days: i64::MAX,
    })
    .begin(at(NOON))
    {
        Step::Ask { query: _, next } => {
            assert!(!next.can_resume(&Reply::Found(true), at(NOON)));
            assert!(next.can_resume(&Reply::Found(false), at(NOON)));
            assert!(next.proceed(Reply::Found(true)).is_none());
        }
        Step::Done(_) => panic!("done"),
    }
}

#[test]
fn track_of_no_device_is_refused_whatever_days_are_asked() {
    let conn = open();
    let op = StoreOp::ListTracks {
        id: 1,
        days: i64::MAX,
    };
    assert_eq!(
        refused(run(&conn, op)),
        (404, "device not found".to_string())
    );
    let op = StoreOp::ListTracks {
        id: 1,
        days: i64::MAX,
    };
    match op.start() {
        Some(Step::Ask { query: _, next }) => {
            match next.proceed(Reply::Failed("broken".to_string())) {
                Some(Step::Done(result)) => {
                    assert_eq!(refused(result), (500, "broken".to_string()))
                }
                other => panic!("not refused: {other:?}"),
            }
        }
        other => panic!("not begun: {other:?}"),
    }
}

#[test]
fn numbers_come_back_as_the_database_keeps_them() {
    let conn = open();
    register(&conn, 7, "Phone", NOON);
    let mut payload = LocationRequest {
        reading: reading(-0.0, 0.1),
        captured_at: None,
    };
    payload.reading.accuracy = Some(f64::NAN.to_bits());
    payload.reading.altitude = Some((-0.0f64).to_bits());
    payload.reading.heading = Some(f64::INFINITY.to_bits());
    payload.reading.speed = Some(5e-324f64.to_bits());
    payload.reading.battery_level = Some((-3.0f64).to_bits());
    let op = report_at(7, payload, at(NOON), at(NOON)).unwrap();
    let last = device(run_at(&conn, op, at(NOON))).last_location.unwrap();
    assert_eq!(last.reading.latitude, 0.0f64.to_bits());
    assert_eq!(last.reading.longitude, 0.1f64.to_bits());
    assert_eq!(last.reading.accuracy, None);
    assert_eq!(last.reading.altitude, Some(0.0f64.to_bits()));
    assert_eq!(last.reading.heading, Some(f64::INFINITY.to_bits()));
    assert_eq!(last.reading.speed, Some(5e-324f64.to_bits()));
    assert_eq!(last.reading.battery_level, Some((-3.0f64).to_bits()));
}

fn sweep(conn: &Connection) -> SweepNote {
    let mut step = run_auto_cleanup();
    loop {
        match step {
            SweepStep::Ask { op, next } => step = next.resume(run(conn, op)),
            SweepStep::Done(note) => return note,
        }
    }
}

#[test]
fn sweep_follows_the_setting() {
    let conn = open();
    register(&conn, 1, "old", NOON);
    assert!(matches!(sweep(&conn), SweepNote::Nothing));
    assert_eq!(count(&conn, "devices"), 1);
    set_days(&conn, Some(36500));
    assert!(matches!(sweep(&conn), SweepNote::Nothing));
    assert_eq!(count(&conn, "devices"), 1);
    set_days(&conn, Some(1));
    assert!(matches!(sweep(&conn), SweepNote::Deleted(1)));
    assert_eq!(count(&conn, "devices"), 0);
    conn.execute("UPDATE settings SET value = 'x'", []).unwrap();
    assert!(matches!(
        sweep(&conn),
        SweepNote::SettingFailed(message) if message == "invalid auto cleanup setting"
    ));
}

#[test]
fn sweep_that_fails_is_noted() {
    let conn = open();
    register(&conn, 1, "old", NOON);
    set_days(&conn, Some(1));
    conn.execute_batch(
        "CREATE TRIGGER stop BEFORE DELETE ON devices BEGIN SELECT RAISE(ABORT, 'stopped'); END",
    )
    .unwrap();
    assert!(matches!(
        sweep(&conn),
        SweepNote::SweepFailed(message) if message == "stopped"
    ));
}

#[test]
fn sweep_follows_a_report_and_leaves_its_answer() {
    let conn = open();
    register(&conn, 1, "old", NOON);
    register(&conn, 7, "Phone", NOON);
    set_days(&conn, Some(1));
    let payload = LocationRequest {
        reading: reading(31.0, 121.0),
        captured_at: Some(at(NOON)),
    };
    let mut step = ReportStep::Ask {
        op: update_location(7, payload).unwrap(),
        next: ReportJob::Stored,
    };
    let (answer, note) = loop {
        match step {
            ReportStep::Ask { op, next } => step = next.resume(run(&conn, op)),
            ReportStep::Done { answer, note } => break (answer, note),
        }
    };
    let device = answer.unwrap();
    assert_eq!(device.id, 7);
    let last = device.last_location.unwrap();
    assert_eq!(last.captured_at.secs(), NOON);
    assert!(last.received_at.secs() > NOON);
    assert!(matches!(note, SweepNote::Deleted(1)));
    assert_eq!(count(&conn, "devices"), 1);
}

#[test]
fn no_sweep_follows_a_report_that_is_refused() {
    match ReportJob::Stored.resume(Err(ApiError::not_found("device not found"))) {
        ReportStep::Done { answer, note } => {
            assert_eq!(answer.unwrap_err().status, 404);
            assert!(matches!(note, SweepNote::Nothing));
        }
        ReportStep::Ask { .. } => panic!("asked on"),
    }
}

fn state() -> AppState {
    AppState {
        token: "token".to_string(),
        admin_password: "password".to_string(),
        admin_path: "/admin".to_string(),
        admin_session: "s3cret".to_string(),
        map_config: MapConfig::from_env(None, None, None, None),
    }
}

const COOKIES: Option<&[u8]> = Some(b"guideng_admin_session=s3cret");

fn carry_out(conn: &Connection, mut step: AdminStep) -> Result<WebAnswer, ApiError> {
    let state = state();
    loop {
        match step {
            AdminStep::Ask { op, next } => step = next.resume(&state, run(conn, op)),
            AdminStep::Done(answer) => return answer,
        }
    }
}

fn target(answer: Result<WebAnswer, ApiError>) -> String {
    match answer {
        Ok(WebAnswer::Redirect { to, cookie: None }) => to,
        other => panic!("no redirect: {other:?}"),
    }
}

fn english() -> Option<String> {
    Some("en".to_string())
}

#[test]
fn admin_page_shows_devices_setting_and_notice() {
    let conn = open();
    register(&conn, 7, "<Phone>", NOON);
    report(&conn, 7, 31.2, NOON).unwrap();
    report(&conn, 7, 31.2304, NOON + 1).unwrap();
    set_days(&conn, Some(30));
    let query = AdminQuery {
        message: None,
        msg: Some("stale_devices_deleted".to_string()),
        count: Some(2),
        lang: english(),
    };
    match carry_out(&conn, admin_index(&state(), COOKIES, query)) {
        Ok(WebAnswer::Page { status, html }) => {
            assert_eq!(status, 200);
            assert!(html.contains("<strong>&lt;Phone&gt;</strong>"));
            assert!(html.contains("<td>31.230400, 121.500000</td>"));
            assert!(html.contains("<td>2</td>"));
            assert!(html.contains("2 stale devices deleted"));
            assert!(html.contains("inactive for over 30 days"));
            assert!(html.contains(r#"value="30" placeholder="Leave empty to disable""#));
        }
        other => panic!("no page: {other:?}"),
    }
}

#[test]
fn admin_deletes_locations_and_devices() {
    let conn = open();
    register(&conn, 7, "Phone", NOON);
    report(&conn, 7, 1.0, NOON).unwrap();
    report(&conn, 7, 2.0, NOON + 1).unwrap();
    let form = LangForm { lang: english() };
    let step = admin_delete_locations(&state(), COOKIES, 7, form);
    assert_eq!(
        target(carry_out(&conn, step)),
        "/admin?lang=en&msg=location_records_deleted&count=2"
    );
    let step = admin_delete_device(&state(), COOKIES, 7, LangForm { lang: None });
    assert_eq!(
        target(carry_out(&conn, step)),
        "/admin?lang=zh&msg=device_deleted"
    );
    let step = admin_delete_device(&state(), COOKIES, 7, LangForm { lang: None });
    let error = carry_out(&conn, step).unwrap_err();
    assert_eq!((error.status, error.message.as_str()), (404, "device not found"));
}

#[test]
fn admin_sweeps_and_sets_when_to_sweep() {
    let conn = open();
    for id in 1..=3 {
        register(&conn, id, "old", NOON);
    }
    let form = DaysForm {
        days: 1,
        lang: english(),
    };
    let step = admin_delete_stale(&state(), COOKIES, form);
    assert_eq!(
        target(carry_out(&conn, step)),
        "/admin?lang=en&msg=stale_devices_deleted&count=3"
    );
    register(&conn, 4, "old", NOON);
    let form = AutoCleanupForm {
        days: Some(2),
        lang: english(),
    };
    let step = admin_set_auto_cleanup(&state(), COOKIES, form);
    assert_eq!(
        target(carry_out(&conn, step)),
        "/admin?lang=en&msg=auto_cleanup_saved&count=1"
    );
    assert_eq!(days_set(&conn), Some(2));
    for days in [None, Some(0), Some(-3)] {
        set_days(&conn, Some(9));
        let form = AutoCleanupForm { days, lang: None };
        let step = admin_set_auto_cleanup(&state(), COOKIES, form);
        assert_eq!(
            target(carry_out(&conn, step)),
            "/admin?lang=zh&msg=auto_cleanup_disabled"
        );
        assert_eq!(days_set(&conn), None);
    }
}

#[test]
fn track_of_fewer_days_is_the_end_of_that_of_more() {
    let conn = open();
    register(&conn, 7, "Phone", NOON);
    for half_days in 0..14 {
        report(&conn, 7, half_days as f64, NOON + half_days * DAY / 2).unwrap();
    }
    let now = at(NOON + 7 * DAY - DAY / 2);
    let keys = |days: i64| -> Vec<i64> {
        track(run_at(&conn, StoreOp::ListTracks { id: 7, days }, now))
            .iter()
            .map(|location| location.id.unwrap())
            .collect()
    };
    for few in 1..=7 {
        for many in few..=7 {
            assert!(keys(many).ends_with(&keys(few)));
        }
    }
    assert_eq!(keys(1).len(), 3);
    assert_eq!(keys(7).len(), 14);
}

#[test]
fn admin_list_counts_locations() {
    let conn = open();
    register(&conn, 1, "one", NOON);
    register(&conn, 2, "two", NOON + 1);
    report(&conn, 1, 10.0, NOON + 2).unwrap();
    report(&conn, 1, 11.0, NOON + 3).unwrap();
    match run_at(&conn, StoreOp::ListAdminDevices, at(NOON + 4)) {
        Ok(Outcome::AdminDevices(devices)) => {
            assert_eq!(devices.len(), 2);
            assert_eq!(devices[0].device.id, 1);
            assert_eq!(devices[0].location_count, 2);
            let last = devices[0].device.last_location.as_ref().unwrap();
            assert_eq!(last.reading.latitude, 11.0f64.to_bits());
            assert_eq!(devices[0].coordinates.0, "11.000000");
            assert_eq!(devices[1].device.id, 2);
            assert_eq!(devices[1].location_count, 0);
            assert!(devices[1].device.last_location.is_none());
        }
        other => panic!("no devices: {other:?}"),
    }
}

#[test]
fn report_leaves_name_platform_and_creation() {
    let conn = open();
    register(&conn, 7, "Phone", NOON);
    let device = device(report(&conn, 7, 1.0, NOON + 60));
    assert_eq!(device.name, "Phone");
    assert_eq!(device.platform.as_deref(), Some("web"));
    assert_eq!(device.created_at.secs(), NOON);
    assert_eq!(device.updated_at.secs(), NOON + 60);
}

#[test]
fn sweeps_are_a_day_apart() {
    assert_eq!(SWEEP_INTERVAL_SECS, 60 * 60 * 24);
}

#[test]
fn device_is_updated_at_the_moment_it_was_found() {
    let conn = open();
    register(&conn, 7, "Phone", NOON);
    let payload = LocationRequest {
        reading: reading(1.0, 2.0),
        captured_at: None,
    };
    let op = report_at(7, payload, at(NOON), at(NOON)).unwrap();
    let mut now = NOON + 10;
    let mut step = op.begin(at(now));
    let device = loop {
        match step {
            Step::Done(result) => break device(result),
            Step::Ask { query, next } => {
                now += 1;
                if let Query::TouchDevice { now: text, .. } = &query {
                    assert_eq!(*text, time_to_text(at(NOON + 12)));
                }
                step = next.resume(reply(&conn, &query), at(now));
            }
        }
    };
    assert_eq!(device.updated_at.secs(), NOON + 12);
}
