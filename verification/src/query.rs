//! The statements that the server asks of its database.

use vstd::prelude::*;

use crate::records::Reading;

verus! {

/// How the database is set up when it is opened.
pub const JOURNAL_MODE: &'static str = "WAL";

/// Whether deleting a device deletes its locations.
pub const FOREIGN_KEYS: &'static str = "ON";

/// The tables of the database.
pub const SCHEMA: &'static str = r#"
CREATE TABLE IF NOT EXISTS devices (
    id TEXT PRIMARY KEY NOT NULL,
    name TEXT NOT NULL,
    platform TEXT,
    created_at TEXT NOT NULL,
    updated_at TEXT NOT NULL
);

CREATE TABLE IF NOT EXISTS locations (
    id INTEGER PRIMARY KEY AUTOINCREMENT,
    device_id TEXT NOT NULL,
    latitude REAL NOT NULL,
    longitude REAL NOT NULL,
    accuracy REAL,
    altitude REAL,
    heading REAL,
    speed REAL,
    battery_level REAL,
    captured_at TEXT NOT NULL,
    received_at TEXT NOT NULL,
    FOREIGN KEY(device_id) REFERENCES devices(id) ON DELETE CASCADE
);

CREATE INDEX IF NOT EXISTS idx_locations_device_received
    ON locations(device_id, received_at DESC);

CREATE TABLE IF NOT EXISTS settings (
    key TEXT PRIMARY KEY NOT NULL,
    value TEXT NOT NULL
);
"#;

pub const BEGIN: &'static str = "BEGIN DEFERRED";

pub const COMMIT: &'static str = "COMMIT";

pub const ROLLBACK: &'static str = "ROLLBACK";

pub const FIND_DEVICE: &'static str = "SELECT id FROM devices WHERE id = ?1";

pub const DEVICE_BY_ID: &'static str = r#"
SELECT
    d.id, d.name, d.platform, d.created_at, d.updated_at,
    l.id, l.latitude, l.longitude, l.accuracy, l.altitude, l.heading,
    l.speed, l.battery_level, l.captured_at, l.received_at
FROM devices d
LEFT JOIN locations l ON l.id = (
    SELECT id FROM locations
    WHERE device_id = d.id
    ORDER BY received_at DESC, id DESC
    LIMIT 1
)
WHERE d.id = ?1
"#;

pub const ALL_DEVICES: &'static str = r#"
SELECT
    d.id, d.name, d.platform, d.created_at, d.updated_at,
    l.id, l.latitude, l.longitude, l.accuracy, l.altitude, l.heading,
    l.speed, l.battery_level, l.captured_at, l.received_at
FROM devices d
LEFT JOIN locations l ON l.id = (
    SELECT id FROM locations
    WHERE device_id = d.id
    ORDER BY received_at DESC, id DESC
    LIMIT 1
)
ORDER BY d.updated_at DESC
"#;

pub const ALL_ADMIN_DEVICES: &'static str = r#"
SELECT
    d.id, d.name, d.platform, d.created_at, d.updated_at,
    l.id, l.latitude, l.longitude, l.accuracy, l.altitude, l.heading,
    l.speed, l.battery_level, l.captured_at, l.received_at,
    COUNT(all_l.id) AS location_count
FROM devices d
LEFT JOIN locations l ON l.id = (
    SELECT id FROM locations
    WHERE device_id = d.id
    ORDER BY received_at DESC, id DESC
    LIMIT 1
)
LEFT JOIN locations all_l ON all_l.device_id = d.id
GROUP BY
    d.id, d.name, d.platform, d.created_at, d.updated_at,
    l.id, l.latitude, l.longitude, l.accuracy, l.altitude, l.heading,
    l.speed, l.battery_level, l.captured_at, l.received_at
ORDER BY d.updated_at DESC
"#;

pub const UPSERT_DEVICE: &'static str = r#"
INSERT INTO devices (id, name, platform, created_at, updated_at)
VALUES (?1, ?2, ?3, ?4, ?4)
ON CONFLICT(id) DO UPDATE SET
    name = excluded.name,
    platform = excluded.platform,
    updated_at = excluded.updated_at
"#;

pub const UPDATE_DEVICE: &'static str =
    "UPDATE devices SET name = ?1, platform = ?2, updated_at = ?3 WHERE id = ?4";

pub const INSERT_LOCATION: &'static str = r#"
INSERT INTO locations (
    device_id, latitude, longitude, accuracy, altitude, heading, speed,
    battery_level, captured_at, received_at
)
VALUES (?1, ?2, ?3, ?4, ?5, ?6, ?7, ?8, ?9, ?10)
"#;

pub const TOUCH_DEVICE: &'static str = "UPDATE devices SET updated_at = ?1 WHERE id = ?2";

pub const PRUNE_LOCATIONS: &'static str = "DELETE FROM locations WHERE received_at < ?1";

pub const DELETE_LOCATIONS: &'static str = "DELETE FROM locations WHERE device_id = ?1";

pub const DELETE_DEVICE: &'static str = "DELETE FROM devices WHERE id = ?1";

pub const DELETE_STALE_DEVICES: &'static str = "DELETE FROM devices WHERE updated_at < ?1";

pub const READ_SETTING: &'static str = "SELECT value FROM settings WHERE key = ?1";

pub const WRITE_SETTING: &'static str = r#"
INSERT INTO settings (key, value)
VALUES (?1, ?2)
ON CONFLICT(key) DO UPDATE SET value = excluded.value
"#;

pub const CLEAR_SETTING: &'static str = "DELETE FROM settings WHERE key = ?1";

pub const TRACK: &'static str = r#"
SELECT id, latitude, longitude, accuracy, altitude, heading, speed,
       battery_level, captured_at, received_at
FROM locations
WHERE device_id = ?1 AND received_at >= ?2
ORDER BY received_at ASC, id ASC
"#;

/// A statement, with what it is asked of.
pub enum Statement {
    Begin,
    Commit,
    Rollback,
    FindDevice { id: Seq<char> },
    DeviceById { id: Seq<char> },
    AllDevices,
    AllAdminDevices,
    UpsertDevice { id: Seq<char>, name: Seq<char>, platform: Option<Seq<char>>, now: Seq<char> },
    UpdateDevice { name: Seq<char>, platform: Option<Seq<char>>, now: Seq<char>, id: Seq<char> },
    InsertLocation {
        device_id: Seq<char>,
        reading: Reading,
        captured_at: Seq<char>,
        received_at: Seq<char>,
    },
    TouchDevice { now: Seq<char>, id: Seq<char> },
    PruneLocations { before: Seq<char> },
    DeleteLocations { device_id: Seq<char> },
    DeleteDevice { id: Seq<char> },
    DeleteStaleDevices { before: Seq<char> },
    ReadSetting { key: Seq<char> },
    WriteSetting { key: Seq<char>, value: Seq<char> },
    ClearSetting { key: Seq<char> },
    Track { device_id: Seq<char>, since: Seq<char> },
}

/// A statement for the database to carry out.
#[derive(Debug)]
pub enum Query {
    /// Starts a transaction.
    Begin,
    /// Ends the transaction and keeps what was done in it.
    Commit,
    /// Ends the transaction and undoes what was done in it.
    Rollback,
    /// Looks whether there is a device with this identifier.
    FindDevice { id: String },
    /// Reads one device with its last location.
    DeviceById { id: String },
    /// Reads all devices with their last locations, the last updated first.
    AllDevices,
    /// Reads all devices with their last locations and with the number of their
    /// locations, the last updated first.
    AllAdminDevices,
    /// Adds a device; gives one that is there already a new name, a new platform
    /// and a new time of its update.
    UpsertDevice { id: String, name: String, platform: Option<String>, now: String },
    /// Gives a device a new name, a new platform and a new time of its update.
    UpdateDevice { name: String, platform: Option<String>, now: String, id: String },
    /// Adds a location.
    InsertLocation {
        device_id: String,
        reading: Reading,
        captured_at: String,
        received_at: String,
    },
    /// Gives a device a new time of its update.
    TouchDevice { now: String, id: String },
    /// Deletes the locations of all devices that were received before a time.
    PruneLocations { before: String },
    /// Deletes the locations of one device.
    DeleteLocations { device_id: String },
    /// Deletes one device with its locations.
    DeleteDevice { id: String },
    /// Deletes the devices that were last updated before a time, with their
    /// locations.
    DeleteStaleDevices { before: String },
    /// Reads a setting.
    ReadSetting { key: String },
    /// Gives a setting a value.
    WriteSetting { key: String, value: String },
    /// Takes the value of a setting away.
    ClearSetting { key: String },
    /// Reads the locations of one device that were received at a time or after
    /// it, in the order in which they were received.
    Track { device_id: String, since: String },
}

impl DeepView for Query {
    type V = Statement;

    open spec fn deep_view(&self) -> Statement {
        match *self {
            Query::Begin => Statement::Begin,
            Query::Commit => Statement::Commit,
            Query::Rollback => Statement::Rollback,
            Query::FindDevice { id } => Statement::FindDevice { id: id@ },
            Query::DeviceById { id } => Statement::DeviceById { id: id@ },
            Query::AllDevices => Statement::AllDevices,
            Query::AllAdminDevices => Statement::AllAdminDevices,
            Query::UpsertDevice { id, name, platform, now } => Statement::UpsertDevice {
                id: id@,
                name: name@,
                platform: platform.deep_view(),
                now: now@,
            },
            Query::UpdateDevice { name, platform, now, id } => Statement::UpdateDevice {
                name: name@,
                platform: platform.deep_view(),
                now: now@,
                id: id@,
            },
            Query::InsertLocation { device_id, reading, captured_at, received_at } => {
                Statement::InsertLocation {
                    device_id: device_id@,
                    reading,
                    captured_at: captured_at@,
                    received_at: received_at@,
                }
            },
            Query::TouchDevice { now, id } => Statement::TouchDevice { now: now@, id: id@ },
            Query::PruneLocations { before } => Statement::PruneLocations { before: before@ },
            Query::DeleteLocations { device_id } => Statement::DeleteLocations {
                device_id: device_id@,
            },
            Query::DeleteDevice { id } => Statement::DeleteDevice { id: id@ },
            Query::DeleteStaleDevices { before } => Statement::DeleteStaleDevices {
                before: before@,
            },
            Query::ReadSetting { key } => Statement::ReadSetting { key: key@ },
            Query::WriteSetting { key, value } => Statement::WriteSetting {
                key: key@,
                value: value@,
            },
            Query::ClearSetting { key } => Statement::ClearSetting { key: key@ },
            Query::Track { device_id, since } => Statement::Track {
                device_id: device_id@,
                since: since@,
            },
        }
    }
}

/// A value that is bound to a place in a statement.
pub enum Binding {
    Null,
    Real(u64),
    Text(Seq<char>),
}

/// A value to bind to a place in a statement. A real number is given by its bit
/// pattern.
#[derive(Debug)]
pub enum SqlValue {
    Null,
    Real(u64),
    Text(String),
}

impl DeepView for SqlValue {
    type V = Binding;

    open spec fn deep_view(&self) -> Binding {
        match *self {
            SqlValue::Null => Binding::Null,
            SqlValue::Real(bits) => Binding::Real(bits),
            SqlValue::Text(text) => Binding::Text(text@),
        }
    }
}

/// The binding of an optional real number.
pub open spec fn real_or_null(bits: Option<u64>) -> Binding {
    match bits {
        Some(bits) => Binding::Real(bits),
        None => Binding::Null,
    }
}

/// The binding of an optional text.
pub open spec fn text_or_null(text: Option<Seq<char>>) -> Binding {
    match text {
        Some(text) => Binding::Text(text),
        None => Binding::Null,
    }
}

impl Statement {
    /// The SQL of the statement.
    pub open spec fn sql(self) -> Seq<char> {
        match self {
            Statement::Begin => BEGIN@,
            Statement::Commit => COMMIT@,
            Statement::Rollback => ROLLBACK@,
            Statement::FindDevice { .. } => FIND_DEVICE@,
            Statement::DeviceById { .. } => DEVICE_BY_ID@,
            Statement::AllDevices => ALL_DEVICES@,
            Statement::AllAdminDevices => ALL_ADMIN_DEVICES@,
            Statement::UpsertDevice { .. } => UPSERT_DEVICE@,
            Statement::UpdateDevice { .. } => UPDATE_DEVICE@,
            Statement::InsertLocation { .. } => INSERT_LOCATION@,
            Statement::TouchDevice { .. } => TOUCH_DEVICE@,
            Statement::PruneLocations { .. } => PRUNE_LOCATIONS@,
            Statement::DeleteLocations { .. } => DELETE_LOCATIONS@,
            Statement::DeleteDevice { .. } => DELETE_DEVICE@,
            Statement::DeleteStaleDevices { .. } => DELETE_STALE_DEVICES@,
            Statement::ReadSetting { .. } => READ_SETTING@,
            Statement::WriteSetting { .. } => WRITE_SETTING@,
            Statement::ClearSetting { .. } => CLEAR_SETTING@,
            Statement::Track { .. } => TRACK@,
        }
    }

    /// The values bound to the places `?1`, `?2` and so on of the SQL.
    pub open spec fn bindings(self) -> Seq<Binding> {
        match self {
            Statement::FindDevice { id } => seq![Binding::Text(id)],
            Statement::DeviceById { id } => seq![Binding::Text(id)],
            Statement::UpsertDevice { id, name, platform, now } => seq![
                Binding::Text(id),
                Binding::Text(name),
                text_or_null(platform),
                Binding::Text(now),
            ],
            Statement::UpdateDevice { name, platform, now, id } => seq![
                Binding::Text(name),
                text_or_null(platform),
                Binding::Text(now),
                Binding::Text(id),
            ],
            Statement::InsertLocation { device_id, reading, captured_at, received_at } => seq![
                Binding::Text(device_id),
                Binding::Real(reading.latitude),
                Binding::Real(reading.longitude),
                real_or_null(reading.accuracy),
                real_or_null(reading.altitude),
                real_or_null(reading.heading),
                real_or_null(reading.speed),
                real_or_null(reading.battery_level),
                Binding::Text(captured_at),
                Binding::Text(received_at),
            ],
            Statement::TouchDevice { now, id } => seq![Binding::Text(now), Binding::Text(id)],
            Statement::PruneLocations { before } => seq![Binding::Text(before)],
            Statement::DeleteLocations { device_id } => seq![Binding::Text(device_id)],
            Statement::DeleteDevice { id } => seq![Binding::Text(id)],
            Statement::DeleteStaleDevices { before } => seq![Binding::Text(before)],
            Statement::ReadSetting { key } => seq![Binding::Text(key)],
            Statement::WriteSetting { key, value } => seq![
                Binding::Text(key),
                Binding::Text(value),
            ],
            Statement::ClearSetting { key } => seq![Binding::Text(key)],
            Statement::Track { device_id, since } => seq![
                Binding::Text(device_id),
                Binding::Text(since),
            ],
            _ => Seq::empty(),
        }
    }
}

fn real_value(bits: Option<u64>) -> (r: SqlValue)
    ensures
        r.deep_view() == real_or_null(bits),
{
    match bits {
        Some(bits) => SqlValue::Real(bits),
        None => SqlValue::Null,
    }
}

fn text_value(text: &String) -> (r: SqlValue)
    ensures
        r.deep_view() == Binding::Text(text@),
{
    SqlValue::Text(text.clone())
}

fn optional_text_value(text: &Option<String>) -> (r: SqlValue)
    ensures
        r.deep_view() == text_or_null(text.deep_view()),
{
    match text {
        Some(text) => SqlValue::Text(text.clone()),
        None => SqlValue::Null,
    }
}

impl Query {
    /// The SQL of the statement.
    pub fn sql(&self) -> (r: &'static str)
        ensures
            r@ == self.deep_view().sql(),
    {
        match self {
            Query::Begin => BEGIN,
            Query::Commit => COMMIT,
            Query::Rollback => ROLLBACK,
            Query::FindDevice { .. } => FIND_DEVICE,
            Query::DeviceById { .. } => DEVICE_BY_ID,
            Query::AllDevices => ALL_DEVICES,
            Query::AllAdminDevices => ALL_ADMIN_DEVICES,
            Query::UpsertDevice { .. } => UPSERT_DEVICE,
            Query::UpdateDevice { .. } => UPDATE_DEVICE,
            Query::InsertLocation { .. } => INSERT_LOCATION,
            Query::TouchDevice { .. } => TOUCH_DEVICE,
            Query::PruneLocations { .. } => PRUNE_LOCATIONS,
            Query::DeleteLocations { .. } => DELETE_LOCATIONS,
            Query::DeleteDevice { .. } => DELETE_DEVICE,
            Query::DeleteStaleDevices { .. } => DELETE_STALE_DEVICES,
            Query::ReadSetting { .. } => READ_SETTING,
            Query::WriteSetting { .. } => WRITE_SETTING,
            Query::ClearSetting { .. } => CLEAR_SETTING,
            Query::Track { .. } => TRACK,
        }
    }

    /// The values to bind to the places `?1`, `?2` and so on of the SQL.
    pub fn bindings(&self) -> (r: Vec<SqlValue>)
        ensures
            r.deep_view() == self.deep_view().bindings(),
    {
        let mut out: Vec<SqlValue> = Vec::new();
        match self {
            Query::FindDevice { id } => {
                out.push(text_value(id));
            },
            Query::DeviceById { id } => {
                out.push(text_value(id));
            },
            Query::UpsertDevice { id, name, platform, now } => {
                out.push(text_value(id));
                out.push(text_value(name));
                out.push(optional_text_value(platform));
                out.push(text_value(now));
            },
            Query::UpdateDevice { name, platform, now, id } => {
                out.push(text_value(name));
                out.push(optional_text_value(platform));
                out.push(text_value(now));
                out.push(text_value(id));
            },
            Query::InsertLocation { device_id, reading, captured_at, received_at } => {
                out.push(text_value(device_id));
                out.push(SqlValue::Real(reading.latitude));
                out.push(SqlValue::Real(reading.longitude));
                out.push(real_value(reading.accuracy));
                out.push(real_value(reading.altitude));
                out.push(real_value(reading.heading));
                out.push(real_value(reading.speed));
                out.push(real_value(reading.battery_level));
                out.push(text_value(captured_at));
                out.push(text_value(received_at));
            },
            Query::TouchDevice { now, id } => {
                out.push(text_value(now));
                out.push(text_value(id));
            },
            Query::PruneLocations { before } => {
                out.push(text_value(before));
            },
            Query::DeleteLocations { device_id } => {
                out.push(text_value(device_id));
            },
            Query::DeleteDevice { id } => {
                out.push(text_value(id));
            },
            Query::DeleteStaleDevices { before } => {
                out.push(text_value(before));
            },
            Query::ReadSetting { key } => {
                out.push(text_value(key));
            },
            Query::WriteSetting { key, value } => {
                out.push(text_value(key));
                out.push(text_value(value));
            },
            Query::ClearSetting { key } => {
                out.push(text_value(key));
            },
            Query::Track { device_id, since } => {
                out.push(text_value(device_id));
                out.push(text_value(since));
            },
            _ => {},
        }
        assert(out.deep_view() =~= self.deep_view().bindings());
        out
    }
}

/// What is sent to the database, word for word, for whatever values: the text
/// depends on the kind of the statement alone, a track and a list of devices have
/// no limit on their rows, and what is deleted is named by its condition.
pub proof fn law_sql_is_word_for_word(statement: Statement)
    ensures
        statement is Begin ==> statement.sql() == "BEGIN DEFERRED"@,
        statement is Commit ==> statement.sql() == "COMMIT"@,
        statement is Rollback ==> statement.sql() == "ROLLBACK"@,
        statement is FindDevice ==> statement.sql() == "SELECT id FROM devices WHERE id = ?1"@,
        statement is DeviceById ==> statement.sql() == r#"
SELECT
    d.id, d.name, d.platform, d.created_at, d.updated_at,
    l.id, l.latitude, l.longitude, l.accuracy, l.altitude, l.heading,
    l.speed, l.battery_level, l.captured_at, l.received_at
FROM devices d
LEFT JOIN locations l ON l.id = (
    SELECT id FROM locations
    WHERE device_id = d.id
    ORDER BY received_at DESC, id DESC
    LIMIT 1
)
WHERE d.id = ?1
"#@,
        statement is AllDevices ==> statement.sql() == r#"
SELECT
    d.id, d.name, d.platform, d.created_at, d.updated_at,
    l.id, l.latitude, l.longitude, l.accuracy, l.altitude, l.heading,
    l.speed, l.battery_level, l.captured_at, l.received_at
FROM devices d
LEFT JOIN locations l ON l.id = (
    SELECT id FROM locations
    WHERE device_id = d.id
    ORDER BY received_at DESC, id DESC
    LIMIT 1
)
ORDER BY d.updated_at DESC
"#@,
        statement is AllAdminDevices ==> statement.sql() == r#"
SELECT
    d.id, d.name, d.platform, d.created_at, d.updated_at,
    l.id, l.latitude, l.longitude, l.accuracy, l.altitude, l.heading,
    l.speed, l.battery_level, l.captured_at, l.received_at,
    COUNT(all_l.id) AS location_count
FROM devices d
LEFT JOIN locations l ON l.id = (
    SELECT id FROM locations
    WHERE device_id = d.id
    ORDER BY received_at DESC, id DESC
    LIMIT 1
)
LEFT JOIN locations all_l ON all_l.device_id = d.id
GROUP BY
    d.id, d.name, d.platform, d.created_at, d.updated_at,
    l.id, l.latitude, l.longitude, l.accuracy, l.altitude, l.heading,
    l.speed, l.battery_level, l.captured_at, l.received_at
ORDER BY d.updated_at DESC
"#@,
        statement is UpsertDevice ==> statement.sql() == r#"
INSERT INTO devices (id, name, platform, created_at, updated_at)
VALUES (?1, ?2, ?3, ?4, ?4)
ON CONFLICT(id) DO UPDATE SET
    name = excluded.name,
    platform = excluded.platform,
    updated_at = excluded.updated_at
"#@,
        statement is UpdateDevice ==> statement.sql() == "UPDATE devices SET name = ?1, platform = ?2, updated_at = ?3 WHERE id = ?4"@,
        statement is InsertLocation ==> statement.sql() == r#"
INSERT INTO locations (
    device_id, latitude, longitude, accuracy, altitude, heading, speed,
    battery_level, captured_at, received_at
)
VALUES (?1, ?2, ?3, ?4, ?5, ?6, ?7, ?8, ?9, ?10)
"#@,
        statement is TouchDevice ==> statement.sql() == "UPDATE devices SET updated_at = ?1 WHERE id = ?2"@,
        statement is PruneLocations ==> statement.sql() == "DELETE FROM locations WHERE received_at < ?1"@,
        statement is DeleteLocations ==> statement.sql() == "DELETE FROM locations WHERE device_id = ?1"@,
        statement is DeleteDevice ==> statement.sql() == "DELETE FROM devices WHERE id = ?1"@,
        statement is DeleteStaleDevices ==> statement.sql() == "DELETE FROM devices WHERE updated_at < ?1"@,
        statement is ReadSetting ==> statement.sql() == "SELECT value FROM settings WHERE key = ?1"@,
        statement is WriteSetting ==> statement.sql() == r#"
INSERT INTO settings (key, value)
VALUES (?1, ?2)
ON CONFLICT(key) DO UPDATE SET value = excluded.value
"#@,
        statement is ClearSetting ==> statement.sql() == "DELETE FROM settings WHERE key = ?1"@,
        statement is Track ==> statement.sql() == r#"
SELECT id, latitude, longitude, accuracy, altitude, heading, speed,
       battery_level, captured_at, received_at
FROM locations
WHERE device_id = ?1 AND received_at >= ?2
ORDER BY received_at ASC, id ASC
"#@,
{
}

/// The tables that are set up and how, word for word.
pub proof fn law_setup_is_word_for_word()
    ensures
        JOURNAL_MODE@ == "WAL"@,
        FOREIGN_KEYS@ == "ON"@,
        SCHEMA@ == r#"
CREATE TABLE IF NOT EXISTS devices (
    id TEXT PRIMARY KEY NOT NULL,
    name TEXT NOT NULL,
    platform TEXT,
    created_at TEXT NOT NULL,
    updated_at TEXT NOT NULL
);

CREATE TABLE IF NOT EXISTS locations (
    id INTEGER PRIMARY KEY AUTOINCREMENT,
    device_id TEXT NOT NULL,
    latitude REAL NOT NULL,
    longitude REAL NOT NULL,
    accuracy REAL,
    altitude REAL,
    heading REAL,
    speed REAL,
    battery_level REAL,
    captured_at TEXT NOT NULL,
    received_at TEXT NOT NULL,
    FOREIGN KEY(device_id) REFERENCES devices(id) ON DELETE CASCADE
);

CREATE INDEX IF NOT EXISTS idx_locations_device_received
    ON locations(device_id, received_at DESC);

CREATE TABLE IF NOT EXISTS settings (
    key TEXT PRIMARY KEY NOT NULL,
    value TEXT NOT NULL
);
"#@,
{
}

/// Each value stands at its place: what is bound to `?1`, `?2` and so on is what
/// the statement is asked of, unchanged. None is bound as null.
pub proof fn law_values_stand_at_their_places(
    id: Seq<char>,
    name: Seq<char>,
    platform: Option<Seq<char>>,
    now: Seq<char>,
    reading: Reading,
    captured_at: Seq<char>,
    key: Seq<char>,
    value: Seq<char>,
)
    ensures
        (Statement::Begin).bindings().len() == 0,
        (Statement::Commit).bindings().len() == 0,
        (Statement::Rollback).bindings().len() == 0,
        (Statement::AllDevices).bindings().len() == 0,
        (Statement::AllAdminDevices).bindings().len() == 0,
        (Statement::FindDevice { id }).bindings() == seq![Binding::Text(id)],
        (Statement::DeviceById { id }).bindings() == seq![Binding::Text(id)],
        (Statement::DeleteLocations { device_id: id }).bindings() == seq![Binding::Text(id)],
        (Statement::DeleteDevice { id }).bindings() == seq![Binding::Text(id)],
        (Statement::PruneLocations { before: now }).bindings() == seq![Binding::Text(now)],
        (Statement::DeleteStaleDevices { before: now }).bindings() == seq![Binding::Text(now)],
        (Statement::ReadSetting { key }).bindings() == seq![Binding::Text(key)],
        (Statement::ClearSetting { key }).bindings() == seq![Binding::Text(key)],
        (Statement::WriteSetting { key, value }).bindings() == seq![
            Binding::Text(key),
            Binding::Text(value),
        ],
        (Statement::TouchDevice { now, id }).bindings() == seq![
            Binding::Text(now),
            Binding::Text(id),
        ],
        (Statement::Track { device_id: id, since: now }).bindings() == seq![
            Binding::Text(id),
            Binding::Text(now),
        ],
        ({
            let bound = (Statement::UpsertDevice { id, name, platform, now }).bindings();
            &&& bound.len() == 4
            &&& bound[0] == Binding::Text(id)
            &&& bound[1] == Binding::Text(name)
            &&& platform matches Some(text) ==> bound[2] == Binding::Text(text)
            &&& platform is None ==> bound[2] is Null
            &&& bound[3] == Binding::Text(now)
        }),
        ({
            let bound = (Statement::UpdateDevice { name, platform, now, id }).bindings();
            &&& bound.len() == 4
            &&& bound[0] == Binding::Text(name)
            &&& platform matches Some(text) ==> bound[1] == Binding::Text(text)
            &&& platform is None ==> bound[1] is Null
            &&& bound[2] == Binding::Text(now)
            &&& bound[3] == Binding::Text(id)
        }),
        ({
            let bound = (Statement::InsertLocation {
                device_id: id,
                reading,
                captured_at,
                received_at: now,
            }).bindings();
            &&& bound.len() == 10
            &&& bound[0] == Binding::Text(id)
            &&& bound[1] == Binding::Real(reading.latitude)
            &&& bound[2] == Binding::Real(reading.longitude)
            &&& reading.accuracy matches Some(bits) ==> bound[3] == Binding::Real(bits)
            &&& reading.accuracy is None ==> bound[3] is Null
            &&& reading.altitude matches Some(bits) ==> bound[4] == Binding::Real(bits)
            &&& reading.altitude is None ==> bound[4] is Null
            &&& reading.heading matches Some(bits) ==> bound[5] == Binding::Real(bits)
            &&& reading.heading is None ==> bound[5] is Null
            &&& reading.speed matches Some(bits) ==> bound[6] == Binding::Real(bits)
            &&& reading.speed is None ==> bound[6] is Null
            &&& reading.battery_level matches Some(bits) ==> bound[7] == Binding::Real(bits)
            &&& reading.battery_level is None ==> bound[7] is Null
            &&& bound[8] == Binding::Text(captured_at)
            &&& bound[9] == Binding::Text(now)
        }),
{
}

/// The view of a statement holds what the statement holds.
pub proof fn law_view_of_a_statement_is_whole(query: Query)
    ensures
        match query {
            Query::Begin => query.deep_view() is Begin,
            Query::Commit => query.deep_view() is Commit,
            Query::Rollback => query.deep_view() is Rollback,
            Query::AllDevices => query.deep_view() is AllDevices,
            Query::AllAdminDevices => query.deep_view() is AllAdminDevices,
            Query::FindDevice { id } => query.deep_view() matches Statement::FindDevice { id: same }
                && same == id@,
            Query::DeviceById { id } => query.deep_view() matches Statement::DeviceById { id: same }
                && same == id@,
            Query::UpsertDevice { id, name, platform, now } => {
                &&& query.deep_view() matches Statement::UpsertDevice {
                    id: i,
                    name: n,
                    platform: p,
                    now: t,
                }
                &&& i == id@ && n == name@ && t == now@
                &&& platform matches Some(text) ==> p == Some(text@)
                &&& platform is None ==> p is None
            },
            Query::UpdateDevice { name, platform, now, id } => {
                &&& query.deep_view() matches Statement::UpdateDevice {
                    name: n,
                    platform: p,
                    now: t,
                    id: i,
                }
                &&& i == id@ && n == name@ && t == now@
                &&& platform matches Some(text) ==> p == Some(text@)
                &&& platform is None ==> p is None
            },
            Query::InsertLocation { device_id, reading, captured_at, received_at } => {
                &&& query.deep_view() matches Statement::InsertLocation {
                    device_id: d,
                    reading: r,
                    captured_at: c,
                    received_at: t,
                }
                &&& d == device_id@ && r == reading && c == captured_at@ && t == received_at@
            },
            Query::TouchDevice { now, id } => query.deep_view() matches Statement::TouchDevice {
                now: t,
                id: i,
            } && t == now@ && i == id@,
            Query::PruneLocations { before } => query.deep_view() matches Statement::PruneLocations {
                before: t,
            } && t == before@,
            Query::DeleteLocations { device_id } => {
                &&& query.deep_view() matches Statement::DeleteLocations { device_id: d }
                &&& d == device_id@
            },
            Query::DeleteDevice { id } => query.deep_view() matches Statement::DeleteDevice { id: i }
                && i == id@,
            Query::DeleteStaleDevices { before } => {
                &&& query.deep_view() matches Statement::DeleteStaleDevices { before: t }
                &&& t == before@
            },
            Query::ReadSetting { key } => query.deep_view() matches Statement::ReadSetting { key: k }
                && k == key@,
            Query::WriteSetting { key, value } => {
                &&& query.deep_view() matches Statement::WriteSetting { key: k, value: v }
                &&& k == key@ && v == value@
            },
            Query::ClearSetting { key } => {
                &&& query.deep_view() matches Statement::ClearSetting { key: k }
                &&& k == key@
            },
            Query::Track { device_id, since } => query.deep_view() matches Statement::Track {
                device_id: d,
                since: t,
            } && d == device_id@ && t == since@,
        },
{
}

/// The view of a value holds the value: a text its characters, a real number its
/// bit pattern.
pub proof fn law_view_of_a_value_is_whole(value: SqlValue)
    ensures
        value is Null <==> value.deep_view() is Null,
        value matches SqlValue::Real(bits) ==> value.deep_view() == Binding::Real(bits),
        value matches SqlValue::Text(text) ==> value.deep_view() == Binding::Text(text@),
{
}

} // verus!
