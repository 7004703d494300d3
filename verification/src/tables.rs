//! What the statements mean: the tables of the database, what each statement
//! does to them and what it replies, and what follows for the operations.

use vstd::prelude::*;

use crate::api::{internal, is_name, not_found, Refusal};
use crate::clock::{reads_as, sorts_as, sorts_before, Moment};
use crate::coordinates::magnitude;
use crate::decimal::law_integer_reads_back;
use crate::device_id::{id_text, reads_as_id};
use crate::query::Statement;
use crate::records::{
    admin_profile_in, all_in, id_in, items_in, law_lists_are_whole, moment_in, place_in, profile_in, AdminProfile,
    AdminProfileRow, Place, PlaceRow, Profile, ProfileRow, Reading,
};
use crate::store::{
    begun, device_in, resumed, Answer, Finding, Operation, Progress, Waiting, DEVICE_NOT_FOUND,
    RETENTION_DAYS,
};
use crate::text::{law_trim_is_idempotent, trimmed};

verus! {

/// A row of the table of devices, without its key.
pub struct DeviceRecord {
    pub name: Seq<char>,
    pub platform: Option<Seq<char>>,
    pub created_at: Seq<char>,
    pub updated_at: Seq<char>,
}

/// A row of the table of locations, without its key.
pub struct LocationRecord {
    pub device_id: Seq<char>,
    pub reading: Reading,
    pub captured_at: Seq<char>,
    pub received_at: Seq<char>,
}

/// Whether a bit pattern is that of a number, an infinity included.
pub open spec fn is_number(bits: u64) -> bool {
    magnitude(bits) <= 0x7FF0_0000_0000_0000
}

/// A number as a column of reals keeps it: one without a fraction is kept as an
/// integer, and there is one zero among these, so that the zero with a sign
/// comes back without it.
pub open spec fn kept_number(bits: u64) -> u64 {
    if bits == 0x8000_0000_0000_0000 {
        0
    } else {
        bits
    }
}

/// An optional number as a column of reals keeps it: what is not a number is
/// kept as none.
pub open spec fn kept_optional(bits: Option<u64>) -> Option<u64> {
    match bits {
        Some(bits) if is_number(bits) => Some(kept_number(bits)),
        _ => None,
    }
}

/// A reading as the table keeps it.
pub open spec fn kept_reading(reading: Reading) -> Reading {
    Reading {
        latitude: kept_number(reading.latitude),
        longitude: kept_number(reading.longitude),
        accuracy: kept_optional(reading.accuracy),
        altitude: kept_optional(reading.altitude),
        heading: kept_optional(reading.heading),
        speed: kept_optional(reading.speed),
        battery_level: kept_optional(reading.battery_level),
    }
}

/// Whether an optional number is one that is kept as it is.
pub open spec fn is_plain(bits: Option<u64>) -> bool {
    bits matches Some(bits) ==> is_number(bits) && bits != 0x8000_0000_0000_0000
}

/// A reading is kept as it is, but for zeros with a sign and for what is not a
/// number.
pub proof fn law_plain_numbers_are_kept(reading: Reading)
    requires
        is_plain(Some(reading.latitude)),
        is_plain(Some(reading.longitude)),
        is_plain(reading.accuracy),
        is_plain(reading.altitude),
        is_plain(reading.heading),
        is_plain(reading.speed),
        is_plain(reading.battery_level),
    ensures
        kept_reading(reading) == reading,
{
}

/// The tables, and the key that the next location gets.
#[verifier::ext_equal]
pub struct Tables {
    pub devices: Map<Seq<char>, DeviceRecord>,
    pub locations: Map<int, LocationRecord>,
    pub next_location: int,
    pub settings: Map<Seq<char>, Seq<char>>,
}

/// The locations for which a condition holds.
pub open spec fn locations_where(
    locations: Map<int, LocationRecord>,
    keep: spec_fn(LocationRecord) -> bool,
) -> Map<int, LocationRecord> {
    locations.restrict(locations.dom().filter(|k: int| keep(locations[k])))
}

/// The devices for which a condition holds.
pub open spec fn devices_where(
    devices: Map<Seq<char>, DeviceRecord>,
    keep: spec_fn(DeviceRecord) -> bool,
) -> Map<Seq<char>, DeviceRecord> {
    devices.restrict(devices.dom().filter(|id: Seq<char>| keep(devices[id])))
}

impl Tables {
    /// Whether every location belongs to a device, and the next key is larger
    /// than those in use.
    pub open spec fn sound(self) -> bool {
        &&& self.devices.dom().finite()
        &&& self.locations.dom().finite()
        &&& forall|k: int| #[trigger]
            self.locations.contains_key(k) ==> k < self.next_location && self.devices.contains_key(
                self.locations[k].device_id,
            )
    }

    /// The tables with the locations kept for which a condition holds.
    pub open spec fn keeping_locations(self, keep: spec_fn(LocationRecord) -> bool) -> Tables {
        Tables { locations: locations_where(self.locations, keep), ..self }
    }

    /// The tables with the devices kept for which a condition holds, and with
    /// the locations of these.
    pub open spec fn keeping_devices(self, keep: spec_fn(DeviceRecord) -> bool) -> Tables {
        Tables {
            devices: devices_where(self.devices, keep),
            locations: locations_where(
                self.locations,
                |l: LocationRecord|
                    self.devices.contains_key(l.device_id) ==> keep(self.devices[l.device_id]),
            ),
            ..self
        }
    }

    /// The tables with a device added, or with the name, the platform and the
    /// time of the update of the one that is there already changed.
    pub open spec fn with_device(
        self,
        id: Seq<char>,
        name: Seq<char>,
        platform: Option<Seq<char>>,
        now: Seq<char>,
    ) -> Tables {
        let created_at = if self.devices.contains_key(id) {
            self.devices[id].created_at
        } else {
            now
        };
        Tables {
            devices: self.devices.insert(
                id,
                DeviceRecord { name, platform, created_at, updated_at: now },
            ),
            ..self
        }
    }

    /// The tables with the time of the update of a device changed.
    pub open spec fn with_touched(self, id: Seq<char>, now: Seq<char>) -> Tables {
        if self.devices.contains_key(id) {
            Tables {
                devices: self.devices.insert(
                    id,
                    DeviceRecord { updated_at: now, ..self.devices[id] },
                ),
                ..self
            }
        } else {
            self
        }
    }

    /// The tables with a location added under the next key.
    pub open spec fn with_location(self, location: LocationRecord) -> Tables {
        Tables {
            locations: self.locations.insert(self.next_location, location),
            next_location: self.next_location + 1,
            ..self
        }
    }

    /// The tables without a device and its locations.
    pub open spec fn without_device(self, id: Seq<char>) -> Tables {
        Tables {
            devices: self.devices.remove(id),
            locations: locations_where(self.locations, |l: LocationRecord| l.device_id != id),
            ..self
        }
    }

    /// The tables behind a statement.
    pub open spec fn after(self, statement: Statement) -> Tables {
        match statement {
            Statement::UpsertDevice { id, name, platform, now } => self.with_device(
                id,
                name,
                platform,
                now,
            ),
            Statement::UpdateDevice { name, platform, now, id } => if self.devices.contains_key(
                id,
            ) {
                self.with_device(id, name, platform, now)
            } else {
                self
            },
            Statement::InsertLocation { device_id, reading, captured_at, received_at } => {
                self.with_location(
                    LocationRecord {
                        device_id,
                        reading: kept_reading(reading),
                        captured_at,
                        received_at,
                    },
                )
            },
            Statement::TouchDevice { now, id } => self.with_touched(id, now),
            Statement::PruneLocations { before } => self.keeping_locations(
                |l: LocationRecord| !sorts_before(l.received_at, before),
            ),
            Statement::DeleteLocations { device_id } => self.keeping_locations(
                |l: LocationRecord| l.device_id != device_id,
            ),
            Statement::DeleteDevice { id } => self.without_device(id),
            Statement::DeleteStaleDevices { before } => self.keeping_devices(
                |d: DeviceRecord| !sorts_before(d.updated_at, before),
            ),
            Statement::WriteSetting { key, value } => Tables {
                settings: self.settings.insert(key, value),
                ..self
            },
            Statement::ClearSetting { key } => Tables {
                settings: self.settings.remove(key),
                ..self
            },
            _ => self,
        }
    }

    /// Whether a location is the last of a device: no other was received later,
    /// and of those received at the same time none has a larger key.
    pub open spec fn is_last(self, id: Seq<char>, k: int) -> bool {
        &&& self.locations.contains_key(k)
        &&& self.locations[k].device_id == id
        &&& forall|j: int| #[trigger]
            self.locations.contains_key(j) && self.locations[j].device_id == id && j != k ==> {
                ||| sorts_before(self.locations[j].received_at, self.locations[k].received_at)
                ||| self.locations[j].received_at == self.locations[k].received_at && j < k
            }
    }

    /// Whether a row of locations is that of a location.
    pub open spec fn is_place_row(self, k: int, row: PlaceRow) -> bool {
        &&& self.locations.contains_key(k)
        &&& row.id == k
        &&& row.reading == self.locations[k].reading
        &&& row.captured_at == self.locations[k].captured_at
        &&& row.received_at == self.locations[k].received_at
    }

    /// Whether a row of devices is that of a device, joined with its last
    /// location.
    pub open spec fn is_profile_row(self, id: Seq<char>, row: ProfileRow) -> bool {
        &&& self.devices.contains_key(id)
        &&& row.id == id
        &&& row.name == self.devices[id].name
        &&& row.platform == self.devices[id].platform
        &&& row.created_at == self.devices[id].created_at
        &&& row.updated_at == self.devices[id].updated_at
        &&& match row.location {
            Some(location) => self.is_last(id, location.id as int) && self.is_place_row(
                location.id as int,
                location,
            ),
            None => forall|k: int| #[trigger]
                self.locations.contains_key(k) ==> self.locations[k].device_id != id,
        }
    }

    /// Whether rows are those of all devices, each once, the last updated first.
    pub open spec fn are_profile_rows(self, rows: Seq<ProfileRow>) -> bool {
        &&& forall|i: int|
            0 <= i < rows.len() ==> self.is_profile_row((#[trigger] rows[i]).id, rows[i])
        &&& forall|i: int, j: int|
            0 <= i < j < rows.len() ==> (#[trigger] rows[i]).id != (#[trigger] rows[j]).id
        &&& forall|i: int, j: int|
            0 <= i < j < rows.len() ==> !sorts_before(
                (#[trigger] rows[i]).updated_at,
                (#[trigger] rows[j]).updated_at,
            )
        &&& forall|id: Seq<char>| #[trigger]
            self.devices.contains_key(id) ==> exists|i: int|
                0 <= i < rows.len() && (#[trigger] rows[i]).id == id
    }

    /// The keys of the locations of a device.
    pub open spec fn locations_of(self, id: Seq<char>) -> Set<int> {
        self.locations.dom().filter(|k: int| self.locations[k].device_id == id)
    }

    /// The devices that were last updated before a time.
    pub open spec fn stale(self, before: Seq<char>) -> Set<Seq<char>> {
        self.devices.dom().filter(|id: Seq<char>| sorts_before(self.devices[id].updated_at, before))
    }

    /// Whether rows are those of the locations of a device received at a time or
    /// after it, each once, in the order in which they were received.
    pub open spec fn are_track_rows(
        self,
        id: Seq<char>,
        since: Seq<char>,
        rows: Seq<PlaceRow>,
    ) -> bool {
        &&& forall|i: int|
            0 <= i < rows.len() ==> {
                &&& self.is_place_row((#[trigger] rows[i]).id as int, rows[i])
                &&& self.locations[rows[i].id as int].device_id == id
                &&& !sorts_before(rows[i].received_at, since)
            }
        &&& forall|i: int, j: int|
            0 <= i < j < rows.len() ==> {
                ||| sorts_before((#[trigger] rows[i]).received_at, (#[trigger] rows[j]).received_at)
                ||| rows[i].received_at == rows[j].received_at && rows[i].id < rows[j].id
            }
        &&& forall|k: int| #[trigger]
            self.locations.contains_key(k) && self.locations[k].device_id == id && !sorts_before(
                self.locations[k].received_at,
                since,
            ) ==> exists|i: int| 0 <= i < rows.len() && (#[trigger] rows[i]).id == k
    }

    /// Whether this is a reply to a statement that was carried out.
    pub open spec fn replies(self, statement: Statement, answer: Answer) -> bool {
        match statement {
            Statement::FindDevice { id } => answer == Answer::Found(self.devices.contains_key(id)),
            Statement::DeviceById { id } => match answer {
                Answer::Device(Some(row)) => self.is_profile_row(id, row),
                Answer::Device(None) => !self.devices.contains_key(id),
                _ => false,
            },
            Statement::AllDevices => match answer {
                Answer::Devices { rows, failure } => failure is None && self.are_profile_rows(rows),
                _ => false,
            },
            Statement::AllAdminDevices => match answer {
                Answer::AdminDevices { rows, failure } => {
                    &&& failure is None
                    &&& self.are_profile_rows(rows.map_values(|row: AdminProfileRow| row.device))
                    &&& forall|i: int|
                        0 <= i < rows.len() ==> (#[trigger] rows[i]).location_count
                            == self.locations_of(rows[i].device.id).len()
                },
                _ => false,
            },
            Statement::DeleteLocations { device_id } => answer == Answer::Changed(
                self.locations_of(device_id).len() as int,
            ),
            Statement::DeleteDevice { id } => answer == Answer::Changed(
                if self.devices.contains_key(id) {
                    1
                } else {
                    0
                },
            ),
            Statement::DeleteStaleDevices { before } => answer == Answer::Changed(
                self.stale(before).len() as int,
            ),
            Statement::ReadSetting { key } => answer == Answer::Setting(
                if self.settings.contains_key(key) {
                    Some(self.settings[key])
                } else {
                    None
                },
            ),
            Statement::Track { device_id, since } => match answer {
                Answer::Locations { rows, failure } => failure is None && self.are_track_rows(
                    device_id,
                    since,
                    rows,
                ),
                _ => false,
            },
            Statement::InsertLocation { reading, .. } => answer is Changed && is_number(
                reading.latitude,
            ) && is_number(reading.longitude),
            _ => answer is Changed,
        }
    }
}

/// A database: the tables as they are kept, and as an open transaction sees
/// them.
#[verifier::ext_equal]
pub struct Database {
    pub kept: Tables,
    pub open: Option<Tables>,
}

impl Database {
    /// The tables that a statement works on.
    pub open spec fn visible(self) -> Tables {
        match self.open {
            Some(tables) => tables,
            None => self.kept,
        }
    }

    /// The database behind a statement that was carried out.
    pub open spec fn carried_out(self, statement: Statement) -> Database {
        match statement {
            Statement::Begin => Database { open: Some(self.visible()), ..self },
            Statement::Commit => Database { kept: self.visible(), open: None },
            Statement::Rollback => Database { open: None, ..self },
            _ => match self.open {
                Some(tables) => Database { open: Some(tables.after(statement)), ..self },
                None => Database { kept: self.kept.after(statement), ..self },
            },
        }
    }

    /// Whether this is a reply to a statement: any statement may fail.
    pub open spec fn may_reply(self, statement: Statement, answer: Answer) -> bool {
        answer is Failed || self.visible().replies(statement, answer)
    }

    /// The database behind a statement and the reply to it: one that failed has
    /// done nothing.
    pub open spec fn behind(self, statement: Statement, answer: Answer) -> Database {
        if answer is Failed {
            self
        } else {
            self.carried_out(statement)
        }
    }
}

/// Whether an operation that has come this far goes on with these replies, each
/// taken at one of these moments, and comes to this end with this database.
pub open spec fn runs(
    progress: Progress,
    db: Database,
    moments: Seq<Moment>,
    answers: Seq<Answer>,
    end: Database,
    result: Result<Finding, Refusal>,
) -> bool
    decreases answers.len(),
{
    match progress {
        Progress::Done(done) => answers.len() == 0 && moments.len() == 0 && end == db && result
            == done,
        Progress::Ask { statement, next } => {
            &&& answers.len() > 0
            &&& answers.len() == moments.len()
            &&& db.may_reply(statement, answers[0])
            &&& runs(
                resumed(next, answers[0], moments[0]),
                db.behind(statement, answers[0]),
                moments.drop_first(),
                answers.drop_first(),
                end,
                result,
            )
        },
    }
}

/// Whether none of the replies is a failure.
pub open spec fn none_failed(answers: Seq<Answer>) -> bool {
    forall|i: int| 0 <= i < answers.len() ==> !(#[trigger] answers[i] is Failed)
}

/// The location that a report adds.
pub open spec fn record_of(id: u128, location: Place) -> LocationRecord {
    LocationRecord {
        device_id: id_text(id),
        reading: kept_reading(location.reading),
        captured_at: location.captured_at.text(),
        received_at: location.received_at.text(),
    }
}

/// The tables behind a report: the location is added, the time of the update of
/// its device is set, and the locations are deleted that were received before
/// the cutoff.
pub open spec fn reported(
    tables: Tables,
    id: u128,
    location: Place,
    touched: Moment,
    pruned: Moment,
) -> Tables {
    tables.with_location(record_of(id, location)).with_touched(
        id_text(id),
        touched.text(),
    ).keeping_locations(
        |l: LocationRecord|
            !sorts_before(
                l.received_at,
                pruned.days_earlier(RETENTION_DAYS as int).text(),
            ),
    )
}

/// What an operation comes to that ends by reading a device.
pub open spec fn shown(row: ProfileRow) -> Result<Finding, Refusal> {
    match device_in(Some(row)) {
        Ok(device) => Ok(Finding::Device(device)),
        Err(e) => Err(e),
    }
}

/// A report of a location is all or nothing. It is kept, with all that it
/// brings, where there is a device for it and no statement fails, and the
/// answer is the device as it then is; where there is none, nothing is changed
/// and the answer is that there is no such device; and where a statement fails
/// before the transaction is committed, nothing is changed either.
pub proof fn law_report_is_all_or_nothing(
    id: u128,
    location: Place,
    now: Moment,
    db: Database,
    moments: Seq<Moment>,
    answers: Seq<Answer>,
    end: Database,
    result: Result<Finding, Refusal>,
)
    requires
        db.open is None,
        runs(
            begun(Operation::InsertLocation { id, location }, now),
            db,
            moments,
            answers,
            end,
            result,
        ),
    ensures
        end.kept == db.kept || (db.kept.devices.contains_key(id_text(id)) && end.kept == reported(
            db.kept,
            id,
            location,
            moments[1],
            moments[3],
        )),
        result is Ok ==> end.kept == reported(db.kept, id, location, moments[1], moments[3]),
        none_failed(answers) && db.kept.devices.contains_key(id_text(id)) ==> {
            &&& end.kept == reported(db.kept, id, location, moments[1], moments[3])
            &&& end.open is None
            &&& exists|row: ProfileRow| #[trigger]
                end.kept.is_profile_row(id_text(id), row) && result == shown(row)
        },
        none_failed(answers) && !db.kept.devices.contains_key(id_text(id)) ==> end == db && result
            == Err::<Finding, Refusal>(not_found(DEVICE_NOT_FOUND@)),
{
    reveal_with_fuel(runs, 9);
}

/// What a report leaves of the locations: the new one and the old ones, as far
/// as they were not received before the cutoff.
pub proof fn law_report_keeps_what_is_recent(
    tables: Tables,
    id: u128,
    location: Place,
    touched: Moment,
    pruned: Moment,
)
    requires
        tables.sound(),
    ensures
        ({
            let end = reported(tables, id, location, touched, pruned);
            let cutoff = pruned.days_earlier(RETENTION_DAYS as int).text();
            &&& forall|k: int| #[trigger]
                end.locations.contains_key(k) <==> {
                    ||| tables.locations.contains_key(k) && !sorts_before(
                        tables.locations[k].received_at,
                        cutoff,
                    )
                    ||| k == tables.next_location && !sorts_before(
                        location.received_at.text(),
                        cutoff,
                    )
                }
            &&& forall|k: int| #[trigger]
                end.locations.contains_key(k) && k != tables.next_location ==> end.locations[k]
                    == tables.locations[k]
            &&& end.locations.contains_key(tables.next_location)
                ==> end.locations[tables.next_location] == record_of(id, location)
            &&& end.settings == tables.settings
            &&& end.devices.dom() == tables.devices.dom()
            &&& forall|other: Seq<char>| #[trigger]
                end.devices.contains_key(other) && other != id_text(id) ==> end.devices[other]
                    == tables.devices[other]
        }),
{
    let end = reported(tables, id, location, touched, pruned);
    if tables.devices.contains_key(id_text(id)) {
        assert(end.devices.dom() =~= tables.devices.dom());
    }
}

/// In the years that timestamps are written in, a cutoff divides locations by
/// time: one is deleted exactly where it was received before the cutoff.
pub proof fn law_cutoff_divides_by_time(
    tables: Tables,
    before: Seq<char>,
    cutoff: Moment,
    k: int,
    received: Moment,
)
    requires
        sorts_as(before, cutoff),
        tables.locations.contains_key(k),
        tables.locations[k].received_at == received.text(),
        received.valid(),
        received.in_written_years(),
    ensures
        tables.after(Statement::PruneLocations { before }).locations.contains_key(k)
            <==> !received.before(cutoff),
{
}

/// The same for devices: one is swept exactly where it was last updated before
/// the cutoff.
pub proof fn law_sweep_divides_by_time(
    tables: Tables,
    before: Seq<char>,
    cutoff: Moment,
    id: Seq<char>,
    updated: Moment,
)
    requires
        sorts_as(before, cutoff),
        tables.devices.contains_key(id),
        tables.devices[id].updated_at == updated.text(),
        updated.valid(),
        updated.in_written_years(),
    ensures
        tables.after(Statement::DeleteStaleDevices { before }).devices.contains_key(id)
            <==> !updated.before(cutoff),
{
}

/// A device that registers is there with the name and the platform that it
/// gave. Where it was there before, the time of its creation stays. Other
/// devices, all locations and the settings stay as they are.
pub proof fn law_register(
    id: u128,
    name: Seq<char>,
    platform: Option<Seq<char>>,
    now: Moment,
    db: Database,
    moments: Seq<Moment>,
    answers: Seq<Answer>,
    end: Database,
    result: Result<Finding, Refusal>,
)
    requires
        db.open is None,
        none_failed(answers),
        runs(
            begun(Operation::UpsertDevice { id, name, platform }, now),
            db,
            moments,
            answers,
            end,
            result,
        ),
    ensures
        end.open is None,
        end.kept.devices == db.kept.devices.insert(
            id_text(id),
            (DeviceRecord {
                name,
                platform,
                created_at: if db.kept.devices.contains_key(id_text(id)) {
                    db.kept.devices[id_text(id)].created_at
                } else {
                    now.text()
                },
                updated_at: now.text(),
            }),
        ),
        end.kept.locations == db.kept.locations,
        end.kept.settings == db.kept.settings,
        exists|row: ProfileRow| #[trigger]
            end.kept.is_profile_row(id_text(id), row) && result == shown(row),
{
    reveal_with_fuel(runs, 4);
}

/// A device that is changed keeps what the change does not name. One that is
/// not there is not added: the answer is that there is none.
pub proof fn law_update(
    id: u128,
    name: Option<Seq<char>>,
    platform: Option<Seq<char>>,
    now: Moment,
    db: Database,
    moments: Seq<Moment>,
    answers: Seq<Answer>,
    end: Database,
    result: Result<Finding, Refusal>,
)
    requires
        db.open is None,
        none_failed(answers),
        runs(
            begun(Operation::UpdateDevice { id, name, platform }, now),
            db,
            moments,
            answers,
            end,
            result,
        ),
    ensures
        end.open is None,
        end.kept.locations == db.kept.locations,
        end.kept.settings == db.kept.settings,
        !db.kept.devices.contains_key(id_text(id)) ==> end == db && result == Err::<
            Finding,
            Refusal,
        >(not_found(DEVICE_NOT_FOUND@)),
        result is Ok ==> {
            let old_row = db.kept.devices[id_text(id)];
            &&& db.kept.devices.contains_key(id_text(id))
            &&& end.kept.devices == db.kept.devices.insert(
                id_text(id),
                DeviceRecord {
                    name: trimmed(
                        match name {
                            Some(name) => name,
                            None => old_row.name,
                        },
                    ),
                    platform: match platform {
                        Some(platform) => Some(platform),
                        None => old_row.platform,
                    },
                    created_at: old_row.created_at,
                    updated_at: moments[0].text(),
                },
            )
            &&& exists|row: ProfileRow| #[trigger]
                end.kept.is_profile_row(id_text(id), row) && result == shown(row)
        },
{
    reveal_with_fuel(runs, 5);
}

/// Deleting a device deletes it and its locations, and nothing else. Where there
/// is no such device nothing is deleted, and the answer is that there is none.
pub proof fn law_delete_device(
    id: u128,
    now: Moment,
    db: Database,
    moments: Seq<Moment>,
    answers: Seq<Answer>,
    end: Database,
    result: Result<Finding, Refusal>,
)
    requires
        db.open is None,
        db.kept.sound(),
        none_failed(answers),
        runs(begun(Operation::DeleteDevice { id }, now), db, moments, answers, end, result),
    ensures
        end.kept.devices == db.kept.devices.remove(id_text(id)),
        forall|k: int| #[trigger]
            end.kept.locations.contains_key(k) <==> db.kept.locations.contains_key(k)
                && db.kept.locations[k].device_id != id_text(id),
        forall|k: int| #[trigger]
            end.kept.locations.contains_key(k) ==> end.kept.locations[k] == db.kept.locations[k],
        end.kept.settings == db.kept.settings,
        db.kept.devices.contains_key(id_text(id)) ==> result == Ok::<Finding, Refusal>(
            Finding::Deleted(1),
        ),
        !db.kept.devices.contains_key(id_text(id)) ==> end.kept == db.kept && result == Err::<
            Finding,
            Refusal,
        >(not_found(DEVICE_NOT_FOUND@)),
{
    reveal_with_fuel(runs, 3);
    if !db.kept.devices.contains_key(id_text(id)) {
        assert(db.kept.without_device(id_text(id)) =~= db.kept);
    }
}

/// Deleting the locations of a device deletes these and nothing else, and the
/// answer is how many there were. Where there is no such device, the answer is
/// that there is none.
pub proof fn law_delete_locations(
    id: u128,
    now: Moment,
    db: Database,
    moments: Seq<Moment>,
    answers: Seq<Answer>,
    end: Database,
    result: Result<Finding, Refusal>,
)
    requires
        db.open is None,
        none_failed(answers),
        runs(begun(Operation::DeleteDeviceLocations { id }, now), db, moments, answers, end, result),
    ensures
        end.kept.devices == db.kept.devices,
        end.kept.settings == db.kept.settings,
        db.kept.devices.contains_key(id_text(id)) ==> {
            &&& result == Ok::<Finding, Refusal>(
                Finding::Deleted(db.kept.locations_of(id_text(id)).len() as int),
            )
            &&& forall|k: int| #[trigger]
                end.kept.locations.contains_key(k) <==> db.kept.locations.contains_key(k)
                    && db.kept.locations[k].device_id != id_text(id)
            &&& forall|k: int| #[trigger]
                end.kept.locations.contains_key(k) ==> end.kept.locations[k]
                    == db.kept.locations[k]
        },
        !db.kept.devices.contains_key(id_text(id)) ==> end == db && result == Err::<
            Finding,
            Refusal,
        >(not_found(DEVICE_NOT_FOUND@)),
{
    reveal_with_fuel(runs, 4);
}

/// A sweep deletes the devices that were last updated before the cutoff, with
/// their locations, and nothing else; the answer is how many there were.
pub proof fn law_sweep(
    days: i64,
    now: Moment,
    db: Database,
    moments: Seq<Moment>,
    answers: Seq<Answer>,
    end: Database,
    result: Result<Finding, Refusal>,
)
    requires
        db.open is None,
        db.kept.sound(),
        none_failed(answers),
        runs(begun(Operation::DeleteStaleDevices { days }, now), db, moments, answers, end, result),
    ensures
        ({
            let stale = db.kept.stale(now.days_earlier(days as int).text());
            &&& result == Ok::<Finding, Refusal>(Finding::Deleted(stale.len() as int))
            &&& end.kept.devices == db.kept.devices.remove_keys(stale)
            &&& forall|k: int| #[trigger]
                end.kept.locations.contains_key(k) <==> db.kept.locations.contains_key(k)
                    && !stale.contains(db.kept.locations[k].device_id)
            &&& forall|k: int| #[trigger]
                end.kept.locations.contains_key(k) ==> end.kept.locations[k]
                    == db.kept.locations[k]
            &&& end.kept.settings == db.kept.settings
        }),
{
    reveal_with_fuel(runs, 3);
    let stale = db.kept.stale(now.days_earlier(days as int).text());
    assert(end.kept.devices =~= db.kept.devices.remove_keys(stale));
}

/// What was set for the sweeping of devices is what is read: a number of days,
/// or that there is none. Nothing else changes.
pub proof fn law_auto_cleanup_reads_back(
    days: Option<i64>,
    set_at: Moment,
    db: Database,
    set_moments: Seq<Moment>,
    set_answers: Seq<Answer>,
    middle: Database,
    set_result: Result<Finding, Refusal>,
    read_at: Moment,
    read_moments: Seq<Moment>,
    read_answers: Seq<Answer>,
    end: Database,
    result: Result<Finding, Refusal>,
)
    requires
        db.open is None,
        none_failed(set_answers),
        none_failed(read_answers),
        runs(
            begun(Operation::SetAutoCleanupDays { days }, set_at),
            db,
            set_moments,
            set_answers,
            middle,
            set_result,
        ),
        runs(
            begun(Operation::AutoCleanupDays, read_at),
            middle,
            read_moments,
            read_answers,
            end,
            result,
        ),
    ensures
        set_result == Ok::<Finding, Refusal>(Finding::Saved),
        result == Ok::<Finding, Refusal>(Finding::Days(days)),
        end == middle,
        end.kept.devices == db.kept.devices,
        end.kept.locations == db.kept.locations,
{
    reveal_with_fuel(runs, 3);
    if days is Some {
        law_integer_reads_back(days->0);
    }
}

/// What a list of devices comes to.
pub open spec fn devices_shown(rows: Seq<ProfileRow>) -> Result<Finding, Refusal> {
    match all_in(rows, |row: ProfileRow| profile_in(row), None) {
        Ok(devices) => Ok(Finding::Devices(devices)),
        Err(e) => Err(internal(e)),
    }
}

/// What a track comes to.
pub open spec fn track_shown(rows: Seq<PlaceRow>) -> Result<Finding, Refusal> {
    match all_in(rows, |row: PlaceRow| place_in(row), None) {
        Ok(locations) => Ok(Finding::Track(locations)),
        Err(e) => Err(internal(e)),
    }
}

/// The list of devices holds every device once, the last updated first, each
/// with its last location.
pub proof fn law_devices_are_listed(
    now: Moment,
    db: Database,
    moments: Seq<Moment>,
    answers: Seq<Answer>,
    end: Database,
    result: Result<Finding, Refusal>,
)
    requires
        db.open is None,
        none_failed(answers),
        runs(begun(Operation::ListDevices, now), db, moments, answers, end, result),
    ensures
        exists|rows: Seq<ProfileRow>| #[trigger]
            db.kept.are_profile_rows(rows) && result == devices_shown(rows),
{
    reveal_with_fuel(runs, 3);
}

/// The track of a device holds its locations that were not received before the
/// cutoff, each once, in the order in which they were received. Where there is
/// no such device, the answer is that there is none.
pub proof fn law_track_is_listed(
    id: u128,
    days: i64,
    now: Moment,
    db: Database,
    moments: Seq<Moment>,
    answers: Seq<Answer>,
    end: Database,
    result: Result<Finding, Refusal>,
)
    requires
        db.open is None,
        none_failed(answers),
        runs(begun(Operation::ListTracks { id, days }, now), db, moments, answers, end, result),
    ensures
        db.kept.devices.contains_key(id_text(id)) ==> exists|rows: Seq<PlaceRow>| #[trigger]
            db.kept.are_track_rows(
                id_text(id),
                moments[0].days_earlier(days as int).text(),
                rows,
            ) && result == track_shown(rows),
        !db.kept.devices.contains_key(id_text(id)) ==> result == Err::<Finding, Refusal>(
            not_found(DEVICE_NOT_FOUND@),
        ),
{
    reveal_with_fuel(runs, 4);
}

proof fn lemma_items_match_rows<R, T>(rows: Seq<R>, item_in: spec_fn(R) -> Result<T, Seq<char>>)
    requires
        items_in(rows, item_in) is Ok,
    ensures
        items_in(rows, item_in)->Ok_0.len() == rows.len(),
        forall|i: int|
            0 <= i < rows.len() ==> item_in(#[trigger] rows[i]) == Ok::<T, Seq<char>>(
                items_in(rows, item_in)->Ok_0[i],
            ),
    decreases rows.len(),
{
    if rows.len() > 0 {
        lemma_items_match_rows(rows.drop_last(), item_in);
        assert forall|i: int| 0 <= i < rows.len() implies item_in(#[trigger] rows[i]) == Ok::<
            T,
            Seq<char>,
        >(items_in(rows, item_in)->Ok_0[i]) by {
            if i < rows.len() - 1 {
                assert(rows.drop_last()[i] == rows[i]);
            }
        }
    }
}

/// A location that was reported is in the track of its device: its numbers, as
/// they are kept, under the key that it got, and, where the texts of its times read back, the
/// same times. This holds for as long as it was received neither before the
/// cutoff of the report nor before that of the track.
pub proof fn law_reported_location_is_in_track(
    id: u128,
    location: Place,
    report_at: Moment,
    db: Database,
    report_moments: Seq<Moment>,
    report_answers: Seq<Answer>,
    middle: Database,
    report_result: Result<Finding, Refusal>,
    days: i64,
    track_at: Moment,
    track_moments: Seq<Moment>,
    track_answers: Seq<Answer>,
    end: Database,
    result: Result<Finding, Refusal>,
)
    requires
        db.open is None,
        db.kept.sound(),
        db.kept.devices.contains_key(id_text(id)),
        none_failed(report_answers),
        none_failed(track_answers),
        runs(
            begun(Operation::InsertLocation { id, location }, report_at),
            db,
            report_moments,
            report_answers,
            middle,
            report_result,
        ),
        runs(
            begun(Operation::ListTracks { id, days }, track_at),
            middle,
            track_moments,
            track_answers,
            end,
            result,
        ),
        !sorts_before(
            location.received_at.text(),
            report_moments[3].days_earlier(RETENTION_DAYS as int).text(),
        ),
        !sorts_before(
            location.received_at.text(),
            track_moments[0].days_earlier(days as int).text(),
        ),
        result is Ok,
    ensures
        result->Ok_0 is Track,
        exists|i: int|
            0 <= i < result->Ok_0->Track_0.len() && {
                let place = #[trigger] result->Ok_0->Track_0[i];
                &&& place.id matches Some(key) && key == db.kept.next_location
                &&& place.reading == kept_reading(location.reading)
                &&& reads_as(location.captured_at.text(), location.captured_at)
                    ==> place.captured_at == location.captured_at
                &&& reads_as(location.received_at.text(), location.received_at)
                    ==> place.received_at == location.received_at
            },
{
    law_report_is_all_or_nothing(
        id,
        location,
        report_at,
        db,
        report_moments,
        report_answers,
        middle,
        report_result,
    );
    law_track_is_listed(
        id,
        days,
        track_at,
        middle,
        track_moments,
        track_answers,
        end,
        result,
    );
    let since = track_moments[0].days_earlier(days as int).text();
    let rows = choose|rows: Seq<PlaceRow>| #[trigger]
        middle.kept.are_track_rows(id_text(id), since, rows) && result == track_shown(rows);
    let key = db.kept.next_location;
    assert(middle.kept.locations.contains_key(key));
    assert(middle.kept.locations[key] == record_of(id, location));
    let i = choose|i: int| 0 <= i < rows.len() && (#[trigger] rows[i]).id == key;
    lemma_items_match_rows(rows, |row: PlaceRow| place_in(row));
    assert(place_in(rows[i]) == Ok::<Place, Seq<char>>(result->Ok_0->Track_0[i]));
}

/// A device that registers for the first time is answered as it registered.
pub proof fn law_new_device_is_shown(
    id: u128,
    name: Seq<char>,
    platform: Option<Seq<char>>,
    now: Moment,
    db: Database,
    moments: Seq<Moment>,
    answers: Seq<Answer>,
    end: Database,
    result: Result<Finding, Refusal>,
)
    requires
        db.open is None,
        db.kept.sound(),
        !db.kept.devices.contains_key(id_text(id)),
        none_failed(answers),
        runs(
            begun(Operation::UpsertDevice { id, name, platform }, now),
            db,
            moments,
            answers,
            end,
            result,
        ),
    ensures
        reads_as_id(id_text(id), id) && reads_as(now.text(), now) ==> result == Ok::<
            Finding,
            Refusal,
        >(
            Finding::Device(
                Profile {
                    id,
                    name,
                    platform,
                    created_at: now,
                    updated_at: now,
                    last_location: None,
                },
            ),
        ),
{
    law_register(id, name, platform, now, db, moments, answers, end, result);
    let row = choose|row: ProfileRow| #[trigger]
        end.kept.is_profile_row(id_text(id), row) && result == shown(row);
    assert(row.location is None) by {
        if row.location is Some {
            assert(db.kept.locations.contains_key(row.location->0.id as int));
        }
    }
}

/// The answer to a report shows the device under its name, its platform and the
/// time of its creation as they were, updated at the report. It shows the
/// location that was reported as the last one, its numbers as they are kept and
/// its times, where it is kept and no other of the device was received after it.
pub proof fn law_report_shows_new_location(
    id: u128,
    location: Place,
    now: Moment,
    db: Database,
    moments: Seq<Moment>,
    answers: Seq<Answer>,
    end: Database,
    device: Profile,
)
    requires
        db.open is None,
        db.kept.sound(),
        db.kept.devices.contains_key(id_text(id)),
        none_failed(answers),
        runs(
            begun(Operation::InsertLocation { id, location }, now),
            db,
            moments,
            answers,
            end,
            Ok(Finding::Device(device)),
        ),
        !sorts_before(
            location.received_at.text(),
            moments[3].days_earlier(RETENTION_DAYS as int).text(),
        ),
        forall|k: int| #[trigger]
            db.kept.locations.contains_key(k) && db.kept.locations[k].device_id == id_text(id)
                ==> !sorts_before(location.received_at.text(), db.kept.locations[k].received_at),
    ensures
        device.last_location matches Some(place) && {
            &&& place.id == Some(db.kept.next_location as i64)
            &&& place.reading == kept_reading(location.reading)
            &&& reads_as(location.captured_at.text(), location.captured_at) ==> place.captured_at
                == location.captured_at
            &&& reads_as(location.received_at.text(), location.received_at) ==> place.received_at
                == location.received_at
        },
        reads_as_id(id_text(id), id) ==> device.id == id,
        device.name == db.kept.devices[id_text(id)].name,
        device.platform == db.kept.devices[id_text(id)].platform,
        moment_in(db.kept.devices[id_text(id)].created_at) == Ok::<Moment, Seq<char>>(
            device.created_at,
        ),
        reads_as(moments[1].text(), moments[1]) ==> device.updated_at == moments[1],
{
    law_report_is_all_or_nothing(
        id,
        location,
        now,
        db,
        moments,
        answers,
        end,
        Ok(Finding::Device(device)),
    );
    let row = choose|row: ProfileRow| #[trigger]
        end.kept.is_profile_row(id_text(id), row) && Ok::<Finding, Refusal>(Finding::Device(device))
            == shown(row);
    let key = db.kept.next_location;
    assert(end.kept.locations.contains_key(key));
    assert(end.kept.locations[key] == record_of(id, location));
    assert(row.location is Some);
    let last = row.location->0.id as int;
    if last != key {
        assert(db.kept.locations.contains_key(last));
        assert(end.kept.locations[last] == db.kept.locations[last]);
    }
}

/// Listing changes nothing, whatever the database replies.
pub proof fn law_listing_changes_nothing(
    op: Operation,
    now: Moment,
    db: Database,
    moments: Seq<Moment>,
    answers: Seq<Answer>,
    end: Database,
    result: Result<Finding, Refusal>,
)
    requires
        op is ListDevices || op is ListAdminDevices || op is ListTracks || op is AutoCleanupDays,
        runs(begun(op, now), db, moments, answers, end, result),
    ensures
        end == db,
{
    reveal_with_fuel(runs, 4);
}

/// Whatever the database replies, tables that are sound stay sound: every
/// location belongs to a device, and no key of a location is given twice.
pub proof fn law_tables_stay_sound(
    op: Operation,
    now: Moment,
    db: Database,
    moments: Seq<Moment>,
    answers: Seq<Answer>,
    end: Database,
    result: Result<Finding, Refusal>,
)
    requires
        db.open is None,
        db.kept.sound(),
        runs(begun(op, now), db, moments, answers, end, result),
    ensures
        end.kept.sound(),
        end.kept.next_location >= db.kept.next_location,
{
    lemma_runs_keep_sound(begun(op, now), db, moments, answers, end, result);
}

/// Whether the tables of a database are sound, and whether a job that is about
/// to add a location knows its device to be there.
spec fn in_order(progress: Progress, db: Database) -> bool {
    &&& db.kept.sound()
    &&& db.visible().sound()
    &&& db.visible().next_location >= db.kept.next_location
    &&& match progress {
        Progress::Ask { statement: Statement::InsertLocation { device_id, .. }, next } => {
            db.visible().devices.contains_key(device_id)
        },
        _ => true,
    }
    &&& match progress {
        Progress::Ask { statement, next: Waiting::Exists { id, .. } } => statement
            == (Statement::FindDevice { id: id_text(id) }),
        _ => true,
    }
}

proof fn lemma_statement_keeps_sound(tables: Tables, statement: Statement)
    requires
        tables.sound(),
        statement matches Statement::InsertLocation { device_id, .. }
            ==> tables.devices.contains_key(device_id),
    ensures
        tables.after(statement).sound(),
        tables.after(statement).next_location >= tables.next_location,
{
    let end = tables.after(statement);
    assert(end.locations.dom().subset_of(tables.locations.dom().insert(tables.next_location)));
    vstd::set_lib::lemma_set_subset_finite(
        tables.locations.dom().insert(tables.next_location),
        end.locations.dom(),
    );
    match statement {
        Statement::DeleteStaleDevices { .. } => {
            assert(end.devices.dom().subset_of(tables.devices.dom()));
            vstd::set_lib::lemma_set_subset_finite(tables.devices.dom(), end.devices.dom());
        },
        _ => {},
    }
}

proof fn lemma_runs_keep_sound(
    progress: Progress,
    db: Database,
    moments: Seq<Moment>,
    answers: Seq<Answer>,
    end: Database,
    result: Result<Finding, Refusal>,
)
    requires
        in_order(progress, db),
        runs(progress, db, moments, answers, end, result),
    ensures
        end.kept.sound(),
        end.kept.next_location >= db.kept.next_location,
    decreases answers.len(),
{
    match progress {
        Progress::Ask { statement, next } => {
            let answer = answers[0];
            let behind = db.behind(statement, answer);
            lemma_statement_keeps_sound(db.visible(), statement);
            let onward = resumed(next, answer, moments[0]);
            assert(in_order(onward, behind));
            lemma_runs_keep_sound(
                onward,
                behind,
                moments.drop_first(),
                answers.drop_first(),
                end,
                result,
            );
        },
        Progress::Done(_) => {},
    }
}

impl Tables {
    /// Whether every text in the tables that stands for an identifier or a
    /// moment can be read.
    pub open spec fn legible(self) -> bool {
        &&& forall|id: Seq<char>| #[trigger]
            self.devices.contains_key(id) ==> {
                &&& id_in(id) is Ok
                &&& moment_in(self.devices[id].created_at) is Ok
                &&& moment_in(self.devices[id].updated_at) is Ok
            }
        &&& forall|k: int| #[trigger]
            self.locations.contains_key(k) ==> {
                &&& moment_in(self.locations[k].captured_at) is Ok
                &&& moment_in(self.locations[k].received_at) is Ok
            }
    }
}

/// Whether the texts that a statement writes can be read.
pub open spec fn writes_legibly(statement: Statement) -> bool {
    match statement {
        Statement::UpsertDevice { id, now, .. } => id_in(id) is Ok && moment_in(now) is Ok,
        Statement::UpdateDevice { now, .. } => moment_in(now) is Ok,
        Statement::TouchDevice { now, .. } => moment_in(now) is Ok,
        Statement::InsertLocation { captured_at, received_at, .. } => moment_in(captured_at) is Ok
            && moment_in(received_at) is Ok,
        _ => true,
    }
}

/// Whether the text of a moment can be read.
pub open spec fn is_legible(at: Moment) -> bool {
    moment_in(at.text()) is Ok
}

/// Whether the texts that an operation brings with it can be read.
pub open spec fn brings_legible(op: Operation) -> bool {
    match op {
        Operation::UpsertDevice { id, .. } => id_in(id_text(id)) is Ok,
        Operation::InsertLocation { location, .. } => is_legible(location.captured_at)
            && is_legible(location.received_at),
        _ => true,
    }
}

/// A device whose texts can be read is shown, and so is a list of them.
proof fn lemma_rows_are_shown(tables: Tables, rows: Seq<ProfileRow>)
    requires
        tables.legible(),
        forall|i: int|
            0 <= i < rows.len() ==> tables.is_profile_row((#[trigger] rows[i]).id, rows[i]),
    ensures
        items_in(rows, |row: ProfileRow| profile_in(row)) is Ok,
    decreases rows.len(),
{
    if rows.len() > 0 {
        let rest = rows.drop_last();
        assert forall|i: int| 0 <= i < rest.len() implies tables.is_profile_row(
            (#[trigger] rest[i]).id,
            rest[i],
        ) by {
            assert(rest[i] == rows[i]);
        }
        lemma_rows_are_shown(tables, rest);
        let last = rows[rows.len() - 1];
        assert(tables.is_profile_row(last.id, last));
        assert(profile_in(last) is Ok);
    }
}

proof fn lemma_admin_rows_are_shown(tables: Tables, rows: Seq<AdminProfileRow>)
    requires
        tables.legible(),
        forall|i: int|
            0 <= i < rows.len() ==> tables.is_profile_row(
                (#[trigger] rows[i]).device.id,
                rows[i].device,
            ),
    ensures
        items_in(rows, |row: AdminProfileRow| admin_profile_in(row)) is Ok,
    decreases rows.len(),
{
    if rows.len() > 0 {
        let rest = rows.drop_last();
        assert forall|i: int| 0 <= i < rest.len() implies tables.is_profile_row(
            (#[trigger] rest[i]).device.id,
            rest[i].device,
        ) by {
            assert(rest[i] == rows[i]);
        }
        lemma_admin_rows_are_shown(tables, rest);
        let last = rows[rows.len() - 1];
        assert(tables.is_profile_row(last.device.id, last.device));
        assert(admin_profile_in(last) is Ok);
    }
}

proof fn lemma_track_is_shown(tables: Tables, rows: Seq<PlaceRow>)
    requires
        tables.legible(),
        forall|i: int|
            0 <= i < rows.len() ==> tables.is_place_row((#[trigger] rows[i]).id as int, rows[i]),
    ensures
        items_in(rows, |row: PlaceRow| place_in(row)) is Ok,
    decreases rows.len(),
{
    if rows.len() > 0 {
        let rest = rows.drop_last();
        assert forall|i: int| 0 <= i < rest.len() implies tables.is_place_row(
            (#[trigger] rest[i]).id as int,
            rest[i],
        ) by {
            assert(rest[i] == rows[i]);
        }
        lemma_track_is_shown(tables, rest);
        let last = rows[rows.len() - 1];
        assert(tables.is_place_row(last.id as int, last));
        assert(place_in(last) is Ok);
    }
}

/// Lists succeed: where the texts in the tables can be read and no statement
/// fails, the list of devices, that of the admin page, and the track of a device
/// that is there come to an answer and not to a refusal.
pub proof fn law_lists_succeed(
    op: Operation,
    now: Moment,
    db: Database,
    moments: Seq<Moment>,
    answers: Seq<Answer>,
    end: Database,
    result: Result<Finding, Refusal>,
)
    requires
        db.open is None,
        db.kept.legible(),
        none_failed(answers),
        op is ListDevices || op is ListAdminDevices || (op matches Operation::ListTracks { id, .. }
            && db.kept.devices.contains_key(id_text(id))),
        runs(begun(op, now), db, moments, answers, end, result),
    ensures
        result is Ok,
{
    reveal_with_fuel(runs, 4);
    match op {
        Operation::ListDevices => {
            law_devices_are_listed(now, db, moments, answers, end, result);
            let rows = choose|rows: Seq<ProfileRow>| #[trigger]
                db.kept.are_profile_rows(rows) && result == devices_shown(rows);
            lemma_rows_are_shown(db.kept, rows);
        },
        Operation::ListAdminDevices => {
            match answers[0] {
                Answer::AdminDevices { rows, failure } => {
                    let devices = rows.map_values(|row: AdminProfileRow| row.device);
                    assert(db.kept.are_profile_rows(devices));
                    assert forall|i: int| 0 <= i < rows.len() implies db.kept.is_profile_row(
                        (#[trigger] rows[i]).device.id,
                        rows[i].device,
                    ) by {
                        assert(devices[i] == rows[i].device);
                    }
                    lemma_admin_rows_are_shown(db.kept, rows);
                },
                _ => {},
            }
        },
        Operation::ListTracks { id, days } => {
            law_track_is_listed(id, days, now, db, moments, answers, end, result);
            let since = moments[0].days_earlier(days as int).text();
            let rows = choose|rows: Seq<PlaceRow>| #[trigger]
                db.kept.are_track_rows(id_text(id), since, rows) && result == track_shown(rows);
            lemma_track_is_shown(db.kept, rows);
        },
        _ => {},
    }
}

/// Registering, changing a device that is there and reporting a location of one
/// succeed: where the texts in the tables and those that are written can be
/// read and no statement fails, the answer is a device and not a refusal.
pub proof fn law_writes_succeed(
    op: Operation,
    now: Moment,
    db: Database,
    moments: Seq<Moment>,
    answers: Seq<Answer>,
    end: Database,
    result: Result<Finding, Refusal>,
)
    requires
        db.open is None,
        db.kept.sound(),
        db.kept.legible(),
        none_failed(answers),
        brings_legible(op),
        is_legible(now),
        forall|i: int| 0 <= i < moments.len() ==> is_legible(#[trigger] moments[i]),
        match op {
            Operation::UpsertDevice { .. } => true,
            Operation::UpdateDevice { id, .. } => db.kept.devices.contains_key(id_text(id)),
            Operation::InsertLocation { id, .. } => db.kept.devices.contains_key(id_text(id)),
            _ => false,
        },
        runs(begun(op, now), db, moments, answers, end, result),
    ensures
        result matches Ok(Finding::Device(_)),
{
    law_tables_stay_legible(op, now, db, moments, answers, end, result);
    match op {
        Operation::UpsertDevice { id, name, platform } => {
            law_register(id, name, platform, now, db, moments, answers, end, result);
            let row = choose|row: ProfileRow| #[trigger]
                end.kept.is_profile_row(id_text(id), row) && result == shown(row);
            assert(profile_in(row) is Ok);
        },
        Operation::UpdateDevice { id, name, platform } => {
            lemma_update_goes_through(id, name, platform, now, db, moments, answers, end, result);
        },
        Operation::InsertLocation { id, location } => {
            law_report_is_all_or_nothing(id, location, now, db, moments, answers, end, result);
            let row = choose|row: ProfileRow| #[trigger]
                end.kept.is_profile_row(id_text(id), row) && result == shown(row);
            assert(profile_in(row) is Ok);
        },
        _ => {},
    }
}

proof fn lemma_update_goes_through(
    id: u128,
    name: Option<Seq<char>>,
    platform: Option<Seq<char>>,
    now: Moment,
    db: Database,
    moments: Seq<Moment>,
    answers: Seq<Answer>,
    end: Database,
    result: Result<Finding, Refusal>,
)
    requires
        db.open is None,
        db.kept.legible(),
        end.kept.legible(),
        none_failed(answers),
        db.kept.devices.contains_key(id_text(id)),
        runs(
            begun(Operation::UpdateDevice { id, name, platform }, now),
            db,
            moments,
            answers,
            end,
            result,
        ),
    ensures
        result matches Ok(Finding::Device(_)),
{
    reveal_with_fuel(runs, 5);
    match answers[0] {
        Answer::Device(Some(row)) => {
            assert(db.kept.is_profile_row(id_text(id), row));
            assert(profile_in(row) is Ok);
            match answers[2] {
                Answer::Device(Some(last)) => {
                    assert(end.kept.is_profile_row(id_text(id), last));
                    assert(profile_in(last) is Ok);
                },
                _ => {},
            }
        },
        _ => {},
    }
}

/// What the server writes can be read: tables whose texts can be read stay so,
/// whatever the database replies, where the texts of the moments at which an
/// operation went on can be read, and those that it brought with it.
pub proof fn law_tables_stay_legible(
    op: Operation,
    now: Moment,
    db: Database,
    moments: Seq<Moment>,
    answers: Seq<Answer>,
    end: Database,
    result: Result<Finding, Refusal>,
)
    requires
        db.open is None,
        db.kept.legible(),
        brings_legible(op),
        is_legible(now),
        forall|i: int| 0 <= i < moments.len() ==> is_legible(#[trigger] moments[i]),
        runs(begun(op, now), db, moments, answers, end, result),
    ensures
        end.kept.legible(),
{
    lemma_runs_stay_legible(begun(op, now), db, moments, answers, end, result);
}

spec fn goes_on_legibly(progress: Progress) -> bool {
    match progress {
        Progress::Ask { statement, next } => {
            &&& writes_legibly(statement)
            &&& next matches Waiting::Begun { location, .. } ==> is_legible(location.captured_at)
                && is_legible(location.received_at)
            &&& next matches Waiting::Exists { location, .. } ==> is_legible(location.captured_at)
                && is_legible(location.received_at)
            &&& next matches Waiting::Inserted { touched, .. } ==> is_legible(touched)
        },
        Progress::Done(_) => true,
    }
}

proof fn lemma_runs_stay_legible(
    progress: Progress,
    db: Database,
    moments: Seq<Moment>,
    answers: Seq<Answer>,
    end: Database,
    result: Result<Finding, Refusal>,
)
    requires
        goes_on_legibly(progress),
        db.kept.legible(),
        db.visible().legible(),
        forall|i: int| 0 <= i < moments.len() ==> is_legible(#[trigger] moments[i]),
        runs(progress, db, moments, answers, end, result),
    ensures
        end.kept.legible(),
    decreases answers.len(),
{
    match progress {
        Progress::Ask { statement, next } => {
            let answer = answers[0];
            assert(is_legible(moments[0]));
            assert(db.visible().after(statement).legible());
            let onward = resumed(next, answer, moments[0]);
            assert(goes_on_legibly(onward));
            let later = moments.drop_first();
            assert forall|i: int| 0 <= i < later.len() implies is_legible(#[trigger] later[i]) by {
                assert(later[i] == moments[i + 1]);
            }
            lemma_runs_stay_legible(
                onward,
                db.behind(statement, answer),
                later,
                answers.drop_first(),
                end,
                result,
            );
        },
        Progress::Done(_) => {},
    }
}

/// Whether a name is one that a device is kept under: one that a device may
/// have, without white space at its ends.
pub open spec fn is_kept_name(name: Seq<char>) -> bool {
    is_name(name) && trimmed(name) == name
}

impl Tables {
    /// Whether every device is kept under a name that a device may have.
    pub open spec fn well_named(self) -> bool {
        forall|id: Seq<char>| #[trigger]
            self.devices.contains_key(id) ==> is_kept_name(self.devices[id].name)
    }
}

/// Whether the name that an operation brings with it is one that a device may
/// have.
pub open spec fn brings_name(op: Operation) -> bool {
    match op {
        Operation::UpsertDevice { name, .. } => is_kept_name(name),
        Operation::UpdateDevice { name: Some(name), .. } => is_name(name),
        _ => true,
    }
}

/// Devices keep names that a device may have, whatever the database replies,
/// where every operation brings such a name.
pub proof fn law_devices_stay_well_named(
    op: Operation,
    now: Moment,
    db: Database,
    moments: Seq<Moment>,
    answers: Seq<Answer>,
    end: Database,
    result: Result<Finding, Refusal>,
)
    requires
        db.open is None,
        db.kept.well_named(),
        brings_name(op),
        runs(begun(op, now), db, moments, answers, end, result),
    ensures
        end.kept.well_named(),
{
    lemma_runs_stay_well_named(begun(op, now), db, moments, answers, end, result);
}

spec fn goes_on_named(progress: Progress) -> bool {
    match progress {
        Progress::Ask { statement, next } => {
            &&& match statement {
                Statement::UpsertDevice { name, .. } => is_kept_name(name),
                Statement::UpdateDevice { name, .. } => is_kept_name(name),
                _ => true,
            }
            &&& match next {
                Waiting::Current { id, name, .. } => {
                    &&& statement == (Statement::DeviceById { id: id_text(id) })
                    &&& name matches Some(name) ==> is_name(name)
                },
                _ => true,
            }
        },
        Progress::Done(_) => true,
    }
}

proof fn lemma_runs_stay_well_named(
    progress: Progress,
    db: Database,
    moments: Seq<Moment>,
    answers: Seq<Answer>,
    end: Database,
    result: Result<Finding, Refusal>,
)
    requires
        goes_on_named(progress),
        db.kept.well_named(),
        db.visible().well_named(),
        runs(progress, db, moments, answers, end, result),
    ensures
        end.kept.well_named(),
    decreases answers.len(),
{
    match progress {
        Progress::Ask { statement, next } => {
            let answer = answers[0];
            assert(db.visible().after(statement).well_named());
            match (next, answer) {
                (Waiting::Current { name, .. }, Answer::Device(Some(row))) => {
                    assert(db.visible().is_profile_row(row.id, row));
                    law_trim_is_idempotent(row.name);
                    if name is Some {
                        law_trim_is_idempotent(name->0);
                    }
                },
                _ => {},
            }
            let onward = resumed(next, answer, moments[0]);
            assert(goes_on_named(onward));
            lemma_runs_stay_well_named(
                onward,
                db.behind(statement, answer),
                moments.drop_first(),
                answers.drop_first(),
                end,
                result,
            );
        },
        Progress::Done(_) => {},
    }
}

/// What was reported reads back: the track of the device holds the location with
/// its numbers, as they are kept, and the same times, under the key that it got. This holds
/// where the texts in the tables and those that are written can be read, those
/// of the location as its times, where no statement fails, and for as long as
/// the location was received neither before the cutoff of the report nor before
/// that of the track.
pub proof fn law_report_reads_back(
    id: u128,
    location: Place,
    report_at: Moment,
    db: Database,
    report_moments: Seq<Moment>,
    report_answers: Seq<Answer>,
    middle: Database,
    report_result: Result<Finding, Refusal>,
    days: i64,
    track_at: Moment,
    track_moments: Seq<Moment>,
    track_answers: Seq<Answer>,
    end: Database,
    result: Result<Finding, Refusal>,
)
    requires
        db.open is None,
        db.kept.sound(),
        db.kept.legible(),
        db.kept.devices.contains_key(id_text(id)),
        reads_as(location.captured_at.text(), location.captured_at),
        reads_as(location.received_at.text(), location.received_at),
        is_legible(report_at),
        forall|i: int| 0 <= i < report_moments.len() ==> is_legible(#[trigger] report_moments[i]),
        none_failed(report_answers),
        none_failed(track_answers),
        runs(
            begun(Operation::InsertLocation { id, location }, report_at),
            db,
            report_moments,
            report_answers,
            middle,
            report_result,
        ),
        runs(
            begun(Operation::ListTracks { id, days }, track_at),
            middle,
            track_moments,
            track_answers,
            end,
            result,
        ),
        !sorts_before(
            location.received_at.text(),
            report_moments[3].days_earlier(RETENTION_DAYS as int).text(),
        ),
        !sorts_before(
            location.received_at.text(),
            track_moments[0].days_earlier(days as int).text(),
        ),
    ensures
        result matches Ok(Finding::Track(places)) && exists|i: int|
            0 <= i < places.len() && {
                let place = #[trigger] places[i];
                &&& place.id matches Some(key) && key == db.kept.next_location
                &&& place.reading == kept_reading(location.reading)
                &&& place.captured_at == location.captured_at
                &&& place.received_at == location.received_at
            },
{
    let report = Operation::InsertLocation { id, location };
    let listing = Operation::ListTracks { id, days };
    law_report_is_all_or_nothing(
        id,
        location,
        report_at,
        db,
        report_moments,
        report_answers,
        middle,
        report_result,
    );
    law_tables_stay_legible(
        report,
        report_at,
        db,
        report_moments,
        report_answers,
        middle,
        report_result,
    );
    law_lists_succeed(listing, track_at, middle, track_moments, track_answers, end, result);
    law_reported_location_is_in_track(
        id,
        location,
        report_at,
        db,
        report_moments,
        report_answers,
        middle,
        report_result,
        days,
        track_at,
        track_moments,
        track_answers,
        end,
        result,
    );
}

/// What the list of the admin page comes to.
pub open spec fn admin_shown(rows: Seq<AdminProfileRow>) -> Result<Finding, Refusal> {
    match all_in(rows, |row: AdminProfileRow| admin_profile_in(row), None) {
        Ok(devices) => Ok(Finding::AdminDevices(devices)),
        Err(e) => Err(internal(e)),
    }
}

/// Whether rows of the admin page are those of all devices, each once, the last
/// updated first, each with the number of its locations, which is zero exactly
/// where there is no last one.
pub open spec fn are_admin_rows(tables: Tables, rows: Seq<AdminProfileRow>) -> bool {
    &&& tables.are_profile_rows(rows.map_values(|row: AdminProfileRow| row.device))
    &&& forall|i: int|
        0 <= i < rows.len() ==> {
            &&& (#[trigger] rows[i]).location_count == tables.locations_of(rows[i].device.id).len()
            &&& rows[i].location_count == 0 <==> rows[i].device.location is None
        }
}

/// The list of the admin page holds every device once, the last updated first,
/// each with its last location and with the number of its locations. The number
/// is zero exactly where there is no last location. What is shown of each device
/// is what its row holds.
pub proof fn law_admin_devices_are_listed(
    now: Moment,
    db: Database,
    moments: Seq<Moment>,
    answers: Seq<Answer>,
    end: Database,
    result: Result<Finding, Refusal>,
)
    requires
        db.open is None,
        db.kept.sound(),
        none_failed(answers),
        runs(begun(Operation::ListAdminDevices, now), db, moments, answers, end, result),
    ensures
        end == db,
        exists|rows: Seq<AdminProfileRow>| #[trigger]
            are_admin_rows(db.kept, rows) && result == admin_shown(rows) && (result matches Ok(
                Finding::AdminDevices(devices),
            ) ==> devices.len() == rows.len() && forall|i: int|
                0 <= i < devices.len() ==> {
                    &&& id_in(rows[i].device.id) == Ok::<u128, Seq<char>>(
                        (#[trigger] devices[i]).device.id,
                    )
                    &&& devices[i].device.name == rows[i].device.name
                    &&& devices[i].device.platform == rows[i].device.platform
                    &&& devices[i].location_count == rows[i].location_count
                    &&& devices[i].coordinates == rows[i].coordinates
                    &&& devices[i].location_count == 0
                        <==> devices[i].device.last_location is None
                }),
{
    reveal_with_fuel(runs, 3);
    match answers[0] {
        Answer::AdminDevices { rows, failure } => {
            let devices = rows.map_values(|row: AdminProfileRow| row.device);
            assert forall|i: int| 0 <= i < rows.len() implies ((#[trigger] rows[i]).location_count
                == 0 <==> rows[i].device.location is None) by {
                assert(devices[i] == rows[i].device);
                assert(db.kept.is_profile_row(devices[i].id, devices[i]));
                lemma_no_locations(db.kept, rows[i].device);
            }
            assert(are_admin_rows(db.kept, rows));
            assert(result == admin_shown(rows));
            if result is Ok {
                lemma_items_match_rows(rows, |row: AdminProfileRow| admin_profile_in(row));
                let shown = result->Ok_0->AdminDevices_0;
                assert forall|i: int| 0 <= i < shown.len() implies {
                    &&& id_in(rows[i].device.id) == Ok::<u128, Seq<char>>(
                        (#[trigger] shown[i]).device.id,
                    )
                    &&& shown[i].device.name == rows[i].device.name
                    &&& shown[i].device.platform == rows[i].device.platform
                    &&& shown[i].location_count == rows[i].location_count
                    &&& shown[i].coordinates == rows[i].coordinates
                    &&& shown[i].location_count == 0 <==> shown[i].device.last_location is None
                } by {
                    assert(admin_profile_in(rows[i]) == Ok::<AdminProfile, Seq<char>>(shown[i]));
                }
            }
        },
        _ => {},
    }
}

proof fn lemma_no_locations(tables: Tables, row: ProfileRow)
    requires
        tables.sound(),
        tables.is_profile_row(row.id, row),
    ensures
        tables.locations_of(row.id).len() == 0 <==> row.location is None,
{
    let keys = tables.locations_of(row.id);
    vstd::set_lib::lemma_set_subset_finite(tables.locations.dom(), keys);
    match row.location {
        Some(location) => {
            assert(keys.contains(location.id as int));
            if keys.len() == 0 {
                assert(keys =~= Set::empty());
            }
        },
        None => {
            assert(keys =~= Set::empty());
        },
    }
}

/// Whether a row of a track comes before another.
pub open spec fn row_before(a: PlaceRow, b: PlaceRow) -> bool {
    ||| sorts_before(a.received_at, b.received_at)
    ||| a.received_at == b.received_at && a.id < b.id
}

proof fn lemma_sorting_is_strict(a: Seq<char>)
    ensures
        !sorts_before(a, a),
    decreases a.len(),
{
    if a.len() > 0 {
        lemma_sorting_is_strict(a.drop_first());
    }
}

proof fn lemma_sorting_chains(a: Seq<char>, b: Seq<char>, c: Seq<char>)
    requires
        sorts_before(a, b),
        sorts_before(b, c),
    ensures
        sorts_before(a, c),
    decreases a.len(),
{
    if a.len() > 0 && b.len() > 0 && c.len() > 0 {
        if a.first() == b.first() && b.first() == c.first() {
            lemma_sorting_chains(a.drop_first(), b.drop_first(), c.drop_first());
        }
    }
}

proof fn lemma_rows_not_both_ways(a: PlaceRow, b: PlaceRow)
    requires
        row_before(a, b),
    ensures
        !row_before(b, a),
{
    lemma_sorting_is_strict(a.received_at);
    if row_before(b, a) {
        if sorts_before(a.received_at, b.received_at) && sorts_before(
            b.received_at,
            a.received_at,
        ) {
            lemma_sorting_chains(a.received_at, b.received_at, a.received_at);
        }
    }
}

spec fn in_row_order(rows: Seq<PlaceRow>) -> bool {
    forall|i: int, j: int|
        0 <= i < j < rows.len() ==> row_before(#[trigger] rows[i], #[trigger] rows[j])
}

proof fn lemma_order_decides(a: Seq<PlaceRow>, b: Seq<PlaceRow>)
    requires
        in_row_order(a),
        in_row_order(b),
        forall|row: PlaceRow| #[trigger] a.contains(row) <==> b.contains(row),
    ensures
        a == b,
    decreases a.len(),
{
    if a.len() == 0 {
        if b.len() > 0 {
            assert(b.contains(b[0]));
            assert(a.contains(b[0]));
        }
    } else {
        assert(a.contains(a.last()));
        assert(b.contains(a.last()));
        let j = choose|j: int| 0 <= j < b.len() && b[j] == a.last();
        assert(b.contains(b.last()));
        assert(a.contains(b.last()));
        let i = choose|i: int| 0 <= i < a.len() && a[i] == b.last();
        if i < a.len() - 1 && j < b.len() - 1 {
            assert(row_before(a[i], a[a.len() - 1]));
            assert(row_before(b[j], b[b.len() - 1]));
            lemma_rows_not_both_ways(a[i], a[a.len() - 1]);
        }
        let last = a.last();
        assert(last == b.last());
        let front = a.drop_last();
        let other = b.drop_last();
        assert forall|row: PlaceRow| #[trigger] front.contains(row) implies other.contains(row) by {
            let k = choose|k: int| 0 <= k < front.len() && front[k] == row;
            assert(row_before(a[k], a[a.len() - 1]));
            lemma_rows_not_both_ways(a[k], a[a.len() - 1]);
            assert(a.contains(row));
            let m = choose|m: int| 0 <= m < b.len() && b[m] == row;
            assert(m != b.len() - 1);
            assert(other[m] == row);
        }
        assert forall|row: PlaceRow| #[trigger] other.contains(row) implies front.contains(row) by {
            let k = choose|k: int| 0 <= k < other.len() && other[k] == row;
            assert(row_before(b[k], b[b.len() - 1]));
            lemma_rows_not_both_ways(b[k], b[b.len() - 1]);
            assert(b.contains(row));
            assert(a.contains(row));
            let m = choose|m: int| 0 <= m < a.len() && a[m] == row;
            assert(m != a.len() - 1);
            assert(front[m] == row);
        }
        lemma_order_decides(front, other);
        assert(a == front.push(last) && b == other.push(last));
    }
}

spec fn start_at(rows: Seq<PlaceRow>, since: Seq<char>) -> int
    decreases rows.len(),
{
    if rows.len() == 0 || !sorts_before(rows.first().received_at, since) {
        0
    } else {
        1 + start_at(rows.drop_first(), since)
    }
}

proof fn lemma_start_divides(rows: Seq<PlaceRow>, since: Seq<char>)
    requires
        in_row_order(rows),
    ensures
        0 <= start_at(rows, since) <= rows.len(),
        forall|i: int|
            0 <= i < rows.len() ==> (sorts_before((#[trigger] rows[i]).received_at, since) <==> i
                < start_at(rows, since)),
    decreases rows.len(),
{
    if rows.len() > 0 {
        if sorts_before(rows.first().received_at, since) {
            let rest = rows.drop_first();
            assert forall|i: int, j: int| 0 <= i < j < rest.len() implies row_before(
                #[trigger] rest[i],
                #[trigger] rest[j],
            ) by {
                assert(rest[i] == rows[i + 1] && rest[j] == rows[j + 1]);
            }
            lemma_start_divides(rest, since);
            assert forall|i: int| 0 <= i < rows.len() implies (sorts_before(
                (#[trigger] rows[i]).received_at,
                since,
            ) <==> i < start_at(rows, since)) by {
                if i > 0 {
                    assert(rest[i - 1] == rows[i]);
                }
            }
        } else {
            assert forall|i: int| 0 <= i < rows.len() implies !sorts_before(
                (#[trigger] rows[i]).received_at,
                since,
            ) by {
                if i > 0 {
                    assert(row_before(rows[0], rows[i]));
                    if sorts_before(rows[i].received_at, since) && sorts_before(
                        rows[0].received_at,
                        rows[i].received_at,
                    ) {
                        lemma_sorting_chains(rows[0].received_at, rows[i].received_at, since);
                    }
                }
            }
        }
    }
}

proof fn lemma_later_cutoff_gives_the_end(
    tables: Tables,
    id: Seq<char>,
    later: Seq<char>,
    earlier: Seq<char>,
    short: Seq<PlaceRow>,
    long: Seq<PlaceRow>,
)
    requires
        later == earlier || sorts_before(earlier, later),
        tables.are_track_rows(id, later, short),
        tables.are_track_rows(id, earlier, long),
    ensures
        short.len() <= long.len(),
        short == long.skip(long.len() - short.len()),
{
    let n = start_at(long, later);
    lemma_start_divides(long, later);
    let end = long.skip(n);
    assert(in_row_order(end)) by {
        assert forall|i: int, j: int| 0 <= i < j < end.len() implies row_before(
            #[trigger] end[i],
            #[trigger] end[j],
        ) by {
            assert(end[i] == long[i + n] && end[j] == long[j + n]);
        }
    }
    assert(in_row_order(short));
    assert forall|row: PlaceRow| #[trigger] short.contains(row) implies end.contains(row) by {
        let i = choose|i: int| 0 <= i < short.len() && short[i] == row;
        assert(tables.is_place_row(short[i].id as int, short[i]));
        if sorts_before(row.received_at, earlier) && later != earlier {
            lemma_sorting_chains(row.received_at, earlier, later);
        }
        assert(tables.locations.contains_key(row.id as int));
        let j = choose|j: int| 0 <= j < long.len() && (#[trigger] long[j]).id == row.id as int;
        assert(tables.is_place_row(long[j].id as int, long[j]));
        assert(long[j] == row);
        assert(end[j - n] == row);
    }
    assert forall|row: PlaceRow| #[trigger] end.contains(row) implies short.contains(row) by {
        let i = choose|i: int| 0 <= i < end.len() && end[i] == row;
        assert(long[i + n] == row);
        assert(tables.is_place_row(long[i + n].id as int, long[i + n]));
        assert(tables.locations.contains_key(row.id as int));
        let j = choose|j: int| 0 <= j < short.len() && (#[trigger] short[j]).id == row.id as int;
        assert(tables.is_place_row(short[j].id as int, short[j]));
        assert(short[j] == row);
    }
    lemma_order_decides(short, end);
}

/// Of two tracks of a device that are listed from the same tables at the same
/// moment, that of fewer days is the end of that of more days: a longer period
/// only adds older locations at the front. The text of the later cutoff sorts as
/// its moment, which listing the track ensures.
pub proof fn law_shorter_track_is_the_end(
    id: u128,
    few: i64,
    many: i64,
    now: Moment,
    few_at: Moment,
    many_at: Moment,
    db: Database,
    few_moments: Seq<Moment>,
    few_answers: Seq<Answer>,
    few_end: Database,
    short: Seq<Place>,
    many_moments: Seq<Moment>,
    many_answers: Seq<Answer>,
    many_end: Database,
    long: Seq<Place>,
)
    requires
        1 <= few <= many <= RETENTION_DAYS,
        now.on_clock(),
        now.in_written_years(),
        sorts_as(now.days_earlier(few as int).text(), now.days_earlier(few as int)),
        db.open is None,
        none_failed(few_answers),
        none_failed(many_answers),
        few_moments.len() > 0 ==> few_moments[0] == now,
        many_moments.len() > 0 ==> many_moments[0] == now,
        runs(
            begun(Operation::ListTracks { id, days: few }, few_at),
            db,
            few_moments,
            few_answers,
            few_end,
            Ok(Finding::Track(short)),
        ),
        runs(
            begun(Operation::ListTracks { id, days: many }, many_at),
            db,
            many_moments,
            many_answers,
            many_end,
            Ok(Finding::Track(long)),
        ),
    ensures
        short.len() <= long.len(),
        short == long.skip(long.len() - short.len()),
{
    reveal_with_fuel(runs, 4);
    let few_result = Ok::<Finding, Refusal>(Finding::Track(short));
    let many_result = Ok::<Finding, Refusal>(Finding::Track(long));
    law_track_is_listed(id, few, few_at, db, few_moments, few_answers, few_end, few_result);
    law_track_is_listed(id, many, many_at, db, many_moments, many_answers, many_end, many_result);
    let later = now.days_earlier(few as int).text();
    let earlier = now.days_earlier(many as int).text();
    if few < many {
        let cutoff = now.days_earlier(many as int);
        assert(cutoff.valid() && cutoff.in_written_years());
        assert(sorts_before(cutoff.text(), later));
    }
    let short_rows = choose|rows: Seq<PlaceRow>| #[trigger]
        db.kept.are_track_rows(id_text(id), later, rows) && few_result == track_shown(rows);
    let long_rows = choose|rows: Seq<PlaceRow>| #[trigger]
        db.kept.are_track_rows(id_text(id), earlier, rows) && many_result == track_shown(rows);
    lemma_later_cutoff_gives_the_end(
        db.kept,
        id_text(id),
        later,
        earlier,
        short_rows,
        long_rows,
    );
    lemma_items_match_rows(short_rows, |row: PlaceRow| place_in(row));
    lemma_items_match_rows(long_rows, |row: PlaceRow| place_in(row));
    let n = long.len() - short.len();
    assert forall|i: int| 0 <= i < short.len() implies short[i] == long[i + n] by {
        assert(short_rows[i] == long_rows[i + n]);
        assert(place_in(short_rows[i]) == Ok::<Place, Seq<char>>(short[i]));
        assert(place_in(long_rows[i + n]) == Ok::<Place, Seq<char>>(long[i + n]));
    }
    assert(short =~= long.skip(n));
}

/// The list of devices is whole: every device is shown once, however many there
/// are, the last updated first, each with what its row holds and with its last
/// location.
pub proof fn law_device_list_is_whole(
    now: Moment,
    db: Database,
    moments: Seq<Moment>,
    answers: Seq<Answer>,
    end: Database,
    devices: Seq<Profile>,
)
    requires
        db.open is None,
        none_failed(answers),
        runs(
            begun(Operation::ListDevices, now),
            db,
            moments,
            answers,
            end,
            Ok(Finding::Devices(devices)),
        ),
    ensures
        exists|rows: Seq<ProfileRow>| #[trigger]
            db.kept.are_profile_rows(rows) && rows.len() == devices.len() && forall|i: int|
                0 <= i < devices.len() ==> {
                    let shown = #[trigger] devices[i];
                    &&& id_in(rows[i].id) == Ok::<u128, Seq<char>>(shown.id)
                    &&& shown.name == rows[i].name
                    &&& shown.platform == rows[i].platform
                    &&& moment_in(rows[i].created_at) == Ok::<Moment, Seq<char>>(shown.created_at)
                    &&& moment_in(rows[i].updated_at) == Ok::<Moment, Seq<char>>(shown.updated_at)
                    &&& rows[i].location is None ==> shown.last_location is None
                    &&& rows[i].location matches Some(location) ==> (
                    shown.last_location matches Some(place) && place.id == Some(location.id)
                        && place.reading == location.reading && moment_in(location.captured_at)
                        == Ok::<Moment, Seq<char>>(place.captured_at) && moment_in(
                        location.received_at,
                    ) == Ok::<Moment, Seq<char>>(place.received_at))
                },
{
    law_devices_are_listed(now, db, moments, answers, end, Ok(Finding::Devices(devices)));
    let rows = choose|rows: Seq<ProfileRow>| #[trigger]
        db.kept.are_profile_rows(rows) && Ok::<Finding, Refusal>(Finding::Devices(devices))
            == devices_shown(rows);
    law_lists_are_whole(rows, |row: ProfileRow| profile_in(row), None);
    assert forall|i: int| 0 <= i < devices.len() implies profile_in(rows[i]) == Ok::<
        Profile,
        Seq<char>,
    >(#[trigger] devices[i]) by {
        let row = rows[i];
    }
}

/// A track is whole: every location of the device that was not received before
/// the cutoff is shown once, however many there are, in the order of receipt,
/// each with what its row holds.
pub proof fn law_track_is_whole(
    id: u128,
    days: i64,
    now: Moment,
    db: Database,
    moments: Seq<Moment>,
    answers: Seq<Answer>,
    end: Database,
    places: Seq<Place>,
)
    requires
        db.open is None,
        none_failed(answers),
        runs(
            begun(Operation::ListTracks { id, days }, now),
            db,
            moments,
            answers,
            end,
            Ok(Finding::Track(places)),
        ),
    ensures
        db.kept.devices.contains_key(id_text(id)),
        exists|rows: Seq<PlaceRow>| #[trigger]
            db.kept.are_track_rows(
                id_text(id),
                moments[0].days_earlier(days as int).text(),
                rows,
            ) && rows.len() == places.len() && forall|i: int|
                0 <= i < places.len() ==> {
                    let shown = #[trigger] places[i];
                    &&& shown.id == Some(rows[i].id)
                    &&& shown.reading == rows[i].reading
                    &&& moment_in(rows[i].captured_at) == Ok::<Moment, Seq<char>>(shown.captured_at)
                    &&& moment_in(rows[i].received_at) == Ok::<Moment, Seq<char>>(shown.received_at)
                },
{
    let result = Ok::<Finding, Refusal>(Finding::Track(places));
    law_track_is_listed(id, days, now, db, moments, answers, end, result);
    let since = moments[0].days_earlier(days as int).text();
    let rows = choose|rows: Seq<PlaceRow>| #[trigger]
        db.kept.are_track_rows(id_text(id), since, rows) && result == track_shown(rows);
    law_lists_are_whole(rows, |row: PlaceRow| place_in(row), None);
    assert forall|i: int| 0 <= i < places.len() implies place_in(rows[i]) == Ok::<Place, Seq<char>>(
        #[trigger] places[i],
    ) by {
        let row = rows[i];
    }
}

/// Whether these are the replies to the rest of an operation of which the reply
/// at this place is the first that failed.
spec fn fails_first(answers: Seq<Answer>, first: int, message: Seq<char>) -> bool {
    &&& 0 <= first < answers.len()
    &&& forall|i: int| 0 <= i < first ==> !(#[trigger] answers[i] is Failed)
    &&& answers[first] == Answer::Failed(message)
}

/// A statement that fails ends its operation with the failure, behind a
/// transaction that is undone.
proof fn lemma_failure_is_named(
    statement: Statement,
    next: Waiting,
    db: Database,
    moments: Seq<Moment>,
    answers: Seq<Answer>,
    end: Database,
    result: Result<Finding, Refusal>,
    message: Seq<char>,
)
    requires
        !(next is RolledBack),
        fails_first(answers, 0, message),
        runs(Progress::Ask { statement, next }, db, moments, answers, end, result),
    ensures
        result matches Err(e) && e.status == 500 && e.message == message,
{
    reveal_with_fuel(runs, 3);
}

/// An operation whose first statement does not fail goes on with the next.
proof fn lemma_goes_on(
    statement: Statement,
    next: Waiting,
    db: Database,
    moments: Seq<Moment>,
    answers: Seq<Answer>,
    end: Database,
    result: Result<Finding, Refusal>,
    first: int,
    message: Seq<char>,
)
    requires
        first > 0,
        fails_first(answers, first, message),
        runs(Progress::Ask { statement, next }, db, moments, answers, end, result),
    ensures
        !(answers[0] is Failed),
        db.may_reply(statement, answers[0]),
        fails_first(answers.drop_first(), first - 1, message),
        runs(
            resumed(next, answers[0], moments[0]),
            db.behind(statement, answers[0]),
            moments.drop_first(),
            answers.drop_first(),
            end,
            result,
        ),
{
}

proof fn lemma_failure_behind_commit(
    statement: Statement,
    next: Waiting,
    db: Database,
    moments: Seq<Moment>,
    answers: Seq<Answer>,
    end: Database,
    result: Result<Finding, Refusal>,
    first: int,
    message: Seq<char>,
)
    requires
        next is Pruned || next is Committed || next is OneDevice,
        next is Pruned ==> statement is PruneLocations,
        next is Committed ==> statement is Commit,
        next is OneDevice ==> statement is DeviceById,
        fails_first(answers, first, message),
        runs(Progress::Ask { statement, next }, db, moments, answers, end, result),
    ensures
        result matches Err(e) && e.status == 500 && e.message == message,
    decreases answers.len(),
{
    if first == 0 {
        lemma_failure_is_named(statement, next, db, moments, answers, end, result, message);
    } else {
        lemma_goes_on(statement, next, db, moments, answers, end, result, first, message);
        match resumed(next, answers[0], moments[0]) {
            Progress::Ask { statement: then, next: last } => {
                lemma_failure_behind_commit(
                    then,
                    last,
                    db.behind(statement, answers[0]),
                    moments.drop_first(),
                    answers.drop_first(),
                    end,
                    result,
                    first - 1,
                    message,
                );
            },
            Progress::Done(_) => {},
        }
    }
}

proof fn lemma_failure_behind_insert(
    statement: Statement,
    next: Waiting,
    db: Database,
    moments: Seq<Moment>,
    answers: Seq<Answer>,
    end: Database,
    result: Result<Finding, Refusal>,
    first: int,
    message: Seq<char>,
)
    requires
        next is Inserted || next is Touched,
        next is Inserted ==> statement is InsertLocation,
        next is Touched ==> statement is TouchDevice,
        fails_first(answers, first, message),
        runs(Progress::Ask { statement, next }, db, moments, answers, end, result),
    ensures
        result matches Err(e) && e.status == 500 && e.message == message,
    decreases answers.len(),
{
    if first == 0 {
        lemma_failure_is_named(statement, next, db, moments, answers, end, result, message);
    } else {
        lemma_goes_on(statement, next, db, moments, answers, end, result, first, message);
        let behind = db.behind(statement, answers[0]);
        match resumed(next, answers[0], moments[0]) {
            Progress::Ask { statement: then, next: last } => {
                if last is Touched {
                    lemma_failure_behind_insert(
                        then,
                        last,
                        behind,
                        moments.drop_first(),
                        answers.drop_first(),
                        end,
                        result,
                        first - 1,
                        message,
                    );
                } else {
                    lemma_failure_behind_commit(
                        then,
                        last,
                        behind,
                        moments.drop_first(),
                        answers.drop_first(),
                        end,
                        result,
                        first - 1,
                        message,
                    );
                }
            },
            Progress::Done(_) => {},
        }
    }
}

/// A report whose statements fail is answered with the failure: where there is a
/// device for it, the answer is an error of the server with the message of the
/// first statement that failed.
pub proof fn law_failed_report_names_its_failure(
    id: u128,
    location: Place,
    now: Moment,
    db: Database,
    moments: Seq<Moment>,
    answers: Seq<Answer>,
    end: Database,
    result: Result<Finding, Refusal>,
    first: int,
    message: Seq<char>,
)
    requires
        db.open is None,
        db.kept.devices.contains_key(id_text(id)),
        0 <= first < answers.len(),
        forall|i: int| 0 <= i < first ==> !(#[trigger] answers[i] is Failed),
        answers[first] == Answer::Failed(message),
        runs(
            begun(Operation::InsertLocation { id, location }, now),
            db,
            moments,
            answers,
            end,
            result,
        ),
    ensures
        result matches Err(e) && e.status == 500 && e.message == message,
{
    let begin = Statement::Begin;
    let begun_job = Waiting::Begun { id, location };
    if first == 0 {
        lemma_failure_is_named(begin, begun_job, db, moments, answers, end, result, message);
    } else {
        lemma_goes_on(begin, begun_job, db, moments, answers, end, result, first, message);
        let inside = db.behind(begin, answers[0]);
        let find = Statement::FindDevice { id: id_text(id) };
        let found_job = Waiting::Exists { id, location };
        let later = moments.drop_first();
        let rest = answers.drop_first();
        if first == 1 {
            lemma_failure_is_named(find, found_job, inside, later, rest, end, result, message);
        } else {
            lemma_goes_on(find, found_job, inside, later, rest, end, result, first - 1, message);
            match resumed(found_job, rest[0], later[0]) {
                Progress::Ask { statement, next } => {
                    lemma_failure_behind_insert(
                        statement,
                        next,
                        inside.behind(find, rest[0]),
                        later.drop_first(),
                        rest.drop_first(),
                        end,
                        result,
                        first - 2,
                        message,
                    );
                },
                Progress::Done(_) => {},
            }
        }
    }
}

/// Whether at most one of the replies is a failure.
pub open spec fn one_failed_at_most(answers: Seq<Answer>) -> bool {
    forall|i: int, j: int|
        0 <= i < j < answers.len() ==> !(#[trigger] answers[i] is Failed
            && #[trigger] answers[j] is Failed)
}

/// Whether a report that waits for this statement has its transaction open
/// exactly as it should.
spec fn open_as_it_should(statement: Statement, next: Waiting, open: bool) -> bool {
    match (statement, next) {
        (Statement::FindDevice { .. }, Waiting::Exists { .. }) => open,
        (Statement::InsertLocation { .. }, Waiting::Inserted { .. }) => open,
        (Statement::TouchDevice { .. }, Waiting::Touched { .. }) => open,
        (Statement::PruneLocations { .. }, Waiting::Pruned { .. }) => open,
        (Statement::Commit, Waiting::Committed { .. }) => open,
        (Statement::Rollback, Waiting::RolledBack { .. }) => open,
        (Statement::DeviceById { .. }, Waiting::OneDevice) => !open,
        _ => false,
    }
}

proof fn lemma_rest_fails_less(answers: Seq<Answer>)
    requires
        answers.len() > 0,
    ensures
        one_failed_at_most(answers) ==> one_failed_at_most(answers.drop_first()),
        one_failed_at_most(answers) && answers[0] is Failed ==> none_failed(answers.drop_first()),
        none_failed(answers) ==> none_failed(answers.drop_first()),
{
    let rest = answers.drop_first();
    assert(forall|i: int| 0 <= i < rest.len() ==> #[trigger] rest[i] == answers[i + 1]);
}

proof fn lemma_transaction_is_closed(
    statement: Statement,
    next: Waiting,
    db: Database,
    moments: Seq<Moment>,
    answers: Seq<Answer>,
    end: Database,
    result: Result<Finding, Refusal>,
)
    requires
        open_as_it_should(statement, next, db.open is Some),
        one_failed_at_most(answers),
        next is RolledBack ==> none_failed(answers),
        statement matches Statement::FindDevice { id } ==> none_failed(answers)
            || db.visible().devices.contains_key(id),
        runs(Progress::Ask { statement, next }, db, moments, answers, end, result),
    ensures
        end.open is None,
    decreases answers.len(),
{
    reveal_with_fuel(runs, 2);
    let rest = answers.drop_first();
    lemma_rest_fails_less(answers);
    match resumed(next, answers[0], moments[0]) {
        Progress::Ask { statement: then, next: last } => {
            lemma_transaction_is_closed(
                then,
                last,
                db.behind(statement, answers[0]),
                moments.drop_first(),
                rest,
                end,
                result,
            );
        },
        Progress::Done(_) => {},
    }
}

/// A report leaves no transaction open, also where one of its statements fails:
/// what was begun is then undone. (Where there is no device for the report the
/// transaction is undone too; only where undoing it fails does it stay.)
pub proof fn law_no_transaction_stays_open(
    id: u128,
    location: Place,
    now: Moment,
    db: Database,
    moments: Seq<Moment>,
    answers: Seq<Answer>,
    end: Database,
    result: Result<Finding, Refusal>,
)
    requires
        db.open is None,
        one_failed_at_most(answers),
        db.kept.devices.contains_key(id_text(id)) || none_failed(answers),
        runs(
            begun(Operation::InsertLocation { id, location }, now),
            db,
            moments,
            answers,
            end,
            result,
        ),
    ensures
        end.open is None,
{
    reveal_with_fuel(runs, 2);
    lemma_rest_fails_less(answers);
    let inside = db.behind(Statement::Begin, answers[0]);
    match resumed(Waiting::Begun { id, location }, answers[0], moments[0]) {
        Progress::Ask { statement, next } => {
            lemma_transaction_is_closed(
                statement,
                next,
                inside,
                moments.drop_first(),
                answers.drop_first(),
                end,
                result,
            );
        },
        Progress::Done(_) => {},
    }
}

} // verus!
