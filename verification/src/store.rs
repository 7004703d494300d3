//! What the server does to its database, one statement at a time: each
//! operation asks for a statement, takes the reply to it, and asks for the next
//! one or is done.

use vstd::prelude::*;

use crate::api::{internal, not_found, ApiError, Refusal};
use crate::clock::{reads_as, sorts_as, time_to_text, Moment, Timestamp};
use crate::decimal::{parse_integer, parsed_integer, signed_decimal, signed_text};
use crate::device_id::{id_text, id_to_text, reads_as_id};
use crate::query::{Query, Statement};
use crate::records::{
    admin_profile_in, all_in, copied, place_in, profile_in, row_to_device, rows_to_admin_devices,
    rows_to_devices, rows_to_locations, AdminDevice, AdminDeviceRow, AdminProfile, AdminProfileRow,
    Device, DeviceRow, Location, LocationRow, Place, PlaceRow, Profile, ProfileRow,
    UpdateDeviceRequest,
};
use crate::text::{trim, trimmed};

verus! {

/// The setting that holds after how many days devices are swept.
pub const AUTO_CLEANUP_DAYS_KEY: &'static str = "admin.auto_cleanup_days";

/// For how many days locations are kept.
pub const RETENTION_DAYS: i64 = 7;

/// The message about a device that is not there.
pub const DEVICE_NOT_FOUND: &'static str = "device not found";

/// The message about a setting that is no number.
pub const INVALID_SETTING: &'static str = "invalid auto cleanup setting";

/// The message about a reply that does not belong to what was asked.
pub const UNEXPECTED_REPLY: &'static str = "unexpected reply of the database";

/// An operation on the database.
#[allow(inconsistent_fields)]
pub enum Operation {
    ListDevices,
    UpsertDevice { id: u128, name: Seq<char>, platform: Option<Seq<char>> },
    UpdateDevice { id: u128, name: Option<Seq<char>>, platform: Option<Seq<char>> },
    InsertLocation { id: u128, location: Place },
    ListAdminDevices,
    DeleteDeviceLocations { id: u128 },
    DeleteDevice { id: u128 },
    DeleteStaleDevices { days: i64 },
    AutoCleanupDays,
    SetAutoCleanupDays { days: Option<i64> },
    ListTracks { id: u128, days: i64 },
}

/// An operation to carry out on the database.
#[allow(inconsistent_fields)]
#[derive(Debug)]
pub enum StoreOp {
    /// Lists all devices.
    ListDevices,
    /// Adds a device, or gives the one with this identifier a new name and a new
    /// platform.
    UpsertDevice { id: u128, name: String, platform: Option<String> },
    /// Changes the name of a device, its platform, or both.
    UpdateDevice { id: u128, payload: UpdateDeviceRequest },
    /// Adds a location to a device.
    InsertLocation { id: u128, location: Location },
    /// Lists all devices for the admin page.
    ListAdminDevices,
    /// Deletes the locations of a device.
    DeleteDeviceLocations { id: u128 },
    /// Deletes a device.
    DeleteDevice { id: u128 },
    /// Deletes the devices that were not updated for this many days.
    DeleteStaleDevices { days: i64 },
    /// Reads after how many days devices are swept.
    AutoCleanupDays,
    /// Sets after how many days devices are swept, or that they are not.
    SetAutoCleanupDays { days: Option<i64> },
    /// Lists the locations of a device of this many days.
    ListTracks { id: u128, days: i64 },
}

impl DeepView for StoreOp {
    type V = Operation;

    open spec fn deep_view(&self) -> Operation {
        match *self {
            StoreOp::ListDevices => Operation::ListDevices,
            StoreOp::UpsertDevice { id, name, platform } => Operation::UpsertDevice {
                id,
                name: name@,
                platform: platform.deep_view(),
            },
            StoreOp::UpdateDevice { id, payload } => Operation::UpdateDevice {
                id,
                name: payload.name.deep_view(),
                platform: payload.platform.deep_view(),
            },
            StoreOp::InsertLocation { id, location } => Operation::InsertLocation {
                id,
                location: location.deep_view(),
            },
            StoreOp::ListAdminDevices => Operation::ListAdminDevices,
            StoreOp::DeleteDeviceLocations { id } => Operation::DeleteDeviceLocations { id },
            StoreOp::DeleteDevice { id } => Operation::DeleteDevice { id },
            StoreOp::DeleteStaleDevices { days } => Operation::DeleteStaleDevices { days },
            StoreOp::AutoCleanupDays => Operation::AutoCleanupDays,
            StoreOp::SetAutoCleanupDays { days } => Operation::SetAutoCleanupDays { days },
            StoreOp::ListTracks { id, days } => Operation::ListTracks { id, days },
        }
    }
}

/// What the database replies to a statement.
#[allow(inconsistent_fields)]
pub enum Answer {
    Changed(int),
    Found(bool),
    Device(Option<ProfileRow>),
    Devices { rows: Seq<ProfileRow>, failure: Option<Seq<char>> },
    AdminDevices { rows: Seq<AdminProfileRow>, failure: Option<Seq<char>> },
    Locations { rows: Seq<PlaceRow>, failure: Option<Seq<char>> },
    Setting(Option<Seq<char>>),
    Failed(Seq<char>),
}

/// A reply of the database.
#[allow(inconsistent_fields)]
#[derive(Debug)]
pub enum Reply {
    /// The statement was carried out and changed this many rows.
    Changed(usize),
    /// Whether there is a row.
    Found(bool),
    /// The row of a device, if there is one.
    Device(Option<DeviceRow>),
    /// The rows of devices that were read before reading failed or came to its
    /// end.
    Devices { rows: Vec<DeviceRow>, failure: Option<String> },
    /// The same for the admin page.
    AdminDevices { rows: Vec<AdminDeviceRow>, failure: Option<String> },
    /// The same for locations.
    Locations { rows: Vec<LocationRow>, failure: Option<String> },
    /// The value of a setting, if it has one.
    Setting(Option<String>),
    /// The statement failed, with this message.
    Failed(String),
}

impl DeepView for Reply {
    type V = Answer;

    open spec fn deep_view(&self) -> Answer {
        match *self {
            Reply::Changed(count) => Answer::Changed(count as int),
            Reply::Found(found) => Answer::Found(found),
            Reply::Device(row) => Answer::Device(row.deep_view()),
            Reply::Devices { rows, failure } => Answer::Devices {
                rows: rows.deep_view(),
                failure: failure.deep_view(),
            },
            Reply::AdminDevices { rows, failure } => Answer::AdminDevices {
                rows: rows.deep_view(),
                failure: failure.deep_view(),
            },
            Reply::Locations { rows, failure } => Answer::Locations {
                rows: rows.deep_view(),
                failure: failure.deep_view(),
            },
            Reply::Setting(value) => Answer::Setting(value.deep_view()),
            Reply::Failed(message) => Answer::Failed(message@),
        }
    }
}

/// What an operation comes to.
pub enum Finding {
    Devices(Seq<Profile>),
    Device(Profile),
    AdminDevices(Seq<AdminProfile>),
    Deleted(int),
    Days(Option<i64>),
    Saved,
    Track(Seq<Place>),
}

/// The outcome of an operation.
#[derive(Debug)]
pub enum Outcome {
    Devices(Vec<Device>),
    Device(Device),
    AdminDevices(Vec<AdminDevice>),
    Deleted(usize),
    Days(Option<i64>),
    Saved,
    Track(Vec<Location>),
}

impl DeepView for Outcome {
    type V = Finding;

    open spec fn deep_view(&self) -> Finding {
        match *self {
            Outcome::Devices(devices) => Finding::Devices(devices.deep_view()),
            Outcome::Device(device) => Finding::Device(device.deep_view()),
            Outcome::AdminDevices(devices) => Finding::AdminDevices(devices.deep_view()),
            Outcome::Deleted(count) => Finding::Deleted(count as int),
            Outcome::Days(days) => Finding::Days(days),
            Outcome::Saved => Finding::Saved,
            Outcome::Track(locations) => Finding::Track(locations.deep_view()),
        }
    }
}

/// What an operation waits for.
pub enum Waiting {
    ListDevices,
    Upserted { id: u128 },
    Current { id: u128, name: Option<Seq<char>>, platform: Option<Seq<char>> },
    Updated { id: u128 },
    OneDevice,
    Begun { id: u128, location: Place },
    Exists { id: u128, location: Place },
    Inserted { id: u128, touched: Moment },
    Touched { id: u128 },
    Pruned { id: u128 },
    Committed { id: u128 },
    RolledBack { error: Refusal },
    AdminDevices,
    ClearFound { id: u128 },
    Counted,
    DeviceDeleted,
    SettingRead,
    SettingSaved,
    TrackFound { id: u128, days: i64 },
    TrackRead,
}

/// An operation that waits for the reply to a statement.
#[derive(Debug)]
pub enum Job {
    /// For all devices.
    ListDevices,
    /// For a device to be added or changed.
    Upserted { id: u128 },
    /// For the device as it is, to change it.
    Current { id: u128, payload: UpdateDeviceRequest },
    /// For the device to be changed.
    Updated { id: u128 },
    /// For the device that is the outcome.
    OneDevice,
    /// For the transaction that adds a location to begin.
    Begun { id: u128, location: Location },
    /// For whether there is a device to add the location to.
    Exists { id: u128, location: Location },
    /// For the location to be added. Its device is updated at the moment at
    /// which it was found.
    Inserted { id: u128, touched: Timestamp },
    /// For the time of the update of its device to be set.
    Touched { id: u128 },
    /// For old locations to be deleted.
    Pruned { id: u128 },
    /// For the transaction to be kept.
    Committed { id: u128 },
    /// For the transaction to be undone.
    RolledBack { error: ApiError },
    /// For all devices of the admin page.
    AdminDevices,
    /// For whether there is a device whose locations to delete.
    ClearFound { id: u128 },
    /// For the number of rows that were deleted.
    Counted,
    /// For a device to be deleted.
    DeviceDeleted,
    /// For the value of a setting.
    SettingRead,
    /// For a setting to be changed.
    SettingSaved,
    /// For whether there is a device whose locations to list.
    TrackFound { id: u128, days: i64 },
    /// For the locations.
    TrackRead,
}

impl DeepView for Job {
    type V = Waiting;

    open spec fn deep_view(&self) -> Waiting {
        match *self {
            Job::ListDevices => Waiting::ListDevices,
            Job::Upserted { id } => Waiting::Upserted { id },
            Job::Current { id, payload } => Waiting::Current {
                id,
                name: payload.name.deep_view(),
                platform: payload.platform.deep_view(),
            },
            Job::Updated { id } => Waiting::Updated { id },
            Job::OneDevice => Waiting::OneDevice,
            Job::Begun { id, location } => Waiting::Begun { id, location: location.deep_view() },
            Job::Exists { id, location } => Waiting::Exists { id, location: location.deep_view() },
            Job::Inserted { id, touched } => Waiting::Inserted { id, touched: touched@ },
            Job::Touched { id } => Waiting::Touched { id },
            Job::Pruned { id } => Waiting::Pruned { id },
            Job::Committed { id } => Waiting::Committed { id },
            Job::RolledBack { error } => Waiting::RolledBack { error: error@ },
            Job::AdminDevices => Waiting::AdminDevices,
            Job::ClearFound { id } => Waiting::ClearFound { id },
            Job::Counted => Waiting::Counted,
            Job::DeviceDeleted => Waiting::DeviceDeleted,
            Job::SettingRead => Waiting::SettingRead,
            Job::SettingSaved => Waiting::SettingSaved,
            Job::TrackFound { id, days } => Waiting::TrackFound { id, days },
            Job::TrackRead => Waiting::TrackRead,
        }
    }
}

/// How far an operation has come.
pub enum Progress {
    Ask { statement: Statement, next: Waiting },
    Done(Result<Finding, Refusal>),
}

/// The next step of an operation: a statement to carry out, with the job to
/// resume with the reply to it, or the end.
#[derive(Debug)]
pub enum Step {
    Ask { query: Query, next: Job },
    Done(Result<Outcome, ApiError>),
}

impl DeepView for Step {
    type V = Progress;

    open spec fn deep_view(&self) -> Progress {
        match *self {
            Step::Ask { query, next } => Progress::Ask {
                statement: query.deep_view(),
                next: next.deep_view(),
            },
            Step::Done(Ok(outcome)) => Progress::Done(Ok(outcome.deep_view())),
            Step::Done(Err(error)) => Progress::Done(Err(error@)),
        }
    }
}

impl Operation {
    /// Whether the operation can be begun at a moment: a sweep needs a cutoff
    /// that is on the calendar.
    pub open spec fn fits(self, now: Moment) -> bool {
        self matches Operation::DeleteStaleDevices { days } ==> now.days_earlier(
            days as int,
        ).valid()
    }
}

impl Waiting {
    /// Whether the job can be resumed with a reply at a moment: listing the track
    /// of a device that is there needs a cutoff that is on the calendar.
    pub open spec fn fits(self, answer: Answer, now: Moment) -> bool {
        match (self, answer) {
            (Waiting::TrackFound { id, days }, Answer::Found(true)) => now.days_earlier(
                days as int,
            ).valid(),
            _ => true,
        }
    }

    /// Whether the job waits within a transaction.
    pub open spec fn in_transaction(self) -> bool {
        match self {
            Waiting::Exists { .. } => true,
            Waiting::Inserted { .. } => true,
            Waiting::Touched { .. } => true,
            Waiting::Pruned { .. } => true,
            Waiting::Committed { .. } => true,
            _ => false,
        }
    }
}

/// Reads a device to finish with.
pub open spec fn finish_with_device(id: u128) -> Progress {
    Progress::Ask { statement: Statement::DeviceById { id: id_text(id) }, next: Waiting::OneDevice }
}

/// The first step of an operation.
pub open spec fn begun(op: Operation, now: Moment) -> Progress {
    match op {
        Operation::ListDevices => Progress::Ask {
            statement: Statement::AllDevices,
            next: Waiting::ListDevices,
        },
        Operation::UpsertDevice { id, name, platform } => Progress::Ask {
            statement: Statement::UpsertDevice {
                id: id_text(id),
                name,
                platform,
                now: now.text(),
            },
            next: Waiting::Upserted { id },
        },
        Operation::UpdateDevice { id, name, platform } => Progress::Ask {
            statement: Statement::DeviceById { id: id_text(id) },
            next: Waiting::Current { id, name, platform },
        },
        Operation::InsertLocation { id, location } => Progress::Ask {
            statement: Statement::Begin,
            next: Waiting::Begun { id, location },
        },
        Operation::ListAdminDevices => Progress::Ask {
            statement: Statement::AllAdminDevices,
            next: Waiting::AdminDevices,
        },
        Operation::DeleteDeviceLocations { id } => Progress::Ask {
            statement: Statement::FindDevice { id: id_text(id) },
            next: Waiting::ClearFound { id },
        },
        Operation::DeleteDevice { id } => Progress::Ask {
            statement: Statement::DeleteDevice { id: id_text(id) },
            next: Waiting::DeviceDeleted,
        },
        Operation::DeleteStaleDevices { days } => Progress::Ask {
            statement: Statement::DeleteStaleDevices {
                before: now.days_earlier(days as int).text(),
            },
            next: Waiting::Counted,
        },
        Operation::AutoCleanupDays => Progress::Ask {
            statement: Statement::ReadSetting { key: AUTO_CLEANUP_DAYS_KEY@ },
            next: Waiting::SettingRead,
        },
        Operation::SetAutoCleanupDays { days } => Progress::Ask {
            statement: match days {
                Some(days) => Statement::WriteSetting {
                    key: AUTO_CLEANUP_DAYS_KEY@,
                    value: signed_decimal(days as int),
                },
                None => Statement::ClearSetting { key: AUTO_CLEANUP_DAYS_KEY@ },
            },
            next: Waiting::SettingSaved,
        },
        Operation::ListTracks { id, days } => Progress::Ask {
            statement: Statement::FindDevice { id: id_text(id) },
            next: Waiting::TrackFound { id, days },
        },
    }
}

/// How a job ends that is refused: a transaction is undone first.
pub open spec fn refused(job: Waiting, error: Refusal) -> Progress {
    if job.in_transaction() {
        Progress::Ask { statement: Statement::Rollback, next: Waiting::RolledBack { error } }
    } else {
        Progress::Done(Err(error))
    }
}

/// The device in a row that was asked for.
pub open spec fn device_in(row: Option<ProfileRow>) -> Result<Profile, Refusal> {
    match row {
        None => Err(not_found(DEVICE_NOT_FOUND@)),
        Some(row) => match profile_in(row) {
            Ok(device) => Ok(device),
            Err(e) => Err(internal(e)),
        },
    }
}

/// The number of days that a setting stands for.
pub open spec fn days_in(value: Option<Seq<char>>) -> Result<Option<i64>, Refusal> {
    match value {
        None => Ok(None),
        Some(text) => match parsed_integer(text) {
            Some(days) => Ok(Some(days as i64)),
            None => Err(internal(INVALID_SETTING@)),
        },
    }
}

/// The step behind a reply that is the one that the job waits for, if it is.
pub open spec fn answered(job: Waiting, answer: Answer, now: Moment) -> Option<Progress> {
    match (job, answer) {
        (Waiting::ListDevices, Answer::Devices { rows, failure }) => Some(
            match all_in(rows, |row: ProfileRow| profile_in(row), failure) {
                Ok(devices) => Progress::Done(Ok(Finding::Devices(devices))),
                Err(e) => Progress::Done(Err(internal(e))),
            },
        ),
        (Waiting::Upserted { id }, Answer::Changed(_)) => Some(finish_with_device(id)),
        (Waiting::Current { id, name, platform }, Answer::Device(row)) => Some(
            match device_in(row) {
                Ok(current) => Progress::Ask {
                    statement: Statement::UpdateDevice {
                        name: trimmed(
                            match name {
                                Some(name) => name,
                                None => current.name,
                            },
                        ),
                        platform: match platform {
                            Some(platform) => Some(platform),
                            None => current.platform,
                        },
                        now: now.text(),
                        id: id_text(id),
                    },
                    next: Waiting::Updated { id },
                },
                Err(e) => Progress::Done(Err(e)),
            },
        ),
        (Waiting::Updated { id }, Answer::Changed(_)) => Some(finish_with_device(id)),
        (Waiting::OneDevice, Answer::Device(row)) => Some(
            match device_in(row) {
                Ok(device) => Progress::Done(Ok(Finding::Device(device))),
                Err(e) => Progress::Done(Err(e)),
            },
        ),
        (Waiting::Begun { id, location }, Answer::Changed(_)) => Some(
            Progress::Ask {
                statement: Statement::FindDevice { id: id_text(id) },
                next: Waiting::Exists { id, location },
            },
        ),
        (Waiting::Exists { id, location }, Answer::Found(found)) => Some(
            if found {
                Progress::Ask {
                    statement: Statement::InsertLocation {
                        device_id: id_text(id),
                        reading: location.reading,
                        captured_at: location.captured_at.text(),
                        received_at: location.received_at.text(),
                    },
                    next: Waiting::Inserted { id, touched: now },
                }
            } else {
                refused(job, not_found(DEVICE_NOT_FOUND@))
            },
        ),
        (Waiting::Inserted { id, touched }, Answer::Changed(_)) => Some(
            Progress::Ask {
                statement: Statement::TouchDevice { now: touched.text(), id: id_text(id) },
                next: Waiting::Touched { id },
            },
        ),
        (Waiting::Touched { id }, Answer::Changed(_)) => Some(
            Progress::Ask {
                statement: Statement::PruneLocations {
                    before: now.days_earlier(RETENTION_DAYS as int).text(),
                },
                next: Waiting::Pruned { id },
            },
        ),
        (Waiting::Pruned { id }, Answer::Changed(_)) => Some(
            Progress::Ask { statement: Statement::Commit, next: Waiting::Committed { id } },
        ),
        (Waiting::Committed { id }, Answer::Changed(_)) => Some(finish_with_device(id)),
        (Waiting::AdminDevices, Answer::AdminDevices { rows, failure }) => Some(
            match all_in(rows, |row: AdminProfileRow| admin_profile_in(row), failure) {
                Ok(devices) => Progress::Done(Ok(Finding::AdminDevices(devices))),
                Err(e) => Progress::Done(Err(internal(e))),
            },
        ),
        (Waiting::ClearFound { id }, Answer::Found(found)) => Some(
            if found {
                Progress::Ask {
                    statement: Statement::DeleteLocations { device_id: id_text(id) },
                    next: Waiting::Counted,
                }
            } else {
                Progress::Done(Err(not_found(DEVICE_NOT_FOUND@)))
            },
        ),
        (Waiting::Counted, Answer::Changed(count)) => Some(
            Progress::Done(Ok(Finding::Deleted(count))),
        ),
        (Waiting::DeviceDeleted, Answer::Changed(count)) => Some(
            if count == 0 {
                Progress::Done(Err(not_found(DEVICE_NOT_FOUND@)))
            } else {
                Progress::Done(Ok(Finding::Deleted(count)))
            },
        ),
        (Waiting::SettingRead, Answer::Setting(value)) => Some(
            match days_in(value) {
                Ok(days) => Progress::Done(Ok(Finding::Days(days))),
                Err(e) => Progress::Done(Err(e)),
            },
        ),
        (Waiting::SettingSaved, Answer::Changed(_)) => Some(Progress::Done(Ok(Finding::Saved))),
        (Waiting::TrackFound { id, days }, Answer::Found(found)) => Some(
            if found {
                Progress::Ask {
                    statement: Statement::Track {
                        device_id: id_text(id),
                        since: now.days_earlier(days as int).text(),
                    },
                    next: Waiting::TrackRead,
                }
            } else {
                Progress::Done(Err(not_found(DEVICE_NOT_FOUND@)))
            },
        ),
        (Waiting::TrackRead, Answer::Locations { rows, failure }) => Some(
            match all_in(rows, |row: PlaceRow| place_in(row), failure) {
                Ok(locations) => Progress::Done(Ok(Finding::Track(locations))),
                Err(e) => Progress::Done(Err(internal(e))),
            },
        ),
        _ => None,
    }
}

/// The next step of an operation behind a reply.
pub open spec fn resumed(job: Waiting, answer: Answer, now: Moment) -> Progress {
    match job {
        Waiting::RolledBack { error } => Progress::Done(Err(error)),
        _ => match answer {
            Answer::Failed(message) => refused(job, internal(message)),
            _ => match answered(job, answer, now) {
                Some(progress) => progress,
                None => refused(job, internal(UNEXPECTED_REPLY@)),
            },
        },
    }
}

/// What an operation came to.
pub open spec fn ended(result: Result<Outcome, ApiError>) -> Result<Finding, Refusal> {
    match result {
        Ok(outcome) => Ok(outcome.deep_view()),
        Err(error) => Err(error@),
    }
}

/// Whether the cutoff of a statement, where it has one, sorts among the texts
/// of moments as this moment lies among them.
pub open spec fn cutoff_sorts_as(progress: Progress, at: Moment) -> bool {
    at.in_written_years() ==> match progress {
        Progress::Ask { statement: Statement::PruneLocations { before }, .. } => sorts_as(
            before,
            at,
        ),
        Progress::Ask { statement: Statement::DeleteStaleDevices { before }, .. } => sorts_as(
            before,
            at,
        ),
        Progress::Ask { statement: Statement::Track { since, .. }, .. } => sorts_as(since, at),
        _ => true,
    }
}

/// Whether the text of a moment of the years 0 to 9999 reads back as the moment.
pub open spec fn reads_back(at: Moment) -> bool {
    at.in_written_years() ==> reads_as(at.text(), at)
}

/// What is known of the texts in the first statement of an operation: the
/// identifier and the time that it writes read back, and the cutoff sorts as its
/// moment.
pub open spec fn first_texts_hold(op: Operation, progress: Progress, now: Moment) -> bool {
    match op {
        Operation::UpsertDevice { id, .. } => reads_as_id(id_text(id), id) && reads_back(now),
        Operation::DeleteStaleDevices { days } => cutoff_sorts_as(
            progress,
            now.days_earlier(days as int),
        ),
        _ => true,
    }
}

/// What is known of the texts in the next statement of an operation: the times
/// that it writes read back, and the cutoff sorts as its moment.
pub open spec fn next_texts_hold(job: Waiting, progress: Progress, now: Moment) -> bool {
    match (job, progress) {
        (
            Waiting::Current { .. },
            Progress::Ask { statement: Statement::UpdateDevice { .. }, .. },
        ) => reads_back(now),
        (
            Waiting::Exists { location, .. },
            Progress::Ask { statement: Statement::InsertLocation { .. }, .. },
        ) => reads_back(location.captured_at) && reads_back(location.received_at),
        (
            Waiting::Inserted { touched, .. },
            Progress::Ask { statement: Statement::TouchDevice { .. }, .. },
        ) => reads_back(touched),
        (Waiting::Touched { .. }, _) => cutoff_sorts_as(
            progress,
            now.days_earlier(RETENTION_DAYS as int),
        ),
        (Waiting::TrackFound { days, .. }, _) => cutoff_sorts_as(
            progress,
            now.days_earlier(days as int),
        ),
        _ => true,
    }
}

fn device_query(id: u128) -> (r: Step)
    ensures
        r.deep_view() == finish_with_device(id),
{
    Step::Ask { query: Query::DeviceById { id: id_to_text(id) }, next: Job::OneDevice }
}

fn refuse(transaction: bool, error: ApiError) -> (r: Step)
    ensures
        r.deep_view() == (if transaction {
            Progress::Ask {
                statement: Statement::Rollback,
                next: Waiting::RolledBack { error: error@ },
            }
        } else {
            Progress::Done(Err(error@))
        }),
{
    if transaction {
        Step::Ask { query: Query::Rollback, next: Job::RolledBack { error } }
    } else {
        Step::Done(Err(error))
    }
}

fn device_of(row: &Option<DeviceRow>) -> (r: Result<Device, ApiError>)
    ensures
        match (r, device_in(row.deep_view())) {
            (Ok(device), Ok(named)) => device.deep_view() == named,
            (Err(e), Err(named)) => e@ == named,
            _ => false,
        },
{
    match row {
        None => Err(ApiError::not_found(DEVICE_NOT_FOUND)),
        Some(row) => match row_to_device(row) {
            Ok(device) => Ok(device),
            Err(e) => Err(ApiError::internal(e.as_str())),
        },
    }
}

fn days_of(value: &Option<String>) -> (r: Result<Option<i64>, ApiError>)
    ensures
        match (r, days_in(value.deep_view())) {
            (Ok(days), Ok(named)) => days == named,
            (Err(e), Err(named)) => e@ == named,
            _ => false,
        },
{
    match value {
        None => Ok(None),
        Some(text) => match parse_integer(text.as_str()) {
            Some(days) => Ok(Some(days)),
            None => Err(ApiError::internal(INVALID_SETTING)),
        },
    }
}

impl StoreOp {
    /// Whether the operation can be begun at a moment.
    pub fn can_begin(&self, now: Timestamp) -> (r: bool)
        requires
            now@.on_clock(),
        ensures
            r == self.deep_view().fits(now@),
    {
        match self {
            StoreOp::DeleteStaleDevices { days } => now.has_days_before(*days),
            _ => true,
        }
    }

    /// Begins the operation at the moment that the clock shows. A sweep is not
    /// begun where its cutoff is not on the calendar.
    pub fn start(self) -> (r: Option<Step>)
        ensures
            exists|now: Moment| #[trigger]
                now.on_clock() && match r {
                    Some(step) => {
                        &&& self.deep_view().fits(now)
                        &&& step.deep_view() == begun(self.deep_view(), now)
                        &&& first_texts_hold(self.deep_view(), step.deep_view(), now)
                    },
                    None => !self.deep_view().fits(now),
                },
    {
        let now = Timestamp::now();
        assert(now@.on_clock());
        if self.can_begin(now) {
            Some(self.begin(now))
        } else {
            None
        }
    }

    /// Begins the operation at a moment that the clock shows.
    pub fn begin(self, now: Timestamp) -> (r: Step)
        requires
            now@.on_clock(),
            self.deep_view().fits(now@),
        ensures
            r.deep_view() == begun(self.deep_view(), now@),
            first_texts_hold(self.deep_view(), r.deep_view(), now@),
    {
        match self {
            StoreOp::ListDevices => Step::Ask { query: Query::AllDevices, next: Job::ListDevices },
            StoreOp::UpsertDevice { id, name, platform } => Step::Ask {
                query: Query::UpsertDevice {
                    id: id_to_text(id),
                    name,
                    platform,
                    now: time_to_text(now),
                },
                next: Job::Upserted { id },
            },
            StoreOp::UpdateDevice { id, payload } => Step::Ask {
                query: Query::DeviceById { id: id_to_text(id) },
                next: Job::Current { id, payload },
            },
            StoreOp::InsertLocation { id, location } => Step::Ask {
                query: Query::Begin,
                next: Job::Begun { id, location },
            },
            StoreOp::ListAdminDevices => Step::Ask {
                query: Query::AllAdminDevices,
                next: Job::AdminDevices,
            },
            StoreOp::DeleteDeviceLocations { id } => Step::Ask {
                query: Query::FindDevice { id: id_to_text(id) },
                next: Job::ClearFound { id },
            },
            StoreOp::DeleteDevice { id } => Step::Ask {
                query: Query::DeleteDevice { id: id_to_text(id) },
                next: Job::DeviceDeleted,
            },
            StoreOp::DeleteStaleDevices { days } => Step::Ask {
                query: Query::DeleteStaleDevices { before: time_to_text(now.days_earlier(days)) },
                next: Job::Counted,
            },
            StoreOp::AutoCleanupDays => Step::Ask {
                query: Query::ReadSetting { key: AUTO_CLEANUP_DAYS_KEY.to_owned() },
                next: Job::SettingRead,
            },
            StoreOp::SetAutoCleanupDays { days } => Step::Ask {
                query: match days {
                    Some(days) => Query::WriteSetting {
                        key: AUTO_CLEANUP_DAYS_KEY.to_owned(),
                        value: signed_text(days),
                    },
                    None => Query::ClearSetting { key: AUTO_CLEANUP_DAYS_KEY.to_owned() },
                },
                next: Job::SettingSaved,
            },
            StoreOp::ListTracks { id, days } => Step::Ask {
                query: Query::FindDevice { id: id_to_text(id) },
                next: Job::TrackFound { id, days },
            },
        }
    }
}

impl Job {
    fn transaction(&self) -> (r: bool)
        ensures
            r == self.deep_view().in_transaction(),
    {
        match self {
            Job::Exists { .. } => true,
            Job::Inserted { .. } => true,
            Job::Touched { .. } => true,
            Job::Pruned { .. } => true,
            Job::Committed { .. } => true,
            _ => false,
        }
    }

    /// Whether the operation can be resumed with a reply at a moment.
    pub fn can_resume(&self, reply: &Reply, now: Timestamp) -> (r: bool)
        requires
            now@.on_clock(),
        ensures
            r == self.deep_view().fits(reply.deep_view(), now@),
    {
        match (self, reply) {
            (Job::TrackFound { id: _, days }, Reply::Found(true)) => now.has_days_before(*days),
            _ => true,
        }
    }

    /// Resumes the operation with the reply to the statement that it asked for,
    /// at the moment that the clock shows. The track of a device that is there
    /// is not listed where its cutoff is not on the calendar.
    pub fn proceed(self, reply: Reply) -> (r: Option<Step>)
        ensures
            exists|now: Moment| #[trigger]
                now.on_clock() && match r {
                    Some(step) => {
                        &&& self.deep_view().fits(reply.deep_view(), now)
                        &&& step.deep_view() == resumed(self.deep_view(), reply.deep_view(), now)
                        &&& next_texts_hold(self.deep_view(), step.deep_view(), now)
                    },
                    None => !self.deep_view().fits(reply.deep_view(), now),
                },
    {
        let now = Timestamp::now();
        assert(now@.on_clock());
        if self.can_resume(&reply, now) {
            Some(self.resume(reply, now))
        } else {
            None
        }
    }

    /// Resumes the operation with the reply to the statement that it asked for,
    /// at a moment that the clock shows.
    pub fn resume(self, reply: Reply, now: Timestamp) -> (r: Step)
        requires
            now@.on_clock(),
            self.deep_view().fits(reply.deep_view(), now@),
        ensures
            r.deep_view() == resumed(self.deep_view(), reply.deep_view(), now@),
            next_texts_hold(self.deep_view(), r.deep_view(), now@),
    {
        let transaction = self.transaction();
        match (self, reply) {
            (Job::RolledBack { error }, _) => Step::Done(Err(error)),
            (_, Reply::Failed(message)) => refuse(transaction, ApiError::internal(message.as_str())),
            (Job::ListDevices, Reply::Devices { rows, failure }) => {
                match rows_to_devices(&rows, &failure) {
                    Ok(devices) => Step::Done(Ok(Outcome::Devices(devices))),
                    Err(e) => Step::Done(Err(ApiError::internal(e.as_str()))),
                }
            },
            (Job::Upserted { id }, Reply::Changed(_)) => device_query(id),
            (Job::Current { id, payload }, Reply::Device(row)) => match device_of(&row) {
                Ok(current) => Step::Ask {
                    query: Query::UpdateDevice {
                        name: match &payload.name {
                            Some(name) => trim(name.as_str()),
                            None => trim(current.name.as_str()),
                        },
                        platform: match &payload.platform {
                            Some(platform) => Some(platform.clone()),
                            None => copied(&current.platform),
                        },
                        now: time_to_text(now),
                        id: id_to_text(id),
                    },
                    next: Job::Updated { id },
                },
                Err(e) => Step::Done(Err(e)),
            },
            (Job::Updated { id }, Reply::Changed(_)) => device_query(id),
            (Job::OneDevice, Reply::Device(row)) => match device_of(&row) {
                Ok(device) => Step::Done(Ok(Outcome::Device(device))),
                Err(e) => Step::Done(Err(e)),
            },
            (Job::Begun { id, location }, Reply::Changed(_)) => Step::Ask {
                query: Query::FindDevice { id: id_to_text(id) },
                next: Job::Exists { id, location },
            },
            (Job::Exists { id, location }, Reply::Found(found)) => if found {
                Step::Ask {
                    query: Query::InsertLocation {
                        device_id: id_to_text(id),
                        reading: location.reading,
                        captured_at: time_to_text(location.captured_at),
                        received_at: time_to_text(location.received_at),
                    },
                    next: Job::Inserted { id, touched: now },
                }
            } else {
                refuse(true, ApiError::not_found(DEVICE_NOT_FOUND))
            },
            (Job::Inserted { id, touched }, Reply::Changed(_)) => Step::Ask {
                query: Query::TouchDevice { now: time_to_text(touched), id: id_to_text(id) },
                next: Job::Touched { id },
            },
            (Job::Touched { id }, Reply::Changed(_)) => Step::Ask {
                query: Query::PruneLocations {
                    before: time_to_text(now.days_earlier(RETENTION_DAYS)),
                },
                next: Job::Pruned { id },
            },
            (Job::Pruned { id }, Reply::Changed(_)) => Step::Ask {
                query: Query::Commit,
                next: Job::Committed { id },
            },
            (Job::Committed { id }, Reply::Changed(_)) => device_query(id),
            (Job::AdminDevices, Reply::AdminDevices { rows, failure }) => {
                match rows_to_admin_devices(&rows, &failure) {
                    Ok(devices) => Step::Done(Ok(Outcome::AdminDevices(devices))),
                    Err(e) => Step::Done(Err(ApiError::internal(e.as_str()))),
                }
            },
            (Job::ClearFound { id }, Reply::Found(found)) => if found {
                Step::Ask {
                    query: Query::DeleteLocations { device_id: id_to_text(id) },
                    next: Job::Counted,
                }
            } else {
                Step::Done(Err(ApiError::not_found(DEVICE_NOT_FOUND)))
            },
            (Job::Counted, Reply::Changed(count)) => Step::Done(Ok(Outcome::Deleted(count))),
            (Job::DeviceDeleted, Reply::Changed(count)) => if count == 0 {
                Step::Done(Err(ApiError::not_found(DEVICE_NOT_FOUND)))
            } else {
                Step::Done(Ok(Outcome::Deleted(count)))
            },
            (Job::SettingRead, Reply::Setting(value)) => match days_of(&value) {
                Ok(days) => Step::Done(Ok(Outcome::Days(days))),
                Err(e) => Step::Done(Err(e)),
            },
            (Job::SettingSaved, Reply::Changed(_)) => Step::Done(Ok(Outcome::Saved)),
            (Job::TrackFound { id, days }, Reply::Found(found)) => if found {
                Step::Ask {
                    query: Query::Track {
                        device_id: id_to_text(id),
                        since: time_to_text(now.days_earlier(days)),
                    },
                    next: Job::TrackRead,
                }
            } else {
                Step::Done(Err(ApiError::not_found(DEVICE_NOT_FOUND)))
            },
            (Job::TrackRead, Reply::Locations { rows, failure }) => {
                match rows_to_locations(&rows, &failure) {
                    Ok(locations) => Step::Done(Ok(Outcome::Track(locations))),
                    Err(e) => Step::Done(Err(ApiError::internal(e.as_str()))),
                }
            },
            _ => refuse(transaction, ApiError::internal(UNEXPECTED_REPLY)),
        }
    }
}

/// What the store says and how long it keeps, word for word: locations are kept
/// for seven days, and the number of days is kept under one key.
pub proof fn law_store_is_word_for_word(id: u128, days: i64, count: int, now: Moment)
    ensures
        RETENTION_DAYS == 7,
        DEVICE_NOT_FOUND@ == "device not found"@,
        INVALID_SETTING@ == "invalid auto cleanup setting"@,
        resumed(Waiting::Touched { id }, Answer::Changed(count), now) matches Progress::Ask {
            statement,
            next,
        } && (statement matches Statement::PruneLocations { before } && before == now.days_earlier(
            7,
        ).text()),
        begun(Operation::AutoCleanupDays, now) matches Progress::Ask { statement, next } && (
        statement matches Statement::ReadSetting { key } && key == "admin.auto_cleanup_days"@),
        begun(
            Operation::SetAutoCleanupDays { days: Some(days) },
            now,
        ) matches Progress::Ask { statement, next } && (statement matches Statement::WriteSetting {
            key,
            value,
        } && key == "admin.auto_cleanup_days"@ && value == signed_decimal(days as int)),
        begun(Operation::SetAutoCleanupDays { days: None }, now) matches Progress::Ask {
            statement,
            next,
        } && (statement matches Statement::ClearSetting { key } && key
            == "admin.auto_cleanup_days"@),
{
}

/// A setting is the number that its text is read as, none where there is no text,
/// and an error of the server where the text is no number.
pub proof fn law_setting_is_the_number_in_its_text(text: Seq<char>)
    ensures
        days_in(None) matches Ok(days) && days is None,
        match parsed_integer(text) {
            Some(n) => days_in(Some(text)) matches Ok(Some(days)) && days == n,
            None => days_in(Some(text)) matches Err(e) && e.status == 500 && e.message
                == "invalid auto cleanup setting"@,
        },
{
}

/// Whatever an operation waits for, a statement that fails ends it: with the
/// message of the failure as an error of the server, outside a transaction at
/// once, within one behind a rollback.
pub proof fn law_failure_ends_an_operation(job: Waiting, message: Seq<char>, now: Moment)
    requires
        !(job is RolledBack),
    ensures
        match resumed(job, Answer::Failed(message), now) {
            Progress::Done(Err(e)) => e.status == 500 && e.message == message,
            Progress::Done(Ok(_)) => false,
            Progress::Ask { statement, next } => statement is Rollback && (
            next matches Waiting::RolledBack { error } && error.status == 500 && error.message
                == message),
        },
        resumed(job, Answer::Failed(message), now) is Ask <==> job is Exists || job is Inserted
            || job is Touched || job is Pruned || job is Committed,
{
}

/// Behind a rollback an operation ends with the refusal that it was undone for,
/// whatever the database replies.
pub proof fn law_rollback_ends_with_its_refusal(error: Refusal, answer: Answer, now: Moment)
    ensures
        resumed(Waiting::RolledBack { error }, answer, now) == Progress::Done(Err(error)),
{
}

/// The view of an operation holds what the operation holds.
pub proof fn law_view_of_an_operation_is_whole(op: StoreOp)
    ensures
        match op {
            StoreOp::ListDevices => op.deep_view() is ListDevices,
            StoreOp::ListAdminDevices => op.deep_view() is ListAdminDevices,
            StoreOp::AutoCleanupDays => op.deep_view() is AutoCleanupDays,
            StoreOp::UpsertDevice { id, name, platform } => {
                &&& op.deep_view() matches Operation::UpsertDevice { id: i, name: n, platform: p }
                &&& i == id && n == name@
                &&& platform matches Some(text) ==> p == Some(text@)
                &&& platform is None ==> p is None
            },
            StoreOp::UpdateDevice { id, payload } => {
                &&& op.deep_view() matches Operation::UpdateDevice { id: i, name: n, platform: p }
                &&& i == id
                &&& payload.name matches Some(text) ==> n == Some(text@)
                &&& payload.name is None ==> n is None
                &&& payload.platform matches Some(text) ==> p == Some(text@)
                &&& payload.platform is None ==> p is None
            },
            StoreOp::InsertLocation { id, location } => {
                &&& op.deep_view() matches Operation::InsertLocation { id: i, location: l }
                &&& i == id && l == location.deep_view()
            },
            StoreOp::DeleteDeviceLocations { id } => {
                &&& op.deep_view() matches Operation::DeleteDeviceLocations { id: i }
                &&& i == id
            },
            StoreOp::DeleteDevice { id } => op.deep_view() matches Operation::DeleteDevice { id: i }
                && i == id,
            StoreOp::DeleteStaleDevices { days } => {
                &&& op.deep_view() matches Operation::DeleteStaleDevices { days: d }
                &&& d == days
            },
            StoreOp::SetAutoCleanupDays { days } => {
                &&& op.deep_view() matches Operation::SetAutoCleanupDays { days: d }
                &&& d == days
            },
            StoreOp::ListTracks { id, days } => op.deep_view() matches Operation::ListTracks {
                id: i,
                days: d,
            } && i == id && d == days,
        },
{
}

/// The view of an outcome holds what the outcome holds.
pub proof fn law_view_of_an_outcome_is_whole(outcome: Outcome)
    ensures
        match outcome {
            Outcome::Devices(devices) => outcome.deep_view() matches Finding::Devices(shown)
                && shown.len() == devices@.len() && forall|i: int|
                0 <= i < shown.len() ==> #[trigger] shown[i] == devices@[i].deep_view(),
            Outcome::Device(device) => outcome.deep_view() matches Finding::Device(shown) && shown
                == device.deep_view(),
            Outcome::AdminDevices(devices) => outcome.deep_view() matches Finding::AdminDevices(
                shown,
            ) && shown.len() == devices@.len() && forall|i: int|
                0 <= i < shown.len() ==> #[trigger] shown[i] == devices@[i].deep_view(),
            Outcome::Deleted(count) => outcome.deep_view() matches Finding::Deleted(shown) && shown
                == count,
            Outcome::Days(days) => outcome.deep_view() matches Finding::Days(shown) && shown
                == days,
            Outcome::Saved => outcome.deep_view() is Saved,
            Outcome::Track(locations) => outcome.deep_view() matches Finding::Track(shown)
                && shown.len() == locations@.len() && forall|i: int|
                0 <= i < shown.len() ==> #[trigger] shown[i] == locations@[i].deep_view(),
        },
{
}

/// The view of a reply holds what the reply holds.
pub proof fn law_view_of_a_reply_is_whole(reply: Reply)
    ensures
        match reply {
            Reply::Changed(count) => reply.deep_view() matches Answer::Changed(shown) && shown
                == count,
            Reply::Found(found) => reply.deep_view() matches Answer::Found(shown) && shown == found,
            Reply::Device(row) => {
                &&& reply.deep_view() matches Answer::Device(shown)
                &&& row matches Some(row) ==> shown == Some(row.deep_view())
                &&& row is None ==> shown is None
            },
            Reply::Devices { rows, failure } => {
                &&& reply.deep_view() matches Answer::Devices { rows: shown, failure: broken }
                &&& shown.len() == rows@.len()
                &&& forall|i: int| 0 <= i < shown.len() ==> #[trigger] shown[i] == rows@[i].deep_view()
                &&& failure matches Some(text) ==> broken == Some(text@)
                &&& failure is None ==> broken is None
            },
            Reply::AdminDevices { rows, failure } => {
                &&& reply.deep_view() matches Answer::AdminDevices { rows: shown, failure: broken }
                &&& shown.len() == rows@.len()
                &&& forall|i: int| 0 <= i < shown.len() ==> #[trigger] shown[i] == rows@[i].deep_view()
                &&& failure matches Some(text) ==> broken == Some(text@)
                &&& failure is None ==> broken is None
            },
            Reply::Locations { rows, failure } => {
                &&& reply.deep_view() matches Answer::Locations { rows: shown, failure: broken }
                &&& shown.len() == rows@.len()
                &&& forall|i: int| 0 <= i < shown.len() ==> #[trigger] shown[i] == rows@[i].deep_view()
                &&& failure matches Some(text) ==> broken == Some(text@)
                &&& failure is None ==> broken is None
            },
            Reply::Setting(value) => {
                &&& reply.deep_view() matches Answer::Setting(shown)
                &&& value matches Some(text) ==> shown == Some(text@)
                &&& value is None ==> shown is None
            },
            Reply::Failed(message) => reply.deep_view() matches Answer::Failed(shown) && shown
                == message@,
        },
{
}

/// The view of a step holds what the step holds.
pub proof fn law_view_of_a_step_is_whole(step: Step)
    ensures
        match step {
            Step::Ask { query, next } => step.deep_view() matches Progress::Ask {
                statement,
                next: waiting,
            } && statement == query.deep_view() && waiting == next.deep_view(),
            Step::Done(Ok(outcome)) => step.deep_view() matches Progress::Done(Ok(shown)) && shown
                == outcome.deep_view(),
            Step::Done(Err(e)) => step.deep_view() matches Progress::Done(Err(shown)) && shown
                == e@,
        },
{
}

} // verus!
