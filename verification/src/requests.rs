//! What the requests of devices ask of the database.

use vstd::prelude::*;

use crate::api::{
    bad_request, internal, is_name, is_place, validate_location, validate_name, ApiError, Refusal,
};
use crate::clock::{reads_as, sorts_before, Moment, Timestamp};
use crate::console::{days_kept, lemma_setting_read, undisturbed, Carried};
use crate::coordinates::within;
use crate::device_id::{id_text, is_random_id, new_device_id, reads_as_id};
use crate::records::{
    Device, Location, LocationRequest, Place, Profile, ProfileRow, RegisterDeviceRequest,
    TrackQuery, UpdateDeviceRequest,
};
use crate::store::{
    begun, ended, Answer, Finding, Operation, Outcome, StoreOp, RETENTION_DAYS,
};
use crate::tables::{
    brings_name, is_legible, is_number, kept_reading, law_register, law_report_reads_back,
    law_sweep, law_update, none_failed, runs, shown, Database,
};
use crate::text::{law_trim_is_idempotent, trim, trimmed};

verus! {

/// The message about an outcome that does not belong to what was asked.
pub const UNEXPECTED_OUTCOME: &'static str = "unexpected outcome of the database";

/// How many seconds lie between two sweeps of the server: a day.
pub const SWEEP_INTERVAL_SECS: u64 = 86400;

/// The operation that registers a device, under the identifier that it brings,
/// else under a fresh one.
pub open spec fn registered(payload: RegisterDeviceRequest, fresh: u128) -> Result<
    Operation,
    Refusal,
> {
    if is_name(payload.name@) {
        Ok(
            Operation::UpsertDevice {
                id: match payload.id {
                    Some(id) => id,
                    None => fresh,
                },
                name: trimmed(payload.name@),
                platform: payload.platform.deep_view(),
            },
        )
    } else {
        Err(bad_request("device name must be 1-64 characters"@))
    }
}

/// The operation that changes a device.
pub open spec fn changed(id: u128, payload: UpdateDeviceRequest) -> Result<Operation, Refusal> {
    match payload.name {
        Some(name) if !is_name(name@) => Err(bad_request("device name must be 1-64 characters"@)),
        _ => Ok(
            Operation::UpdateDevice {
                id,
                name: payload.name.deep_view(),
                platform: payload.platform.deep_view(),
            },
        ),
    }
}

/// The operation that adds a location: captured at the moment that the report
/// names, else at `captured`, and received at `received`.
pub open spec fn reported(
    id: u128,
    payload: LocationRequest,
    captured: Moment,
    received: Moment,
) -> Result<Operation, Refusal> {
    if is_place(payload) {
        Ok(
            Operation::InsertLocation {
                id,
                location: Place {
                    id: None,
                    reading: payload.reading,
                    captured_at: match payload.captured_at {
                        Some(at) => at@,
                        None => captured,
                    },
                    received_at: received,
                },
            },
        )
    } else {
        Err(bad_request("invalid coordinates"@))
    }
}

/// For how many days a track is listed: as many as were asked for, but at least
/// one and at most seven; seven where nothing was asked.
pub open spec fn track_days(asked: Option<i64>) -> i64 {
    match asked {
        Some(days) if days < 1 => 1,
        Some(days) if days <= 7 => days,
        _ => 7,
    }
}

/// Whether this is the operation that was to be asked for, or the refusal.
pub open spec fn asks(r: Result<StoreOp, ApiError>, named: Result<Operation, Refusal>) -> bool {
    match (r, named) {
        (Ok(op), Ok(named)) => op.deep_view() == named,
        (Err(e), Err(named)) => e@ == named,
        _ => false,
    }
}

/// Registers a device, under a fresh identifier where it brings none.
pub fn register_as(payload: RegisterDeviceRequest, fresh: u128) -> (r: Result<StoreOp, ApiError>)
    ensures
        asks(r, registered(payload, fresh)),
{
    match validate_name(payload.name.as_str()) {
        Ok(_) => {},
        Err(e) => return Err(e),
    }
    let id: u128 = match payload.id {
        Some(id) => id,
        None => fresh,
    };
    let name = trim(payload.name.as_str());
    Ok(StoreOp::UpsertDevice { id, name, platform: payload.platform })
}

/// Registers a device, under a random identifier where it brings none.
pub fn register_device(payload: RegisterDeviceRequest) -> (r: Result<StoreOp, ApiError>)
    ensures
        exists|fresh: u128| #[trigger] is_random_id(fresh) && asks(r, registered(payload, fresh)),
{
    let fresh: u128 = new_device_id();
    assert(is_random_id(fresh));
    register_as(payload, fresh)
}

/// Changes the name of a device, its platform, or both.
pub fn update_device(id: u128, payload: UpdateDeviceRequest) -> (r: Result<StoreOp, ApiError>)
    ensures
        asks(r, changed(id, payload)),
{
    if let Some(name) = &payload.name {
        match validate_name(name.as_str()) {
            Ok(_) => {},
            Err(e) => return Err(e),
        }
    }
    Ok(StoreOp::UpdateDevice { id, payload })
}

/// Adds a location that a device reports, with the two moments to take for it.
pub fn report_at(
    id: u128,
    payload: LocationRequest,
    captured: Timestamp,
    received: Timestamp,
) -> (r: Result<StoreOp, ApiError>)
    ensures
        asks(r, reported(id, payload, captured@, received@)),
{
    match validate_location(&payload) {
        Ok(_) => {},
        Err(e) => return Err(e),
    }
    let captured_at = match payload.captured_at {
        Some(at) => at,
        None => captured,
    };
    let location = Location { id: None, reading: payload.reading, captured_at, received_at: received };
    Ok(StoreOp::InsertLocation { id, location })
}

/// Adds a location that a device reports, received now, and captured now where
/// the report does not say when.
pub fn update_location(id: u128, payload: LocationRequest) -> (r: Result<StoreOp, ApiError>)
    ensures
        exists|captured: Moment, received: Moment|
            #![trigger captured.on_clock(), received.on_clock()]
            captured.on_clock() && received.on_clock() && asks(
                r,
                reported(id, payload, captured, received),
            ),
{
    let captured = Timestamp::now();
    let received = Timestamp::now();
    assert(captured@.on_clock() && received@.on_clock());
    report_at(id, payload, captured, received)
}

/// Lists the track of a device.
pub fn list_tracks(id: u128, query: TrackQuery) -> (r: StoreOp)
    ensures
        r.deep_view() == (Operation::ListTracks { id, days: track_days(query.days) }),
{
    let days: i64 = match query.days {
        Some(days) => if days < 1 {
            1
        } else if days > 7 {
            7
        } else {
            days
        },
        None => 7,
    };
    StoreOp::ListTracks { id, days }
}

/// What a sweep of the devices that were not updated for long came to.
pub enum Swept {
    Nothing,
    Deleted(int),
    SettingFailed(Seq<char>),
    SweepFailed(Seq<char>),
}

/// What there is to note of a sweep.
#[derive(Debug)]
pub enum SweepNote {
    /// Nothing was to be deleted.
    Nothing,
    /// This many devices were deleted.
    Deleted(usize),
    /// The setting could not be read.
    SettingFailed(String),
    /// The devices could not be deleted.
    SweepFailed(String),
}

impl DeepView for SweepNote {
    type V = Swept;

    open spec fn deep_view(&self) -> Swept {
        match *self {
            SweepNote::Nothing => Swept::Nothing,
            SweepNote::Deleted(count) => Swept::Deleted(count as int),
            SweepNote::SettingFailed(message) => Swept::SettingFailed(message@),
            SweepNote::SweepFailed(message) => Swept::SweepFailed(message@),
        }
    }
}

/// A sweep that waits for an operation.
#[derive(Clone, Copy, Debug, PartialEq, Eq, Structural)]
pub enum SweepJob {
    /// For the setting to be read.
    Setting,
    /// For the devices to be deleted.
    Deleting,
}

/// How far a sweep has come.
pub enum SweepProgress {
    Ask { op: Operation, next: SweepJob },
    Done(Swept),
}

/// The next step of a sweep: an operation, with the job to resume with what it
/// comes to, or the end.
#[derive(Debug)]
pub enum SweepStep {
    Ask { op: StoreOp, next: SweepJob },
    Done(SweepNote),
}

impl DeepView for SweepStep {
    type V = SweepProgress;

    open spec fn deep_view(&self) -> SweepProgress {
        match *self {
            SweepStep::Ask { op, next } => SweepProgress::Ask { op: op.deep_view(), next },
            SweepStep::Done(note) => SweepProgress::Done(note.deep_view()),
        }
    }
}

/// The first step of a sweep: the setting is read.
pub open spec fn sweep_begun() -> SweepProgress {
    SweepProgress::Ask { op: Operation::AutoCleanupDays, next: SweepJob::Setting }
}

/// The next step of a sweep. Devices are deleted only where a number of days is
/// set, and after that many days.
pub open spec fn sweep_resumed(job: SweepJob, result: Result<Finding, Refusal>) -> SweepProgress {
    match (job, result) {
        (SweepJob::Setting, Ok(Finding::Days(Some(days)))) => SweepProgress::Ask {
            op: Operation::DeleteStaleDevices { days },
            next: SweepJob::Deleting,
        },
        (SweepJob::Setting, Ok(Finding::Days(None))) => SweepProgress::Done(Swept::Nothing),
        (SweepJob::Setting, Ok(_)) => SweepProgress::Done(
            Swept::SettingFailed(UNEXPECTED_OUTCOME@),
        ),
        (SweepJob::Setting, Err(e)) => SweepProgress::Done(Swept::SettingFailed(e.message)),
        (SweepJob::Deleting, Ok(Finding::Deleted(count))) => SweepProgress::Done(
            if count > 0 {
                Swept::Deleted(count)
            } else {
                Swept::Nothing
            },
        ),
        (SweepJob::Deleting, Ok(_)) => SweepProgress::Done(Swept::SweepFailed(UNEXPECTED_OUTCOME@)),
        (SweepJob::Deleting, Err(e)) => SweepProgress::Done(Swept::SweepFailed(e.message)),
    }
}

/// Begins a sweep of the devices that were not updated for as long as is set.
pub fn run_auto_cleanup() -> (r: SweepStep)
    ensures
        r.deep_view() == sweep_begun(),
{
    SweepStep::Ask { op: StoreOp::AutoCleanupDays, next: SweepJob::Setting }
}

impl SweepJob {
    /// Resumes the sweep with what the operation came to.
    pub fn resume(self, result: Result<Outcome, ApiError>) -> (r: SweepStep)
        ensures
            r.deep_view() == sweep_resumed(self, ended(result)),
    {
        match (self, result) {
            (SweepJob::Setting, Ok(Outcome::Days(Some(days)))) => SweepStep::Ask {
                op: StoreOp::DeleteStaleDevices { days },
                next: SweepJob::Deleting,
            },
            (SweepJob::Setting, Ok(Outcome::Days(None))) => SweepStep::Done(SweepNote::Nothing),
            (SweepJob::Setting, Ok(_)) => SweepStep::Done(
                SweepNote::SettingFailed(UNEXPECTED_OUTCOME.to_owned()),
            ),
            (SweepJob::Setting, Err(e)) => SweepStep::Done(SweepNote::SettingFailed(e.message)),
            (SweepJob::Deleting, Ok(Outcome::Deleted(count))) => if count > 0 {
                SweepStep::Done(SweepNote::Deleted(count))
            } else {
                SweepStep::Done(SweepNote::Nothing)
            },
            (SweepJob::Deleting, Ok(_)) => SweepStep::Done(
                SweepNote::SweepFailed(UNEXPECTED_OUTCOME.to_owned()),
            ),
            (SweepJob::Deleting, Err(e)) => SweepStep::Done(SweepNote::SweepFailed(e.message)),
        }
    }
}

/// A report that waits for an operation.
pub enum ReportWaiting {
    Stored,
    Sweeping { device: Profile, sweep: SweepJob },
}

/// A report of a location that waits for an operation.
#[derive(Debug)]
pub enum ReportJob {
    /// For the location to be stored.
    Stored,
    /// For the sweep that follows it.
    Sweeping { device: Device, sweep: SweepJob },
}

impl DeepView for ReportJob {
    type V = ReportWaiting;

    open spec fn deep_view(&self) -> ReportWaiting {
        match *self {
            ReportJob::Stored => ReportWaiting::Stored,
            ReportJob::Sweeping { device, sweep } => ReportWaiting::Sweeping {
                device: device.deep_view(),
                sweep,
            },
        }
    }
}

/// How far a report has come.
pub enum ReportProgress {
    Ask { op: Operation, next: ReportWaiting },
    Done { answer: Result<Profile, Refusal>, swept: Swept },
}

/// The next step of a report: an operation, with the job to resume with what it
/// comes to, or the answer to the device, with what there is to note of the
/// sweep.
#[derive(Debug)]
pub enum ReportStep {
    Ask { op: StoreOp, next: ReportJob },
    Done { answer: Result<Device, ApiError>, note: SweepNote },
}

impl DeepView for ReportStep {
    type V = ReportProgress;

    open spec fn deep_view(&self) -> ReportProgress {
        match *self {
            ReportStep::Ask { op, next } => ReportProgress::Ask {
                op: op.deep_view(),
                next: next.deep_view(),
            },
            ReportStep::Done { answer: Ok(device), note } => ReportProgress::Done {
                answer: Ok(device.deep_view()),
                swept: note.deep_view(),
            },
            ReportStep::Done { answer: Err(e), note } => ReportProgress::Done {
                answer: Err(e@),
                swept: note.deep_view(),
            },
        }
    }
}

/// The step of a report whose location is stored, behind a step of the sweep
/// that follows it.
pub open spec fn sweeping(device: Profile, step: SweepProgress) -> ReportProgress {
    match step {
        SweepProgress::Ask { op, next } => ReportProgress::Ask {
            op,
            next: ReportWaiting::Sweeping { device, sweep: next },
        },
        SweepProgress::Done(swept) => ReportProgress::Done { answer: Ok(device), swept },
    }
}

/// The next step of a report: a sweep follows a location that was stored, and
/// whatever comes of the sweep, the device is the answer.
pub open spec fn report_resumed(
    job: ReportWaiting,
    result: Result<Finding, Refusal>,
) -> ReportProgress {
    match job {
        ReportWaiting::Stored => match result {
            Ok(Finding::Device(device)) => sweeping(device, sweep_begun()),
            Ok(_) => ReportProgress::Done {
                answer: Err(internal(UNEXPECTED_OUTCOME@)),
                swept: Swept::Nothing,
            },
            Err(e) => ReportProgress::Done { answer: Err(e), swept: Swept::Nothing },
        },
        ReportWaiting::Sweeping { device, sweep } => sweeping(device, sweep_resumed(sweep, result)),
    }
}

fn sweep_on(device: Device, step: SweepStep) -> (r: ReportStep)
    ensures
        r.deep_view() == sweeping(device.deep_view(), step.deep_view()),
{
    match step {
        SweepStep::Ask { op, next } => ReportStep::Ask {
            op,
            next: ReportJob::Sweeping { device, sweep: next },
        },
        SweepStep::Done(note) => ReportStep::Done { answer: Ok(device), note },
    }
}

impl ReportJob {
    /// Resumes the report with what the operation came to.
    pub fn resume(self, result: Result<Outcome, ApiError>) -> (r: ReportStep)
        ensures
            r.deep_view() == report_resumed(self.deep_view(), ended(result)),
    {
        match self {
            ReportJob::Stored => match result {
                Ok(Outcome::Device(device)) => sweep_on(device, run_auto_cleanup()),
                Ok(_) => ReportStep::Done {
                    answer: Err(ApiError::internal(UNEXPECTED_OUTCOME)),
                    note: SweepNote::Nothing,
                },
                Err(e) => ReportStep::Done { answer: Err(e), note: SweepNote::Nothing },
            },
            ReportJob::Sweeping { device, sweep } => sweep_on(device, sweep.resume(result)),
        }
    }
}

/// Whether a report that has come this far goes on with these results and ends
/// with this answer.
pub open spec fn report_runs(
    progress: ReportProgress,
    results: Seq<Result<Finding, Refusal>>,
    answer: Result<Profile, Refusal>,
) -> bool
    decreases results.len(),
{
    match progress {
        ReportProgress::Done { answer: done, swept: _ } => results.len() == 0 && answer == done,
        ReportProgress::Ask { op, next } => {
            &&& results.len() > 0
            &&& report_runs(report_resumed(next, results[0]), results.drop_first(), answer)
        },
    }
}

/// The answer to a report is what storing the location came to: a device that
/// was answered, or the refusal. Nothing that happens in the sweep behind it
/// changes that.
pub proof fn law_sweep_leaves_the_answer(
    results: Seq<Result<Finding, Refusal>>,
    op: Operation,
    answer: Result<Profile, Refusal>,
)
    requires
        report_runs(
            ReportProgress::Ask { op, next: ReportWaiting::Stored },
            results,
            answer,
        ),
    ensures
        results[0] matches Ok(Finding::Device(device)) ==> answer == Ok::<Profile, Refusal>(device),
        results[0] matches Err(e) ==> answer == Err::<Profile, Refusal>(e) && results.len() == 1,
{
    reveal_with_fuel(report_runs, 2);
    match results[0] {
        Ok(Finding::Device(device)) => {
            lemma_sweeping_leaves_the_answer(
                sweeping(device, sweep_begun()),
                device,
                results.drop_first(),
                answer,
            );
        },
        _ => {},
    }
}

proof fn lemma_sweeping_leaves_the_answer(
    progress: ReportProgress,
    device: Profile,
    results: Seq<Result<Finding, Refusal>>,
    answer: Result<Profile, Refusal>,
)
    requires
        exists|step: SweepProgress| progress == #[trigger] sweeping(device, step),
        report_runs(progress, results, answer),
    ensures
        answer == Ok::<Profile, Refusal>(device),
    decreases results.len(),
{
    match progress {
        ReportProgress::Ask { op, next } => {
            let sweep = next->sweep;
            assert(report_resumed(next, results[0]) == sweeping(
                device,
                sweep_resumed(sweep, results[0]),
            ));
            lemma_sweeping_leaves_the_answer(
                report_resumed(next, results[0]),
                device,
                results.drop_first(),
                answer,
            );
        },
        ReportProgress::Done { .. } => {},
    }
}

/// A sweep deletes nothing unless a number of days is set, and then the devices
/// that were not updated for that many days.
pub proof fn law_sweep_follows_the_setting(result: Result<Finding, Refusal>)
    ensures
        sweep_resumed(SweepJob::Setting, result) matches SweepProgress::Ask { op, .. } ==> {
            &&& result matches Ok(Finding::Days(Some(days)))
            &&& op == Operation::DeleteStaleDevices { days }
        },
        sweep_resumed(SweepJob::Deleting, result) is Done,
{
}

/// Whatever a device asks for, the track that is listed goes back at least one
/// day and at most as far as locations are kept, and its cutoff is on the
/// calendar.
pub proof fn law_track_stays_within_retention(asked: Option<i64>, now: Moment)
    requires
        now.on_clock(),
    ensures
        1 <= track_days(asked) <= RETENTION_DAYS,
        asked matches Some(days) ==> (1 <= days <= 7 ==> track_days(asked) == days),
        now.days_earlier(track_days(asked) as int).valid(),
{
}

/// Whatever a device sends, an operation that it brings about carries a name
/// that a device may have, if it carries one.
pub proof fn law_requests_bring_names(
    registration: RegisterDeviceRequest,
    fresh: u128,
    id: u128,
    change: UpdateDeviceRequest,
)
    ensures
        registered(registration, fresh) matches Ok(op) ==> brings_name(op),
        changed(id, change) matches Ok(op) ==> brings_name(op),
{
    law_trim_is_idempotent(registration.name@);
}

/// Whatever a device reports, the coordinates of a location that is to be added
/// are numbers.
pub proof fn law_reports_hold_numbers(
    id: u128,
    payload: LocationRequest,
    captured: Moment,
    received: Moment,
)
    ensures
        reported(id, payload, captured, received) matches Ok(op) ==> {
            &&& op matches Operation::InsertLocation { location, .. }
            &&& is_number(location.reading.latitude)
            &&& is_number(location.reading.longitude)
        },
{
}

/// What is asked for is what a refusal or an operation says: nothing is lost
/// between the two.
pub proof fn law_asking_is_exact(
    r: Result<StoreOp, ApiError>,
    one: Result<Operation, Refusal>,
    other: Result<Operation, Refusal>,
)
    requires
        asks(r, one),
        asks(r, other),
    ensures
        one == other,
        r is Ok <==> one is Ok,
{
}

/// A registration is accepted exactly where the name has 1 to 64 characters
/// between the white space at its ends. What is then stored is what the request
/// brought: the platform, or that there is none, the name without the white
/// space, and the identifier, for which a fresh one stands only where the
/// request brings none.
pub proof fn law_registration_carries_the_request(payload: RegisterDeviceRequest, fresh: u128)
    ensures
        registered(payload, fresh) is Ok <==> 1 <= trimmed(payload.name@).len() <= 64,
        match registered(payload, fresh) {
            Ok(Operation::UpsertDevice { id, name, platform }) => {
                &&& name == trimmed(payload.name@)
                &&& payload.platform matches Some(brought) ==> platform == Some(brought@)
                &&& payload.platform is None ==> platform is None
                &&& payload.id matches Some(brought) ==> id == brought
                &&& payload.id is None ==> id == fresh
            },
            Ok(_) => false,
            Err(e) => e.status == 400 && e.message == "device name must be 1-64 characters"@,
        },
{
}

/// Two registrations that differ in what they bring differ in what they store.
pub proof fn law_registrations_stay_apart(
    one: RegisterDeviceRequest,
    other: RegisterDeviceRequest,
    fresh: u128,
)
    requires
        registered(one, fresh) is Ok,
        registered(one, fresh) == registered(other, fresh),
    ensures
        trimmed(one.name@) == trimmed(other.name@),
        one.platform.deep_view() == other.platform.deep_view(),
        one.id is Some && other.id is Some ==> one.id == other.id,
{
}

/// A device that registered is there as it registered. Behind an accepted
/// request in which no statement failed, its record holds the name and the
/// platform that the request brought, no other record has changed, and the
/// answer shows both.
pub proof fn law_registration_is_kept(
    payload: RegisterDeviceRequest,
    fresh: u128,
    id: u128,
    now: Moment,
    db: Database,
    moments: Seq<Moment>,
    answers: Seq<Answer>,
    end: Database,
    result: Result<Finding, Refusal>,
)
    requires
        1 <= trimmed(payload.name@).len() <= 64,
        payload.id == Some(id) || (payload.id is None && fresh == id),
        db.open is None,
        none_failed(answers),
        registered(payload, fresh) is Ok,
        runs(begun(registered(payload, fresh)->Ok_0, now), db, moments, answers, end, result),
    ensures
        end.kept.devices.dom() == db.kept.devices.dom().insert(id_text(id)),
        end.kept.devices[id_text(id)].name == trimmed(payload.name@),
        payload.platform matches Some(brought) ==> end.kept.devices[id_text(id)].platform == Some(
            brought@,
        ),
        payload.platform is None ==> end.kept.devices[id_text(id)].platform is None,
        end.kept.devices[id_text(id)].updated_at == now.text(),
        forall|other: Seq<char>| #[trigger]
            db.kept.devices.contains_key(other) && other != id_text(id) ==> end.kept.devices[other]
                == db.kept.devices[other],
        end.kept.locations == db.kept.locations,
        result matches Ok(found) ==> {
            &&& found matches Finding::Device(device)
            &&& device.name == trimmed(payload.name@)
            &&& payload.platform matches Some(brought) ==> device.platform == Some(brought@)
            &&& payload.platform is None ==> device.platform is None
            &&& reads_as_id(id_text(id), id) ==> device.id == id
            &&& reads_as(now.text(), now) ==> device.updated_at == now
        },
{
    law_registration_carries_the_request(payload, fresh);
    match registered(payload, fresh)->Ok_0 {
        Operation::UpsertDevice { id: stored, name, platform } => {
            law_register(stored, name, platform, now, db, moments, answers, end, result);
            assert(end.kept.devices.dom() =~= db.kept.devices.dom().insert(id_text(id)));
            let row = choose|row: ProfileRow| #[trigger]
                end.kept.is_profile_row(id_text(id), row) && result == shown(row);
        },
        _ => {},
    }
}

/// A change is accepted unless it brings a name that has not 1 to 64 characters
/// between the white space at its ends. It carries what the request brought, to
/// the device in the address.
pub proof fn law_change_carries_the_request(id: u128, payload: UpdateDeviceRequest)
    ensures
        changed(id, payload) is Err <==> (payload.name matches Some(name) && !(1 <= trimmed(
            name@,
        ).len() <= 64)),
        match changed(id, payload) {
            Ok(Operation::UpdateDevice { id: same, name, platform }) => {
                &&& same == id
                &&& payload.name matches Some(brought) ==> name == Some(brought@)
                &&& payload.name is None ==> name is None
                &&& payload.platform matches Some(brought) ==> platform == Some(brought@)
                &&& payload.platform is None ==> platform is None
            },
            Ok(_) => false,
            Err(e) => e.status == 400 && e.message == "device name must be 1-64 characters"@,
        },
{
}

/// A change is kept: behind an accepted request that is answered with a device,
/// the record of the device in the address holds the name and the platform that
/// the request brought, and where it brought none those that were there before.
pub proof fn law_change_is_kept(
    id: u128,
    payload: UpdateDeviceRequest,
    now: Moment,
    db: Database,
    moments: Seq<Moment>,
    answers: Seq<Answer>,
    end: Database,
    device: Profile,
)
    requires
        db.open is None,
        none_failed(answers),
        changed(id, payload) is Ok,
        runs(
            begun(changed(id, payload)->Ok_0, now),
            db,
            moments,
            answers,
            end,
            Ok(Finding::Device(device)),
        ),
    ensures
        db.kept.devices.contains_key(id_text(id)),
        ({
            let was = db.kept.devices[id_text(id)];
            let is = end.kept.devices[id_text(id)];
            &&& payload.name matches Some(name) ==> is.name == trimmed(name@)
            &&& payload.name is None ==> is.name == trimmed(was.name)
            &&& payload.platform matches Some(platform) ==> is.platform == Some(platform@)
            &&& payload.platform is None ==> is.platform == was.platform
            &&& is.created_at == was.created_at
            &&& is.updated_at == moments[0].text()
            &&& device.name == is.name
            &&& device.platform == is.platform
        }),
        forall|other: Seq<char>| #[trigger]
            db.kept.devices.contains_key(other) && other != id_text(id) ==> end.kept.devices[other]
                == db.kept.devices[other],
{
    law_change_carries_the_request(id, payload);
    match changed(id, payload)->Ok_0 {
        Operation::UpdateDevice { id: same, name, platform } => {
            law_update(
                same,
                name,
                platform,
                now,
                db,
                moments,
                answers,
                end,
                Ok(Finding::Device(device)),
            );
            let row = choose|row: ProfileRow| #[trigger]
                end.kept.is_profile_row(id_text(id), row) && Ok::<Finding, Refusal>(
                    Finding::Device(device),
                ) == shown(row);
        },
        _ => {},
    }
}

/// A report is accepted exactly where its latitude lies within 90 degrees and
/// its longitude within 180. What is then stored is what the request brought:
/// the seven numbers bit for bit, for the device in the address, received when
/// it was received, and captured when the request says; where it does not say,
/// at the moment that is taken for it.
pub proof fn law_report_carries_the_request(
    id: u128,
    payload: LocationRequest,
    captured: Moment,
    received: Moment,
)
    ensures
        reported(id, payload, captured, received) is Ok <==> within(payload.reading.latitude, 90)
            && within(payload.reading.longitude, 180),
        match reported(id, payload, captured, received) {
            Ok(Operation::InsertLocation { id: same, location }) => {
                &&& same == id
                &&& location.id is None
                &&& location.reading.latitude == payload.reading.latitude
                &&& location.reading.longitude == payload.reading.longitude
                &&& location.reading.accuracy == payload.reading.accuracy
                &&& location.reading.altitude == payload.reading.altitude
                &&& location.reading.heading == payload.reading.heading
                &&& location.reading.speed == payload.reading.speed
                &&& location.reading.battery_level == payload.reading.battery_level
                &&& location.received_at == received
                &&& payload.captured_at matches Some(at) ==> location.captured_at == at@
                &&& payload.captured_at is None ==> location.captured_at == captured
            },
            Ok(_) => false,
            Err(e) => e.status == 400 && e.message == "invalid coordinates"@,
        },
{
}

/// An accepted report is in the track of the device in the address: the numbers
/// that the request brought, as they are kept, received when it was received,
/// and captured when the request says. This holds under the same conditions as
/// for the location that it stores.
pub proof fn law_accepted_report_is_in_the_track(
    id: u128,
    payload: LocationRequest,
    captured: Moment,
    received: Moment,
    report_at: Moment,
    db: Database,
    report_moments: Seq<Moment>,
    report_answers: Seq<Answer>,
    middle: Database,
    report_result: Result<Finding, Refusal>,
    days: i64,
    track_at: Moment,
    track_moments: Seq<Moment>,
    track_answers: Seq<Answer>,
    end: Database,
    result: Result<Finding, Refusal>,
)
    requires
        reported(id, payload, captured, received) is Ok,
        db.open is None,
        db.kept.sound(),
        db.kept.legible(),
        db.kept.devices.contains_key(id_text(id)),
        payload.captured_at matches Some(at) ==> reads_as(at@.text(), at@),
        payload.captured_at is None ==> reads_as(captured.text(), captured),
        reads_as(received.text(), received),
        is_legible(report_at),
        forall|i: int| 0 <= i < report_moments.len() ==> is_legible(#[trigger] report_moments[i]),
        none_failed(report_answers),
        none_failed(track_answers),
        runs(
            begun(reported(id, payload, captured, received)->Ok_0, report_at),
            db,
            report_moments,
            report_answers,
            middle,
            report_result,
        ),
        runs(
            begun(Operation::ListTracks { id, days }, track_at),
            middle,
            track_moments,
            track_answers,
            end,
            result,
        ),
        !sorts_before(received.text(), report_moments[3].days_earlier(7).text()),
        !sorts_before(received.text(), track_moments[0].days_earlier(days as int).text()),
    ensures
        result matches Ok(Finding::Track(places)) && exists|i: int|
            0 <= i < places.len() && {
                let place = #[trigger] places[i];
                &&& place.id matches Some(key) && key == db.kept.next_location
                &&& place.reading == kept_reading(payload.reading)
                &&& payload.captured_at matches Some(at) ==> place.captured_at == at@
                &&& payload.captured_at is None ==> place.captured_at == captured
                &&& place.received_at == received
            },
{
    law_report_carries_the_request(id, payload, captured, received);
    match reported(id, payload, captured, received)->Ok_0 {
        Operation::InsertLocation { id: same, location } => {
            assert(location.reading == payload.reading);
            law_report_reads_back(
                same,
                location,
                report_at,
                db,
                report_moments,
                report_answers,
                middle,
                report_result,
                days,
                track_at,
                track_moments,
                track_answers,
                end,
                result,
            );
        },
        _ => {},
    }
}

/// For how many days a track is listed, whatever is asked: as many as asked from
/// one to seven, one for fewer, seven for more and where nothing is asked.
pub proof fn law_track_days_are_those_asked(days: i64)
    ensures
        1 <= days <= 7 ==> track_days(Some(days)) == days,
        days < 1 ==> track_days(Some(days)) == 1,
        days > 7 ==> track_days(Some(days)) == 7,
        track_days(None) == 7,
{
}

/// A sweep asks for exactly what is set. Whatever number of days was read, the
/// devices are to be deleted that were not updated for that many days; where
/// none is set, nothing. What the deletion comes to is what is noted, and a
/// failure of either step is noted with its message.
pub proof fn law_sweep_asks_for_the_days_that_are_set(days: i64, count: int, e: Refusal)
    ensures
        sweep_begun() matches SweepProgress::Ask { op, next } && op is AutoCleanupDays && next
            is Setting,
        sweep_resumed(SweepJob::Setting, Ok(Finding::Days(Some(days)))) matches SweepProgress::Ask {
            op,
            next,
        } && next is Deleting && (op matches Operation::DeleteStaleDevices { days: asked }
            && asked == days),
        sweep_resumed(SweepJob::Setting, Ok(Finding::Days(None))) matches SweepProgress::Done(swept)
            && swept is Nothing,
        count > 0 ==> (sweep_resumed(
            SweepJob::Deleting,
            Ok(Finding::Deleted(count)),
        ) matches SweepProgress::Done(swept) && (swept matches Swept::Deleted(noted) && noted
            == count)),
        count <= 0 ==> (sweep_resumed(
            SweepJob::Deleting,
            Ok(Finding::Deleted(count)),
        ) matches SweepProgress::Done(swept) && swept is Nothing),
        sweep_resumed(SweepJob::Setting, Err(e)) matches SweepProgress::Done(swept) && (
        swept matches Swept::SettingFailed(message) && message == e.message),
        sweep_resumed(SweepJob::Deleting, Err(e)) matches SweepProgress::Done(swept) && (
        swept matches Swept::SweepFailed(message) && message == e.message),
{
}

/// Whether a sweep that has come this far goes on with these operations, each
/// begun where the one before it ended, and ends with this database and this to
/// note.
pub open spec fn sweep_runs(
    progress: SweepProgress,
    db: Database,
    carried: Seq<Carried>,
    end: Database,
    swept: Swept,
) -> bool
    decreases carried.len(),
{
    match progress {
        SweepProgress::Done(done) => carried.len() == 0 && end == db && swept == done,
        SweepProgress::Ask { op, next } => {
            &&& carried.len() > 0
            &&& runs(
                begun(op, carried[0].now),
                db,
                carried[0].moments,
                carried[0].answers,
                carried[0].end,
                carried[0].result,
            )
            &&& sweep_runs(
                sweep_resumed(next, carried[0].result),
                carried[0].end,
                carried.drop_first(),
                end,
                swept,
            )
        },
    }
}

/// A sweep leaves no device that was last updated before the cutoff, and deletes
/// no other. With a number of days set and no statement failing, the devices that
/// are left are those that were not updated before the moment that many days
/// before the sweep, and the number of those that are gone is noted. With no
/// number set, nothing changes.
pub proof fn law_sweep_leaves_nothing_stale(
    days: Option<i64>,
    db: Database,
    carried: Seq<Carried>,
    end: Database,
    swept: Swept,
)
    requires
        db.open is None,
        db.kept.sound(),
        undisturbed(carried),
        days_kept(db.kept) == Ok::<Option<i64>, Refusal>(days),
        sweep_runs(sweep_begun(), db, carried, end, swept),
    ensures
        days is None ==> end == db && swept is Nothing,
        days matches Some(days) ==> {
            let cutoff = carried[1].now.days_earlier(days as int).text();
            let gone = db.kept.devices.dom().difference(end.kept.devices.dom());
            &&& forall|id: Seq<char>| #[trigger]
                end.kept.devices.contains_key(id) <==> db.kept.devices.contains_key(id)
                    && !sorts_before(db.kept.devices[id].updated_at, cutoff)
            &&& forall|id: Seq<char>| #[trigger]
                end.kept.devices.contains_key(id) ==> end.kept.devices[id] == db.kept.devices[id]
            &&& forall|k: int| #[trigger]
                end.kept.locations.contains_key(k) <==> db.kept.locations.contains_key(k)
                    && end.kept.devices.contains_key(db.kept.locations[k].device_id)
            &&& gone.len() > 0 ==> (swept matches Swept::Deleted(noted) && noted == gone.len())
            &&& gone.len() == 0 ==> swept is Nothing
        },
{
    let first = carried[0];
    assert(sweep_begun() == (SweepProgress::Ask {
        op: Operation::AutoCleanupDays,
        next: SweepJob::Setting,
    }));
    assert(none_failed(first.answers));
    lemma_setting_read(first.now, db, first.moments, first.answers, first.end, first.result);
    let rest = carried.drop_first();
    let onward = sweep_resumed(SweepJob::Setting, first.result);
    assert(sweep_runs(onward, db, rest, end, swept));
    match days {
        Some(days) => {
            law_sweep_asks_for_the_days_that_are_set(days, 0, arbitrary());
            let second = rest[0];
            assert(second == carried[1]);
            assert(none_failed(second.answers));
            law_sweep(
                days,
                second.now,
                db,
                second.moments,
                second.answers,
                second.end,
                second.result,
            );
            let cutoff = second.now.days_earlier(days as int).text();
            let stale = db.kept.stale(cutoff);
            law_sweep_asks_for_the_days_that_are_set(days, stale.len() as int, arbitrary());
            let last = sweep_resumed(SweepJob::Deleting, second.result);
            assert(sweep_runs(last, second.end, rest.drop_first(), end, swept));
            let gone = db.kept.devices.dom().difference(end.kept.devices.dom());
            assert(gone =~= stale);
        },
        None => {
            law_sweep_asks_for_the_days_that_are_set(0, 0, arbitrary());
        },
    }
}

/// A sweep follows every report that was stored: the setting is read, and with a
/// number of days set the devices are to be deleted that were not updated for
/// that many days.
pub proof fn law_every_stored_report_is_followed_by_a_sweep(device: Profile, days: i64)
    ensures
        report_resumed(
            ReportWaiting::Stored,
            Ok(Finding::Device(device)),
        ) matches ReportProgress::Ask { op, next } && op is AutoCleanupDays && (
        next matches ReportWaiting::Sweeping { device: same, sweep } && same == device && sweep
            is Setting),
        report_resumed(
            ReportWaiting::Sweeping { device, sweep: SweepJob::Setting },
            Ok(Finding::Days(Some(days))),
        ) matches ReportProgress::Ask { op, next } && (op matches Operation::DeleteStaleDevices {
            days: asked,
        } && asked == days) && (next matches ReportWaiting::Sweeping { device: same, sweep } && same
            == device && sweep is Deleting),
{
}

/// Devices are swept once a day, and an outcome that no request waits for has its
/// message.
pub proof fn law_sweeps_are_daily()
    ensures
        SWEEP_INTERVAL_SECS == 24 * 60 * 60,
        UNEXPECTED_OUTCOME@ == "unexpected outcome of the database"@,
{
}

/// The view of a step of a report, or of the sweep behind it, holds what the step
/// holds.
pub proof fn law_views_of_report_steps_are_whole(report: ReportStep, sweep: SweepStep)
    ensures
        match report {
            ReportStep::Ask { op, next } => {
                &&& report.deep_view() matches ReportProgress::Ask { op: asked, next: waiting }
                &&& asked == op.deep_view()
                &&& next is Stored <==> waiting is Stored
                &&& next matches ReportJob::Sweeping { device, sweep: job } ==> (
                waiting matches ReportWaiting::Sweeping { device: shown, sweep: same } && shown
                    == device.deep_view() && same == job)
            },
            ReportStep::Done { answer, note } => {
                &&& report.deep_view() matches ReportProgress::Done { answer: shown, swept }
                &&& answer matches Ok(device) ==> (shown matches Ok(profile) && profile
                    == device.deep_view())
                &&& answer matches Err(e) ==> (shown matches Err(refusal) && refusal == e@)
                &&& swept == note.deep_view()
            },
        },
        match sweep {
            SweepStep::Ask { op, next } => sweep.deep_view() matches SweepProgress::Ask {
                op: asked,
                next: same,
            } && asked == op.deep_view() && same == next,
            SweepStep::Done(note) => {
                &&& sweep.deep_view() matches SweepProgress::Done(swept)
                &&& note is Nothing <==> swept is Nothing
                &&& note matches SweepNote::Deleted(count) ==> (swept matches Swept::Deleted(shown)
                    && shown == count)
                &&& note matches SweepNote::SettingFailed(message) ==> (
                swept matches Swept::SettingFailed(shown) && shown == message@)
                &&& note matches SweepNote::SweepFailed(message) ==> (
                swept matches Swept::SweepFailed(shown) && shown == message@)
            },
        },
{
}

} // verus!
