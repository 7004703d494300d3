//! What the functions of the library give back, said of their results: whoever
//! calls one gets what is stated here.

use vstd::prelude::*;

use crate::admin::{
    admin_notice, admin_notice_url, admin_url, cookie_of, cookie_value, expired_cookie, is_admin,
    is_admin_authenticated, login_cookie, logout_cookie, notice_of, notice_query, require_admin,
    session_cookie, url_of, AdminQuery, AppState,
};
use crate::api::{
    auth, health, provided_token, validate_days, validate_location, validate_name, ApiError,
    ErrorResponse, Health,
};
use crate::clock::{rfc3339, rfc3339_read, text_to_time, time_to_text, Moment, Timestamp};
use crate::console::{
    admin_delete_device, admin_delete_locations, admin_delete_stale, admin_index, admin_login,
    admin_login_page, admin_logout, admin_resumed, admin_set_auto_cleanup, clearing, deleting,
    index_begun, login_answer, setting_cleanup, sweeping_stale, to_login, AdminJob, AdminLoginForm,
    AdminStep, AutoCleanupForm, DaysForm, LangForm, Shown, WebAnswer,
};
use crate::coordinates::{is_latitude, is_longitude, law_ranges_end_at_their_limits};
use crate::decimal::{
    decimal, parse_integer, parsed_integer, signed_decimal, signed_text, unsigned_text,
};
use crate::device_id::{
    id_text, id_to_text, is_random_id, new_device_id, text_to_id, uuid_read,
};
use crate::header::{header_text, text_in};
use crate::hex::{hex, hex_text};
use crate::lang::{headings, lang_of, status_text, AdminLang};
use crate::markup::{escape_html, escaped};
use crate::pages::{
    admin_page, device_row, hidden_lang_input, login_page, render_admin_device_row,
    render_admin_page, render_login_page,
};
use crate::query::{law_sql_is_word_for_word, Query, SqlValue};
use crate::records::{
    admin_profile_in, all_in, place_in, profile_in, row_to_admin_device, row_to_device,
    row_to_location, rows_to_admin_devices, rows_to_devices, rows_to_locations, AdminDevice,
    AdminDeviceRow, AdminProfileRow, Device, DeviceRow, Location, LocationRequest, LocationRow,
    PlaceRow, ProfileRow, RegisterDeviceRequest, TrackQuery, UpdateDeviceRequest,
};
use crate::requests::{
    asks, law_change_carries_the_request, law_registration_carries_the_request,
    law_report_carries_the_request, list_tracks, register_as, register_device, registered,
    report_at, report_resumed, reported, run_auto_cleanup, update_device, update_location,
    ReportJob, ReportStep, SweepJob, SweepNote, SweepStep,
};
use crate::secret::{
    generate_session_secret, generate_token, load_or_generate_admin_password,
    load_or_generate_token, spell_token, spelled, TOKEN_CHARS,
};
use crate::settings::{
    admin_path_of, cors_layer, cors_origins, cors_rules_of, default_log_path, given, log_file_name,
    normalize_admin_path, origins_of, read_optional_env, CorsOrigins, CorsPolicy, LogFile,
    MapConfig, SettingError,
};
use crate::store::{begun, ended, resumed, Job, Outcome, Reply, Step, StoreOp};
use crate::text::{
    begins_with, parted, pieces, same_text, split, split_once, strip_prefix, trim, trimmed,
};

verus! {

/// A report that is accepted is handed on as it came: to the device in the
/// address, with the seven numbers bit for bit.
pub proof fn law_report_at_hands_on_the_report(
    id: u128,
    payload: LocationRequest,
    captured: Timestamp,
    received: Timestamp,
    r: Result<StoreOp, ApiError>,
)
    requires
        call_ensures(report_at, (id, payload, captured, received), r),
    ensures
        match r {
            Ok(StoreOp::InsertLocation { id: same, location }) => {
                &&& same == id
                &&& location.id is None
                &&& location.reading == payload.reading
                &&& location.received_at@ == received@
                &&& payload.captured_at matches Some(at) ==> location.captured_at@ == at@
                &&& payload.captured_at is None ==> location.captured_at@ == captured@
            },
            Ok(_) => false,
            Err(e) => e.status == 400 && e.message@ == "invalid coordinates"@,
        },
        r is Ok <==> payload.reading.latitude % 0x8000_0000_0000_0000 <= 0x4056_8000_0000_0000
            && payload.reading.longitude % 0x8000_0000_0000_0000 <= 0x4066_8000_0000_0000,
{
    law_report_carries_the_request(id, payload, captured@, received@);
    law_ranges_end_at_their_limits(payload.reading.latitude);
    law_ranges_end_at_their_limits(payload.reading.longitude);
}

/// A registration that is accepted is handed on as it came, with its platform,
/// with its name without the white space at its ends, and with its identifier or
/// the fresh one.
pub proof fn law_register_as_hands_on_the_registration(
    payload: RegisterDeviceRequest,
    fresh: u128,
    r: Result<StoreOp, ApiError>,
)
    requires
        call_ensures(register_as, (payload, fresh), r),
    ensures
        match r {
            Ok(StoreOp::UpsertDevice { id, name, platform }) => {
                &&& name@ == trimmed(payload.name@)
                &&& platform is Some <==> payload.platform is Some
                &&& platform is Some ==> platform->0@ == payload.platform->0@
                &&& payload.id matches Some(brought) ==> id == brought
                &&& payload.id is None ==> id == fresh
            },
            Ok(_) => false,
            Err(e) => e.status == 400 && e.message@ == "device name must be 1-64 characters"@,
        },
        r is Ok <==> 1 <= trimmed(payload.name@).len() <= 64,
{
    law_registration_carries_the_request(payload, fresh);
}

/// A change that is accepted is handed on as it came.
pub proof fn law_update_device_hands_on_the_change(
    id: u128,
    payload: UpdateDeviceRequest,
    r: Result<StoreOp, ApiError>,
)
    requires
        call_ensures(update_device, (id, payload), r),
    ensures
        match r {
            Ok(StoreOp::UpdateDevice { id: same, payload: handed }) => {
                &&& same == id
                &&& handed.name is Some <==> payload.name is Some
                &&& handed.name is Some ==> handed.name->0@ == payload.name->0@
                &&& handed.platform is Some <==> payload.platform is Some
                &&& handed.platform is Some ==> handed.platform->0@ == payload.platform->0@
            },
            Ok(_) => false,
            Err(e) => e.status == 400 && e.message@ == "device name must be 1-64 characters"@,
        },
{
    law_change_carries_the_request(id, payload);
}

/// A track is asked of the device in the address, for one to seven days.
pub proof fn law_list_tracks_asks_for_the_days(id: u128, query: TrackQuery, r: StoreOp)
    requires
        call_ensures(list_tracks, (id, query), r),
    ensures
        r matches StoreOp::ListTracks { id: same, days } && same == id && (query.days is None
            ==> days == 7) && (query.days matches Some(asked) ==> {
            &&& 1 <= asked <= 7 ==> days == asked
            &&& asked < 1 ==> days == 1
            &&& asked > 7 ==> days == 7
        }),
{
}

/// A sweep asks for the number of days that was read, whatever it is, and notes
/// what came of it.
pub proof fn law_sweep_steps_follow_the_setting(
    job: SweepJob,
    result: Result<Outcome, ApiError>,
    r: SweepStep,
    first: SweepStep,
)
    requires
        call_ensures(SweepJob::resume, (job, result), r),
        call_ensures(run_auto_cleanup, (), first),
    ensures
        first matches SweepStep::Ask { op, next } && op is AutoCleanupDays && next is Setting,
        job is Setting ==> (result matches Ok(Outcome::Days(Some(days))) ==> (
        r matches SweepStep::Ask { op, next } && next is Deleting && (
        op matches StoreOp::DeleteStaleDevices { days: asked } && asked == days))),
        job is Setting ==> (result matches Ok(Outcome::Days(None)) ==> (r matches SweepStep::Done(
            note,
        ) && note is Nothing)),
        job is Setting ==> (result matches Err(e) ==> (r matches SweepStep::Done(
            SweepNote::SettingFailed(message),
        ) && message@ == e.message@)),
        job is Deleting ==> (result matches Ok(Outcome::Deleted(count)) ==> {
            &&& count > 0 ==> (r matches SweepStep::Done(SweepNote::Deleted(noted)) && noted
                == count)
            &&& count == 0 ==> (r matches SweepStep::Done(note) && note is Nothing)
        }),
        job is Deleting ==> (result matches Err(e) ==> (r matches SweepStep::Done(
            SweepNote::SweepFailed(message),
        ) && message@ == e.message@)),
{
}

/// A report goes on as it should: stored, it is followed by a sweep, and its
/// device is the answer whatever comes of that.
pub proof fn law_report_steps_keep_the_device(
    job: ReportJob,
    result: Result<Outcome, ApiError>,
    r: ReportStep,
)
    requires
        call_ensures(ReportJob::resume, (job, result), r),
    ensures
        r.deep_view() == report_resumed(job.deep_view(), ended(result)),
        job is Stored ==> (result matches Ok(Outcome::Device(device)) ==> (
        r matches ReportStep::Ask { op, next } && op is AutoCleanupDays && (
        next matches ReportJob::Sweeping { device: same, sweep } && same.deep_view()
            == device.deep_view() && sweep is Setting))),
        job is Stored ==> (result matches Err(e) ==> (r matches ReportStep::Done { answer, note }
            && (answer matches Err(same) && same@ == e@) && note is Nothing)),
{
}

/// The SQL that is handed out for a statement is, word for word, that of its kind.
pub proof fn law_sql_that_is_sent(query: Query, r: &'static str)
    requires
        call_ensures(Query::sql, (&query,), r),
    ensures
        r@ == query.deep_view().sql(),
        query is Track ==> r@ == r#"
SELECT id, latitude, longitude, accuracy, altitude, heading, speed,
       battery_level, captured_at, received_at
FROM locations
WHERE device_id = ?1 AND received_at >= ?2
ORDER BY received_at ASC, id ASC
"#@,
        query is PruneLocations ==> r@ == "DELETE FROM locations WHERE received_at < ?1"@,
        query is DeleteStaleDevices ==> r@ == "DELETE FROM devices WHERE updated_at < ?1"@,
        query is DeleteDevice ==> r@ == "DELETE FROM devices WHERE id = ?1"@,
        query is DeleteLocations ==> r@ == "DELETE FROM locations WHERE device_id = ?1"@,
        query is FindDevice ==> r@ == "SELECT id FROM devices WHERE id = ?1"@,
{
    law_sql_is_word_for_word(query.deep_view());
}

/// The values that are bound are those of the statement, in their order.
pub proof fn law_values_that_are_bound(query: Query, r: Vec<SqlValue>)
    requires
        call_ensures(Query::bindings, (&query,), r),
    ensures
        r.deep_view() == query.deep_view().bindings(),
        query matches Query::Track { device_id, since } ==> {
            &&& r@.len() == 2
            &&& r@[0] matches SqlValue::Text(bound) && bound@ == device_id@
            &&& r@[1] matches SqlValue::Text(bound) && bound@ == since@
        },
{
    let bound = r.deep_view();
    match query {
        Query::Track { device_id, since } => {
            assert(bound.len() == 2);
            assert(bound[0] == r@[0].deep_view());
            assert(bound[1] == r@[1].deep_view());
        },
        _ => {},
    }
}

/// An operation begins with the statement that its steps name, at the moment it is
/// begun at.
pub proof fn law_begin_takes_the_first_step(op: StoreOp, now: Timestamp, r: Step)
    requires
        call_ensures(StoreOp::begin, (op, now), r),
    ensures
        r.deep_view() == begun(op.deep_view(), now@),
{
}

/// An operation goes on from the reply as its steps say, at the moment of the reply.
pub proof fn law_resume_takes_the_next_step(job: Job, reply: Reply, now: Timestamp, r: Step)
    requires
        call_ensures(Job::resume, (job, reply, now), r),
    ensures
        r.deep_view() == resumed(job.deep_view(), reply.deep_view(), now@),
{
}

/// Every operation can be begun, but for a sweep whose cutoff lies before the
/// calendar starts or after it ends.
pub proof fn law_only_a_far_sweep_cannot_begin(op: StoreOp, now: Timestamp, r: bool)
    requires
        call_ensures(StoreOp::can_begin, (&op, now), r),
    ensures
        !(op is DeleteStaleDevices) ==> r,
        op matches StoreOp::DeleteStaleDevices { days } ==> now@.on_clock() ==> (r
            <==> -8334601228800 <= now@.secs - days * 86400 <= 8210266876799),
{
}

/// Every operation can go on, but for a track whose cutoff lies before the calendar
/// starts or after it ends.
pub proof fn law_only_a_far_track_cannot_go_on(job: Job, reply: Reply, now: Timestamp, r: bool)
    requires
        call_ensures(Job::can_resume, (&job, &reply, now), r),
    ensures
        !(job is TrackFound) ==> r,
        reply != Reply::Found(true) ==> r,
        job matches Job::TrackFound { id, days } ==> now@.on_clock() && reply == Reply::Found(true)
            ==> (r <==> -8334601228800 <= now@.secs - days * 86400 <= 8210266876799),
{
}

/// At what the clock shows every operation is begun with its first step, but for a
/// sweep over more days than the calendar has.
pub proof fn law_start_begins_at_the_clock(op: StoreOp, r: Option<Step>)
    requires
        call_ensures(StoreOp::start, (op,), r),
    ensures
        !(op is DeleteStaleDevices) ==> r is Some,
        op matches StoreOp::DeleteStaleDevices { days } ==> 0 <= days <= 36500 ==> r is Some,
        r matches Some(step) ==> exists|now: Moment| #[trigger]
            now.on_clock() && step.deep_view() == begun(op.deep_view(), now),
{
}

/// At what the clock shows every operation goes on with its next step, but for a
/// track over more days than the calendar has.
pub proof fn law_proceed_goes_on_at_the_clock(job: Job, reply: Reply, r: Option<Step>)
    requires
        call_ensures(Job::proceed, (job, reply), r),
    ensures
        !(job is TrackFound) ==> r is Some,
        job matches Job::TrackFound { id, days } ==> 0 <= days <= 36500 ==> r is Some,
        r matches Some(step) ==> exists|now: Moment| #[trigger]
            now.on_clock() && step.deep_view() == resumed(
                job.deep_view(),
                reply.deep_view(),
                now,
            ),
{
}

/// A registration without an identifier gets a random one, and is else handed on as
/// it came.
pub proof fn law_register_device_hands_on_the_registration(
    payload: RegisterDeviceRequest,
    r: Result<StoreOp, ApiError>,
)
    requires
        call_ensures(register_device, (payload,), r),
    ensures
        r is Ok <==> 1 <= trimmed(payload.name@).len() <= 64,
        r matches Ok(op) ==> (op matches StoreOp::UpsertDevice { id, name, platform } && {
            &&& name@ == trimmed(payload.name@)
            &&& platform is Some <==> payload.platform is Some
            &&& platform is Some ==> platform->0@ == payload.platform->0@
            &&& payload.id matches Some(brought) ==> id == brought
            &&& payload.id is None ==> is_random_id(id)
        }),
        r matches Err(e) ==> e.status == 400 && e.message@ == "device name must be 1-64 characters"@,
{
    let fresh = choose|fresh: u128| #[trigger]
        is_random_id(fresh) && asks(r, registered(payload, fresh));
    law_registration_carries_the_request(payload, fresh);
}

/// A report is handed on as it came, received at what the clock shows, and captured
/// when it says or else at what the clock shows.
pub proof fn law_update_location_hands_on_the_report(
    id: u128,
    payload: LocationRequest,
    r: Result<StoreOp, ApiError>,
)
    requires
        call_ensures(update_location, (id, payload), r),
    ensures
        r is Ok <==> payload.reading.latitude % 0x8000_0000_0000_0000 <= 0x4056_8000_0000_0000
            && payload.reading.longitude % 0x8000_0000_0000_0000 <= 0x4066_8000_0000_0000,
        r matches Ok(op) ==> (op matches StoreOp::InsertLocation { id: same, location } && {
            &&& same == id
            &&& location.id is None
            &&& location.reading == payload.reading
            &&& location.received_at@.on_clock()
            &&& payload.captured_at matches Some(at) ==> location.captured_at@ == at@
            &&& payload.captured_at is None ==> location.captured_at@.on_clock()
        }),
        r matches Err(e) ==> e.status == 400 && e.message@ == "invalid coordinates"@,
{
    let (captured, received) = choose|captured: Moment, received: Moment|
        #![trigger captured.on_clock(), received.on_clock()]
        captured.on_clock() && received.on_clock() && asks(
            r,
            reported(id, payload, captured, received),
        );
    law_report_carries_the_request(id, payload, captured, received);
    law_ranges_end_at_their_limits(payload.reading.latitude);
    law_ranges_end_at_their_limits(payload.reading.longitude);
}

/// A row of the locations becomes the location that it holds.
pub proof fn law_row_becomes_its_location(row: LocationRow, r: Result<Location, String>)
    requires
        call_ensures(row_to_location, (&row,), r),
    ensures
        match (r, place_in(row.deep_view())) {
            (Ok(read), Ok(named)) => {
                read.deep_view() == named && read.reading == row.reading && read.id == Some(row.id)
            },
            (Err(e), Err(named)) => e@ == named,
            _ => false,
        },
{
}

/// A row of the devices becomes the device that it holds.
pub proof fn law_row_becomes_its_device(row: DeviceRow, r: Result<Device, String>)
    requires
        call_ensures(row_to_device, (&row,), r),
    ensures
        match (r, profile_in(row.deep_view())) {
            (Ok(read), Ok(named)) => read.deep_view() == named && read.name@ == row.name@,
            (Err(e), Err(named)) => e@ == named,
            _ => false,
        },
{
}

/// A row of the admin list becomes the entry that it holds.
pub proof fn law_row_becomes_its_entry(row: AdminDeviceRow, r: Result<AdminDevice, String>)
    requires
        call_ensures(row_to_admin_device, (&row,), r),
    ensures
        match (r, admin_profile_in(row.deep_view())) {
            (Ok(read), Ok(named)) => {
                read.deep_view() == named && read.location_count == row.location_count
            },
            (Err(e), Err(named)) => e@ == named,
            _ => false,
        },
{
}

/// The rows become the devices that they hold, all of them and in their order, or
/// the first failure on the way.
pub proof fn law_rows_become_their_devices(
    rows: Vec<DeviceRow>,
    failure: Option<String>,
    r: Result<Vec<Device>, String>,
)
    requires
        call_ensures(rows_to_devices, (&rows, &failure), r),
    ensures
        match (
            r,
            all_in(rows.deep_view(), |row: ProfileRow| profile_in(row), failure.deep_view()),
        ) {
            (Ok(read), Ok(named)) => read.deep_view() == named,
            (Err(e), Err(named)) => e@ == named,
            _ => false,
        },
{
}

/// The rows become the locations that they hold, all of them and in their order, or
/// the first failure on the way.
pub proof fn law_rows_become_their_locations(
    rows: Vec<LocationRow>,
    failure: Option<String>,
    r: Result<Vec<Location>, String>,
)
    requires
        call_ensures(rows_to_locations, (&rows, &failure), r),
    ensures
        match (
            r,
            all_in(rows.deep_view(), |row: PlaceRow| place_in(row), failure.deep_view()),
        ) {
            (Ok(read), Ok(named)) => read.deep_view() == named,
            (Err(e), Err(named)) => e@ == named,
            _ => false,
        },
{
}

/// The rows become the entries that they hold, all of them and in their order, or
/// the first failure on the way.
pub proof fn law_rows_become_their_entries(
    rows: Vec<AdminDeviceRow>,
    failure: Option<String>,
    r: Result<Vec<AdminDevice>, String>,
)
    requires
        call_ensures(rows_to_admin_devices, (&rows, &failure), r),
    ensures
        match (
            r,
            all_in(rows.deep_view(), |row: AdminProfileRow| admin_profile_in(row), failure.deep_view()),
        ) {
            (Ok(read), Ok(named)) => read.deep_view() == named,
            (Err(e), Err(named)) => e@ == named,
            _ => false,
        },
{
}

/// A device has the row that is stated for it.
pub proof fn law_row_that_is_rendered(
    state: AppState,
    entry: AdminDevice,
    lang: AdminLang,
    r: String,
)
    requires
        call_ensures(render_admin_device_row, (&state, &entry, lang), r),
    ensures
        r@ == device_row(state.admin_path@, entry.deep_view(), lang),
{
}

/// The admin page is the one that is stated for the devices, the setting and the
/// message.
pub proof fn law_page_that_is_rendered(
    state: AppState,
    entries: &[AdminDevice],
    days: Option<i64>,
    message: Option<&str>,
    lang: AdminLang,
    r: String,
)
    requires
        call_ensures(render_admin_page, (&state, entries, days, message, lang), r),
    ensures
        r@ == admin_page(
            state.admin_path@,
            entries.deep_view(),
            days,
            message.deep_view(),
            lang,
        ),
{
}

/// The page that asks for the password is the one that is stated for the error.
pub proof fn law_login_page_that_is_rendered(
    state: AppState,
    error: Option<&str>,
    lang: AdminLang,
    r: String,
)
    requires
        call_ensures(render_login_page, (&state, error, lang), r),
    ensures
        r@ == login_page(state.admin_path@, error.deep_view(), lang),
{
}

/// The hidden field of a form holds the code of its language.
pub proof fn law_hidden_field_holds_the_code(lang: AdminLang, r: String)
    requires
        call_ensures(hidden_lang_input, (lang,), r),
    ensures
        r@ == "<input type=\"hidden\" name=\"lang\" value=\""@ + lang.code()@ + "\">"@,
{
}

/// An address is the one that is stated for the path and the suffix.
pub proof fn law_address_that_is_made(state: AppState, suffix: &str, r: String)
    requires
        call_ensures(admin_url, (&state, suffix), r),
    ensures
        r@ == url_of(state.admin_path@, suffix@),
{
}

/// The address that leads back with a notice carries its code, its count and its
/// language.
pub proof fn law_notice_address_that_is_made(
    state: AppState,
    lang: AdminLang,
    code: &str,
    count: Option<usize>,
    r: String,
)
    requires
        call_ensures(admin_notice_url, (&state, lang, code, count), r),
    ensures
        r@ == url_of(state.admin_path@, notice_query(lang, code@, count)),
{
}

/// The notice on a page is the one that is stated for its query.
pub proof fn law_notice_that_is_shown(query: AdminQuery, lang: AdminLang, r: Option<String>)
    requires
        call_ensures(admin_notice, (&query, lang), r),
    ensures
        r.deep_view() == notice_of(query@, lang),
{
}

/// The cookie of a login brings the session, and that of a logout takes it away.
pub proof fn law_cookies_that_are_set(state: AppState, set: String, unset: String)
    requires
        call_ensures(session_cookie, (&state,), set),
        call_ensures(expired_cookie, (&state,), unset),
    ensures
        set@ == login_cookie(state.admin_session@, state.admin_path@),
        unset@ == logout_cookie(state.admin_path@),
{
}

/// A cookie has the value that stands behind its name.
pub proof fn law_cookie_that_is_found(cookies: &str, name: &str, r: Option<String>)
    requires
        call_ensures(cookie_value, (cookies, name), r),
    ensures
        r.deep_view() == cookie_of(cookies@, name@),
{
}

/// An admin is whoever brings the session; anyone else has to log in.
pub proof fn law_admin_is_who_brings_the_session(
    state: AppState,
    cookies: Option<&[u8]>,
    admin: bool,
    r: Result<(), ApiError>,
)
    requires
        call_ensures(is_admin_authenticated, (&state, cookies), admin),
        call_ensures(require_admin, (&state, cookies), r),
    ensures
        admin <==> is_admin(state.admin_session@, text_in(cookies)),
        r is Ok <==> is_admin(state.admin_session@, text_in(cookies)),
        r matches Err(e) ==> e.status == 401 && e.message@ == "admin login required"@,
{
}

/// A request is let in exactly where it brings the token.
pub proof fn law_token_lets_in(
    token: &str,
    authorization: Option<&[u8]>,
    custom: Option<&[u8]>,
    r: Result<(), ApiError>,
)
    requires
        call_ensures(auth, (token, authorization, custom), r),
    ensures
        r is Ok <==> provided_token(text_in(authorization), text_in(custom)) == Some(token@),
        r matches Err(e) ==> e.status == 401 && e.message@ == "invalid token"@,
{
}

/// A header has the text that its bytes spell.
pub proof fn law_header_that_is_read(value: Option<&[u8]>, r: Option<String>)
    requires
        call_ensures(header_text, (value,), r),
    ensures
        r.deep_view() == text_in(value),
{
}

/// A name is refused exactly where it is too short or too long.
pub proof fn law_names_are_refused_by_length(name: &str, r: Result<(), ApiError>)
    requires
        call_ensures(validate_name, (name,), r),
    ensures
        r is Ok <==> 1 <= trimmed(name@).len() <= 64,
        r matches Err(e) ==> e.status == 400 && e.message@ == "device name must be 1-64 characters"@,
{
}

/// A number of days is handed back as it came, or refused where it is too small or
/// too large.
pub proof fn law_days_are_refused_by_size(days: i64, r: Result<i64, ApiError>)
    requires
        call_ensures(validate_days, (days,), r),
    ensures
        r is Ok <==> 1 <= days <= 36500,
        r matches Ok(same) ==> same == days,
        r matches Err(e) ==> e.status == 400 && e.message@ == "days must be between 1 and 36500"@,
{
}

/// A report is refused exactly where its place is not on the globe.
pub proof fn law_reports_are_refused_by_place(payload: LocationRequest, r: Result<(), ApiError>)
    requires
        call_ensures(validate_location, (&payload,), r),
    ensures
        r is Ok <==> payload.reading.latitude % 0x8000_0000_0000_0000 <= 0x4056_8000_0000_0000
            && payload.reading.longitude % 0x8000_0000_0000_0000 <= 0x4066_8000_0000_0000,
        r matches Err(e) ==> e.status == 400 && e.message@ == "invalid coordinates"@,
{
    law_ranges_end_at_their_limits(payload.reading.latitude);
    law_ranges_end_at_their_limits(payload.reading.longitude);
}

/// A latitude lies within 90 degrees and a longitude within 180, to either side.
pub proof fn law_degrees_that_are_accepted(bits: u64, latitude: bool, longitude: bool)
    requires
        call_ensures(is_latitude, (bits,), latitude),
        call_ensures(is_longitude, (bits,), longitude),
    ensures
        latitude <==> bits % 0x8000_0000_0000_0000 <= 0x4056_8000_0000_0000,
        longitude <==> bits % 0x8000_0000_0000_0000 <= 0x4066_8000_0000_0000,
{
    law_ranges_end_at_their_limits(bits);
}

/// A refusal is made with its status and its message, which is what is told.
pub proof fn law_refusals_that_are_made(
    message: &str,
    unknown: ApiError,
    wrong: ApiError,
    missing: ApiError,
    failed: ApiError,
    told: ErrorResponse,
)
    requires
        call_ensures(ApiError::unauthorized, (message,), unknown),
        call_ensures(ApiError::bad_request, (message,), wrong),
        call_ensures(ApiError::not_found, (message,), missing),
        call_ensures(ApiError::internal, (message,), failed),
        call_ensures(ErrorResponse::new, (message,), told),
    ensures
        unknown.status == 401 && unknown.message@ == message@,
        wrong.status == 400 && wrong.message@ == message@,
        missing.status == 404 && missing.message@ == message@,
        failed.status == 500 && failed.message@ == message@,
        told.error@ == message@,
{
}

/// The settings of the map are what was set, each in its place.
pub proof fn law_map_settings_are_what_was_set(
    web: Option<&str>,
    code: Option<&str>,
    android: Option<&str>,
    ios: Option<&str>,
    r: MapConfig,
)
    requires
        call_ensures(MapConfig::from_env, (web, code, android, ios), r),
    ensures
        r.provider@ == "amap"@,
        r.amap_web_js_api_key.deep_view() == given(web.deep_view()),
        r.amap_web_js_security_code.deep_view() == given(code.deep_view()),
        r.amap_android_key.deep_view() == given(android.deep_view()),
        r.amap_ios_key.deep_view() == given(ios.deep_view()),
{
}

/// A setting that may be left out is what was set.
pub proof fn law_optional_setting_is_what_was_set(value: Option<&str>, r: Option<String>)
    requires
        call_ensures(read_optional_env, (value,), r),
    ensures
        r.deep_view() == given(value.deep_view()),
{
}

/// The admin path is the one that is stated for the setting.
pub proof fn law_admin_path_that_is_taken(path: &str, r: Result<String, SettingError>)
    requires
        call_ensures(normalize_admin_path, (path,), r),
    ensures
        match (r, admin_path_of(path@)) {
            (Ok(read), Ok(named)) => read@ == named,
            (Err(e), Err(named)) => e == named,
            _ => false,
        },
{
}

/// The origins are those that are stated for the setting.
pub proof fn law_origins_that_are_taken(setting: &str, r: Result<CorsOrigins, SettingError>)
    requires
        call_ensures(cors_origins, (setting,), r),
    ensures
        match (r, origins_of(setting@)) {
            (Ok(read), Ok(named)) => read.deep_view() == named,
            (Err(e), Err(named)) => e == named,
            _ => false,
        },
{
}

/// The rules for other origins are those that are stated for the setting.
pub proof fn law_rules_that_are_taken(setting: &str, r: Result<CorsPolicy, SettingError>)
    requires
        call_ensures(cors_layer, (setting,), r),
    ensures
        match (r, cors_rules_of(setting@)) {
            (Ok(read), Ok(named)) => read.deep_view() == named,
            (Err(e), Err(named)) => e == named,
            _ => false,
        },
{
}

/// A setting that cannot be used has its message.
pub proof fn law_messages_about_settings(r: [&'static str; 4])
    requires
        call_ensures(SettingError::message, (SettingError::InvalidAdminPath,), r@[0]),
        call_ensures(SettingError::message, (SettingError::ReservedAdminPath,), r@[1]),
        call_ensures(SettingError::message, (SettingError::InvalidOrigin,), r@[2]),
        call_ensures(SettingError::message, (SettingError::InvalidLogPath,), r@[3]),
    ensures
        r@[0]@ == "invalid GUIDENG_ADMIN_PATH"@,
        r@[1]@ == "GUIDENG_ADMIN_PATH conflicts with a reserved route"@,
        r@[2]@ == "failed to parse header value"@,
        r@[3]@ == "invalid GUIDENG_LOG_PATH"@,
{
}

/// The log goes where it is configured to go; where nothing is configured, to the
/// directory of the server, which the working directory is or holds, and else to
/// the working directory.
pub proof fn law_log_goes_where_it_should(
    configured: Option<&str>,
    working: Option<&str>,
    has_server: bool,
    r: LogFile,
)
    requires
        call_ensures(default_log_path, (configured, working, has_server), r),
    ensures
        given(configured.deep_view()) matches Some(path) ==> (r matches LogFile::Named(text) && text@
            == path),
        given(configured.deep_view()) is None ==> {
            &&& r is InServerDirectory <==> has_server && working.deep_view() != Some("server"@)
            &&& r is InWorkingDirectory || r is InServerDirectory
        },
{
}

/// The log has the name of its file, if its path has a directory and a name.
pub proof fn law_log_has_its_name(
    has_directory: bool,
    name: Option<&str>,
    r: Result<String, SettingError>,
)
    requires
        call_ensures(log_file_name, (has_directory, name), r),
    ensures
        r is Ok <==> has_directory && name is Some,
        r matches Ok(text) ==> name.deep_view() == Some(text@),
        r matches Err(e) ==> e is InvalidLogPath,
{
}

/// A token or a password that is configured is taken; else one is generated, of
/// 128 characters.
pub proof fn law_secrets_are_configured_or_generated(
    value: Option<&str>,
    token: String,
    password: String,
)
    requires
        call_ensures(load_or_generate_token, (value,), token),
        call_ensures(load_or_generate_admin_password, (value,), password),
    ensures
        given(value.deep_view()) matches Some(text) ==> token@ == text && password@ == text,
        given(value.deep_view()) is None ==> token@.len() == 128 && password@.len() == 128,
        given(value.deep_view()) is None ==> forall|i: int|
            0 <= i < 128 ==> TOKEN_CHARS@.contains(#[trigger] token@[i]),
        given(value.deep_view()) is None ==> forall|i: int|
            0 <= i < 128 ==> TOKEN_CHARS@.contains(#[trigger] password@[i]),
{
}

/// A generated token has 128 characters of the alphabet, and the secret of the
/// sessions 64.
pub proof fn law_secrets_that_are_generated(token: String, session: String)
    requires
        call_ensures(generate_token, (), token),
        call_ensures(generate_session_secret, (), session),
    ensures
        token@.len() == 128,
        session@.len() == 64,
        forall|i: int| 0 <= i < token@.len() ==> TOKEN_CHARS@.contains(#[trigger] token@[i]),
{
}

/// A token is spelled from the places that were drawn.
pub proof fn law_tokens_are_spelled(places: Vec<usize>, r: String)
    requires
        call_ensures(spell_token, (&places,), r),
    ensures
        r@ == spelled(places@),
{
}

/// A text is taken without the white space at its ends.
pub proof fn law_text_that_is_trimmed(s: &str, r: String)
    requires
        call_ensures(trim, (s,), r),
    ensures
        r@ == trimmed(s@),
{
}

/// A text is split into its pieces.
pub proof fn law_text_that_is_split(s: &str, sep: char, r: Vec<String>)
    requires
        call_ensures(split, (s, sep), r),
    ensures
        r.deep_view() == pieces(s@, sep),
{
}

/// A text is parted where the separator stands first.
pub proof fn law_text_that_is_parted(s: &str, sep: char, r: Option<(String, String)>)
    requires
        call_ensures(split_once, (s, sep), r),
    ensures
        r.deep_view() == parted(s@, sep),
{
}

/// What follows a prefix is left of a text that begins with it.
pub proof fn law_prefix_that_is_taken_off(s: &str, prefix: &str, r: Option<String>)
    requires
        call_ensures(strip_prefix, (s, prefix), r),
    ensures
        r is Some <==> begins_with(s@, prefix@),
        r matches Some(text) ==> s@ == prefix@ + text@,
{
    if r is Some {
        assert(s@ =~= s@.take(prefix@.len() as int) + s@.skip(prefix@.len() as int));
    }
}

/// Two texts are the same where they hold the same characters.
pub proof fn law_texts_that_are_the_same(a: &str, b: &str, r: bool)
    requires
        call_ensures(same_text, (a, b), r),
    ensures
        r <==> a@ == b@,
{
}

/// A text stands in HTML as it is stated.
pub proof fn law_text_that_is_escaped(value: &str, r: String)
    requires
        call_ensures(escape_html, (value,), r),
    ensures
        r@ == escaped(value@),
{
}

/// Numbers are written in decimal.
pub proof fn law_numbers_that_are_written(n: u64, i: i64, unsigned: String, signed: String)
    requires
        call_ensures(unsigned_text, (n,), unsigned),
        call_ensures(signed_text, (i,), signed),
    ensures
        unsigned@ == decimal(n as nat),
        signed@ == signed_decimal(i as int),
{
}

/// A number is read from its text, where the text is that of one.
pub proof fn law_numbers_that_are_read(s: &str, r: Option<i64>)
    requires
        call_ensures(parse_integer, (s,), r),
    ensures
        r is Some <==> parsed_integer(s@) is Some,
        r matches Some(value) ==> parsed_integer(s@) == Some(value as int),
{
}

/// Bytes are written as their digits.
pub proof fn law_bytes_that_are_written(bytes: &[u8], r: String)
    requires
        call_ensures(hex_text, (bytes,), r),
    ensures
        r@ == hex(bytes@),
{
}

/// A moment is made exactly where the calendar has it.
pub proof fn law_moments_that_are_made(secs: i64, nanos: u32, r: Option<Timestamp>)
    requires
        call_ensures(Timestamp::new, (secs, nanos), r),
    ensures
        r is Some <==> -8334601228800 <= secs <= 8210266876799 && (nanos < 1_000_000_000 || (nanos
            < 2_000_000_000 && secs % 60 == 59)),
        r matches Some(at) ==> at@.secs == secs && at@.nanos == nanos,
{
}

/// A moment tells its seconds and its nanoseconds.
pub proof fn law_moments_tell_their_parts(at: Timestamp, secs: i64, nanos: u32)
    requires
        call_ensures(Timestamp::secs, (at,), secs),
        call_ensures(Timestamp::nanos, (at,), nanos),
    ensures
        at@.secs == secs,
        at@.nanos == nanos,
{
}

/// The clock shows a moment in or after 1970.
pub proof fn law_clock_shows_a_moment(r: Timestamp)
    requires
        call_ensures(Timestamp::now, (), r),
    ensures
        0 <= r@.secs <= 8210266876799,
        0 <= r@.nanos < 1_000_000_000,
{
}

/// Days are counted back from a moment in seconds.
pub proof fn law_days_that_are_counted_back(
    at: Timestamp,
    days: i64,
    earlier: Timestamp,
    there: bool,
)
    requires
        call_ensures(Timestamp::days_earlier, (at, days), earlier),
        call_ensures(Timestamp::has_days_before, (at, days), there),
    ensures
        earlier@.secs == at@.secs - days * 86400,
        earlier@.nanos == at@.nanos,
        at@.on_clock() ==> (there <==> -8334601228800 <= at@.secs - days * 86400 <= 8210266876799),
{
}

/// A moment is written with its text, and one of the years 0 to 9999 is read back
/// from it.
pub proof fn law_moments_that_are_written(at: Timestamp, r: String)
    requires
        call_ensures(time_to_text, (at,), r),
    ensures
        r@ == rfc3339(at@.secs, at@.nanos),
        -62167219200 <= at@.secs <= 253402300799 ==> rfc3339_read(r@) == Ok::<(int, int), Seq<char>>(
            (at@.secs, at@.nanos),
        ),
{
}

/// A moment is read as its text is read outside.
pub proof fn law_moments_that_are_read(value: &str, r: Result<Timestamp, String>)
    requires
        call_ensures(text_to_time, (value,), r),
    ensures
        match (r, rfc3339_read(value@)) {
            (Ok(read), Ok(named)) => read@.secs == named.0 && read@.nanos == named.1,
            (Err(e), Err(named)) => e@ == named,
            _ => false,
        },
{
}

/// An identifier is written with its text and read back from it.
pub proof fn law_identifiers_that_are_written(id: u128, r: String)
    requires
        call_ensures(id_to_text, (id,), r),
    ensures
        r@ == id_text(id),
        uuid_read(r@) == Ok::<u128, Seq<char>>(id),
{
}

/// An identifier is read as its text is read outside.
pub proof fn law_identifiers_that_are_read(text: &str, r: Result<u128, String>)
    requires
        call_ensures(text_to_id, (text,), r),
    ensures
        match (r, uuid_read(text@)) {
            (Ok(read), Ok(named)) => read == named,
            (Err(e), Err(named)) => e@ == named,
            _ => false,
        },
{
}

/// A fresh identifier has the version and the variant of a random one.
pub proof fn law_identifiers_that_are_drawn(r: u128)
    requires
        call_ensures(new_device_id, (), r),
    ensures
        r as int / 0x1000_0000_0000_0000_0000 % 16 == 4,
        r as int / 0x4000_0000_0000_0000 % 4 == 2,
{
}

/// The language is the one that is stated for the code.
pub proof fn law_language_that_is_asked_for(code: Option<&str>, r: AdminLang)
    requires
        call_ensures(AdminLang::from_option, (code,), r),
    ensures
        r == lang_of(code.deep_view()),
{
}

/// The status and the headings are those that are stated for the language.
pub proof fn law_labels_that_are_shown(
    lang: AdminLang,
    days: Option<i64>,
    status: String,
    headers: [&'static str; 7],
)
    requires
        call_ensures(AdminLang::auto_status, (lang, days), status),
        call_ensures(AdminLang::table_headers, (lang,), headers),
    ensures
        status@ == status_text(lang, days),
        headers@.map_values(|heading: &'static str| heading@) == headings(lang),
{
}

/// A server that runs says so, under its name.
pub proof fn law_health_is_told(r: Health)
    requires
        call_ensures(health, (), r),
    ensures
        r.ok,
        r.name@ == "guideng"@,
{
}

/// The page of the devices is shown to an admin, and anyone else is led to the page
/// that asks for the password.
pub proof fn law_index_that_is_answered(
    state: AppState,
    cookies: Option<&[u8]>,
    query: AdminQuery,
    r: AdminStep,
)
    requires
        call_ensures(admin_index, (&state, cookies, query), r),
    ensures
        r.deep_view() == index_begun(state@, text_in(cookies), query@),
{
}

/// The page that asks for the password comes in the language that was asked for.
pub proof fn law_login_page_that_is_answered(state: AppState, query: AdminQuery, r: WebAnswer)
    requires
        call_ensures(admin_login_page, (&state, query), r),
    ensures
        r.deep_view() == (Shown::Page {
            status: 200,
            html: login_page(state.admin_path@, None, lang_of(query.lang.deep_view())),
        }),
{
}

/// A login is answered by its password and in its language.
pub proof fn law_login_that_is_answered(state: AppState, form: AdminLoginForm, r: WebAnswer)
    requires
        call_ensures(admin_login, (&state, form), r),
    ensures
        r.deep_view() == login_answer(state@, form.password@, lang_of(form.lang.deep_view())),
{
}

/// A logout takes the session away and leads to the page that asks for the
/// password.
pub proof fn law_logout_that_is_answered(state: AppState, form: LangForm, r: WebAnswer)
    requires
        call_ensures(admin_logout, (&state, form), r),
    ensures
        r.deep_view() == to_login(
            state@,
            lang_of(form.lang.deep_view()),
            Some(logout_cookie(state.admin_path@)),
        ),
{
}

/// A request of an admin goes on from what the database came to.
pub proof fn law_request_that_goes_on(
    state: AppState,
    job: AdminJob,
    result: Result<Outcome, ApiError>,
    r: AdminStep,
)
    requires
        call_ensures(AdminJob::resume, (job, &state, result), r),
    ensures
        r.deep_view() == admin_resumed(state@, job.deep_view(), ended(result)),
{
}

/// The locations of the device in the address go, if an admin asks for it.
pub proof fn law_locations_that_are_to_go(
    state: AppState,
    cookies: Option<&[u8]>,
    id: u128,
    form: LangForm,
    r: AdminStep,
)
    requires
        call_ensures(admin_delete_locations, (&state, cookies, id, form), r),
    ensures
        r.deep_view() == clearing(state@, text_in(cookies), id, lang_of(form.lang.deep_view())),
{
}

/// The device in the address goes, if an admin asks for it.
pub proof fn law_device_that_is_to_go(
    state: AppState,
    cookies: Option<&[u8]>,
    id: u128,
    form: LangForm,
    r: AdminStep,
)
    requires
        call_ensures(admin_delete_device, (&state, cookies, id, form), r),
    ensures
        r.deep_view() == deleting(state@, text_in(cookies), id, lang_of(form.lang.deep_view())),
{
}

/// A sweep is over the days in the form, if an admin asks for it.
pub proof fn law_sweep_that_is_asked_for(
    state: AppState,
    cookies: Option<&[u8]>,
    form: DaysForm,
    r: AdminStep,
)
    requires
        call_ensures(admin_delete_stale, (&state, cookies, form), r),
    ensures
        r.deep_view() == sweeping_stale(
            state@,
            text_in(cookies),
            form.days,
            lang_of(form.lang.deep_view()),
        ),
{
}

/// The setting becomes the days in the form, if an admin asks for it.
pub proof fn law_setting_that_is_saved(
    state: AppState,
    cookies: Option<&[u8]>,
    form: AutoCleanupForm,
    r: AdminStep,
)
    requires
        call_ensures(admin_set_auto_cleanup, (&state, cookies, form), r),
    ensures
        r.deep_view() == setting_cleanup(
            state@,
            text_in(cookies),
            form.days,
            lang_of(form.lang.deep_view()),
        ),
{
}

} // verus!
