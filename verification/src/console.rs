//! What the requests to the admin pages ask of the database, and how they are
//! answered.

use vstd::prelude::*;

use crate::admin::{
    admin_notice, admin_notice_url, admin_url, expired_cookie, is_admin, is_admin_authenticated,
    law_addresses_are_path_and_suffix, law_cookies_are_word_for_word,
    law_login_is_remembered_until_logout, login_cookie, logout_cookie, notice_of, notice_query,
    require_admin, sent_back, session_cookie, url_of, AdminQuery, AppState, Asked, Setup,
};
use crate::api::{
    bad_request, internal, is_days, not_found, unauthorized, validate_days, ApiError, Refusal,
};
use crate::clock::Moment;
use crate::decimal::signed_decimal;
use crate::device_id::id_text;
use crate::header::text_in;
use crate::lang::{lang_of, AdminLang};
use crate::pages::{admin_page, login_page, render_admin_page, render_login_page};
use crate::records::{AdminDevice, AdminProfile, AdminProfileRow};
use crate::requests::UNEXPECTED_OUTCOME;
use crate::secret::is_session_secret;
use crate::store::{
    begun, days_in, ended, Answer, Finding, Operation, Outcome, StoreOp, AUTO_CLEANUP_DAYS_KEY,
    DEVICE_NOT_FOUND,
};
use crate::tables::{
    admin_shown, are_admin_rows, law_admin_devices_are_listed, law_delete_device,
    law_delete_locations, law_lists_succeed, law_sweep, none_failed, runs, Database, Tables,
};
use crate::text::same_text;

verus! {

/// What the form of the login holds.
#[derive(Debug)]
pub struct AdminLoginForm {
    pub password: String,
    pub lang: Option<String>,
}

/// What the form of the sweep holds.
#[derive(Debug)]
pub struct DaysForm {
    pub days: i64,
    pub lang: Option<String>,
}

/// What the form of the setting holds.
#[derive(Debug)]
pub struct AutoCleanupForm {
    pub days: Option<i64>,
    pub lang: Option<String>,
}

/// What a form with a button alone holds.
#[derive(Debug)]
pub struct LangForm {
    pub lang: Option<String>,
}

/// What a browser gets.
pub enum Shown {
    Page { status: int, html: Seq<char> },
    Redirect { to: Seq<char>, cookie: Option<Seq<char>> },
}

/// An answer to a browser.
#[derive(Debug)]
pub enum WebAnswer {
    /// A page, with the HTTP status that it is sent with.
    Page { status: u16, html: String },
    /// The address to go on to, with the cookie to set, if one is to be set.
    Redirect { to: String, cookie: Option<String> },
}

impl DeepView for WebAnswer {
    type V = Shown;

    open spec fn deep_view(&self) -> Shown {
        match *self {
            WebAnswer::Page { status, html } => Shown::Page { status: status as int, html: html@ },
            WebAnswer::Redirect { to, cookie } => Shown::Redirect {
                to: to@,
                cookie: cookie.deep_view(),
            },
        }
    }
}

/// What a request to the admin pages waits for.
pub enum AdminWaiting {
    Listed { notice: Option<Seq<char>>, lang: AdminLang },
    Configured { devices: Seq<AdminProfile>, notice: Option<Seq<char>>, lang: AdminLang },
    LocationsDeleted { lang: AdminLang },
    DeviceDeleted { lang: AdminLang },
    StaleDeleted { lang: AdminLang },
    CleanupSet { days: Option<i64>, lang: AdminLang },
    CleanupSwept { lang: AdminLang },
}

/// A request to the admin pages that waits for an operation.
#[derive(Debug)]
pub enum AdminJob {
    /// For the devices of the page.
    Listed { notice: Option<String>, lang: AdminLang },
    /// For the setting that the page shows.
    Configured { devices: Vec<AdminDevice>, notice: Option<String>, lang: AdminLang },
    /// For the locations of a device to be deleted.
    LocationsDeleted { lang: AdminLang },
    /// For a device to be deleted.
    DeviceDeleted { lang: AdminLang },
    /// For the sweep.
    StaleDeleted { lang: AdminLang },
    /// For the setting to be changed.
    CleanupSet { days: Option<i64>, lang: AdminLang },
    /// For the sweep that follows the change of the setting.
    CleanupSwept { lang: AdminLang },
}

impl DeepView for AdminJob {
    type V = AdminWaiting;

    open spec fn deep_view(&self) -> AdminWaiting {
        match *self {
            AdminJob::Listed { notice, lang } => AdminWaiting::Listed {
                notice: notice.deep_view(),
                lang,
            },
            AdminJob::Configured { devices, notice, lang } => AdminWaiting::Configured {
                devices: devices.deep_view(),
                notice: notice.deep_view(),
                lang,
            },
            AdminJob::LocationsDeleted { lang } => AdminWaiting::LocationsDeleted { lang },
            AdminJob::DeviceDeleted { lang } => AdminWaiting::DeviceDeleted { lang },
            AdminJob::StaleDeleted { lang } => AdminWaiting::StaleDeleted { lang },
            AdminJob::CleanupSet { days, lang } => AdminWaiting::CleanupSet { days, lang },
            AdminJob::CleanupSwept { lang } => AdminWaiting::CleanupSwept { lang },
        }
    }
}

/// How far a request to the admin pages has come.
pub enum AdminProgress {
    Ask { op: Operation, next: AdminWaiting },
    Done(Result<Shown, Refusal>),
}

/// The next step of a request to the admin pages: an operation, with the job to
/// resume with what it comes to, or the answer.
#[derive(Debug)]
pub enum AdminStep {
    Ask { op: StoreOp, next: AdminJob },
    Done(Result<WebAnswer, ApiError>),
}

impl DeepView for AdminStep {
    type V = AdminProgress;

    open spec fn deep_view(&self) -> AdminProgress {
        match *self {
            AdminStep::Ask { op, next } => AdminProgress::Ask {
                op: op.deep_view(),
                next: next.deep_view(),
            },
            AdminStep::Done(Ok(answer)) => AdminProgress::Done(Ok(answer.deep_view())),
            AdminStep::Done(Err(e)) => AdminProgress::Done(Err(e@)),
        }
    }
}

/// A redirect to the admin page with a notice.
pub open spec fn noticed(
    setup: Setup,
    lang: AdminLang,
    code: Seq<char>,
    count: Option<usize>,
) -> AdminProgress {
    AdminProgress::Done(
        Ok(
            Shown::Redirect {
                to: url_of(setup.admin_path, notice_query(lang, code, count)),
                cookie: None,
            },
        ),
    )
}

/// The redirect to the page that asks for the password.
pub open spec fn to_login(setup: Setup, lang: AdminLang, cookie: Option<Seq<char>>) -> Shown {
    Shown::Redirect { to: url_of(setup.admin_path, "/login?lang="@ + lang.code()@), cookie }
}

/// What comes of a request that only an admin may make.
pub open spec fn for_admin(
    setup: Setup,
    cookies: Option<Seq<char>>,
    progress: AdminProgress,
) -> AdminProgress {
    if is_admin(setup.admin_session, cookies) {
        progress
    } else {
        AdminProgress::Done(Err(unauthorized("admin login required"@)))
    }
}

/// The first step towards the admin page: without a session, the way to the
/// login.
pub open spec fn index_begun(setup: Setup, cookies: Option<Seq<char>>, query: Asked)
    -> AdminProgress {
    let lang = lang_of(query.lang);
    if is_admin(setup.admin_session, cookies) {
        AdminProgress::Ask {
            op: Operation::ListAdminDevices,
            next: AdminWaiting::Listed { notice: notice_of(query, lang), lang },
        }
    } else {
        AdminProgress::Done(Ok(to_login(setup, lang, None)))
    }
}

/// The answer to a login: with the right password the way to the admin page and
/// the session, else the page again.
pub open spec fn login_answer(setup: Setup, password: Seq<char>, lang: AdminLang) -> Shown {
    if password == setup.admin_password {
        Shown::Redirect {
            to: url_of(setup.admin_path, "?lang="@ + lang.code()@),
            cookie: Some(login_cookie(setup.admin_session, setup.admin_path)),
        }
    } else {
        Shown::Page {
            status: 401,
            html: login_page(setup.admin_path, Some(lang.login_error()@), lang),
        }
    }
}

/// The first step of a request to delete the locations of a device.
pub open spec fn clearing(
    setup: Setup,
    cookies: Option<Seq<char>>,
    id: u128,
    lang: AdminLang,
) -> AdminProgress {
    for_admin(
        setup,
        cookies,
        AdminProgress::Ask {
            op: Operation::DeleteDeviceLocations { id },
            next: AdminWaiting::LocationsDeleted { lang },
        },
    )
}

/// The first step of a request to delete a device.
pub open spec fn deleting(
    setup: Setup,
    cookies: Option<Seq<char>>,
    id: u128,
    lang: AdminLang,
) -> AdminProgress {
    for_admin(
        setup,
        cookies,
        AdminProgress::Ask {
            op: Operation::DeleteDevice { id },
            next: AdminWaiting::DeviceDeleted { lang },
        },
    )
}

/// The refusal of a number of days.
pub open spec fn days_refused() -> AdminProgress {
    AdminProgress::Done(Err(bad_request("days must be between 1 and 36500"@)))
}

/// The first step of a request to sweep devices.
pub open spec fn sweeping_stale(
    setup: Setup,
    cookies: Option<Seq<char>>,
    days: i64,
    lang: AdminLang,
) -> AdminProgress {
    for_admin(
        setup,
        cookies,
        if is_days(days as int) {
            AdminProgress::Ask {
                op: Operation::DeleteStaleDevices { days },
                next: AdminWaiting::StaleDeleted { lang },
            }
        } else {
            days_refused()
        },
    )
}

/// The number of days that a form sets: none where the field is empty or holds
/// no positive number.
pub open spec fn days_set(days: Option<i64>) -> Option<i64> {
    match days {
        Some(days) if days > 0 => Some(days),
        _ => None,
    }
}

/// The first step of a request to change the setting.
pub open spec fn setting_cleanup(
    setup: Setup,
    cookies: Option<Seq<char>>,
    days: Option<i64>,
    lang: AdminLang,
) -> AdminProgress {
    for_admin(
        setup,
        cookies,
        if days_set(days) matches Some(days) && !is_days(days as int) {
            days_refused()
        } else {
            AdminProgress::Ask {
                op: Operation::SetAutoCleanupDays { days: days_set(days) },
                next: AdminWaiting::CleanupSet { days: days_set(days), lang },
            }
        },
    )
}

/// The next step of a request to the admin pages.
pub open spec fn admin_resumed(
    setup: Setup,
    job: AdminWaiting,
    result: Result<Finding, Refusal>,
) -> AdminProgress {
    match (job, result) {
        (_, Err(e)) => AdminProgress::Done(Err(e)),
        (
            AdminWaiting::Listed { notice, lang },
            Ok(Finding::AdminDevices(devices)),
        ) => AdminProgress::Ask {
            op: Operation::AutoCleanupDays,
            next: AdminWaiting::Configured { devices, notice, lang },
        },
        (
            AdminWaiting::Configured { devices, notice, lang },
            Ok(Finding::Days(days)),
        ) => AdminProgress::Done(
            Ok(
                Shown::Page {
                    status: 200,
                    html: admin_page(setup.admin_path, devices, days, notice, lang),
                },
            ),
        ),
        (AdminWaiting::LocationsDeleted { lang }, Ok(Finding::Deleted(count))) => noticed(
            setup,
            lang,
            "location_records_deleted"@,
            Some(count as usize),
        ),
        (AdminWaiting::DeviceDeleted { lang }, Ok(Finding::Deleted(_))) => noticed(
            setup,
            lang,
            "device_deleted"@,
            None,
        ),
        (AdminWaiting::StaleDeleted { lang }, Ok(Finding::Deleted(count))) => noticed(
            setup,
            lang,
            "stale_devices_deleted"@,
            Some(count as usize),
        ),
        (AdminWaiting::CleanupSet { days: Some(days), lang }, Ok(Finding::Saved)) => {
            AdminProgress::Ask {
                op: Operation::DeleteStaleDevices { days },
                next: AdminWaiting::CleanupSwept { lang },
            }
        },
        (AdminWaiting::CleanupSet { days: None, lang }, Ok(Finding::Saved)) => noticed(
            setup,
            lang,
            "auto_cleanup_disabled"@,
            None,
        ),
        (AdminWaiting::CleanupSwept { lang }, Ok(Finding::Deleted(count))) => noticed(
            setup,
            lang,
            "auto_cleanup_saved"@,
            Some(count as usize),
        ),
        _ => AdminProgress::Done(Err(internal(UNEXPECTED_OUTCOME@))),
    }
}

fn lang_asked(lang: &Option<String>) -> (r: AdminLang)
    ensures
        r == lang_of(lang.deep_view()),
{
    match lang {
        Some(code) => AdminLang::from_option(Some(code.as_str())),
        None => AdminLang::from_option(None),
    }
}

fn notice_step(state: &AppState, lang: AdminLang, code: &str, count: Option<usize>) -> (r: AdminStep)
    ensures
        r.deep_view() == noticed(state@, lang, code@, count),
{
    AdminStep::Done(
        Ok(
            WebAnswer::Redirect {
                to: admin_notice_url(state, lang, code, count),
                cookie: None,
            },
        ),
    )
}

fn login_redirect(state: &AppState, lang: AdminLang, cookie: Option<String>) -> (r: WebAnswer)
    ensures
        r.deep_view() == to_login(state@, lang, cookie.deep_view()),
{
    WebAnswer::Redirect {
        to: admin_url(state, "/login?lang=".to_owned().concat(lang.code()).as_str()),
        cookie,
    }
}

/// Begins to show the page with the devices and the settings.
pub fn admin_index(state: &AppState, cookies: Option<&[u8]>, query: AdminQuery) -> (r: AdminStep)
    ensures
        r.deep_view() == index_begun(state@, text_in(cookies), query@),
{
    let lang = lang_asked(&query.lang);
    if !is_admin_authenticated(state, cookies) {
        return AdminStep::Done(Ok(login_redirect(state, lang, None)));
    }
    let notice = admin_notice(&query, lang);
    AdminStep::Ask { op: StoreOp::ListAdminDevices, next: AdminJob::Listed { notice, lang } }
}

/// Shows the page that asks for the password.
pub fn admin_login_page(state: &AppState, query: AdminQuery) -> (r: WebAnswer)
    ensures
        r.deep_view() == (Shown::Page {
            status: 200,
            html: login_page(state@.admin_path, None, lang_of(query@.lang)),
        }),
{
    WebAnswer::Page {
        status: 200,
        html: render_login_page(state, None, lang_asked(&query.lang)),
    }
}

/// Logs an admin in.
pub fn admin_login(state: &AppState, payload: AdminLoginForm) -> (r: WebAnswer)
    ensures
        r.deep_view() == login_answer(
            state@,
            payload.password@,
            lang_of(payload.lang.deep_view()),
        ),
{
    let lang = lang_asked(&payload.lang);
    if same_text(payload.password.as_str(), state.admin_password.as_str()) {
        return WebAnswer::Redirect {
            to: admin_url(state, "?lang=".to_owned().concat(lang.code()).as_str()),
            cookie: Some(session_cookie(state)),
        };
    }
    WebAnswer::Page {
        status: 401,
        html: render_login_page(state, Some(lang.login_error()), lang),
    }
}

/// Logs an admin out.
pub fn admin_logout(state: &AppState, payload: LangForm) -> (r: WebAnswer)
    ensures
        r.deep_view() == to_login(
            state@,
            lang_of(payload.lang.deep_view()),
            Some(logout_cookie(state@.admin_path)),
        ),
{
    let lang = lang_asked(&payload.lang);
    login_redirect(state, lang, Some(expired_cookie(state)))
}

/// Begins to delete the locations of a device.
pub fn admin_delete_locations(
    state: &AppState,
    cookies: Option<&[u8]>,
    id: u128,
    payload: LangForm,
) -> (r: AdminStep)
    ensures
        r.deep_view() == clearing(
            state@,
            text_in(cookies),
            id,
            lang_of(payload.lang.deep_view()),
        ),
{
    match require_admin(state, cookies) {
        Ok(_) => {},
        Err(e) => return AdminStep::Done(Err(e)),
    }
    let lang = lang_asked(&payload.lang);
    AdminStep::Ask {
        op: StoreOp::DeleteDeviceLocations { id },
        next: AdminJob::LocationsDeleted { lang },
    }
}

/// Begins to delete a device.
pub fn admin_delete_device(
    state: &AppState,
    cookies: Option<&[u8]>,
    id: u128,
    payload: LangForm,
) -> (r: AdminStep)
    ensures
        r.deep_view() == deleting(
            state@,
            text_in(cookies),
            id,
            lang_of(payload.lang.deep_view()),
        ),
{
    match require_admin(state, cookies) {
        Ok(_) => {},
        Err(e) => return AdminStep::Done(Err(e)),
    }
    let lang = lang_asked(&payload.lang);
    AdminStep::Ask { op: StoreOp::DeleteDevice { id }, next: AdminJob::DeviceDeleted { lang } }
}

/// Begins to sweep the devices that were not updated for a number of days.
pub fn admin_delete_stale(state: &AppState, cookies: Option<&[u8]>, payload: DaysForm) -> (r:
    AdminStep)
    ensures
        r.deep_view() == sweeping_stale(
            state@,
            text_in(cookies),
            payload.days,
            lang_of(payload.lang.deep_view()),
        ),
{
    match require_admin(state, cookies) {
        Ok(_) => {},
        Err(e) => return AdminStep::Done(Err(e)),
    }
    let lang = lang_asked(&payload.lang);
    match validate_days(payload.days) {
        Ok(days) => AdminStep::Ask {
            op: StoreOp::DeleteStaleDevices { days },
            next: AdminJob::StaleDeleted { lang },
        },
        Err(e) => AdminStep::Done(Err(e)),
    }
}

/// Begins to change after how many days devices are swept. Where a number is
/// set, a sweep follows.
pub fn admin_set_auto_cleanup(
    state: &AppState,
    cookies: Option<&[u8]>,
    payload: AutoCleanupForm,
) -> (r: AdminStep)
    ensures
        r.deep_view() == setting_cleanup(
            state@,
            text_in(cookies),
            payload.days,
            lang_of(payload.lang.deep_view()),
        ),
{
    match require_admin(state, cookies) {
        Ok(_) => {},
        Err(e) => return AdminStep::Done(Err(e)),
    }
    let lang = lang_asked(&payload.lang);
    let days: Option<i64> = match payload.days {
        Some(days) if days > 0 => match validate_days(days) {
            Ok(days) => Some(days),
            Err(e) => return AdminStep::Done(Err(e)),
        },
        _ => None,
    };
    AdminStep::Ask {
        op: StoreOp::SetAutoCleanupDays { days },
        next: AdminJob::CleanupSet { days, lang },
    }
}

#[verifier::spinoff_prover]
fn page_step(
    state: &AppState,
    devices: &Vec<AdminDevice>,
    days: Option<i64>,
    notice: &Option<String>,
    lang: AdminLang,
) -> (r: AdminStep)
    ensures
        r.deep_view() == AdminProgress::Done(
            Ok(
                (Shown::Page {
                    status: 200,
                    html: admin_page(
                        state@.admin_path,
                        devices.deep_view(),
                        days,
                        notice.deep_view(),
                        lang,
                    ),
                }),
            ),
        ),
{
    let message = match notice {
        Some(notice) => Some(notice.as_str()),
        None => None,
    };
    let html = render_admin_page(state, devices.as_slice(), days, message, lang);
    AdminStep::Done(Ok(WebAnswer::Page { status: 200, html }))
}

impl AdminJob {
    /// Resumes the request with what the operation came to.
    #[verifier::spinoff_prover]
    pub fn resume(self, state: &AppState, result: Result<Outcome, ApiError>) -> (r: AdminStep)
        ensures
            r.deep_view() == admin_resumed(state@, self.deep_view(), ended(result)),
    {
        match (self, result) {
            (_, Err(e)) => AdminStep::Done(Err(e)),
            (AdminJob::Listed { notice, lang }, Ok(Outcome::AdminDevices(devices))) => {
                AdminStep::Ask {
                    op: StoreOp::AutoCleanupDays,
                    next: AdminJob::Configured { devices, notice, lang },
                }
            },
            (AdminJob::Configured { devices, notice, lang }, Ok(Outcome::Days(days))) => page_step(
                state,
                &devices,
                days,
                &notice,
                lang,
            ),
            (AdminJob::LocationsDeleted { lang }, Ok(Outcome::Deleted(count))) => notice_step(
                state,
                lang,
                "location_records_deleted",
                Some(count),
            ),
            (AdminJob::DeviceDeleted { lang }, Ok(Outcome::Deleted(_))) => notice_step(
                state,
                lang,
                "device_deleted",
                None,
            ),
            (AdminJob::StaleDeleted { lang }, Ok(Outcome::Deleted(count))) => notice_step(
                state,
                lang,
                "stale_devices_deleted",
                Some(count),
            ),
            (AdminJob::CleanupSet { days: Some(days), lang }, Ok(Outcome::Saved)) => {
                AdminStep::Ask {
                    op: StoreOp::DeleteStaleDevices { days },
                    next: AdminJob::CleanupSwept { lang },
                }
            },
            (AdminJob::CleanupSet { days: None, lang }, Ok(Outcome::Saved)) => notice_step(
                state,
                lang,
                "auto_cleanup_disabled",
                None,
            ),
            (AdminJob::CleanupSwept { lang }, Ok(Outcome::Deleted(count))) => notice_step(
                state,
                lang,
                "auto_cleanup_saved",
                Some(count),
            ),
            _ => AdminStep::Done(Err(ApiError::internal(UNEXPECTED_OUTCOME))),
        }
    }
}

/// Without the session of a login no request to the admin pages reaches the
/// database: the page sends the browser to the login, and everything that would
/// change something is refused.
pub proof fn law_nothing_without_session(
    setup: Setup,
    cookies: Option<Seq<char>>,
    query: Asked,
    id: u128,
    days: i64,
    days_field: Option<i64>,
    lang: AdminLang,
)
    requires
        !is_admin(setup.admin_session, cookies),
    ensures
        ({
            let refused = AdminProgress::Done(Err(unauthorized("admin login required"@)));
            &&& index_begun(setup, cookies, query) == AdminProgress::Done(
                Ok(to_login(setup, lang_of(query.lang), None)),
            )
            &&& clearing(setup, cookies, id, lang) == refused
            &&& deleting(setup, cookies, id, lang) == refused
            &&& sweeping_stale(setup, cookies, days, lang) == refused
            &&& setting_cleanup(setup, cookies, days_field, lang) == refused
        }),
{
}

/// The right password opens the admin pages, and only that: the browser that
/// logged in is recognised by the cookie that it got, a wrong password brings no
/// cookie, and behind a logout the browser is not recognised any more.
pub proof fn law_password_opens_the_pages(setup: Setup, password: Seq<char>, lang: AdminLang)
    requires
        is_session_secret(setup.admin_session),
    ensures
        password == setup.admin_password ==> {
            &&& login_answer(setup, password, lang) matches Shown::Redirect { to, cookie }
            &&& cookie matches Some(cookie)
            &&& is_admin(setup.admin_session, Some(sent_back(cookie)))
        },
        password != setup.admin_password ==> {
            &&& login_answer(setup, password, lang) matches Shown::Page { status, html }
            &&& status == 401
        },
        to_login(setup, lang, Some(logout_cookie(setup.admin_path))) matches Shown::Redirect {
            to,
            cookie,
        } && (cookie matches Some(cookie) && !is_admin(
            setup.admin_session,
            Some(sent_back(cookie)),
        )),
{
    law_login_is_remembered_until_logout(setup.admin_session, setup.admin_path);
}

/// Whatever number of days a form holds, a sweep that is asked for has its
/// cutoff on the calendar.
pub proof fn law_sweeps_stay_on_the_calendar(
    setup: Setup,
    cookies: Option<Seq<char>>,
    days: i64,
    days_field: Option<i64>,
    lang: AdminLang,
    now: Moment,
)
    requires
        now.on_clock(),
    ensures
        sweeping_stale(setup, cookies, days, lang) matches AdminProgress::Ask { op, next }
            ==> op.fits(now),
        setting_cleanup(setup, cookies, days_field, lang) matches AdminProgress::Ask { op, next }
            ==> {
            &&& op.fits(now)
            &&& admin_resumed(setup, next, Ok(Finding::Saved)) matches AdminProgress::Ask {
                op: sweep,
                next: last,
            } ==> sweep.fits(now)
        },
{
}

/// How an operation went that a request asked for: the moments and the replies
/// it went on with, the database behind it, and what it came to.
pub struct Carried {
    pub now: Moment,
    pub moments: Seq<Moment>,
    pub answers: Seq<Answer>,
    pub end: Database,
    pub result: Result<Finding, Refusal>,
}

/// Whether a request to the admin pages that has come this far goes on with
/// these operations, each begun where the one before it ended, and ends with
/// this database and this answer.
pub open spec fn admin_runs(
    setup: Setup,
    progress: AdminProgress,
    db: Database,
    carried: Seq<Carried>,
    end: Database,
    answer: Result<Shown, Refusal>,
) -> bool
    decreases carried.len(),
{
    match progress {
        AdminProgress::Done(done) => carried.len() == 0 && end == db && answer == done,
        AdminProgress::Ask { op, next } => {
            &&& carried.len() > 0
            &&& runs(
                begun(op, carried[0].now),
                db,
                carried[0].moments,
                carried[0].answers,
                carried[0].end,
                carried[0].result,
            )
            &&& admin_runs(
                setup,
                admin_resumed(setup, next, carried[0].result),
                carried[0].end,
                carried.drop_first(),
                end,
                answer,
            )
        },
    }
}

/// Whether no statement of the operations failed.
pub open spec fn undisturbed(carried: Seq<Carried>) -> bool {
    forall|i: int| 0 <= i < carried.len() ==> none_failed((#[trigger] carried[i]).answers)
}

/// The answer that leads to the admin page with a notice.
pub open spec fn notice_answer(
    setup: Setup,
    lang: AdminLang,
    code: Seq<char>,
    count: Option<usize>,
) -> Result<Shown, Refusal> {
    Ok(
        Shown::Redirect {
            to: url_of(setup.admin_path, notice_query(lang, code, count)),
            cookie: None,
        },
    )
}

/// An admin who saves a number of days has it set and devices swept: those that
/// were last updated before the cutoff are deleted with their locations, and the
/// answer leads to the page with the notice of how many there were.
pub proof fn law_saving_days_sweeps(
    setup: Setup,
    cookies: Option<Seq<char>>,
    days: i64,
    lang: AdminLang,
    db: Database,
    carried: Seq<Carried>,
    end: Database,
    answer: Result<Shown, Refusal>,
)
    requires
        is_admin(setup.admin_session, cookies),
        is_days(days as int),
        db.open is None,
        db.kept.sound(),
        undisturbed(carried),
        admin_runs(
            setup,
            setting_cleanup(setup, cookies, Some(days), lang),
            db,
            carried,
            end,
            answer,
        ),
    ensures
        carried.len() == 2,
        ({
            let stale = db.kept.stale(carried[1].now.days_earlier(days as int).text());
            &&& answer == notice_answer(
                setup,
                lang,
                "auto_cleanup_saved"@,
                Some(stale.len() as usize),
            )
            &&& end.kept.devices == db.kept.devices.remove_keys(stale)
            &&& forall|k: int| #[trigger]
                end.kept.locations.contains_key(k) <==> db.kept.locations.contains_key(k)
                    && !stale.contains(db.kept.locations[k].device_id)
        }),
        end.kept.settings == db.kept.settings.insert(
            AUTO_CLEANUP_DAYS_KEY@,
            signed_decimal(days as int),
        ),
        end.open is None,
{
    reveal_with_fuel(admin_runs, 3);
    reveal_with_fuel(runs, 3);
    let first = carried[0];
    let second = carried.drop_first()[0];
    assert(second == carried[1]);
    assert(none_failed(first.answers) && none_failed(second.answers));
    law_sweep(
        days,
        second.now,
        first.end,
        second.moments,
        second.answers,
        second.end,
        second.result,
    );
    let cutoff = second.now.days_earlier(days as int).text();
    assert(first.end.kept.stale(cutoff) =~= db.kept.stale(cutoff));
}

/// An admin who leaves the number of days empty, or sets none that is positive,
/// has the setting taken away and nothing deleted.
pub proof fn law_clearing_days_deletes_nothing(
    setup: Setup,
    cookies: Option<Seq<char>>,
    days: Option<i64>,
    lang: AdminLang,
    db: Database,
    carried: Seq<Carried>,
    end: Database,
    answer: Result<Shown, Refusal>,
)
    requires
        is_admin(setup.admin_session, cookies),
        days matches Some(days) ==> days <= 0,
        db.open is None,
        undisturbed(carried),
        admin_runs(setup, setting_cleanup(setup, cookies, days, lang), db, carried, end, answer),
    ensures
        answer == notice_answer(setup, lang, "auto_cleanup_disabled"@, None),
        end.kept.settings == db.kept.settings.remove(AUTO_CLEANUP_DAYS_KEY@),
        end.kept.devices == db.kept.devices,
        end.kept.locations == db.kept.locations,
        end.open is None,
{
    reveal_with_fuel(admin_runs, 3);
    reveal_with_fuel(runs, 3);
    assert(none_failed(carried[0].answers));
}

/// An admin who sweeps has the devices deleted that were last updated before the
/// cutoff, with their locations, and is told how many there were.
pub proof fn law_admin_sweeps(
    setup: Setup,
    cookies: Option<Seq<char>>,
    days: i64,
    lang: AdminLang,
    db: Database,
    carried: Seq<Carried>,
    end: Database,
    answer: Result<Shown, Refusal>,
)
    requires
        is_admin(setup.admin_session, cookies),
        is_days(days as int),
        db.open is None,
        db.kept.sound(),
        undisturbed(carried),
        admin_runs(setup, sweeping_stale(setup, cookies, days, lang), db, carried, end, answer),
    ensures
        carried.len() == 1,
        ({
            let stale = db.kept.stale(carried[0].now.days_earlier(days as int).text());
            &&& answer == notice_answer(
                setup,
                lang,
                "stale_devices_deleted"@,
                Some(stale.len() as usize),
            )
            &&& end.kept.devices == db.kept.devices.remove_keys(stale)
            &&& forall|k: int| #[trigger]
                end.kept.locations.contains_key(k) <==> db.kept.locations.contains_key(k)
                    && !stale.contains(db.kept.locations[k].device_id)
        }),
        end.kept.settings == db.kept.settings,
{
    reveal_with_fuel(admin_runs, 2);
    let only = carried[0];
    assert(none_failed(only.answers));
    law_sweep(days, only.now, db, only.moments, only.answers, only.end, only.result);
}

/// An admin who deletes the locations of a device is told how many there were.
/// The device stays. Where there is none, that is the answer, and nothing
/// changes.
pub proof fn law_admin_deletes_locations(
    setup: Setup,
    cookies: Option<Seq<char>>,
    id: u128,
    lang: AdminLang,
    db: Database,
    carried: Seq<Carried>,
    end: Database,
    answer: Result<Shown, Refusal>,
)
    requires
        is_admin(setup.admin_session, cookies),
        db.open is None,
        undisturbed(carried),
        admin_runs(setup, clearing(setup, cookies, id, lang), db, carried, end, answer),
    ensures
        end.kept.devices == db.kept.devices,
        end.kept.settings == db.kept.settings,
        db.kept.devices.contains_key(id_text(id)) ==> {
            &&& answer == notice_answer(
                setup,
                lang,
                "location_records_deleted"@,
                Some(db.kept.locations_of(id_text(id)).len() as usize),
            )
            &&& forall|k: int| #[trigger]
                end.kept.locations.contains_key(k) <==> db.kept.locations.contains_key(k)
                    && db.kept.locations[k].device_id != id_text(id)
        },
        !db.kept.devices.contains_key(id_text(id)) ==> end == db && answer == Err::<
            Shown,
            Refusal,
        >(not_found(DEVICE_NOT_FOUND@)),
{
    reveal_with_fuel(admin_runs, 2);
    let only = carried[0];
    assert(none_failed(only.answers));
    law_delete_locations(id, only.now, db, only.moments, only.answers, only.end, only.result);
}

/// An admin who deletes a device has it deleted with its locations and is told
/// so. Where there is none, that is the answer, and nothing changes.
pub proof fn law_admin_deletes_device(
    setup: Setup,
    cookies: Option<Seq<char>>,
    id: u128,
    lang: AdminLang,
    db: Database,
    carried: Seq<Carried>,
    end: Database,
    answer: Result<Shown, Refusal>,
)
    requires
        is_admin(setup.admin_session, cookies),
        db.open is None,
        db.kept.sound(),
        undisturbed(carried),
        admin_runs(setup, deleting(setup, cookies, id, lang), db, carried, end, answer),
    ensures
        end.kept.devices == db.kept.devices.remove(id_text(id)),
        end.kept.settings == db.kept.settings,
        forall|k: int| #[trigger]
            end.kept.locations.contains_key(k) <==> db.kept.locations.contains_key(k)
                && db.kept.locations[k].device_id != id_text(id),
        db.kept.devices.contains_key(id_text(id)) ==> answer == notice_answer(
            setup,
            lang,
            "device_deleted"@,
            None,
        ),
        !db.kept.devices.contains_key(id_text(id)) ==> end.kept == db.kept && answer == Err::<
            Shown,
            Refusal,
        >(not_found(DEVICE_NOT_FOUND@)),
{
    reveal_with_fuel(admin_runs, 2);
    let only = carried[0];
    assert(none_failed(only.answers));
    law_delete_device(id, only.now, db, only.moments, only.answers, only.end, only.result);
}

/// The number of days that is set in the tables.
pub open spec fn days_kept(tables: Tables) -> Result<Option<i64>, Refusal> {
    days_in(
        if tables.settings.contains_key(AUTO_CLEANUP_DAYS_KEY@) {
            Some(tables.settings[AUTO_CLEANUP_DAYS_KEY@])
        } else {
            None
        },
    )
}

/// The admin page shows all devices and the setting, and changes nothing. It is
/// shown where the texts in the tables can be read and the setting is a number
/// or none.
pub proof fn law_page_shows_devices_and_setting(
    setup: Setup,
    cookies: Option<Seq<char>>,
    query: Asked,
    db: Database,
    carried: Seq<Carried>,
    end: Database,
    answer: Result<Shown, Refusal>,
)
    requires
        is_admin(setup.admin_session, cookies),
        db.open is None,
        db.kept.sound(),
        db.kept.legible(),
        days_kept(db.kept) is Ok,
        undisturbed(carried),
        admin_runs(setup, index_begun(setup, cookies, query), db, carried, end, answer),
    ensures
        end == db,
        exists|rows: Seq<AdminProfileRow>| #[trigger]
            are_admin_rows(db.kept, rows) && match admin_shown(rows) {
                Ok(Finding::AdminDevices(devices)) => answer == Ok::<Shown, Refusal>(
                    Shown::Page {
                        status: 200,
                        html: admin_page(
                            setup.admin_path,
                            devices,
                            days_kept(db.kept)->Ok_0,
                            notice_of(query, lang_of(query.lang)),
                            lang_of(query.lang),
                        ),
                    },
                ),
                _ => false,
            },
{
    let first = carried[0];
    let second = carried[1];
    lemma_page_asks(setup, cookies, query, db, carried, end, answer);
    assert(none_failed(first.answers));
    let rows = lemma_devices_read(
        first.now,
        db,
        first.moments,
        first.answers,
        first.end,
        first.result,
    );
    let devices = first.result->Ok_0->AdminDevices_0;
    lemma_page_goes_on(setup, cookies, query, db, carried, end, answer, devices);
    assert(none_failed(second.answers));
    lemma_setting_read(
        second.now,
        db,
        second.moments,
        second.answers,
        second.end,
        second.result,
    );
    lemma_page_ends(
        setup,
        cookies,
        query,
        db,
        carried,
        end,
        answer,
        devices,
        days_kept(db.kept)->Ok_0,
    );
    assert(are_admin_rows(db.kept, rows));
}

proof fn lemma_devices_read(
    now: Moment,
    db: Database,
    moments: Seq<Moment>,
    answers: Seq<Answer>,
    end: Database,
    result: Result<Finding, Refusal>,
) -> (rows: Seq<AdminProfileRow>)
    requires
        db.open is None,
        db.kept.sound(),
        db.kept.legible(),
        none_failed(answers),
        runs(begun(Operation::ListAdminDevices, now), db, moments, answers, end, result),
    ensures
        end == db,
        are_admin_rows(db.kept, rows),
        result == admin_shown(rows),
        result matches Ok(Finding::AdminDevices(_)),
{
    law_admin_devices_are_listed(now, db, moments, answers, end, result);
    law_lists_succeed(Operation::ListAdminDevices, now, db, moments, answers, end, result);
    choose|rows: Seq<AdminProfileRow>| #[trigger]
        are_admin_rows(db.kept, rows) && result == admin_shown(rows)
}

pub(crate) proof fn lemma_setting_read(
    now: Moment,
    db: Database,
    moments: Seq<Moment>,
    answers: Seq<Answer>,
    end: Database,
    result: Result<Finding, Refusal>,
)
    requires
        db.open is None,
        days_kept(db.kept) is Ok,
        none_failed(answers),
        runs(begun(Operation::AutoCleanupDays, now), db, moments, answers, end, result),
    ensures
        end == db,
        result == Ok::<Finding, Refusal>(Finding::Days(days_kept(db.kept)->Ok_0)),
{
    reveal_with_fuel(runs, 3);
}

proof fn lemma_page_asks(
    setup: Setup,
    cookies: Option<Seq<char>>,
    query: Asked,
    db: Database,
    carried: Seq<Carried>,
    end: Database,
    answer: Result<Shown, Refusal>,
)
    requires
        is_admin(setup.admin_session, cookies),
        admin_runs(setup, index_begun(setup, cookies, query), db, carried, end, answer),
    ensures
        carried.len() > 0,
        runs(
            begun(Operation::ListAdminDevices, carried[0].now),
            db,
            carried[0].moments,
            carried[0].answers,
            carried[0].end,
            carried[0].result,
        ),
        admin_runs(
            setup,
            admin_resumed(
                setup,
                AdminWaiting::Listed {
                    notice: notice_of(query, lang_of(query.lang)),
                    lang: lang_of(query.lang),
                },
                carried[0].result,
            ),
            carried[0].end,
            carried.drop_first(),
            end,
            answer,
        ),
{
}

proof fn lemma_page_goes_on(
    setup: Setup,
    cookies: Option<Seq<char>>,
    query: Asked,
    db: Database,
    carried: Seq<Carried>,
    end: Database,
    answer: Result<Shown, Refusal>,
    devices: Seq<AdminProfile>,
)
    requires
        is_admin(setup.admin_session, cookies),
        admin_runs(setup, index_begun(setup, cookies, query), db, carried, end, answer),
        carried[0].result == Ok::<Finding, Refusal>(Finding::AdminDevices(devices)),
    ensures
        carried.len() > 1,
        runs(
            begun(Operation::AutoCleanupDays, carried[1].now),
            carried[0].end,
            carried[1].moments,
            carried[1].answers,
            carried[1].end,
            carried[1].result,
        ),
        admin_runs(
            setup,
            admin_resumed(
                setup,
                AdminWaiting::Configured {
                    devices,
                    notice: notice_of(query, lang_of(query.lang)),
                    lang: lang_of(query.lang),
                },
                carried[1].result,
            ),
            carried[1].end,
            carried.drop_first().drop_first(),
            end,
            answer,
        ),
{
    lemma_page_asks(setup, cookies, query, db, carried, end, answer);
    assert(carried.drop_first()[0] == carried[1]);
}

proof fn lemma_page_ends(
    setup: Setup,
    cookies: Option<Seq<char>>,
    query: Asked,
    db: Database,
    carried: Seq<Carried>,
    end: Database,
    answer: Result<Shown, Refusal>,
    devices: Seq<AdminProfile>,
    days: Option<i64>,
)
    requires
        is_admin(setup.admin_session, cookies),
        admin_runs(setup, index_begun(setup, cookies, query), db, carried, end, answer),
        carried[0].result == Ok::<Finding, Refusal>(Finding::AdminDevices(devices)),
        carried[1].result == Ok::<Finding, Refusal>(Finding::Days(days)),
    ensures
        end == carried[1].end,
        answer == Ok::<Shown, Refusal>(
            Shown::Page {
                status: 200,
                html: admin_page(
                    setup.admin_path,
                    devices,
                    days,
                    notice_of(query, lang_of(query.lang)),
                    lang_of(query.lang),
                ),
            },
        ),
{
    lemma_page_goes_on(setup, cookies, query, db, carried, end, answer, devices);
}

/// A login with the right password leads to the page in the language of the form
/// and brings the session; with any other, the page that asks comes again with
/// the error in that language. A logout, and the page without a session, lead to
/// the page that asks.
pub proof fn law_logins_lead_on(
    setup: Setup,
    password: Seq<char>,
    lang: AdminLang,
    cookie: Option<Seq<char>>,
)
    ensures
        password == setup.admin_password ==> (login_answer(
            setup,
            password,
            lang,
        ) matches Shown::Redirect { to, cookie: brought } && to == setup.admin_path + ("?lang="@
            + lang.code()@) && brought == Some(
            "guideng_admin_session="@ + setup.admin_session + "; HttpOnly; SameSite=Lax; Path="@
                + setup.admin_path + "; Max-Age=2592000"@,
        )),
        password != setup.admin_password ==> (login_answer(
            setup,
            password,
            lang,
        ) matches Shown::Page { status, html } && status == 401 && html == login_page(
            setup.admin_path,
            Some(lang.login_error()@),
            lang,
        )),
        to_login(setup, lang, cookie) matches Shown::Redirect { to, cookie: brought } && to
            == setup.admin_path + ("/login?lang="@ + lang.code()@) && brought == cookie,
{
    reveal_strlit("?lang=");
    reveal_strlit("/login?lang=");
    let query = "?lang="@ + lang.code()@;
    let page = "/login?lang="@ + lang.code()@;
    assert(query[0] == '?' && page[0] == '/' && page.len() > 1);
    law_addresses_are_path_and_suffix(setup.admin_path, query);
    law_addresses_are_path_and_suffix(setup.admin_path, page);
    law_cookies_are_word_for_word(setup.admin_session, setup.admin_path);
}

/// Whatever a request waits for, a refusal of the database is the answer.
pub proof fn law_refusals_reach_the_browser(setup: Setup, job: AdminWaiting, e: Refusal)
    ensures
        admin_resumed(setup, job, Err(e)) == AdminProgress::Done(Err(e)),
{
}

/// What an admin asks for is what the database is asked for: of this device, and
/// with this number of days. A number of days out of its range is refused, and
/// then nothing is asked.
pub proof fn law_admins_get_what_they_ask_for(
    setup: Setup,
    cookies: Option<Seq<char>>,
    id: u128,
    days: i64,
    lang: AdminLang,
)
    requires
        is_admin(setup.admin_session, cookies),
    ensures
        clearing(setup, cookies, id, lang) matches AdminProgress::Ask { op, next } && (
        op matches Operation::DeleteDeviceLocations { id: asked } && asked == id),
        deleting(setup, cookies, id, lang) matches AdminProgress::Ask { op, next } && (
        op matches Operation::DeleteDevice { id: asked } && asked == id),
        1 <= days <= 36500 ==> {
            &&& sweeping_stale(setup, cookies, days, lang) matches AdminProgress::Ask { op, next }
                && (op matches Operation::DeleteStaleDevices { days: asked } && asked == days)
            &&& setting_cleanup(setup, cookies, Some(days), lang) matches AdminProgress::Ask {
                op,
                next,
            } && (op matches Operation::SetAutoCleanupDays { days: asked } && asked == Some(days))
        },
        days < 1 || days > 36500 ==> (sweeping_stale(
            setup,
            cookies,
            days,
            lang,
        ) matches AdminProgress::Done(Err(e)) && e.status == 400 && e.message
            == "days must be between 1 and 36500"@),
        days > 36500 ==> (setting_cleanup(
            setup,
            cookies,
            Some(days),
            lang,
        ) matches AdminProgress::Done(Err(e)) && e.status == 400 && e.message
            == "days must be between 1 and 36500"@),
        days < 1 ==> (setting_cleanup(setup, cookies, Some(days), lang) matches AdminProgress::Ask {
            op,
            next,
        } && (op matches Operation::SetAutoCleanupDays { days: asked } && asked is None)),
        setting_cleanup(setup, cookies, None, lang) matches AdminProgress::Ask { op, next } && (
        op matches Operation::SetAutoCleanupDays { days: asked } && asked is None),
{
}

/// Without a session the answer is that a login is needed, as a refusal of one
/// who has not shown who they are.
pub proof fn law_login_is_needed(setup: Setup, cookies: Option<Seq<char>>, progress: AdminProgress)
    ensures
        !is_admin(setup.admin_session, cookies) ==> (for_admin(
            setup,
            cookies,
            progress,
        ) matches AdminProgress::Done(Err(e)) && e.status == 401 && e.message
            == "admin login required"@),
        is_admin(setup.admin_session, cookies) ==> for_admin(setup, cookies, progress) == progress,
{
}

/// The view of an answer to a browser holds what the answer holds.
pub proof fn law_view_of_an_answer_is_whole(answer: WebAnswer)
    ensures
        match answer {
            WebAnswer::Page { status, html } => answer.deep_view() matches Shown::Page {
                status: s,
                html: h,
            } && s == status && h == html@,
            WebAnswer::Redirect { to, cookie } => {
                &&& answer.deep_view() matches Shown::Redirect { to: t, cookie: c }
                &&& t == to@
                &&& cookie matches Some(text) ==> c == Some(text@)
                &&& cookie is None ==> c is None
            },
        },
{
}

/// The view of a step of a request holds what the step holds.
pub proof fn law_view_of_an_admin_step_is_whole(step: AdminStep)
    ensures
        match step {
            AdminStep::Ask { op, next } => step.deep_view() matches AdminProgress::Ask {
                op: asked,
                next: waiting,
            } && asked == op.deep_view() && waiting == next.deep_view(),
            AdminStep::Done(Ok(answer)) => step.deep_view() matches AdminProgress::Done(Ok(shown))
                && shown == answer.deep_view(),
            AdminStep::Done(Err(e)) => step.deep_view() matches AdminProgress::Done(Err(shown))
                && shown == e@,
        },
{
}

} // verus!
