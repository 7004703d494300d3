use guideng::admin::{admin_notice, admin_notice_url, admin_url, AdminQuery, AppState};
use guideng::api::ApiError;
use guideng::clock::Timestamp;
use guideng::console::{
    admin_delete_device, admin_delete_locations, admin_delete_stale, admin_index, admin_login,
    admin_login_page, admin_logout, admin_set_auto_cleanup, AdminJob, AdminLoginForm, AdminStep,
    AutoCleanupForm, DaysForm, LangForm, WebAnswer,
};
use guideng::device_id::id_to_text;
use guideng::lang::AdminLang;
use guideng::markup::admin_css;
use guideng::pages::{
    hidden_lang_input, render_admin_device_row, render_admin_page, render_login_page,
};
use guideng::records::{
    AdminDevice, Device, Location, LocationRequest, Reading, RegisterDeviceRequest, TrackQuery,
    UpdateDeviceRequest,
};
use guideng::requests::{
    list_tracks, register_as, report_at, update_device, ReportJob, ReportStep, SweepJob, SweepNote,
    SweepStep,
};
use guideng::settings::MapConfig;
use guideng::store::{Outcome, StoreOp};

fn state() -> AppState {
    AppState {
        token: "token".to_string(),
        admin_password: "password".to_string(),
        admin_path: "/back/office".to_string(),
        admin_session: "s3cret".to_string(),
        map_config: MapConfig::from_env(None, None, None, None),
    }
}

const COOKIES: Option<&[u8]> = Some(b"guideng_admin_session=s3cret");

fn lang(code: &str) -> Option<String> {
    Some(code.to_string())
}

fn query(msg: Option<&str>, count: Option<usize>) -> AdminQuery {
    AdminQuery {
        message: None,
        msg: msg.map(str::to_string),
        count,
        lang: None,
    }
}

fn redirect(answer: WebAnswer) -> (String, Option<String>) {
    match answer {
        WebAnswer::Redirect { to, cookie } => (to, cookie),
        WebAnswer::Page { .. } => panic!("a page"),
    }
}

fn page(answer: WebAnswer) -> (u16, String) {
    match answer {
        WebAnswer::Page { status, html } => (status, html),
        WebAnswer::Redirect { .. } => panic!("a redirect"),
    }
}

fn refusal(step: AdminStep) -> (u16, String) {
    match step {
        AdminStep::Done(Err(error)) => (error.status, error.message),
        other => panic!("not refused: {other:?}"),
    }
}

fn op(step: AdminStep) -> StoreOp {
    match step {
        AdminStep::Ask { op, next: _ } => op,
        other => panic!("nothing asked: {other:?}"),
    }
}

#[test]
fn addresses_stand_below_the_admin_path() {
    let state = state();
    assert_eq!(admin_url(&state, ""), "/back/office");
    assert_eq!(admin_url(&state, "/"), "/back/office");
    assert_eq!(admin_url(&state, "/x"), "/back/office/x");
    assert_eq!(admin_url(&state, "x?y"), "/back/office/x?y");
    assert_eq!(
        admin_notice_url(&state, AdminLang::Zh, "device_deleted", None),
        "/back/office?lang=zh&msg=device_deleted"
    );
}

#[test]
fn notices_are_told_in_the_language() {
    let cases = [
        (
            "location_records_deleted",
            "4 条位置记录已删除",
            "4 location records deleted",
        ),
        ("device_deleted", "客户端已删除", "Device deleted"),
        (
            "stale_devices_deleted",
            "4 个未更新客户端已删除",
            "4 stale devices deleted",
        ),
        (
            "auto_cleanup_saved",
            "自动清理设置已保存，已删除 4 个客户端",
            "Auto cleanup saved, 4 devices deleted",
        ),
        (
            "auto_cleanup_disabled",
            "自动清理已关闭",
            "Auto cleanup disabled",
        ),
        ("anything else", "anything else", "anything else"),
    ];
    for (code, zh, en) in cases {
        let query = query(Some(code), Some(4));
        assert_eq!(admin_notice(&query, AdminLang::Zh).as_deref(), Some(zh));
        assert_eq!(admin_notice(&query, AdminLang::En).as_deref(), Some(en));
    }
    assert_eq!(admin_notice(&query(None, Some(4)), AdminLang::En), None);
    assert_eq!(
        admin_notice(&query(Some("stale_devices_deleted"), None), AdminLang::En).as_deref(),
        Some("0 stale devices deleted")
    );
}

#[test]
fn message_comes_before_code() {
    let query = AdminQuery {
        message: Some("hello".to_string()),
        msg: Some("device_deleted".to_string()),
        count: None,
        lang: None,
    };
    assert_eq!(
        admin_notice(&query, AdminLang::En).as_deref(),
        Some("hello")
    );
}

#[test]
fn languages_are_found_by_their_codes() {
    assert_eq!(AdminLang::from_option(Some("en")), AdminLang::En);
    for code in [None, Some("zh"), Some("EN"), Some("")] {
        assert_eq!(AdminLang::from_option(code), AdminLang::Zh);
    }
    for lang in [AdminLang::Zh, AdminLang::En] {
        assert_eq!(AdminLang::from_option(Some(lang.code())), lang);
        assert_ne!(AdminLang::from_option(Some(lang.switch_code())), lang);
    }
    assert_eq!(AdminLang::Zh.html_lang(), "zh-CN");
    assert_eq!(AdminLang::En.html_lang(), "en");
    assert_eq!(AdminLang::En.switch_label(), "中文");
    assert_eq!(AdminLang::Zh.switch_label(), "English");
    assert_eq!(AdminLang::Zh.login_error(), "密码不正确");
}

#[test]
fn status_tells_when_devices_are_swept() {
    assert_eq!(
        AdminLang::Zh.auto_status(Some(30)),
        "当前：自动删除超过 30 天未更新位置的客户端"
    );
    assert_eq!(
        AdminLang::En.auto_status(Some(-1)),
        "Current: automatically delete devices inactive for over -1 days"
    );
    assert_eq!(AdminLang::Zh.auto_status(None), "当前：未开启自动清理");
    assert_eq!(
        AdminLang::En.auto_status(None),
        "Current: auto cleanup is disabled"
    );
    assert_eq!(AdminLang::Zh.table_headers()[6], "操作");
    assert_eq!(
        AdminLang::En.table_headers(),
        [
            "Name",
            "Platform",
            "Last update",
            "Last location",
            "Location records",
            "Created",
            "Actions"
        ]
    );
}

#[test]
fn forms_keep_the_language() {
    assert_eq!(
        hidden_lang_input(AdminLang::Zh),
        r#"<input type="hidden" name="lang" value="zh">"#
    );
}

#[test]
fn login_page_is_whole() {
    let html = render_login_page(&state(), Some("a<b"), AdminLang::En);
    let expected = format!(
        r#"<!doctype html>
<html lang="en">
<head>
  <meta charset="utf-8">
  <meta name="viewport" content="width=device-width, initial-scale=1">
  <title>Guideng Admin</title>
  <style>{}</style>
</head>
<body>
  <main class="login">
    <div class="login-tools"><a class="button secondary" href="/back/office/login?lang=zh">中文</a></div>
    <h1>Guideng Admin</h1>
    <form method="post" action="/back/office/login">
      <input type="hidden" name="lang" value="en">
      <label>Admin password<input name="password" type="password" autocomplete="current-password" autofocus required></label>
      <p class="error">a&lt;b</p>
      <button type="submit">Log in</button>
    </form>
  </main>
</body>
</html>"#,
        admin_css()
    );
    assert_eq!(html, expected);
    let html = render_login_page(&state(), None, AdminLang::Zh);
    assert!(html.contains("required></label>\n      \n      <button type=\"submit\">登录</button>"));
}

fn entry(id: u128, name: &str, platform: Option<&str>, place: Option<(&str, &str)>) -> AdminDevice {
    AdminDevice {
        device: Device {
            id,
            name: name.to_string(),
            platform: platform.map(str::to_string),
            created_at: Timestamp::new(0, 0).unwrap(),
            updated_at: Timestamp::new(1_700_000_000, 0).unwrap(),
            last_location: place.map(|_| Location {
                id: Some(1),
                reading: Reading {
                    latitude: 0,
                    longitude: 0,
                    accuracy: None,
                    altitude: None,
                    heading: None,
                    speed: None,
                    battery_level: None,
                },
                captured_at: Timestamp::new(0, 0).unwrap(),
                received_at: Timestamp::new(0, 0).unwrap(),
            }),
        },
        location_count: 12,
        coordinates: match place {
            Some((latitude, longitude)) => (latitude.to_string(), longitude.to_string()),
            None => (String::new(), String::new()),
        },
    }
}

#[test]
fn row_of_a_device_is_whole() {
    let row = render_admin_device_row(
        &state(),
        &entry(7, "Tom's \"phone\"", None, Some(("31.230400", "-0.500000"))),
        AdminLang::En,
    );
    let id = id_to_text(7);
    let expected = format!(
        r#"<tr>
  <td><strong>Tom&#39;s &quot;phone&quot;</strong><br><span class="muted">{id}</span></td>
  <td>-</td>
  <td>2023-11-14T22:13:20+00:00</td>
  <td>31.230400, -0.500000</td>
  <td>12</td>
  <td>1970-01-01T00:00:00+00:00</td>
  <td class="actions">
    <form method="post" action="/back/office/devices/{id}/locations/delete"><input type="hidden" name="lang" value="en"><button type="submit" class="secondary">Delete locations</button></form>
    <form method="post" action="/back/office/devices/{id}/delete"><input type="hidden" name="lang" value="en"><button type="submit" class="danger">Delete device</button></form>
  </td>
</tr>"#
    );
    assert_eq!(row, expected);
}

#[test]
fn device_without_a_location_has_a_hyphen_for_its_place() {
    let mut entry = entry(7, "Phone", Some("web"), None);
    entry.coordinates = ("1.000000".to_string(), "2.000000".to_string());
    let row = render_admin_device_row(&state(), &entry, AdminLang::En);
    assert!(row.contains("<td>2023-11-14T22:13:20+00:00</td>\n  <td>-</td>\n  <td>12</td>"));
}

#[test]
fn rows_have_the_same_markup_whatever_devices_send() {
    let tame = entry(1, "a", Some("web"), None);
    let wild = entry(
        u128::MAX,
        "</td><script>\"'&",
        Some("<b onclick='x'>"),
        Some(("<", ">")),
    );
    let tame_row = render_admin_device_row(&state(), &tame, AdminLang::Zh);
    let wild_row = render_admin_device_row(&state(), &wild, AdminLang::Zh);
    let devices = [tame, wild];
    let one = render_admin_page(&state(), &devices[..1], None, Some("x"), AdminLang::Zh);
    let other = render_admin_page(&state(), &devices[1..], Some(3), Some("<x>"), AdminLang::Zh);
    for c in ['<', '>', '"', '\''] {
        assert_eq!(tame_row.matches(c).count(), wild_row.matches(c).count());
        assert_eq!(one.matches(c).count(), other.matches(c).count());
    }
}

#[test]
fn admin_page_is_whole() {
    let devices = [
        entry(1, "one", Some("web"), None),
        entry(2, "two", None, None),
    ];
    let html = render_admin_page(&state(), &devices, Some(30), Some("a & b"), AdminLang::En);
    let rows = format!(
        "{}{}",
        render_admin_device_row(&state(), &devices[0], AdminLang::En),
        render_admin_device_row(&state(), &devices[1], AdminLang::En)
    );
    let expected = format!(
        r#"<!doctype html>
<html lang="en">
<head>
  <meta charset="utf-8">
  <meta name="viewport" content="width=device-width, initial-scale=1">
  <title>Guideng Admin</title>
  <style>{}</style>
</head>
<body>
  <main>
    <header>
      <div>
        <h1>Guideng Admin</h1>
        <p>Current: automatically delete devices inactive for over 30 days</p>
      </div>
      <div class="header-actions">
        <a class="button secondary" href="/back/office?lang=zh">中文</a>
        <form method="post" action="/back/office/logout"><input type="hidden" name="lang" value="en"><button type="submit" class="secondary">Log out</button></form>
      </div>
    </header>
    <p class="notice">a &amp; b</p>
    <section>
      <h2>Devices</h2>
      <div class="table-wrap">
        <table>
          <thead>
            <tr><th>Name</th><th>Platform</th><th>Last update</th><th>Last location</th><th>Location records</th><th>Created</th><th>Actions</th></tr>
          </thead>
          <tbody>{}</tbody>
        </table>
      </div>
    </section>
    <section class="grid">
      <form method="post" action="/back/office/stale/delete">
        <input type="hidden" name="lang" value="en">
        <h2>Manual cleanup of inactive devices</h2>
        <label>Days<input name="days" type="number" min="1" max="36500" value="30" required></label>
        <button type="submit">Delete now</button>
      </form>
      <form method="post" action="/back/office/auto-cleanup">
        <input type="hidden" name="lang" value="en">
        <h2>Auto cleanup settings</h2>
        <p class="muted">Current: automatically delete devices inactive for over 30 days</p>
        <label>Days<input name="days" type="number" min="1" max="36500" value="30" placeholder="Leave empty to disable"></label>
        <button type="submit">Save settings</button>
      </form>
    </section>
  </main>
</body>
</html>"#,
        admin_css(),
        rows
    );
    assert_eq!(html, expected);
}

#[test]
fn empty_list_says_so() {
    let html = render_admin_page(&state(), &[], None, None, AdminLang::Zh);
    assert!(html.contains(
        r#"<tbody><tr><td colspan="7" class="muted">暂无客户端</td></tr></tbody>"#
    ));
    assert!(html.contains("</header>\n    \n    <section>"));
    assert!(html.contains(r#"value="" placeholder="留空关闭""#));
}

#[test]
fn page_without_session_leads_to_the_login() {
    for cookies in [None, Some(&b"guideng_admin_session=x"[..])] {
        let mut query = query(None, None);
        query.lang = lang("en");
        match admin_index(&state(), cookies, query) {
            AdminStep::Done(Ok(answer)) => assert_eq!(
                redirect(answer),
                ("/back/office/login?lang=en".to_string(), None)
            ),
            other => panic!("not redirected: {other:?}"),
        }
    }
    assert!(matches!(
        op(admin_index(&state(), COOKIES, query(None, None))),
        StoreOp::ListAdminDevices
    ));
}

#[test]
fn changes_without_session_are_refused() {
    let refused = (401, "admin login required".to_string());
    let form = || LangForm { lang: None };
    assert_eq!(
        refusal(admin_delete_locations(&state(), None, 1, form())),
        refused
    );
    assert_eq!(
        refusal(admin_delete_device(&state(), None, 1, form())),
        refused
    );
    for days in [30, 0] {
        let form = DaysForm { days, lang: None };
        assert_eq!(refusal(admin_delete_stale(&state(), None, form)), refused);
        let form = AutoCleanupForm {
            days: Some(days),
            lang: None,
        };
        assert_eq!(
            refusal(admin_set_auto_cleanup(&state(), None, form)),
            refused
        );
    }
}

#[test]
fn login_gives_the_session_for_the_password() {
    let form = AdminLoginForm {
        password: "password".to_string(),
        lang: lang("en"),
    };
    let (to, cookie) = redirect(admin_login(&state(), form));
    assert_eq!(to, "/back/office?lang=en");
    assert_eq!(
        cookie.unwrap(),
        "guideng_admin_session=s3cret; HttpOnly; SameSite=Lax; Path=/back/office; Max-Age=2592000"
    );
}

#[test]
fn wrong_password_gets_the_page_again() {
    for password in ["", "Password", "password "] {
        let form = AdminLoginForm {
            password: password.to_string(),
            lang: lang("en"),
        };
        let (status, html) = page(admin_login(&state(), form));
        assert_eq!(status, 401);
        assert!(html.contains(r#"<p class="error">Incorrect password</p>"#));
    }
    let (status, html) = page(admin_login_page(&state(), query(None, None)));
    assert_eq!(status, 200);
    assert!(html.contains("管理密码"));
    assert!(!html.contains("class=\"error\""));
}

#[test]
fn logout_takes_the_session_away() {
    let (to, cookie) = redirect(admin_logout(&state(), LangForm { lang: lang("en") }));
    assert_eq!(to, "/back/office/login?lang=en");
    assert_eq!(
        cookie.unwrap(),
        "guideng_admin_session=; HttpOnly; SameSite=Lax; Path=/back/office; Max-Age=0"
    );
}

#[test]
fn numbers_of_days_are_checked() {
    let refused = (400, "days must be between 1 and 36500".to_string());
    for days in [0, -1, 36501] {
        let form = DaysForm { days, lang: None };
        assert_eq!(
            refusal(admin_delete_stale(&state(), COOKIES, form)),
            refused
        );
    }
    let form = AutoCleanupForm {
        days: Some(36501),
        lang: None,
    };
    assert_eq!(
        refusal(admin_set_auto_cleanup(&state(), COOKIES, form)),
        refused
    );
    let form = AutoCleanupForm {
        days: Some(-7),
        lang: None,
    };
    assert!(matches!(
        op(admin_set_auto_cleanup(&state(), COOKIES, form)),
        StoreOp::SetAutoCleanupDays { days: None }
    ));
    let form = DaysForm {
        days: 36500,
        lang: None,
    };
    assert!(matches!(
        op(admin_delete_stale(&state(), COOKIES, form)),
        StoreOp::DeleteStaleDevices { days: 36500 }
    ));
}

#[test]
fn outcomes_that_do_not_belong_are_refused() {
    let unexpected = (500, "unexpected outcome of the database".to_string());
    let job = AdminJob::DeviceDeleted {
        lang: AdminLang::En,
    };
    assert_eq!(
        refusal(job.resume(&state(), Ok(Outcome::Saved))),
        unexpected
    );
    match ReportJob::Stored.resume(Ok(Outcome::Saved)) {
        ReportStep::Done { answer, note: _ } => {
            let error = answer.unwrap_err();
            assert_eq!((error.status, error.message), unexpected);
        }
        ReportStep::Ask { .. } => panic!("asked on"),
    }
    assert!(matches!(
        SweepJob::Setting.resume(Ok(Outcome::Saved)),
        SweepStep::Done(SweepNote::SettingFailed(message)) if message == unexpected.1
    ));
    assert!(matches!(
        SweepJob::Deleting.resume(Ok(Outcome::Saved)),
        SweepStep::Done(SweepNote::SweepFailed(message)) if message == unexpected.1
    ));
}

#[test]
fn failures_are_handed_on() {
    let job = AdminJob::Listed {
        notice: None,
        lang: AdminLang::En,
    };
    assert_eq!(
        refusal(job.resume(&state(), Err(ApiError::internal("broken")))),
        (500, "broken".to_string())
    );
}

fn registration(id: Option<u128>, name: &str) -> RegisterDeviceRequest {
    RegisterDeviceRequest {
        id,
        name: name.to_string(),
        platform: None,
    }
}

#[test]
fn registration_takes_the_identifier_or_a_fresh_one() {
    assert!(matches!(
        register_as(registration(Some(5), " a "), 9),
        Ok(StoreOp::UpsertDevice { id: 5, name, platform: None }) if name == "a"
    ));
    assert!(matches!(
        register_as(registration(None, "a"), 9),
        Ok(StoreOp::UpsertDevice { id: 9, .. })
    ));
    let error = register_as(registration(None, " "), 9).unwrap_err();
    assert_eq!(error.status, 400);
}

#[test]
fn change_checks_the_name_it_brings() {
    let change = |name: Option<&str>| {
        update_device(
            3,
            UpdateDeviceRequest {
                name: name.map(str::to_string),
                platform: None,
            },
        )
    };
    assert!(matches!(
        change(None),
        Ok(StoreOp::UpdateDevice { id: 3, .. })
    ));
    assert!(change(Some("b")).is_ok());
    assert_eq!(change(Some("")).unwrap_err().status, 400);
}

#[test]
fn report_takes_its_own_time_of_capture() {
    let payload = |captured_at| LocationRequest {
        reading: Reading {
            latitude: 0,
            longitude: 0,
            accuracy: None,
            altitude: None,
            heading: None,
            speed: None,
            battery_level: None,
        },
        captured_at,
    };
    let at = |secs| Timestamp::new(secs, 0).unwrap();
    match report_at(1, payload(Some(at(5))), at(10), at(20)) {
        Ok(StoreOp::InsertLocation { id: 1, location }) => {
            assert_eq!(location.id, None);
            assert_eq!(location.captured_at.secs(), 5);
            assert_eq!(location.received_at.secs(), 20);
        }
        other => panic!("{other:?}"),
    }
    match report_at(1, payload(None), at(10), at(20)) {
        Ok(StoreOp::InsertLocation { id: 1, location }) => {
            assert_eq!(location.captured_at.secs(), 10);
        }
        other => panic!("{other:?}"),
    }
    let mut outside = payload(None);
    outside.reading.latitude = 91.0f64.to_bits();
    let error = report_at(1, outside, at(10), at(20)).unwrap_err();
    assert_eq!(
        (error.status, error.message.as_str()),
        (400, "invalid coordinates")
    );
}

#[test]
fn tracks_go_back_one_to_seven_days() {
    for (asked, days) in [
        (None, 7),
        (Some(i64::MIN), 1),
        (Some(0), 1),
        (Some(1), 1),
        (Some(4), 4),
        (Some(7), 7),
        (Some(8), 7),
        (Some(i64::MAX), 7),
    ] {
        match list_tracks(2, TrackQuery { days: asked }) {
            StoreOp::ListTracks { id, days: listed } => assert_eq!((id, listed), (2, days)),
            other => panic!("{other:?}"),
        }
    }
}
