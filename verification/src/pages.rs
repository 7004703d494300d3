//! The pages that an admin sees.

use vstd::arithmetic::power::pow;
use vstd::prelude::*;

use crate::admin::{admin_url, law_addresses_are_path_and_suffix, url_of, AppState};
use crate::clock::time_to_text;
use crate::decimal::{law_decimal_is_digits, signed_decimal, signed_text};
use crate::device_id::{id_digit, id_text, id_to_text};
use crate::lang::{headings, status_text, AdminLang};
use crate::markup::{
    admin_css, escape_html, escaped, law_escaped_text_is_inert, law_escaped_text_reads_back,
    unescaped, STYLE,
};
use crate::records::{AdminDevice, AdminProfile};
use crate::text::begins_with;

verus! {

// The markup of the pages, in the order in which it stands on them, parted where
// a text is set in.
pub const DOCTYPE: &'static str = r#"<!doctype html>
<html lang=""#;

pub const HEAD: &'static str = r#"">
<head>
  <meta charset="utf-8">
  <meta name="viewport" content="width=device-width, initial-scale=1">
  <title>"#;

pub const HEAD_STYLE: &'static str = r#"</title>
  <style>"#;

pub const LOGIN_TOOLS: &'static str = r#"</style>
</head>
<body>
  <main class="login">
    <div class="login-tools"><a class="button secondary" href=""#;

pub const TAG_END: &'static str = r#"">"#;

pub const LOGIN_TITLE: &'static str = r#"</a></div>
    <h1>"#;

pub const LOGIN_FORM: &'static str = r#"</h1>
    <form method="post" action=""#;

pub const LOGIN_FIELDS: &'static str = r#"/login">
      "#;

pub const LOGIN_LABEL: &'static str = r#"
      <label>"#;

pub const LOGIN_PASSWORD: &'static str = r#"<input name="password" type="password" autocomplete="current-password" autofocus required></label>
      "#;

pub const LOGIN_BUTTON: &'static str = r#"
      <button type="submit">"#;

pub const LOGIN_END: &'static str = r#"</button>
    </form>
  </main>
</body>
</html>"#;

pub const HIDDEN_LANG: &'static str = r#"<input type="hidden" name="lang" value=""#;

pub const ERROR: &'static str = r#"<p class="error">"#;

pub const NOTICE: &'static str = r#"<p class="notice">"#;

pub const PARAGRAPH_END: &'static str = "</p>";

pub const EMPTY_ROW: &'static str = r#"<tr><td colspan="7" class="muted">"#;

pub const EMPTY_ROW_END: &'static str = "</td></tr>";

pub const HEADING: &'static str = "<th>";

pub const HEADING_END: &'static str = "</th>";

pub const ROW: &'static str = r#"<tr>
  <td><strong>"#;

pub const ROW_ID: &'static str = r#"</strong><br><span class="muted">"#;

pub const ROW_PLATFORM: &'static str = r#"</span></td>
  <td>"#;

pub const ROW_CELL: &'static str = r#"</td>
  <td>"#;

pub const ROW_ACTIONS: &'static str = r#"</td>
  <td class="actions">
    <form method="post" action=""#;

pub const ROW_DEVICES: &'static str = "/devices/";

pub const ROW_CLEAR: &'static str = r#"/locations/delete">"#;

pub const ROW_CLEAR_BUTTON: &'static str = r#"<button type="submit" class="secondary">"#;

pub const ROW_SECOND_FORM: &'static str = r#"</button></form>
    <form method="post" action=""#;

pub const ROW_DELETE: &'static str = r#"/delete">"#;

pub const ROW_DELETE_BUTTON: &'static str = r#"<button type="submit" class="danger">"#;

pub const ROW_END: &'static str = r#"</button></form>
  </td>
</tr>"#;

pub const ADMIN_TITLE: &'static str = r#"</style>
</head>
<body>
  <main>
    <header>
      <div>
        <h1>"#;

pub const ADMIN_STATUS: &'static str = r#"</h1>
        <p>"#;

pub const ADMIN_SWITCH: &'static str = r#"</p>
      </div>
      <div class="header-actions">
        <a class="button secondary" href=""#;

pub const ADMIN_LOGOUT: &'static str = r#"</a>
        <form method="post" action=""#;

pub const ADMIN_LOGOUT_FIELDS: &'static str = r#"/logout">"#;

pub const ADMIN_LOGOUT_BUTTON: &'static str = r#"<button type="submit" class="secondary">"#;

pub const ADMIN_NOTICE: &'static str = r#"</button></form>
      </div>
    </header>
    "#;

pub const ADMIN_DEVICES: &'static str = r#"
    <section>
      <h2>"#;

pub const ADMIN_HEADINGS: &'static str = r#"</h2>
      <div class="table-wrap">
        <table>
          <thead>
            <tr>"#;

pub const ADMIN_ROWS: &'static str = r#"</tr>
          </thead>
          <tbody>"#;

pub const ADMIN_SWEEP: &'static str = r#"</tbody>
        </table>
      </div>
    </section>
    <section class="grid">
      <form method="post" action=""#;

pub const ADMIN_SWEEP_FIELDS: &'static str = r#"/stale/delete">
        "#;

pub const FORM_TITLE: &'static str = r#"
        <h2>"#;

pub const ADMIN_SWEEP_LABEL: &'static str = r#"</h2>
        <label>"#;

pub const ADMIN_SWEEP_DAYS: &'static str = r#"<input name="days" type="number" min="1" max="36500" value="30" required></label>
        <button type="submit">"#;

pub const ADMIN_AUTO: &'static str = r#"</button>
      </form>
      <form method="post" action=""#;

pub const ADMIN_AUTO_FIELDS: &'static str = r#"/auto-cleanup">
        "#;

pub const ADMIN_AUTO_STATUS: &'static str = r#"</h2>
        <p class="muted">"#;

pub const ADMIN_AUTO_LABEL: &'static str = r#"</p>
        <label>"#;

pub const ADMIN_AUTO_DAYS: &'static str = r#"<input name="days" type="number" min="1" max="36500" value=""#;

pub const ADMIN_AUTO_HINT: &'static str = r#"" placeholder=""#;

pub const ADMIN_AUTO_BUTTON: &'static str = r#""></label>
        <button type="submit">"#;

pub const ADMIN_END: &'static str = r#"</button>
      </form>
    </section>
  </main>
</body>
</html>"#;

/// The start of a page, up to its style sheet.
pub open spec fn page_head(lang: AdminLang) -> Seq<char> {
    DOCTYPE@ + lang.html_lang()@ + HEAD@ + lang.title()@ + HEAD_STYLE@ + STYLE@
}

/// The field that keeps the language in a form.
pub open spec fn lang_field(lang: AdminLang) -> Seq<char> {
    HIDDEN_LANG@ + lang.code()@ + TAG_END@
}

/// A message in a paragraph, if there is one.
pub open spec fn paragraph(start: Seq<char>, message: Option<Seq<char>>) -> Seq<char> {
    match message {
        Some(message) => start + escaped(message) + PARAGRAPH_END@,
        None => ""@,
    }
}

/// The page that asks for the password.
pub open spec fn login_page(path: Seq<char>, error: Option<Seq<char>>, lang: AdminLang) -> Seq<
    char,
> {
    page_head(lang) + LOGIN_TOOLS@ + url_of(path, "/login?lang="@ + lang.switch_code()@) + TAG_END@
        + lang.switch_label()@ + LOGIN_TITLE@ + lang.title()@ + LOGIN_FORM@ + path + LOGIN_FIELDS@
        + lang_field(lang) + LOGIN_LABEL@ + lang.password_label()@ + LOGIN_PASSWORD@ + paragraph(
        ERROR@,
        error,
    ) + LOGIN_BUTTON@ + lang.login()@ + LOGIN_END@
}

/// The coordinates of the last location, or a hyphen where there is none.
pub open spec fn place_text(entry: AdminProfile) -> Seq<char> {
    match entry.device.last_location {
        Some(_) => entry.coordinates.0 + ", "@ + entry.coordinates.1,
        None => "-"@,
    }
}

/// The platform of a device, or a hyphen.
pub open spec fn platform_text(platform: Option<Seq<char>>) -> Seq<char> {
    match platform {
        Some(platform) => platform,
        None => "-"@,
    }
}

/// The row of a device in the list.
pub open spec fn device_row(path: Seq<char>, entry: AdminProfile, lang: AdminLang) -> Seq<char> {
    let device = entry.device;
    ROW@ + escaped(device.name) + ROW_ID@ + id_text(device.id) + ROW_PLATFORM@ + escaped(
        platform_text(device.platform),
    ) + ROW_CELL@ + escaped(device.updated_at.text()) + ROW_CELL@ + escaped(
        place_text(entry),
    ) + ROW_CELL@ + signed_decimal(entry.location_count) + ROW_CELL@ + escaped(
        device.created_at.text(),
    ) + ROW_ACTIONS@ + path + ROW_DEVICES@ + id_text(device.id) + ROW_CLEAR@ + lang_field(lang)
        + ROW_CLEAR_BUTTON@ + lang.delete_locations()@ + ROW_SECOND_FORM@ + path + ROW_DEVICES@
        + id_text(device.id) + ROW_DELETE@ + lang_field(lang) + ROW_DELETE_BUTTON@
        + lang.delete_device()@ + ROW_END@
}

/// The rows of some devices, in order.
pub open spec fn device_rows(path: Seq<char>, entries: Seq<AdminProfile>, lang: AdminLang) -> Seq<
    char,
>
    decreases entries.len(),
{
    if entries.len() == 0 {
        ""@
    } else {
        device_rows(path, entries.drop_last(), lang) + device_row(path, entries.last(), lang)
    }
}

/// The list of devices: their rows, or one that says that there are none.
pub open spec fn device_list(path: Seq<char>, entries: Seq<AdminProfile>, lang: AdminLang) -> Seq<
    char,
> {
    if entries.len() == 0 {
        EMPTY_ROW@ + lang.empty_devices()@ + EMPTY_ROW_END@
    } else {
        device_rows(path, entries, lang)
    }
}

/// The headings of some columns, in order.
pub open spec fn heading_row(headings: Seq<Seq<char>>) -> Seq<char>
    decreases headings.len(),
{
    if headings.len() == 0 {
        ""@
    } else {
        heading_row(headings.drop_last()) + HEADING@ + escaped(headings.last()) + HEADING_END@
    }
}

/// The number of days in the field of the setting, if it has a value.
pub open spec fn days_text(days: Option<i64>) -> Seq<char> {
    match days {
        Some(days) => signed_decimal(days as int),
        None => ""@,
    }
}

/// The page with the devices and the settings.
pub open spec fn admin_page(
    path: Seq<char>,
    entries: Seq<AdminProfile>,
    days: Option<i64>,
    message: Option<Seq<char>>,
    lang: AdminLang,
) -> Seq<char> {
    page_head(lang) + ADMIN_TITLE@ + lang.title()@ + ADMIN_STATUS@ + escaped(
        status_text(lang, days),
    ) + ADMIN_SWITCH@ + url_of(path, "?lang="@ + lang.switch_code()@) + TAG_END@
        + lang.switch_label()@ + ADMIN_LOGOUT@ + path + ADMIN_LOGOUT_FIELDS@ + lang_field(lang)
        + ADMIN_LOGOUT_BUTTON@ + lang.logout()@ + ADMIN_NOTICE@ + paragraph(NOTICE@, message)
        + ADMIN_DEVICES@ + lang.devices()@ + ADMIN_HEADINGS@ + heading_row(headings(lang))
        + ADMIN_ROWS@ + device_list(path, entries, lang) + ADMIN_SWEEP@ + path + ADMIN_SWEEP_FIELDS@
        + lang_field(lang) + FORM_TITLE@ + lang.manual_cleanup()@ + ADMIN_SWEEP_LABEL@
        + lang.days()@ + ADMIN_SWEEP_DAYS@ + lang.delete_now()@ + ADMIN_AUTO@ + path
        + ADMIN_AUTO_FIELDS@ + lang_field(lang) + FORM_TITLE@ + lang.auto_cleanup()@
        + ADMIN_AUTO_STATUS@ + escaped(status_text(lang, days)) + ADMIN_AUTO_LABEL@ + lang.days()@
        + ADMIN_AUTO_DAYS@ + days_text(days) + ADMIN_AUTO_HINT@ + lang.empty_to_disable()@
        + ADMIN_AUTO_BUTTON@ + lang.save_settings()@ + ADMIN_END@
}

fn start_page(lang: AdminLang) -> (r: String)
    ensures
        r@ == page_head(lang),
{
    DOCTYPE.to_owned().concat(lang.html_lang()).concat(HEAD).concat(lang.title()).concat(
        HEAD_STYLE,
    ).concat(admin_css())
}

/// The field that keeps the language in a form.
pub fn hidden_lang_input(lang: AdminLang) -> (r: String)
    ensures
        r@ == lang_field(lang),
{
    HIDDEN_LANG.to_owned().concat(lang.code()).concat(TAG_END)
}

fn message_paragraph(start: &str, message: Option<&str>) -> (r: String)
    ensures
        r@ == paragraph(start@, message.deep_view()),
{
    match message {
        Some(message) => start.to_owned().concat(escape_html(message).as_str()).concat(
            PARAGRAPH_END,
        ),
        None => "".to_owned(),
    }
}

/// The page that asks for the password.
pub fn render_login_page(state: &AppState, error: Option<&str>, lang: AdminLang) -> (r: String)
    ensures
        r@ == login_page(state@.admin_path, error.deep_view(), lang),
{
    let error_html = message_paragraph(ERROR, error);
    let switch_url = admin_url(
        state,
        "/login?lang=".to_owned().concat(lang.switch_code()).as_str(),
    );
    let path = state.admin_path.as_str();
    let mut out = start_page(lang);
    out.append(LOGIN_TOOLS);
    out.append(switch_url.as_str());
    out.append(TAG_END);
    out.append(lang.switch_label());
    out.append(LOGIN_TITLE);
    out.append(lang.title());
    out.append(LOGIN_FORM);
    out.append(path);
    out.append(LOGIN_FIELDS);
    out.append(hidden_lang_input(lang).as_str());
    out.append(LOGIN_LABEL);
    out.append(lang.password_label());
    out.append(LOGIN_PASSWORD);
    out.append(error_html.as_str());
    out.append(LOGIN_BUTTON);
    out.append(lang.login());
    out.append(LOGIN_END);
    out
}

fn last_place(entry: &AdminDevice) -> (r: String)
    ensures
        r@ == place_text(entry.deep_view()),
{
    match &entry.device.last_location {
        Some(_) => entry.coordinates.0.clone().concat(", ").concat(entry.coordinates.1.as_str()),
        None => "-".to_owned(),
    }
}

/// The row of a device in the list.
pub fn render_admin_device_row(state: &AppState, entry: &AdminDevice, lang: AdminLang) -> (r:
    String)
    ensures
        r@ == device_row(state@.admin_path, entry.deep_view(), lang),
{
    let device = &entry.device;
    let path = state.admin_path.as_str();
    let id = id_to_text(device.id);
    let platform = match &device.platform {
        Some(platform) => escape_html(platform.as_str()),
        None => escape_html("-"),
    };
    let mut out = ROW.to_owned();
    out.append(escape_html(device.name.as_str()).as_str());
    out.append(ROW_ID);
    out.append(id.as_str());
    out.append(ROW_PLATFORM);
    out.append(platform.as_str());
    out.append(ROW_CELL);
    out.append(escape_html(time_to_text(device.updated_at).as_str()).as_str());
    out.append(ROW_CELL);
    out.append(escape_html(last_place(entry).as_str()).as_str());
    out.append(ROW_CELL);
    out.append(signed_text(entry.location_count).as_str());
    out.append(ROW_CELL);
    out.append(escape_html(time_to_text(device.created_at).as_str()).as_str());
    out.append(ROW_ACTIONS);
    out.append(path);
    out.append(ROW_DEVICES);
    out.append(id.as_str());
    out.append(ROW_CLEAR);
    out.append(hidden_lang_input(lang).as_str());
    out.append(ROW_CLEAR_BUTTON);
    out.append(lang.delete_locations());
    out.append(ROW_SECOND_FORM);
    out.append(path);
    out.append(ROW_DEVICES);
    out.append(id.as_str());
    out.append(ROW_DELETE);
    out.append(hidden_lang_input(lang).as_str());
    out.append(ROW_DELETE_BUTTON);
    out.append(lang.delete_device());
    out.append(ROW_END);
    out
}

fn render_device_list(state: &AppState, devices: &[AdminDevice], lang: AdminLang) -> (r: String)
    ensures
        r@ == device_list(state@.admin_path, devices.deep_view(), lang),
{
    if devices.len() == 0 {
        return EMPTY_ROW.to_owned().concat(lang.empty_devices()).concat(EMPTY_ROW_END);
    }
    let ghost all = devices.deep_view();
    let mut out = "".to_owned();
    let mut i: usize = 0;
    assert(all.take(0) == Seq::<AdminProfile>::empty());
    while i < devices.len()
        invariant
            i <= devices@.len(),
            all == devices.deep_view(),
            out@ == device_rows(state@.admin_path, all.take(i as int), lang),
        decreases devices@.len() - i,
    {
        assert(all.take(i + 1).drop_last() == all.take(i as int));
        assert(all.take(i + 1).last() == devices@[i as int].deep_view());
        out.append(render_admin_device_row(state, &devices[i], lang).as_str());
        i = i + 1;
    }
    assert(all.take(all.len() as int) == all);
    out
}

fn render_headings(lang: AdminLang) -> (r: String)
    ensures
        r@ == heading_row(headings(lang)),
{
    let headers = lang.table_headers();
    let ghost all = headings(lang);
    assert(headers@.map_values(|heading: &'static str| heading@) == all);
    assert(headers@.len() == 7);
    let mut out = "".to_owned();
    let mut i: usize = 0;
    assert(all.take(0) == Seq::<Seq<char>>::empty());
    while i < 7
        invariant
            i <= 7,
            headers@.len() == 7,
            headers@.map_values(|heading: &'static str| heading@) == all,
            out@ == heading_row(all.take(i as int)),
        decreases 7 - i,
    {
        assert(all.take(i + 1).drop_last() == all.take(i as int));
        assert(all.take(i + 1).last() == headers@[i as int]@);
        out.append(HEADING);
        out.append(escape_html(headers[i]).as_str());
        out.append(HEADING_END);
        i = i + 1;
    }
    assert(all.take(7) == all);
    out
}

/// The page with the devices and the settings.
pub fn render_admin_page(
    state: &AppState,
    devices: &[AdminDevice],
    auto_cleanup_days: Option<i64>,
    message: Option<&str>,
    lang: AdminLang,
) -> (r: String)
    ensures
        r@ == admin_page(
            state@.admin_path,
            devices.deep_view(),
            auto_cleanup_days,
            message.deep_view(),
            lang,
        ),
{
    let rows = render_device_list(state, devices, lang);
    let auto_days_value = match auto_cleanup_days {
        Some(days) => signed_text(days),
        None => "".to_owned(),
    };
    let status = escape_html(lang.auto_status(auto_cleanup_days).as_str());
    let message_html = message_paragraph(NOTICE, message);
    let switch_url = admin_url(state, "?lang=".to_owned().concat(lang.switch_code()).as_str());
    let header_html = render_headings(lang);
    let hidden_lang = hidden_lang_input(lang);
    let path = state.admin_path.as_str();
    let mut out = start_page(lang);
    out.append(ADMIN_TITLE);
    out.append(lang.title());
    out.append(ADMIN_STATUS);
    out.append(status.as_str());
    out.append(ADMIN_SWITCH);
    out.append(switch_url.as_str());
    out.append(TAG_END);
    out.append(lang.switch_label());
    out.append(ADMIN_LOGOUT);
    out.append(path);
    out.append(ADMIN_LOGOUT_FIELDS);
    out.append(hidden_lang.as_str());
    out.append(ADMIN_LOGOUT_BUTTON);
    out.append(lang.logout());
    out.append(ADMIN_NOTICE);
    out.append(message_html.as_str());
    out.append(ADMIN_DEVICES);
    out.append(lang.devices());
    out.append(ADMIN_HEADINGS);
    out.append(header_html.as_str());
    out.append(ADMIN_ROWS);
    out.append(rows.as_str());
    out.append(ADMIN_SWEEP);
    out.append(path);
    out.append(ADMIN_SWEEP_FIELDS);
    out.append(hidden_lang.as_str());
    out.append(FORM_TITLE);
    out.append(lang.manual_cleanup());
    out.append(ADMIN_SWEEP_LABEL);
    out.append(lang.days());
    out.append(ADMIN_SWEEP_DAYS);
    out.append(lang.delete_now());
    out.append(ADMIN_AUTO);
    out.append(path);
    out.append(ADMIN_AUTO_FIELDS);
    out.append(hidden_lang.as_str());
    out.append(FORM_TITLE);
    out.append(lang.auto_cleanup());
    out.append(ADMIN_AUTO_STATUS);
    out.append(status.as_str());
    out.append(ADMIN_AUTO_LABEL);
    out.append(lang.days());
    out.append(ADMIN_AUTO_DAYS);
    out.append(auto_days_value.as_str());
    out.append(ADMIN_AUTO_HINT);
    out.append(lang.empty_to_disable());
    out.append(ADMIN_AUTO_BUTTON);
    out.append(lang.save_settings());
    out.append(ADMIN_END);
    out
}

/// How often a character occurs in a text.
pub open spec fn tally(s: Seq<char>, c: char) -> nat
    decreases s.len(),
{
    if s.len() == 0 {
        0
    } else {
        tally(s.drop_last(), c) + if s.last() == c {
            1nat
        } else {
            0nat
        }
    }
}

/// Whether a character opens or closes a tag or an attribute.
pub open spec fn is_markup(c: char) -> bool {
    c == '<' || c == '>' || c == '"' || c == '\''
}

broadcast proof fn lemma_tally_adds(a: Seq<char>, b: Seq<char>, c: char)
    ensures
        #[trigger] tally(a + b, c) == tally(a, c) + tally(b, c),
    decreases b.len(),
{
    if b.len() == 0 {
        assert(a + b == a);
    } else {
        assert((a + b).drop_last() == a + b.drop_last());
        lemma_tally_adds(a, b.drop_last(), c);
    }
}

proof fn lemma_none_occurs(s: Seq<char>, c: char)
    requires
        forall|i: int| 0 <= i < s.len() ==> s[i] != c,
    ensures
        tally(s, c) == 0,
    decreases s.len(),
{
    if s.len() > 0 {
        lemma_none_occurs(s.drop_last(), c);
    }
}

proof fn lemma_escaped_adds_none(s: Seq<char>, c: char)
    requires
        is_markup(c),
    ensures
        tally(escaped(s), c) == 0,
{
    law_escaped_text_is_inert(s);
    lemma_none_occurs(escaped(s), c);
}

proof fn lemma_number_adds_none(n: int, c: char)
    requires
        is_markup(c),
    ensures
        tally(signed_decimal(n), c) == 0,
{
    let magnitude = if n < 0 {
        (-n) as nat
    } else {
        n as nat
    };
    law_decimal_is_digits(magnitude);
    lemma_none_occurs(signed_decimal(n), c);
}

proof fn lemma_id_adds_none(id: u128, c: char)
    requires
        is_markup(c),
    ensures
        tally(id_text(id), c) == 0,
{
    assert forall|i: int| 0 <= i < 36 implies id_text(id)[i] != c by {
        assert forall|place: int| #[trigger] id_digit(id, place) != c by {
            assert(0 <= id as int / pow(16, (31 - place) as nat) % 16 < 16);
        }
    }
    lemma_none_occurs(id_text(id), c);
}

/// Nothing that a device sends adds markup to its row: the rows of any two
/// devices have the same number of each character that opens or closes a tag or
/// an attribute.
pub proof fn law_row_markup_is_fixed(
    path: Seq<char>,
    one: AdminProfile,
    other: AdminProfile,
    lang: AdminLang,
    c: char,
)
    requires
        is_markup(c),
    ensures
        tally(device_row(path, one, lang), c) == tally(device_row(path, other, lang), c),
{
    broadcast use lemma_tally_adds;

    lemma_row_parts_add_none(one, c);
    lemma_row_parts_add_none(other, c);
}

proof fn lemma_row_parts_add_none(entry: AdminProfile, c: char)
    requires
        is_markup(c),
    ensures
        tally(escaped(entry.device.name), c) == 0,
        tally(id_text(entry.device.id), c) == 0,
        tally(escaped(platform_text(entry.device.platform)), c) == 0,
        tally(escaped(entry.device.updated_at.text()), c) == 0,
        tally(escaped(place_text(entry)), c) == 0,
        tally(signed_decimal(entry.location_count), c) == 0,
        tally(escaped(entry.device.created_at.text()), c) == 0,
{
    lemma_escaped_adds_none(entry.device.name, c);
    lemma_id_adds_none(entry.device.id, c);
    lemma_escaped_adds_none(platform_text(entry.device.platform), c);
    lemma_escaped_adds_none(entry.device.updated_at.text(), c);
    lemma_escaped_adds_none(place_text(entry), c);
    lemma_number_adds_none(entry.location_count, c);
    lemma_escaped_adds_none(entry.device.created_at.text(), c);
}

proof fn lemma_rows_markup(
    path: Seq<char>,
    ones: Seq<AdminProfile>,
    others: Seq<AdminProfile>,
    lang: AdminLang,
    c: char,
)
    requires
        is_markup(c),
        ones.len() == others.len(),
    ensures
        tally(device_rows(path, ones, lang), c) == tally(device_rows(path, others, lang), c),
    decreases ones.len(),
{
    broadcast use lemma_tally_adds;

    if ones.len() > 0 {
        lemma_rows_markup(path, ones.drop_last(), others.drop_last(), lang, c);
        law_row_markup_is_fixed(path, ones.last(), others.last(), lang, c);
    }
}

/// Nothing that devices send, and no notice, adds markup to the page: two pages
/// with the same number of devices, each with a notice, have the same number of
/// each character that opens or closes a tag or an attribute.
#[verifier::spinoff_prover]
#[verifier::rlimit(30)]
pub proof fn law_page_markup_is_fixed(
    path: Seq<char>,
    ones: Seq<AdminProfile>,
    others: Seq<AdminProfile>,
    days: Option<i64>,
    other_days: Option<i64>,
    notice: Seq<char>,
    other_notice: Seq<char>,
    lang: AdminLang,
    c: char,
)
    requires
        is_markup(c),
        ones.len() == others.len(),
    ensures
        tally(admin_page(path, ones, days, Some(notice), lang), c) == tally(
            admin_page(path, others, other_days, Some(other_notice), lang),
            c,
        ),
{
    broadcast use lemma_tally_adds;

    lemma_rows_markup(path, ones, others, lang, c);
    lemma_escaped_adds_none(notice, c);
    lemma_escaped_adds_none(other_notice, c);
    lemma_escaped_adds_none(status_text(lang, days), c);
    lemma_escaped_adds_none(status_text(lang, other_days), c);
    lemma_days_add_none(days, c);
    lemma_days_add_none(other_days, c);
}

proof fn lemma_days_add_none(days: Option<i64>, c: char)
    requires
        is_markup(c),
    ensures
        tally(days_text(days), c) == 0,
{
    reveal_strlit("");
    match days {
        Some(days) => lemma_number_adds_none(days as int, c),
        None => lemma_none_occurs(""@, c),
    }
}

/// The row of a device is the texts that are told of it, each escaped, set into
/// the same markup for every device: its name, its identifier, its platform or a
/// hyphen where it has none, when it was updated, the coordinates of its last
/// location or a hyphen where it has none, how many locations it has, when it was
/// created, and the two forms that delete.
pub proof fn law_row_tells_of_its_device(path: Seq<char>, entry: AdminProfile, lang: AdminLang)
    ensures
        ({
            let device = entry.device;
            let platform = if device.platform is Some {
                device.platform->0
            } else {
                seq!['-']
            };
            let place = if device.last_location is Some {
                entry.coordinates.0 + seq![',', ' '] + entry.coordinates.1
            } else {
                seq!['-']
            };
            let field = HIDDEN_LANG@ + lang.code()@ + TAG_END@;
            device_row(path, entry, lang) == ROW@ + escaped(device.name) + ROW_ID@ + id_text(
                device.id,
            ) + ROW_PLATFORM@ + escaped(platform) + ROW_CELL@ + escaped(device.updated_at.text())
                + ROW_CELL@ + escaped(place) + ROW_CELL@ + signed_decimal(entry.location_count)
                + ROW_CELL@ + escaped(device.created_at.text()) + ROW_ACTIONS@ + path + ROW_DEVICES@
                + id_text(device.id) + ROW_CLEAR@ + field + ROW_CLEAR_BUTTON@
                + lang.delete_locations()@ + ROW_SECOND_FORM@ + path + ROW_DEVICES@ + id_text(
                device.id,
            ) + ROW_DELETE@ + field + ROW_DELETE_BUTTON@ + lang.delete_device()@ + ROW_END@
        }),
{
    reveal_strlit("-");
    reveal_strlit(", ");
    assert("-"@ =~= seq!['-']);
    assert(", "@ =~= seq![',', ' ']);
}

broadcast proof fn lemma_longer_begins_alike(a: Seq<char>, b: Seq<char>, prefix: Seq<char>)
    requires
        begins_with(a, prefix),
    ensures
        #[trigger] begins_with(a + b, prefix),
{
    assert((a + b).take(prefix.len() as int) =~= a.take(prefix.len() as int));
}

proof fn lemma_begins_with_itself(s: Seq<char>)
    ensures
        begins_with(s, s),
{
    assert(s.take(s.len() as int) =~= s);
}

/// The platform that a row shows, or a hyphen where the device has none.
spec fn shown_platform(entry: AdminProfile) -> Seq<char> {
    if entry.device.platform is Some {
        entry.device.platform->0
    } else {
        seq!['-']
    }
}

/// The place that a row shows, or a hyphen where the device has none.
spec fn shown_place(entry: AdminProfile) -> Seq<char> {
    if entry.device.last_location is Some {
        entry.coordinates.0 + seq![',', ' '] + entry.coordinates.1
    } else {
        seq!['-']
    }
}

/// A row begins with its cells in their order: that of the name and the
/// identifier, that of the platform, that of the update, that of the place, that
/// of the number and that of the creation.
proof fn lemma_row_begins(path: Seq<char>, entry: AdminProfile, lang: AdminLang)
    ensures
        ({
            let row = device_row(path, entry, lang);
            let device = entry.device;
            let a = ROW@ + escaped(device.name) + ROW_ID@;
            let b = a + id_text(device.id) + ROW_PLATFORM@;
            let c = b + escaped(shown_platform(entry)) + ROW_CELL@;
            let d = c + escaped(device.updated_at.text()) + ROW_CELL@;
            let e = d + escaped(shown_place(entry)) + ROW_CELL@;
            let f = e + signed_decimal(entry.location_count) + ROW_CELL@;
            let g = f + escaped(device.created_at.text()) + ROW_ACTIONS@;
            &&& begins_with(row, a)
            &&& begins_with(row, b)
            &&& begins_with(row, c)
            &&& begins_with(row, d)
            &&& begins_with(row, e)
            &&& begins_with(row, f)
            &&& begins_with(row, g)
        }),
{
    broadcast use lemma_longer_begins_alike;

    law_row_tells_of_its_device(path, entry, lang);
    let device = entry.device;
    let a = ROW@ + escaped(device.name) + ROW_ID@;
    let b = a + id_text(device.id) + ROW_PLATFORM@;
    let c = b + escaped(shown_platform(entry)) + ROW_CELL@;
    let d = c + escaped(device.updated_at.text()) + ROW_CELL@;
    let e = d + escaped(shown_place(entry)) + ROW_CELL@;
    let f = e + signed_decimal(entry.location_count) + ROW_CELL@;
    let g = f + escaped(device.created_at.text()) + ROW_ACTIONS@;
    lemma_begins_with_itself(a);
    lemma_begins_with_itself(b);
    lemma_begins_with_itself(c);
    lemma_begins_with_itself(d);
    lemma_begins_with_itself(e);
    lemma_begins_with_itself(f);
    lemma_begins_with_itself(g);
}

/// The cell with the name, the identifier and, behind it, the cell with the
/// platform: whatever the platform is, its cell holds a text that stands for it,
/// and a hyphen only where there is none or where it is a hyphen.
pub proof fn law_platform_has_its_cell(path: Seq<char>, entry: AdminProfile, lang: AdminLang)
    ensures
        ({
            let head = ROW@ + escaped(entry.device.name) + ROW_ID@ + id_text(entry.device.id)
                + ROW_PLATFORM@;
            &&& entry.device.platform matches Some(platform) ==> begins_with(
                device_row(path, entry, lang),
                head + escaped(platform) + ROW_CELL@,
            ) && unescaped(escaped(platform)) == platform
            &&& entry.device.platform is None ==> begins_with(
                device_row(path, entry, lang),
                head + seq!['-'] + ROW_CELL@,
            )
        }),
{
    lemma_row_begins(path, entry, lang);
    match entry.device.platform {
        Some(platform) => {
            law_escaped_text_reads_back(platform);
        },
        None => {
            let hyphen = seq!['-'];
            assert(hyphen.drop_last() =~= Seq::<char>::empty());
            assert(escaped(hyphen.drop_last()) + hyphen =~= hyphen);
            assert(escaped(hyphen) == hyphen);
        },
    }
}

proof fn lemma_same_text_between(
    row: Seq<char>,
    before: Seq<char>,
    one: Seq<char>,
    other: Seq<char>,
    tag: Seq<char>,
)
    requires
        begins_with(row, before + one + tag),
        begins_with(row, before + other + tag),
        tag.len() > 0,
        tag[0] == '<',
        forall|i: int| 0 <= i < one.len() ==> one[i] != '<',
        forall|i: int| 0 <= i < other.len() ==> other[i] != '<',
    ensures
        one == other,
{
    let n = before.len() as int;
    let a = before + one + tag;
    let b = before + other + tag;
    assert(row.take(a.len() as int) == a);
    assert(row.take(b.len() as int) == b);
    assert(row[n + one.len()] == a[n + one.len()]);
    assert(row[n + other.len()] == b[n + other.len()]);
    if one.len() < other.len() {
        assert(b[n + one.len()] == other[one.len() as int]);
        assert(row[n + one.len()] == b[n + one.len()]);
    } else if other.len() < one.len() {
        assert(a[n + other.len()] == one[other.len() as int]);
        assert(row[n + other.len()] == a[n + other.len()]);
    } else {
        assert forall|i: int| 0 <= i < one.len() implies one[i] == other[i] by {
            assert(a[n + i] == one[i] && b[n + i] == other[i]);
            assert(row[n + i] == a[n + i] && row[n + i] == b[n + i]);
        }
        assert(one =~= other);
    }
}

proof fn lemma_id_opens_no_tag(id: u128)
    ensures
        forall|i: int| 0 <= i < id_text(id).len() ==> id_text(id)[i] != '<',
{
    assert forall|i: int| 0 <= i < 36 implies id_text(id)[i] != '<' by {
        assert forall|place: int| #[trigger] id_digit(id, place) != '<' by {
            assert(0 <= id as int / pow(16, (31 - place) as nat) % 16 < 16);
        }
    }
}

proof fn lemma_number_opens_no_tag(n: int)
    ensures
        forall|i: int| 0 <= i < signed_decimal(n).len() ==> signed_decimal(n)[i] != '<',
{
    let magnitude = if n < 0 {
        (-n) as nat
    } else {
        n as nat
    };
    law_decimal_is_digits(magnitude);
}

proof fn lemma_same_escaped(one: Seq<char>, other: Seq<char>)
    requires
        escaped(one) == escaped(other),
    ensures
        one == other,
{
    law_escaped_text_reads_back(one);
    law_escaped_text_reads_back(other);
}

/// Rows tell devices apart: two devices with the same row have the same name, the
/// same identifier, the same platform, the same times, the same place and the
/// same number of locations, as far as these are shown, where no platform and no
/// place are shown as a hyphen.
#[verifier::spinoff_prover]
#[verifier::rlimit(30)]
pub proof fn law_rows_tell_devices_apart(
    path: Seq<char>,
    one: AdminProfile,
    other: AdminProfile,
    lang: AdminLang,
)
    requires
        device_row(path, one, lang) == device_row(path, other, lang),
    ensures
        one.device.name == other.device.name,
        id_text(one.device.id) == id_text(other.device.id),
        one.device.platform is Some && other.device.platform is Some ==> one.device.platform
            == other.device.platform,
        one.device.platform matches Some(platform) ==> (other.device.platform is None ==> platform
            == seq!['-']),
        one.device.updated_at.text() == other.device.updated_at.text(),
        one.device.created_at.text() == other.device.created_at.text(),
        one.device.last_location is Some && other.device.last_location is Some
            ==> one.coordinates.0 + seq![',', ' '] + one.coordinates.1 == other.coordinates.0
            + seq![',', ' '] + other.coordinates.1,
        signed_decimal(one.location_count) == signed_decimal(other.location_count),
{
    let row = device_row(path, one, lang);
    lemma_row_begins(path, one, lang);
    lemma_row_begins(path, other, lang);
    lemma_tags_begin();
    law_escaped_text_is_inert(one.device.name);
    law_escaped_text_is_inert(other.device.name);
    lemma_same_text_between(
        row,
        ROW@,
        escaped(one.device.name),
        escaped(other.device.name),
        ROW_ID@,
    );
    lemma_same_escaped(one.device.name, other.device.name);
    let a = ROW@ + escaped(one.device.name) + ROW_ID@;
    lemma_id_opens_no_tag(one.device.id);
    lemma_id_opens_no_tag(other.device.id);
    lemma_same_text_between(
        row,
        a,
        id_text(one.device.id),
        id_text(other.device.id),
        ROW_PLATFORM@,
    );
    let b = a + id_text(one.device.id) + ROW_PLATFORM@;
    law_escaped_text_is_inert(shown_platform(one));
    law_escaped_text_is_inert(shown_platform(other));
    lemma_same_text_between(
        row,
        b,
        escaped(shown_platform(one)),
        escaped(shown_platform(other)),
        ROW_CELL@,
    );
    lemma_same_escaped(shown_platform(one), shown_platform(other));
    let c = b + escaped(shown_platform(one)) + ROW_CELL@;
    law_escaped_text_is_inert(one.device.updated_at.text());
    law_escaped_text_is_inert(other.device.updated_at.text());
    lemma_same_text_between(
        row,
        c,
        escaped(one.device.updated_at.text()),
        escaped(other.device.updated_at.text()),
        ROW_CELL@,
    );
    lemma_same_escaped(one.device.updated_at.text(), other.device.updated_at.text());
    let d = c + escaped(one.device.updated_at.text()) + ROW_CELL@;
    law_escaped_text_is_inert(shown_place(one));
    law_escaped_text_is_inert(shown_place(other));
    lemma_same_text_between(
        row,
        d,
        escaped(shown_place(one)),
        escaped(shown_place(other)),
        ROW_CELL@,
    );
    lemma_same_escaped(shown_place(one), shown_place(other));
    let e = d + escaped(shown_place(one)) + ROW_CELL@;
    lemma_number_opens_no_tag(one.location_count);
    lemma_number_opens_no_tag(other.location_count);
    lemma_same_text_between(
        row,
        e,
        signed_decimal(one.location_count),
        signed_decimal(other.location_count),
        ROW_CELL@,
    );
    let f = e + signed_decimal(one.location_count) + ROW_CELL@;
    law_escaped_text_is_inert(one.device.created_at.text());
    law_escaped_text_is_inert(other.device.created_at.text());
    lemma_same_text_between(
        row,
        f,
        escaped(one.device.created_at.text()),
        escaped(other.device.created_at.text()),
        ROW_ACTIONS@,
    );
    lemma_same_escaped(one.device.created_at.text(), other.device.created_at.text());
}

proof fn lemma_tags_begin()
    ensures
        ROW_ID@.len() > 0 && ROW_ID@[0] == '<',
        ROW_PLATFORM@.len() > 0 && ROW_PLATFORM@[0] == '<',
        ROW_CELL@.len() > 0 && ROW_CELL@[0] == '<',
        ROW_ACTIONS@.len() > 0 && ROW_ACTIONS@[0] == '<',
{
    reveal_strlit(r#"</strong><br><span class="muted">"#);
    reveal_strlit(
        r#"</span></td>
  <td>"#,
    );
    reveal_strlit(
        r#"</td>
  <td>"#,
    );
    reveal_strlit(
        r#"</td>
  <td class="actions">
    <form method="post" action=""#,
    );
}

/// The list has a row for every device, in their order, however many there are:
/// one device more is one row more behind the others. Where there are none it is
/// one line that says so.
pub proof fn law_every_device_has_its_row(
    path: Seq<char>,
    entries: Seq<AdminProfile>,
    entry: AdminProfile,
    lang: AdminLang,
)
    ensures
        entries.len() > 0 ==> device_list(path, entries.push(entry), lang) == device_list(
            path,
            entries,
            lang,
        ) + device_row(path, entry, lang),
        device_list(path, seq![entry], lang) == device_row(path, entry, lang),
        entries.len() == 0 ==> device_list(path, entries, lang) == EMPTY_ROW@ + lang.empty_devices()@
            + EMPTY_ROW_END@,
        device_rows(path, entries.push(entry), lang) == device_rows(path, entries, lang)
            + device_row(path, entry, lang),
        device_rows(path, Seq::empty(), lang) == Seq::<char>::empty(),
{
    reveal_strlit("");
    assert(""@ =~= Seq::<char>::empty());
    assert(entries.push(entry).drop_last() =~= entries);
    assert(seq![entry].drop_last() =~= Seq::<AdminProfile>::empty());
    assert(device_rows(path, seq![entry].drop_last(), lang) + device_row(path, entry, lang)
        =~= device_row(path, entry, lang));
}

/// The headings stand in their order, each in a cell of its own.
pub proof fn law_headings_stand_in_order(headings: Seq<Seq<char>>, heading: Seq<char>)
    ensures
        heading_row(headings.push(heading)) == heading_row(headings) + "<th>"@ + escaped(heading)
            + "</th>"@,
        heading_row(Seq::empty()) == Seq::<char>::empty(),
{
    reveal_strlit("");
    assert(""@ =~= Seq::<char>::empty());
    assert(headings.push(heading).drop_last() =~= headings);
}

/// The page that asks for the password: the error, where there is one, in a
/// paragraph of its own, and otherwise nothing in its place; the link to the
/// other language, and the form with its address and its language.
pub proof fn law_login_page_is_in_order(
    path: Seq<char>,
    error: Option<Seq<char>>,
    lang: AdminLang,
)
    ensures
        ({
            let field = HIDDEN_LANG@ + lang.code()@ + TAG_END@;
            let link = path + ("/login?lang="@ + lang.switch_code()@);
            let shown = if error is Some {
                ERROR@ + escaped(error->0) + "</p>"@
            } else {
                Seq::empty()
            };
            login_page(path, error, lang) == DOCTYPE@ + lang.html_lang()@ + HEAD@ + lang.title()@
                + HEAD_STYLE@ + STYLE@ + LOGIN_TOOLS@ + link + TAG_END@ + lang.switch_label()@
                + LOGIN_TITLE@ + lang.title()@ + LOGIN_FORM@ + path + LOGIN_FIELDS@ + field
                + LOGIN_LABEL@ + lang.password_label()@ + LOGIN_PASSWORD@ + shown + LOGIN_BUTTON@
                + lang.login()@ + LOGIN_END@
        }),
{
    reveal_strlit("");
    reveal_strlit("/login?lang=");
    assert(""@ =~= Seq::<char>::empty());
    let suffix = "/login?lang="@ + lang.switch_code()@;
    assert(suffix[0] == '/' && suffix.len() > 1);
    law_addresses_are_path_and_suffix(path, suffix);
}

/// The page with the devices and the settings: the sentence about the setting
/// twice, the notice where there is one, the headings, the devices, the number of
/// days where one is set, the link to the other language, and the forms with
/// their addresses and their language.
pub proof fn law_admin_page_is_in_order(
    path: Seq<char>,
    entries: Seq<AdminProfile>,
    days: Option<i64>,
    message: Option<Seq<char>>,
    lang: AdminLang,
)
    ensures
        ({
            let field = HIDDEN_LANG@ + lang.code()@ + TAG_END@;
            let link = path + ("?lang="@ + lang.switch_code()@);
            let status = escaped(status_text(lang, days));
            let notice = if message is Some {
                NOTICE@ + escaped(message->0) + "</p>"@
            } else {
                Seq::empty()
            };
            let list = if entries.len() == 0 {
                EMPTY_ROW@ + lang.empty_devices()@ + EMPTY_ROW_END@
            } else {
                device_rows(path, entries, lang)
            };
            let number = if days is Some {
                signed_decimal(days->0 as int)
            } else {
                Seq::empty()
            };
            admin_page(path, entries, days, message, lang) == DOCTYPE@ + lang.html_lang()@ + HEAD@
                + lang.title()@ + HEAD_STYLE@ + STYLE@ + ADMIN_TITLE@ + lang.title()@
                + ADMIN_STATUS@ + status + ADMIN_SWITCH@ + link + TAG_END@ + lang.switch_label()@
                + ADMIN_LOGOUT@ + path + ADMIN_LOGOUT_FIELDS@ + field + ADMIN_LOGOUT_BUTTON@
                + lang.logout()@ + ADMIN_NOTICE@ + notice + ADMIN_DEVICES@ + lang.devices()@
                + ADMIN_HEADINGS@ + heading_row(headings(lang)) + ADMIN_ROWS@ + list + ADMIN_SWEEP@
                + path + ADMIN_SWEEP_FIELDS@ + field + FORM_TITLE@ + lang.manual_cleanup()@
                + ADMIN_SWEEP_LABEL@ + lang.days()@ + ADMIN_SWEEP_DAYS@ + lang.delete_now()@
                + ADMIN_AUTO@ + path + ADMIN_AUTO_FIELDS@ + field + FORM_TITLE@
                + lang.auto_cleanup()@ + ADMIN_AUTO_STATUS@ + status + ADMIN_AUTO_LABEL@
                + lang.days()@ + ADMIN_AUTO_DAYS@ + number + ADMIN_AUTO_HINT@
                + lang.empty_to_disable()@ + ADMIN_AUTO_BUTTON@ + lang.save_settings()@ + ADMIN_END@
        }),
{
    reveal_strlit("");
    reveal_strlit("?lang=");
    assert(""@ =~= Seq::<char>::empty());
    let suffix = "?lang="@ + lang.switch_code()@;
    assert(suffix[0] == '?');
    law_addresses_are_path_and_suffix(path, suffix);
}

/// The markup of every page, word for word.
pub proof fn law_page_markup_is_word_for_word()
    ensures
        DOCTYPE@ == r#"<!doctype html>
<html lang=""#@,
        HEAD@ == r#"">
<head>
  <meta charset="utf-8">
  <meta name="viewport" content="width=device-width, initial-scale=1">
  <title>"#@,
        HEAD_STYLE@ == r#"</title>
  <style>"#@,
        TAG_END@ == r#"">"#@,
        HIDDEN_LANG@ == r#"<input type="hidden" name="lang" value=""#@,
        PARAGRAPH_END@ == "</p>"@,
        ERROR@ == r#"<p class="error">"#@,
        NOTICE@ == r#"<p class="notice">"#@,
{
}

/// The markup of the page that asks for the password, word for word: its form is
/// sent to the login below the admin path, with a field for the password.
pub proof fn law_login_markup_is_word_for_word()
    ensures
        LOGIN_TOOLS@ == r#"</style>
</head>
<body>
  <main class="login">
    <div class="login-tools"><a class="button secondary" href=""#@,
        LOGIN_TITLE@ == r#"</a></div>
    <h1>"#@,
        LOGIN_FORM@ == r#"</h1>
    <form method="post" action=""#@,
        LOGIN_FIELDS@ == r#"/login">
      "#@,
        LOGIN_LABEL@ == r#"
      <label>"#@,
        LOGIN_PASSWORD@ == r#"<input name="password" type="password" autocomplete="current-password" autofocus required></label>
      "#@,
        LOGIN_BUTTON@ == r#"
      <button type="submit">"#@,
        LOGIN_END@ == r#"</button>
    </form>
  </main>
</body>
</html>"#@,
{
}

/// The markup of a row, word for word: its two forms are sent below the device, one
/// to delete its locations and one to delete it.
pub proof fn law_row_markup_is_word_for_word()
    ensures
        EMPTY_ROW@ == r#"<tr><td colspan="7" class="muted">"#@,
        EMPTY_ROW_END@ == "</td></tr>"@,
        HEADING@ == "<th>"@,
        HEADING_END@ == "</th>"@,
        ROW@ == r#"<tr>
  <td><strong>"#@,
        ROW_ID@ == r#"</strong><br><span class="muted">"#@,
        ROW_PLATFORM@ == r#"</span></td>
  <td>"#@,
        ROW_CELL@ == r#"</td>
  <td>"#@,
        ROW_ACTIONS@ == r#"</td>
  <td class="actions">
    <form method="post" action=""#@,
        ROW_DEVICES@ == "/devices/"@,
        ROW_CLEAR@ == r#"/locations/delete">"#@,
        ROW_CLEAR_BUTTON@ == r#"<button type="submit" class="secondary">"#@,
        ROW_SECOND_FORM@ == r#"</button></form>
    <form method="post" action=""#@,
        ROW_DELETE@ == r#"/delete">"#@,
        ROW_DELETE_BUTTON@ == r#"<button type="submit" class="danger">"#@,
        ROW_END@ == r#"</button></form>
  </td>
</tr>"#@,
{
}

/// The markup of the admin page, word for word: its forms are sent to the logout,
/// to the sweep and to the setting below the admin path, and the number of days is
/// one from 1 to 36500.
pub proof fn law_admin_markup_is_word_for_word()
    ensures
        ADMIN_TITLE@ == r#"</style>
</head>
<body>
  <main>
    <header>
      <div>
        <h1>"#@,
        ADMIN_STATUS@ == r#"</h1>
        <p>"#@,
        ADMIN_SWITCH@ == r#"</p>
      </div>
      <div class="header-actions">
        <a class="button secondary" href=""#@,
        ADMIN_LOGOUT@ == r#"</a>
        <form method="post" action=""#@,
        ADMIN_LOGOUT_FIELDS@ == r#"/logout">"#@,
        ADMIN_LOGOUT_BUTTON@ == r#"<button type="submit" class="secondary">"#@,
        ADMIN_NOTICE@ == r#"</button></form>
      </div>
    </header>
    "#@,
        ADMIN_DEVICES@ == r#"
    <section>
      <h2>"#@,
        ADMIN_HEADINGS@ == r#"</h2>
      <div class="table-wrap">
        <table>
          <thead>
            <tr>"#@,
        ADMIN_ROWS@ == r#"</tr>
          </thead>
          <tbody>"#@,
        ADMIN_SWEEP@ == r#"</tbody>
        </table>
      </div>
    </section>
    <section class="grid">
      <form method="post" action=""#@,
        ADMIN_SWEEP_FIELDS@ == r#"/stale/delete">
        "#@,
        FORM_TITLE@ == r#"
        <h2>"#@,
        ADMIN_SWEEP_LABEL@ == r#"</h2>
        <label>"#@,
        ADMIN_SWEEP_DAYS@ == r#"<input name="days" type="number" min="1" max="36500" value="30" required></label>
        <button type="submit">"#@,
        ADMIN_AUTO@ == r#"</button>
      </form>
      <form method="post" action=""#@,
        ADMIN_AUTO_FIELDS@ == r#"/auto-cleanup">
        "#@,
        ADMIN_AUTO_STATUS@ == r#"</h2>
        <p class="muted">"#@,
        ADMIN_AUTO_LABEL@ == r#"</p>
        <label>"#@,
        ADMIN_AUTO_DAYS@ == r#"<input name="days" type="number" min="1" max="36500" value=""#@,
        ADMIN_AUTO_HINT@ == r#"" placeholder=""#@,
        ADMIN_AUTO_BUTTON@ == r#""></label>
        <button type="submit">"#@,
        ADMIN_END@ == r#"</button>
      </form>
    </section>
  </main>
</body>
</html>"#@,
{
}

} // verus!
