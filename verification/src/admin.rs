//! The session of the admin pages, their addresses and their notices.

use vstd::prelude::*;

use crate::api::{unauthorized, ApiError};
use crate::decimal::{decimal, unsigned_text};
use crate::header::{header_text, is_header_char, is_header_text, text_in};
use crate::hex::hex;
use crate::lang::AdminLang;
use crate::records::copied;
use crate::secret::is_session_secret;
use crate::settings::{admin_path_of, is_path, law_admin_path_is_in_order, MapConfig, MapKeys};
use crate::text::{
    begins_with, chars_of, first_at, is_white_space, law_parts_join_back, parted, pieces, same_text,
    split, split_once, trim, trimmed,
};

verus! {

/// The cookie that holds the session of an admin.
pub const ADMIN_SESSION_COOKIE: &'static str = "guideng_admin_session";

/// What a server is set up with.
pub struct Setup {
    pub token: Seq<char>,
    pub admin_password: Seq<char>,
    pub admin_path: Seq<char>,
    pub admin_session: Seq<char>,
    pub map_config: MapKeys,
}

/// What the server is set up with.
#[derive(Debug)]
pub struct AppState {
    pub token: String,
    pub admin_password: String,
    pub admin_path: String,
    pub admin_session: String,
    pub map_config: MapConfig,
}

impl View for AppState {
    type V = Setup;

    open spec fn view(&self) -> Setup {
        Setup {
            token: self.token@,
            admin_password: self.admin_password@,
            admin_path: self.admin_path@,
            admin_session: self.admin_session@,
            map_config: self.map_config.deep_view(),
        }
    }
}

/// What the address of an admin page asks for.
pub struct Asked {
    pub message: Option<Seq<char>>,
    pub msg: Option<Seq<char>>,
    pub count: Option<usize>,
    pub lang: Option<Seq<char>>,
}

/// The query in the address of an admin page.
#[derive(Debug)]
pub struct AdminQuery {
    pub message: Option<String>,
    pub msg: Option<String>,
    pub count: Option<usize>,
    pub lang: Option<String>,
}

impl View for AdminQuery {
    type V = Asked;

    open spec fn view(&self) -> Asked {
        Asked {
            message: self.message.deep_view(),
            msg: self.msg.deep_view(),
            count: self.count,
            lang: self.lang.deep_view(),
        }
    }
}

/// The value of a cookie in the parts of a header: that of the first part with
/// this name.
pub open spec fn cookie_in(parts: Seq<Seq<char>>, name: Seq<char>) -> Option<Seq<char>>
    decreases parts.len(),
{
    if parts.len() == 0 {
        None
    } else {
        match parted(trimmed(parts.first()), '=') {
            Some((key, value)) if key == name => Some(value),
            _ => cookie_in(parts.drop_first(), name),
        }
    }
}

/// The value of a cookie in a header.
pub open spec fn cookie_of(cookies: Seq<char>, name: Seq<char>) -> Option<Seq<char>> {
    cookie_in(pieces(cookies, ';'), name)
}

/// Whether a request with these cookies is one of an admin who has logged in.
pub open spec fn is_admin(session: Seq<char>, cookies: Option<Seq<char>>) -> bool {
    cookies matches Some(cookies) && cookie_of(cookies, ADMIN_SESSION_COOKIE@) == Some(session)
}

/// The cookie that a login sets.
pub open spec fn login_cookie(session: Seq<char>, path: Seq<char>) -> Seq<char> {
    ADMIN_SESSION_COOKIE@ + "="@ + session + "; HttpOnly; SameSite=Lax; Path="@ + path
        + "; Max-Age=2592000"@
}

/// The cookie that a logout sets.
pub open spec fn logout_cookie(path: Seq<char>) -> Seq<char> {
    ADMIN_SESSION_COOKIE@ + "=; HttpOnly; SameSite=Lax; Path="@ + path + "; Max-Age=0"@
}

/// The address of what stands below the admin path.
pub open spec fn url_of(path: Seq<char>, suffix: Seq<char>) -> Seq<char> {
    if suffix.len() == 0 || suffix == "/"@ {
        path
    } else if suffix[0] == '/' || suffix[0] == '?' {
        path + suffix
    } else {
        path + "/"@ + suffix
    }
}

/// What the address of the admin page with a notice has behind the admin path.
pub open spec fn notice_query(lang: AdminLang, message: Seq<char>, count: Option<usize>) -> Seq<
    char,
> {
    let query = "?lang="@ + lang.code()@ + "&msg="@ + message;
    match count {
        Some(count) => query + "&count="@ + decimal(count as nat),
        None => query,
    }
}

/// The notice that a code stands for. A code that is not known is its own
/// notice.
pub open spec fn notice_text(lang: AdminLang, code: Seq<char>, count: nat) -> Seq<char> {
    if code == "location_records_deleted"@ {
        match lang {
            AdminLang::Zh => decimal(count) + " 条位置记录已删除"@,
            AdminLang::En => decimal(count) + " location records deleted"@,
        }
    } else if code == "device_deleted"@ {
        match lang {
            AdminLang::Zh => "客户端已删除"@,
            AdminLang::En => "Device deleted"@,
        }
    } else if code == "stale_devices_deleted"@ {
        match lang {
            AdminLang::Zh => decimal(count) + " 个未更新客户端已删除"@,
            AdminLang::En => decimal(count) + " stale devices deleted"@,
        }
    } else if code == "auto_cleanup_saved"@ {
        match lang {
            AdminLang::Zh => "自动清理设置已保存，已删除 "@ + decimal(count) + " 个客户端"@,
            AdminLang::En => "Auto cleanup saved, "@ + decimal(count) + " devices deleted"@,
        }
    } else if code == "auto_cleanup_disabled"@ {
        match lang {
            AdminLang::Zh => "自动清理已关闭"@,
            AdminLang::En => "Auto cleanup disabled"@,
        }
    } else {
        code
    }
}

/// The notice that a query asks for, if it asks for one: its message, or what
/// its code stands for.
pub open spec fn notice_of(query: Asked, lang: AdminLang) -> Option<Seq<char>> {
    match (query.message, query.msg) {
        (Some(message), _) => Some(message),
        (None, Some(code)) => Some(
            notice_text(
                lang,
                code,
                match query.count {
                    Some(count) => count as nat,
                    None => 0,
                },
            ),
        ),
        (None, None) => None,
    }
}

/// The value of the first cookie with this name.
pub fn cookie_value(cookies: &str, name: &str) -> (r: Option<String>)
    ensures
        r.deep_view() == cookie_of(cookies@, name@),
{
    let parts = split(cookies, ';');
    let ghost all = parts.deep_view();
    let mut i: usize = 0;
    assert(all.skip(0) == all);
    while i < parts.len()
        invariant
            i <= parts@.len(),
            all == parts.deep_view(),
            all == pieces(cookies@, ';'),
            cookie_in(all, name@) == cookie_in(all.skip(i as int), name@),
        decreases parts@.len() - i,
    {
        assert(all.skip(i as int).first() == parts@[i as int]@);
        assert(all.skip(i as int).drop_first() == all.skip(i + 1));
        if let Some((key, value)) = split_once(trim(parts[i].as_str()).as_str(), '=') {
            if same_text(key.as_str(), name) {
                return Some(value);
            }
        }
        i = i + 1;
    }
    None
}

/// Whether a request is one of an admin who has logged in, judged by its
/// `Cookie` header.
pub fn is_admin_authenticated(state: &AppState, cookies: Option<&[u8]>) -> (r: bool)
    ensures
        r == is_admin(state@.admin_session, text_in(cookies)),
{
    match header_text(cookies) {
        Some(cookies) => match cookie_value(cookies.as_str(), ADMIN_SESSION_COOKIE) {
            Some(value) => same_text(value.as_str(), state.admin_session.as_str()),
            None => false,
        },
        None => false,
    }
}

/// Lets a request pass if it is one of an admin who has logged in.
pub fn require_admin(state: &AppState, cookies: Option<&[u8]>) -> (r: Result<(), ApiError>)
    ensures
        match r {
            Ok(_) => is_admin(state@.admin_session, text_in(cookies)),
            Err(e) => !is_admin(state@.admin_session, text_in(cookies)) && e@ == unauthorized(
                "admin login required"@,
            ),
        },
{
    if is_admin_authenticated(state, cookies) {
        Ok(())
    } else {
        Err(ApiError::unauthorized("admin login required"))
    }
}

/// The `Set-Cookie` header of a login.
pub fn session_cookie(state: &AppState) -> (r: String)
    ensures
        r@ == login_cookie(state@.admin_session, state@.admin_path),
{
    ADMIN_SESSION_COOKIE.to_owned().concat("=").concat(state.admin_session.as_str()).concat(
        "; HttpOnly; SameSite=Lax; Path=",
    ).concat(state.admin_path.as_str()).concat("; Max-Age=2592000")
}

/// The `Set-Cookie` header of a logout.
pub fn expired_cookie(state: &AppState) -> (r: String)
    ensures
        r@ == logout_cookie(state@.admin_path),
{
    ADMIN_SESSION_COOKIE.to_owned().concat("=; HttpOnly; SameSite=Lax; Path=").concat(
        state.admin_path.as_str(),
    ).concat("; Max-Age=0")
}

/// The address of what stands below the admin path.
pub fn admin_url(state: &AppState, suffix: &str) -> (r: String)
    ensures
        r@ == url_of(state@.admin_path, suffix@),
{
    let chars = chars_of(suffix);
    if chars.len() == 0 || same_text(suffix, "/") {
        state.admin_path.clone()
    } else if chars[0] == '/' || chars[0] == '?' {
        state.admin_path.clone().concat(suffix)
    } else {
        state.admin_path.clone().concat("/").concat(suffix)
    }
}

/// The address of the admin page with a notice.
pub fn admin_notice_url(
    state: &AppState,
    lang: AdminLang,
    message: &str,
    count: Option<usize>,
) -> (r: String)
    ensures
        r@ == url_of(state@.admin_path, notice_query(lang, message@, count)),
{
    let mut suffix = "?lang=".to_owned().concat(lang.code()).concat("&msg=").concat(message);
    if let Some(count) = count {
        suffix = suffix.concat("&count=").concat(unsigned_text(count as u64).as_str());
    }
    admin_url(state, suffix.as_str())
}

fn code_text(lang: AdminLang, code: &str, count: usize) -> (r: String)
    ensures
        r@ == notice_text(lang, code@, count as nat),
{
    let number = unsigned_text(count as u64);
    if same_text(code, "location_records_deleted") {
        match lang {
            AdminLang::Zh => number.concat(" 条位置记录已删除"),
            AdminLang::En => number.concat(" location records deleted"),
        }
    } else if same_text(code, "device_deleted") {
        match lang {
            AdminLang::Zh => "客户端已删除".to_owned(),
            AdminLang::En => "Device deleted".to_owned(),
        }
    } else if same_text(code, "stale_devices_deleted") {
        match lang {
            AdminLang::Zh => number.concat(" 个未更新客户端已删除"),
            AdminLang::En => number.concat(" stale devices deleted"),
        }
    } else if same_text(code, "auto_cleanup_saved") {
        match lang {
            AdminLang::Zh => "自动清理设置已保存，已删除 ".to_owned().concat(
                number.as_str(),
            ).concat(" 个客户端"),
            AdminLang::En => "Auto cleanup saved, ".to_owned().concat(number.as_str()).concat(
                " devices deleted",
            ),
        }
    } else if same_text(code, "auto_cleanup_disabled") {
        match lang {
            AdminLang::Zh => "自动清理已关闭".to_owned(),
            AdminLang::En => "Auto cleanup disabled".to_owned(),
        }
    } else {
        code.to_owned()
    }
}

/// The notice that a query asks for, if it asks for one.
pub fn admin_notice(query: &AdminQuery, lang: AdminLang) -> (r: Option<String>)
    ensures
        r.deep_view() == notice_of(query@, lang),
{
    if query.message.is_some() {
        return copied(&query.message);
    }
    let count: usize = match query.count {
        Some(count) => count,
        None => 0,
    };
    match &query.msg {
        Some(code) => Some(code_text(lang, code.as_str(), count)),
        None => None,
    }
}

/// The name and the value of the session cookie, as a browser sends them back.
pub open spec fn session_pair(session: Seq<char>) -> Seq<char> {
    ADMIN_SESSION_COOKIE@ + "="@ + session
}

/// The part of a `Set-Cookie` header that a browser sends back: what stands
/// before the first semicolon.
pub open spec fn sent_back(set_cookie: Seq<char>) -> Seq<char> {
    pieces(set_cookie, ';').first()
}

proof fn lemma_reveal_cookie()
    ensures
        ADMIN_SESSION_COOKIE@.len() == 21,
        ADMIN_SESSION_COOKIE@[0] == 'g',
        forall|i: int|
            0 <= i < ADMIN_SESSION_COOKIE@.len() ==> 'a' <= #[trigger] ADMIN_SESSION_COOKIE@[i] <= 'z'
                || ADMIN_SESSION_COOKIE@[i] == '_',
{
    reveal_strlit("guideng_admin_session");
}

proof fn lemma_first_piece(a: Seq<char>, rest: Seq<char>, sep: char)
    requires
        !a.contains(sep),
    ensures
        pieces(a + seq![sep] + rest, sep).len() >= 2,
        pieces(a + seq![sep] + rest, sep).first() == a,
    decreases rest.len(),
{
    let s = a + seq![sep] + rest;
    if rest.len() == 0 {
        assert(s.drop_last() == a);
        lemma_single_piece(a, sep);
    } else {
        assert(s.drop_last() == a + seq![sep] + rest.drop_last());
        lemma_first_piece(a, rest.drop_last(), sep);
    }
}

proof fn lemma_single_piece(a: Seq<char>, sep: char)
    requires
        !a.contains(sep),
    ensures
        pieces(a, sep) == seq![a],
    decreases a.len(),
{
    if a.len() > 0 {
        let head = a.drop_last();
        assert forall|i: int| 0 <= i < head.len() implies head[i] != sep by {
            assert(head[i] == a[i]);
        }
        lemma_single_piece(head, sep);
        assert(a.last() != sep);
        assert(head.push(a.last()) == a);
        assert(pieces(a, sep) =~~= seq![a]);
    } else {
        assert(pieces(a, sep) =~~= seq![a]);
    }
}

proof fn lemma_first_at(a: Seq<char>, rest: Seq<char>, c: char)
    requires
        !a.contains(c),
    ensures
        first_at(a + seq![c] + rest, c) == a.len(),
    decreases a.len(),
{
    let s = a + seq![c] + rest;
    if a.len() > 0 {
        assert(s.first() == a[0] && a[0] != c);
        let tail = a.drop_first();
        assert forall|i: int| 0 <= i < tail.len() implies tail[i] != c by {
            assert(tail[i] == a[i + 1]);
        }
        lemma_first_at(tail, rest, c);
        assert(s.drop_first() == tail + seq![c] + rest);
    }
}

proof fn lemma_pair_parts(session: Seq<char>)
    ensures
        parted(session_pair(session), '=') == Some((ADMIN_SESSION_COOKIE@, session)),
{
    lemma_reveal_cookie();
    reveal_strlit("=");
    let name = ADMIN_SESSION_COOKIE@;
    let pair = session_pair(session);
    assert(pair == name + seq!['='] + session);
    assert(!name.contains('='));
    lemma_first_at(name, session, '=');
    assert(pair.take(name.len() as int) == name);
    assert(pair.skip(name.len() as int + 1) == session);
}

proof fn lemma_found_in_parts(
    parts: Seq<Seq<char>>,
    name: Seq<char>,
    value: Seq<char>,
    i: int,
)
    requires
        0 <= i < parts.len(),
        parted(trimmed(parts[i]), '=') == Some((name, value)),
        forall|j: int|
            0 <= j < i ==> !(parted(trimmed(#[trigger] parts[j]), '=') matches Some(pair) && pair.0
                == name),
    ensures
        cookie_in(parts, name) == Some(value),
    decreases i,
{
    if i > 0 {
        let rest = parts.drop_first();
        assert(rest[i - 1] == parts[i]);
        assert forall|j: int| 0 <= j < i - 1 implies !(parted(trimmed(#[trigger] rest[j]), '=') matches Some(
            pair,
        ) && pair.0 == name) by {
            assert(rest[j] == parts[j + 1]);
        }
        assert(!(parted(trimmed(parts[0]), '=') matches Some(pair) && pair.0 == name));
        lemma_found_in_parts(rest, name, value, i - 1);
    }
}

/// A request that brings the session, among whatever other cookies, is one of an
/// admin who has logged in, unless another cookie of the same name comes first.
pub proof fn law_session_is_found(session: Seq<char>, cookies: Seq<char>, i: int)
    requires
        0 <= i < pieces(cookies, ';').len(),
        trimmed(pieces(cookies, ';')[i]) == session_pair(session),
        forall|j: int|
            0 <= j < i ==> !(parted(trimmed(#[trigger] pieces(cookies, ';')[j]), '=') matches Some(
                pair,
            ) && pair.0 == ADMIN_SESSION_COOKIE@),
    ensures
        is_admin(session, Some(cookies)),
{
    lemma_pair_parts(session);
    lemma_found_in_parts(pieces(cookies, ';'), ADMIN_SESSION_COOKIE@, session, i);
}

proof fn lemma_secret_is_plain(session: Seq<char>)
    requires
        is_session_secret(session),
    ensures
        session.len() == 64,
        forall|i: int|
            0 <= i < session.len() ==> '0' <= #[trigger] session[i] <= '9' || 'a' <= session[i]
                <= 'f',
{
    let bytes = choose|bytes: Seq<u8>| bytes.len() == 32 && session == #[trigger] hex(bytes);
    assert forall|i: int| 0 <= i < session.len() implies '0' <= #[trigger] session[i] <= '9' || 'a'
        <= session[i] <= 'f' by {
        let b = bytes[i / 2];
        assert(0 <= b as int / 16 < 16);
        assert(0 <= b as int % 16 < 16);
    }
}

/// Whoever has logged in is recognised by the cookie that the login set, and is
/// not any more by the one that a logout set.
pub proof fn law_login_is_remembered_until_logout(session: Seq<char>, path: Seq<char>)
    requires
        is_session_secret(session),
    ensures
        is_admin(session, Some(sent_back(login_cookie(session, path)))),
        !is_admin(session, Some(sent_back(logout_cookie(path)))),
{
    lemma_reveal_cookie();
    lemma_secret_is_plain(session);
    reveal_strlit("=");
    let name = ADMIN_SESSION_COOKIE@;
    let pair = session_pair(session);
    assert(pair == name + seq!['='] + session);
    assert(!pair.contains(';'));
    let attributes = "; HttpOnly; SameSite=Lax; Path="@;
    reveal_strlit("; HttpOnly; SameSite=Lax; Path=");
    let set = login_cookie(session, path);
    let rest = attributes.drop_first() + path + "; Max-Age=2592000"@;
    assert(set == pair + seq![';'] + rest);
    lemma_first_piece(pair, rest, ';');
    lemma_single_piece(pair, ';');
    assert(sent_back(set) == pair);
    lemma_bare(pair);
    law_session_is_found(session, pair, 0);
    let empty = Seq::<char>::empty();
    let bare_pair = session_pair(empty);
    assert(bare_pair == name.push('='));
    assert(!bare_pair.contains(';'));
    reveal_strlit("=; HttpOnly; SameSite=Lax; Path=");
    let unset = logout_cookie(path);
    let tail = "=; HttpOnly; SameSite=Lax; Path="@.skip(2) + path + "; Max-Age=0"@;
    assert(unset == bare_pair + seq![';'] + tail);
    lemma_first_piece(bare_pair, tail, ';');
    lemma_single_piece(bare_pair, ';');
    assert(sent_back(unset) == bare_pair);
    lemma_bare(bare_pair);
    lemma_pair_parts(empty);
    lemma_found_in_parts(pieces(bare_pair, ';'), name, empty, 0);
}

proof fn lemma_bare(s: Seq<char>)
    requires
        s.len() > 0,
        !is_white_space(s.first()),
        !is_white_space(s.last()),
    ensures
        trimmed(s) == s,
{
}

/// Everything below the admin path that is used can be redirected to, and both
/// cookies can be set.
pub proof fn law_addresses_and_cookies_fit_headers(
    setting: Seq<char>,
    suffix: Seq<char>,
    session: Seq<char>,
)
    requires
        admin_path_of(setting) is Ok,
        is_header_text(suffix),
        is_session_secret(session),
    ensures
        ({
            let path = admin_path_of(setting)->Ok_0;
            &&& is_header_text(url_of(path, suffix))
            &&& is_header_text(login_cookie(session, path))
            &&& is_header_text(logout_cookie(path))
        }),
{
    let path = admin_path_of(setting)->Ok_0;
    law_admin_path_is_in_order(setting);
    lemma_path_fits_header(path);
    lemma_secret_is_plain(session);
    lemma_reveal_cookie();
    reveal_strlit("/");
    reveal_strlit("=");
    reveal_strlit("; HttpOnly; SameSite=Lax; Path=");
    reveal_strlit("; Max-Age=2592000");
    reveal_strlit("=; HttpOnly; SameSite=Lax; Path=");
    reveal_strlit("; Max-Age=0");
    assert(is_header_text(ADMIN_SESSION_COOKIE@));
    assert(is_header_text(session));
    lemma_header_texts(path, "/"@);
    lemma_header_texts(path, suffix);
    lemma_header_texts(path + "/"@, suffix);
    let a = ADMIN_SESSION_COOKIE@ + "="@;
    lemma_header_texts(ADMIN_SESSION_COOKIE@, "="@);
    lemma_header_texts(a, session);
    lemma_header_texts(a + session, "; HttpOnly; SameSite=Lax; Path="@);
    lemma_header_texts(a + session + "; HttpOnly; SameSite=Lax; Path="@, path);
    lemma_header_texts(
        a + session + "; HttpOnly; SameSite=Lax; Path="@ + path,
        "; Max-Age=2592000"@,
    );
    let b = ADMIN_SESSION_COOKIE@ + "=; HttpOnly; SameSite=Lax; Path="@;
    lemma_header_texts(ADMIN_SESSION_COOKIE@, "=; HttpOnly; SameSite=Lax; Path="@);
    lemma_header_texts(b, path);
    lemma_header_texts(b + path, "; Max-Age=0"@);
}

proof fn lemma_path_fits_header(path: Seq<char>)
    requires
        is_path(path),
    ensures
        is_header_text(path),
{
}

proof fn lemma_header_texts(a: Seq<char>, b: Seq<char>)
    requires
        is_header_text(a),
        is_header_text(b),
    ensures
        is_header_text(a + b),
{
    assert forall|i: int| 0 <= i < (a + b).len() implies is_header_char(#[trigger] (a + b)[i]) by {
        if i < a.len() {
            assert((a + b)[i] == a[i]);
        } else {
            assert((a + b)[i] == b[i - a.len()]);
        }
    }
}

/// The value of a cookie is that of the first part of the header that names it:
/// the name, an equals sign and the value, with white space round the three. No
/// part before it has that name. Where there is no value, no part has it.
pub proof fn law_cookie_is_the_first_of_its_name(cookies: Seq<char>, name: Seq<char>)
    requires
        !name.contains('='),
    ensures
        match cookie_of(cookies, name) {
            Some(value) => exists|i: int|
                #![trigger pieces(cookies, ';')[i]]
                0 <= i < pieces(cookies, ';').len() && trimmed(pieces(cookies, ';')[i])
                    == name.push('=') + value && forall|j: int, other: Seq<char>|
                    0 <= j < i ==> trimmed(#[trigger] pieces(cookies, ';')[j])
                        != #[trigger] (name.push('=') + other),
            None => forall|j: int, other: Seq<char>|
                0 <= j < pieces(cookies, ';').len() ==> trimmed(#[trigger] pieces(cookies, ';')[j])
                    != #[trigger] (name.push('=') + other),
        },
{
    lemma_cookie_in_parts(pieces(cookies, ';'), name);
}

proof fn lemma_cookie_in_parts(parts: Seq<Seq<char>>, name: Seq<char>)
    requires
        !name.contains('='),
    ensures
        match cookie_in(parts, name) {
            Some(value) => exists|i: int|
                #![trigger parts[i]]
                0 <= i < parts.len() && trimmed(parts[i]) == name.push('=') + value && forall|
                    j: int,
                    other: Seq<char>,
                |
                    0 <= j < i ==> trimmed(#[trigger] parts[j]) != #[trigger] (name.push('=')
                        + other),
            None => forall|j: int, other: Seq<char>|
                0 <= j < parts.len() ==> trimmed(#[trigger] parts[j]) != #[trigger] (name.push('=')
                    + other),
        },
    decreases parts.len(),
{
    if parts.len() > 0 {
        let part = trimmed(parts.first());
        law_parts_join_back(part, '=');
        let named = parted(part, '=') matches Some(pair) && pair.0 == name;
        if !named {
            assert forall|other: Seq<char>| part != #[trigger] (name.push('=') + other) by {
                if part == name.push('=') + other {
                    assert(part == name + seq!['='] + other);
                    lemma_first_at(name, other, '=');
                    assert(part.take(name.len() as int) == name);
                }
            }
            let rest = parts.drop_first();
            lemma_cookie_in_parts(rest, name);
            match cookie_in(rest, name) {
                Some(value) => {
                    let i = choose|i: int|
                        #![trigger rest[i]]
                        0 <= i < rest.len() && trimmed(rest[i]) == name.push('=') + value && forall|
                            j: int,
                            other: Seq<char>,
                        |
                            0 <= j < i ==> trimmed(#[trigger] rest[j]) != #[trigger] (name.push('=')
                                + other);
                    assert(parts[i + 1] == rest[i]);
                    assert forall|j: int, other: Seq<char>| 0 <= j < i + 1 implies trimmed(
                        #[trigger] parts[j],
                    ) != #[trigger] (name.push('=') + other) by {
                        if j > 0 {
                            assert(parts[j] == rest[j - 1]);
                        }
                    }
                },
                None => {
                    assert forall|j: int, other: Seq<char>| 0 <= j < parts.len() implies trimmed(
                        #[trigger] parts[j],
                    ) != #[trigger] (name.push('=') + other) by {
                        if j > 0 {
                            assert(parts[j] == rest[j - 1]);
                        }
                    }
                },
            }
        } else {
            assert(parts[0] == parts.first());
        }
    }
}

/// Only a request that brings the session is one of an admin: among the parts of
/// its `Cookie` header is the name of the session cookie with the session.
pub proof fn law_admin_brings_the_session(session: Seq<char>, cookies: Option<Seq<char>>)
    requires
        is_admin(session, cookies),
    ensures
        cookies matches Some(text) && exists|i: int|
            #![trigger pieces(text, ';')[i]]
            0 <= i < pieces(text, ';').len() && trimmed(pieces(text, ';')[i])
                == "guideng_admin_session="@ + session,
{
    lemma_reveal_cookie();
    reveal_strlit("guideng_admin_session");
    reveal_strlit("guideng_admin_session=");
    let name = ADMIN_SESSION_COOKIE@;
    assert(name.push('=') =~= "guideng_admin_session="@);
    let text = cookies->0;
    law_cookie_is_the_first_of_its_name(text, name);
}

/// What the two cookies say: the session until the logout, for a month, for the
/// admin pages alone, and out of reach of scripts.
pub proof fn law_cookies_are_word_for_word(session: Seq<char>, path: Seq<char>)
    ensures
        login_cookie(session, path) == "guideng_admin_session="@ + session
            + "; HttpOnly; SameSite=Lax; Path="@ + path + "; Max-Age=2592000"@,
        logout_cookie(path) == "guideng_admin_session="@ + "; HttpOnly; SameSite=Lax; Path="@ + path
            + "; Max-Age=0"@,
{
    reveal_strlit("guideng_admin_session");
    reveal_strlit("guideng_admin_session=");
    reveal_strlit("=");
    reveal_strlit("; HttpOnly; SameSite=Lax; Path=");
    reveal_strlit("=; HttpOnly; SameSite=Lax; Path=");
    assert(ADMIN_SESSION_COOKIE@ + "="@ =~= "guideng_admin_session="@);
    assert(ADMIN_SESSION_COOKIE@ + "=; HttpOnly; SameSite=Lax; Path="@
        =~= "guideng_admin_session="@ + "; HttpOnly; SameSite=Lax; Path="@);
}

/// Every address below the admin path begins with the path, and what stands
/// behind the path is what was asked for, with a slash before it where it has
/// neither a slash nor a question mark of its own; a slash alone adds nothing.
pub proof fn law_addresses_are_path_and_suffix(path: Seq<char>, suffix: Seq<char>)
    ensures
        begins_with(url_of(path, suffix), path),
        suffix == seq!['/'] ==> url_of(path, suffix) == path,
        suffix.len() == 0 ==> url_of(path, suffix) == path,
        suffix.len() > 0 && (suffix[0] == '?' || (suffix[0] == '/' && suffix.len() > 1)) ==> url_of(
            path,
            suffix,
        ) == path + suffix,
        suffix.len() > 0 && suffix[0] != '?' && suffix[0] != '/' ==> url_of(path, suffix)
            == path.push('/') + suffix,
{
    reveal_strlit("/");
    assert("/"@ =~= seq!['/']);
    assert(path + "/"@ + suffix =~= path.push('/') + suffix);
    assert(path.take(path.len() as int) == path);
    assert((path + suffix).take(path.len() as int) == path);
    assert((path.push('/') + suffix).take(path.len() as int) == path);
}

/// The address with a notice carries the language, the code and the number,
/// where there is one.
pub proof fn law_notice_addresses_carry_their_parts(
    path: Seq<char>,
    lang: AdminLang,
    code: Seq<char>,
    count: usize,
)
    ensures
        url_of(path, notice_query(lang, code, None)) == path + ("?lang="@ + lang.code()@ + "&msg="@
            + code),
        url_of(path, notice_query(lang, code, Some(count))) == path + ("?lang="@ + lang.code()@
            + "&msg="@ + code + "&count="@ + decimal(count as nat)),
{
    reveal_strlit("?lang=");
    let short = "?lang="@ + lang.code()@ + "&msg="@ + code;
    let long = short + "&count="@ + decimal(count as nat);
    assert(short[0] == '?' && long[0] == '?');
    law_addresses_are_path_and_suffix(path, short);
    law_addresses_are_path_and_suffix(path, long);
}

/// What the notices say, whatever the number. A code that is not one of the five
/// is its own notice.
pub proof fn law_notices_are_word_for_word(code: Seq<char>, count: nat)
    ensures
        notice_text(AdminLang::Zh, "location_records_deleted"@, count) == decimal(count)
            + " 条位置记录已删除"@,
        notice_text(AdminLang::En, "location_records_deleted"@, count) == decimal(count)
            + " location records deleted"@,
        notice_text(AdminLang::Zh, "device_deleted"@, count) == "客户端已删除"@,
        notice_text(AdminLang::En, "device_deleted"@, count) == "Device deleted"@,
        notice_text(AdminLang::Zh, "stale_devices_deleted"@, count) == decimal(count)
            + " 个未更新客户端已删除"@,
        notice_text(AdminLang::En, "stale_devices_deleted"@, count) == decimal(count)
            + " stale devices deleted"@,
        notice_text(AdminLang::Zh, "auto_cleanup_saved"@, count)
            == "自动清理设置已保存，已删除 "@ + decimal(count) + " 个客户端"@,
        notice_text(AdminLang::En, "auto_cleanup_saved"@, count) == "Auto cleanup saved, "@
            + decimal(count) + " devices deleted"@,
        notice_text(AdminLang::Zh, "auto_cleanup_disabled"@, count) == "自动清理已关闭"@,
        notice_text(AdminLang::En, "auto_cleanup_disabled"@, count) == "Auto cleanup disabled"@,
        code != "location_records_deleted"@ && code != "device_deleted"@ && code
            != "stale_devices_deleted"@ && code != "auto_cleanup_saved"@ && code
            != "auto_cleanup_disabled"@ ==> notice_text(AdminLang::Zh, code, count) == code
            && notice_text(AdminLang::En, code, count) == code,
{
    reveal_strlit("location_records_deleted");
    reveal_strlit("device_deleted");
    reveal_strlit("stale_devices_deleted");
    reveal_strlit("auto_cleanup_saved");
    reveal_strlit("auto_cleanup_disabled");
    assert("location_records_deleted"@.len() == 24);
    assert("device_deleted"@.len() == 14);
    assert("stale_devices_deleted"@.len() == 21);
    assert("auto_cleanup_saved"@.len() == 18);
    assert("auto_cleanup_disabled"@.len() == 21);
    assert("stale_devices_deleted"@[0] != "auto_cleanup_disabled"@[0]);
}

/// A query asks for its message, whatever else it holds; without one for what its
/// code stands for, with its number or with zero; without either for nothing.
pub proof fn law_notice_is_message_or_code(query: Asked, lang: AdminLang)
    ensures
        query.message matches Some(message) ==> notice_of(query, lang) == Some(message),
        query.message is None && query.msg is None ==> notice_of(query, lang) is None,
        query.message is None ==> (query.msg matches Some(code) ==> {
            &&& query.count matches Some(count) ==> notice_of(query, lang) == Some(
                notice_text(lang, code, count as nat),
            )
            &&& query.count is None ==> notice_of(query, lang) == Some(notice_text(lang, code, 0))
        }),
{
}

/// The views of what the server is set up with, and of a query, hold what these
/// hold.
pub proof fn law_views_of_the_admin_pages_are_whole(state: AppState, query: AdminQuery)
    ensures
        state@.token == state.token@,
        state@.admin_password == state.admin_password@,
        state@.admin_path == state.admin_path@,
        state@.admin_session == state.admin_session@,
        query.message matches Some(text) ==> query@.message == Some(text@),
        query.message is None ==> query@.message is None,
        query.msg matches Some(text) ==> query@.msg == Some(text@),
        query.msg is None ==> query@.msg is None,
        query.lang matches Some(text) ==> query@.lang == Some(text@),
        query.lang is None ==> query@.lang is None,
        query@.count == query.count,
{
}

} // verus!
