//! What the server reads from its environment.

use vstd::prelude::*;

use crate::header::{header_accepts, is_header_text};
use crate::text::{
    begins_with, chars_of, is_white_space, law_pieces_join_back, law_trim_is_idempotent,
    law_trimmed_is_bare, pieces, same_text, split, trim, trimmed,
    text_of, trimmed_end, trimmed_start,
};

verus! {

/// The address that the server listens on where none is configured.
pub const DEFAULT_BIND: &'static str = "0.0.0.0:8080";

/// The database where none is configured.
pub const DEFAULT_DATABASE: &'static str = "/data/guideng.sqlite3";

/// The admin path where none is configured.
pub const DEFAULT_ADMIN_PATH: &'static str = "/admin";

/// The origins where none are configured.
pub const DEFAULT_ORIGINS: &'static str = "*";

/// The header that a request may bring its token in, besides `Authorization`.
pub const TOKEN_HEADER: &'static str = "x-guideng-token";

/// What is logged where nothing is configured.
pub const DEFAULT_LOG_FILTER: &'static str = "guideng_server=info,tower_http=info";

/// The name of the log file where none is configured.
pub const LOG_FILE: &'static str = "guideng.log";

/// Why a setting is refused.
#[derive(Clone, Copy, Debug, PartialEq, Eq, Structural)]
pub enum SettingError {
    /// The admin path holds what a path may not hold.
    InvalidAdminPath,
    /// The admin path is that of another route.
    ReservedAdminPath,
    /// An allowed origin cannot stand in a header.
    InvalidOrigin,
    /// The path of the log names no file.
    InvalidLogPath,
}

impl SettingError {
    /// The message about the setting.
    #[verifier::allow_in_spec]
    pub fn message(self) -> &'static str
        returns
            (match self {
                SettingError::InvalidAdminPath => "invalid GUIDENG_ADMIN_PATH",
                SettingError::ReservedAdminPath => {
                    "GUIDENG_ADMIN_PATH conflicts with a reserved route"
                },
                SettingError::InvalidOrigin => "failed to parse header value",
                SettingError::InvalidLogPath => "invalid GUIDENG_LOG_PATH",
            }),
    {
        match self {
            SettingError::InvalidAdminPath => "invalid GUIDENG_ADMIN_PATH",
            SettingError::ReservedAdminPath => "GUIDENG_ADMIN_PATH conflicts with a reserved route",
            SettingError::InvalidOrigin => "failed to parse header value",
            SettingError::InvalidLogPath => "invalid GUIDENG_LOG_PATH",
        }
    }
}

/// The value of an optional setting: what was set, trimmed, unless nothing is
/// left of it.
pub open spec fn given(value: Option<Seq<char>>) -> Option<Seq<char>> {
    match value {
        Some(text) if trimmed(text).len() > 0 => Some(trimmed(text)),
        _ => None,
    }
}

/// The value of an optional setting.
pub fn read_optional_env(value: Option<&str>) -> (r: Option<String>)
    ensures
        r.deep_view() == given(value.deep_view()),
{
    match value {
        Some(text) => {
            let bare = trim(text);
            if bare.as_str().is_empty() {
                None
            } else {
                Some(bare)
            }
        },
        None => None,
    }
}

/// The map that clients draw on, and the keys that they need for it.
#[derive(Debug)]
pub struct MapConfig {
    pub provider: &'static str,
    pub amap_web_js_api_key: Option<String>,
    pub amap_web_js_security_code: Option<String>,
    pub amap_android_key: Option<String>,
    pub amap_ios_key: Option<String>,
}

/// The keys of the map.
pub struct MapKeys {
    pub provider: Seq<char>,
    pub amap_web_js_api_key: Option<Seq<char>>,
    pub amap_web_js_security_code: Option<Seq<char>>,
    pub amap_android_key: Option<Seq<char>>,
    pub amap_ios_key: Option<Seq<char>>,
}

impl DeepView for MapConfig {
    type V = MapKeys;

    open spec fn deep_view(&self) -> MapKeys {
        MapKeys {
            provider: self.provider@,
            amap_web_js_api_key: self.amap_web_js_api_key.deep_view(),
            amap_web_js_security_code: self.amap_web_js_security_code.deep_view(),
            amap_android_key: self.amap_android_key.deep_view(),
            amap_ios_key: self.amap_ios_key.deep_view(),
        }
    }
}

impl MapConfig {
    /// The map with the keys that were configured.
    pub fn from_env(
        web_js_api_key: Option<&str>,
        web_js_security_code: Option<&str>,
        android_key: Option<&str>,
        ios_key: Option<&str>,
    ) -> (r: MapConfig)
        ensures
            r.deep_view() == (MapKeys {
                provider: "amap"@,
                amap_web_js_api_key: given(web_js_api_key.deep_view()),
                amap_web_js_security_code: given(web_js_security_code.deep_view()),
                amap_android_key: given(android_key.deep_view()),
                amap_ios_key: given(ios_key.deep_view()),
            }),
    {
        MapConfig {
            provider: "amap",
            amap_web_js_api_key: read_optional_env(web_js_api_key),
            amap_web_js_security_code: read_optional_env(web_js_security_code),
            amap_android_key: read_optional_env(android_key),
            amap_ios_key: read_optional_env(ios_key),
        }
    }
}

/// Where the log is written.
#[derive(Debug)]
pub enum LogFile {
    /// To this file.
    Named(String),
    /// To `guideng.log` in the working directory.
    InWorkingDirectory,
    /// To `guideng.log` in the directory `server` of the working directory.
    InServerDirectory,
}

/// Where the log is written: to the file that was configured; where none was, to
/// the directory of the server, which is the working directory or stands in it;
/// where there is none, to the working directory.
pub fn default_log_path(
    configured: Option<&str>,
    working_directory: Option<&str>,
    has_server_directory: bool,
) -> (r: LogFile)
    ensures
        match given(configured.deep_view()) {
            Some(path) => r matches LogFile::Named(named) && named@ == path,
            None => if working_directory.deep_view() != Some("server"@) && has_server_directory {
                r is InServerDirectory
            } else {
                r is InWorkingDirectory
            },
        },
{
    match read_optional_env(configured) {
        Some(path) => LogFile::Named(path),
        None => {
            let at_server = match working_directory {
                Some(name) => same_text(name, "server"),
                None => false,
            };
            if !at_server && has_server_directory {
                LogFile::InServerDirectory
            } else {
                LogFile::InWorkingDirectory
            }
        },
    }
}

/// The name of the log file: a log is written where its path has a directory and
/// a name that is text.
pub fn log_file_name(has_directory: bool, name: Option<&str>) -> (r: Result<String, SettingError>)
    ensures
        match r {
            Ok(file) => has_directory && name.deep_view() == Some(file@),
            Err(e) => (!has_directory || name is None) && e == SettingError::InvalidLogPath,
        },
{
    match name {
        Some(name) if has_directory => Ok(name.to_owned()),
        _ => Err(SettingError::InvalidLogPath),
    }
}

/// Whether a character may stand in the admin path.
pub open spec fn is_path_char(c: char) -> bool {
    ||| '0' <= c && c <= '9'
    ||| 'a' <= c && c <= 'z'
    ||| 'A' <= c && c <= 'Z'
    ||| c == '/'
    ||| c == '-'
    ||| c == '_'
    ||| c == '.'
    ||| c == '~'
}

/// Whether a part of a path stands for a directory itself or for the one above.
pub open spec fn is_dots(part: Seq<char>) -> bool {
    part == "."@ || part == ".."@
}

/// Whether a text may be an admin path: it holds characters of paths only, and
/// no part of it is dots.
pub open spec fn is_path(s: Seq<char>) -> bool {
    &&& forall|i: int| 0 <= i < s.len() ==> is_path_char(#[trigger] s[i])
    &&& forall|i: int| 0 <= i < pieces(s, '/').len() ==> !is_dots(#[trigger] pieces(s, '/')[i])
}

/// A path that begins with a slash.
pub open spec fn rooted(s: Seq<char>) -> Seq<char> {
    if s.len() > 0 && s[0] == '/' {
        s
    } else {
        seq!['/'] + s
    }
}

/// A path without the slashes at its end, but for the one at its start.
pub open spec fn without_end_slashes(s: Seq<char>) -> Seq<char>
    decreases s.len(),
{
    if s.len() > 1 && s.last() == '/' {
        without_end_slashes(s.drop_last())
    } else {
        s
    }
}

/// Whether a path is that of another route.
pub open spec fn is_reserved(s: Seq<char>) -> bool {
    s == "/"@ || s == "/api"@ || s == "/health"@
}

/// The path of the admin pages that a setting stands for.
pub open spec fn admin_path_of(setting: Seq<char>) -> Result<Seq<char>, SettingError> {
    let bare = trimmed(setting);
    let path = without_end_slashes(rooted(bare));
    if bare.len() == 0 {
        Ok(DEFAULT_ADMIN_PATH@)
    } else if !is_path(bare) {
        Err(SettingError::InvalidAdminPath)
    } else if is_reserved(path) {
        Err(SettingError::ReservedAdminPath)
    } else {
        Ok(path)
    }
}

fn path_char(c: char) -> (r: bool)
    ensures
        r == is_path_char(c),
{
    ('0' <= c && c <= '9') || ('a' <= c && c <= 'z') || ('A' <= c && c <= 'Z') || c == '/' || c
        == '-' || c == '_' || c == '.' || c == '~'
}

fn path(s: &str) -> (r: bool)
    ensures
        r == is_path(s@),
{
    let chars = chars_of(s);
    let mut i: usize = 0;
    while i < chars.len()
        invariant
            i <= chars@.len(),
            chars@ == s@,
            forall|j: int| 0 <= j < i ==> is_path_char(#[trigger] s@[j]),
        decreases chars@.len() - i,
    {
        if !path_char(chars[i]) {
            assert(!is_path_char(s@[i as int]));
            return false;
        }
        i = i + 1;
    }
    let parts = split(s, '/');
    let mut k: usize = 0;
    while k < parts.len()
        invariant
            k <= parts@.len(),
            parts.deep_view() == pieces(s@, '/'),
            forall|j: int| 0 <= j < k ==> !is_dots(#[trigger] pieces(s@, '/')[j]),
        decreases parts@.len() - k,
    {
        assert(parts.deep_view()[k as int] == parts@[k as int]@);
        if same_text(parts[k].as_str(), ".") || same_text(parts[k].as_str(), "..") {
            assert(is_dots(pieces(s@, '/')[k as int]));
            return false;
        }
        k = k + 1;
    }
    true
}

/// The path of the admin pages.
pub fn normalize_admin_path(path: &str) -> (r: Result<String, SettingError>)
    ensures
        match (r, admin_path_of(path@)) {
            (Ok(path), Ok(named)) => path@ == named,
            (Err(e), Err(named)) => e == named,
            _ => false,
        },
{
    let bare = trim(path);
    if bare.as_str().is_empty() {
        return Ok(DEFAULT_ADMIN_PATH.to_owned());
    }
    if !self::path(bare.as_str()) {
        return Err(SettingError::InvalidAdminPath);
    }
    let mut chars: Vec<char> = Vec::new();
    let given = chars_of(bare.as_str());
    if given[0] != '/' {
        chars.push('/');
    }
    let ghost start = chars@;
    let mut i: usize = 0;
    while i < given.len()
        invariant
            i <= given@.len(),
            chars@ == start + given@.take(i as int),
        decreases given@.len() - i,
    {
        chars.push(given[i]);
        i = i + 1;
    }
    assert(chars@ == rooted(bare@));
    let ghost whole = chars@;
    let mut size: usize = chars.len();
    assert(whole.take(size as int) == whole);
    while size > 1 && chars[size - 1] == '/'
        invariant
            0 < size <= chars@.len(),
            chars@ == whole,
            without_end_slashes(whole) == without_end_slashes(whole.take(size as int)),
        decreases size,
    {
        assert(whole.take(size as int).drop_last() == whole.take(size - 1));
        size = size - 1;
    }
    let out = text_of(&chars, 0, size);
    assert(out@ == whole.take(size as int));
    if same_text(out.as_str(), "/") || same_text(out.as_str(), "/api") || same_text(
        out.as_str(),
        "/health",
    ) {
        return Err(SettingError::ReservedAdminPath);
    }
    Ok(out)
}

proof fn lemma_pieces_behind_slash(s: Seq<char>)
    ensures
        pieces(seq!['/'] + s, '/') == seq![Seq::<char>::empty()] + pieces(s, '/'),
    decreases s.len(),
{
    let first = seq!['/'];
    if s.len() == 0 {
        assert(first + s == first);
        assert(first.drop_last() == s);
        assert(pieces(s, '/') =~~= seq![Seq::<char>::empty()]);
        assert(first.last() == '/');
        assert(pieces(first, '/') =~~= seq![Seq::<char>::empty(), Seq::<char>::empty()]);
    } else {
        lemma_pieces_behind_slash(s.drop_last());
        assert((first + s).drop_last() == first + s.drop_last());
        law_pieces_join_back(s.drop_last(), '/');
        let before = pieces(s.drop_last(), '/');
        let led = seq![Seq::<char>::empty()] + before;
        assert(led.last() == before.last());
        assert(led.drop_last() == seq![Seq::<char>::empty()] + before.drop_last());
        assert(pieces(first + s, '/') =~= seq![Seq::<char>::empty()] + pieces(s, '/'));
    }
}

proof fn lemma_rooted_is_path(s: Seq<char>)
    requires
        is_path(s),
    ensures
        is_path(rooted(s)),
{
    if !(s.len() > 0 && s[0] == '/') {
        lemma_pieces_behind_slash(s);
        let p = pieces(rooted(s), '/');
        reveal_strlit(".");
        reveal_strlit("..");
        assert forall|i: int| 0 <= i < p.len() implies !is_dots(#[trigger] p[i]) by {
            if i > 0 {
                assert(p[i] == pieces(s, '/')[i - 1]);
            }
        }
    }
}

proof fn lemma_without_end_slashes_is_path(s: Seq<char>)
    requires
        is_path(s),
        s.len() > 0,
        s[0] == '/',
    ensures
        is_path(without_end_slashes(s)),
        without_end_slashes(s).len() > 0,
        without_end_slashes(s)[0] == '/',
        without_end_slashes(s).len() > 1 ==> without_end_slashes(s).last() != '/',
        without_end_slashes(without_end_slashes(s)) == without_end_slashes(s),
    decreases s.len(),
{
    if s.len() > 1 && s.last() == '/' {
        let rest = s.drop_last();
        assert forall|i: int| 0 <= i < rest.len() implies is_path_char(#[trigger] rest[i]) by {
            assert(rest[i] == s[i]);
        }
        assert forall|i: int| 0 <= i < pieces(rest, '/').len() implies !is_dots(
            #[trigger] pieces(rest, '/')[i],
        ) by {
            assert(pieces(s, '/')[i] == pieces(rest, '/')[i]);
        }
        lemma_without_end_slashes_is_path(rest);
    }
}

proof fn lemma_path_is_bare(s: Seq<char>)
    requires
        is_path(s),
    ensures
        trimmed(s) == s,
{
    if s.len() > 0 {
        assert(!is_white_space(s.first()));
        assert(trimmed_start(s) == s);
        assert(!is_white_space(s.last()));
        assert(trimmed_end(s) == s);
    }
}

proof fn lemma_default_is_path()
    ensures
        is_path("/admin"@),
        !is_reserved("/admin"@),
        "/admin"@.len() > 1,
        "/admin"@[0] == '/',
        "/admin"@.last() != '/',
{
    reveal_strlit("/admin");
    reveal_strlit("/");
    reveal_strlit("/api");
    reveal_strlit("/health");
    reveal_strlit(".");
    reveal_strlit("..");
    let word = seq!['a', 'd', 'm', 'i', 'n'];
    let whole = "/admin"@;
    assert(whole =~= seq!['/'] + word);
    lemma_pieces_behind_slash(word);
    assert(pieces(word, '/') =~~= seq![word]) by {
        reveal_with_fuel(pieces, 7);
        assert(word.drop_last() =~= seq!['a', 'd', 'm', 'i']);
        assert(seq!['a', 'd', 'm', 'i'].drop_last() =~= seq!['a', 'd', 'm']);
        assert(seq!['a', 'd', 'm'].drop_last() =~= seq!['a', 'd']);
        assert(seq!['a', 'd'].drop_last() =~= seq!['a']);
        assert(seq!['a'].drop_last() =~= Seq::<char>::empty());
        assert(pieces(seq!['a'], '/') =~~= seq![seq!['a']]);
        assert(pieces(seq!['a', 'd'], '/') =~~= seq![seq!['a', 'd']]);
        assert(pieces(seq!['a', 'd', 'm'], '/') =~~= seq![seq!['a', 'd', 'm']]);
        assert(pieces(seq!['a', 'd', 'm', 'i'], '/') =~~= seq![seq!['a', 'd', 'm', 'i']]);
    }
    assert forall|i: int| 0 <= i < pieces(whole, '/').len() implies !is_dots(
        #[trigger] pieces(whole, '/')[i],
    ) by {
        assert(pieces(whole, '/')[i].len() == 0 || pieces(whole, '/')[i].len() == 5);
    }
    assert(whole.len() == 6 && "/health"@.len() == 7 && "/api"@.len() == 4);
}

/// The admin path that is used begins with a slash and does not end with one,
/// holds characters of paths only and no dots for a part, and is not that of
/// another route.
pub proof fn law_admin_path_is_in_order(setting: Seq<char>)
    requires
        admin_path_of(setting) is Ok,
    ensures
        ({
            let path = admin_path_of(setting)->Ok_0;
            &&& path.len() > 1
            &&& path[0] == '/'
            &&& path.last() != '/'
            &&& is_path(path)
            &&& !is_reserved(path)
        }),
{
    let bare = trimmed(setting);
    lemma_default_is_path();
    if bare.len() > 0 {
        lemma_rooted_is_path(bare);
        lemma_without_end_slashes_is_path(rooted(bare));
        let path = without_end_slashes(rooted(bare));
        reveal_strlit("/");
        if path.len() == 1 {
            assert(path =~= "/"@);
        }
    }
}

/// The admin path that is used stands for itself.
pub proof fn law_admin_path_is_settled(setting: Seq<char>)
    requires
        admin_path_of(setting) is Ok,
    ensures
        admin_path_of(admin_path_of(setting)->Ok_0) == admin_path_of(setting),
{
    law_admin_path_is_in_order(setting);
    lemma_path_is_bare(admin_path_of(setting)->Ok_0);
}

/// The origins that may read answers of the API.
pub enum Origins {
    Any,
    Listed(Seq<Seq<char>>),
}

/// The origins that may read answers of the API.
#[derive(Debug)]
pub enum CorsOrigins {
    Any,
    Listed(Vec<String>),
}

impl DeepView for CorsOrigins {
    type V = Origins;

    open spec fn deep_view(&self) -> Origins {
        match *self {
            CorsOrigins::Any => Origins::Any,
            CorsOrigins::Listed(origins) => Origins::Listed(origins.deep_view()),
        }
    }
}

/// The origins in the pieces of a list: the pieces, trimmed, of which something
/// is left.
pub open spec fn origins_in(parts: Seq<Seq<char>>) -> Seq<Seq<char>>
    decreases parts.len(),
{
    if parts.len() == 0 {
        Seq::empty()
    } else {
        let before = origins_in(parts.drop_last());
        if trimmed(parts.last()).len() > 0 {
            before.push(trimmed(parts.last()))
        } else {
            before
        }
    }
}

/// The origins that a setting stands for.
pub open spec fn origins_of(setting: Seq<char>) -> Result<Origins, SettingError> {
    let listed = origins_in(pieces(setting, ','));
    if trimmed(setting) == "*"@ {
        Ok(Origins::Any)
    } else if forall|i: int| 0 <= i < listed.len() ==> is_header_text(#[trigger] listed[i]) {
        Ok(Origins::Listed(listed))
    } else {
        Err(SettingError::InvalidOrigin)
    }
}

/// The origins that may read answers of the API: all of them for `*`, else those
/// of a list with commas.
pub fn cors_origins(setting: &str) -> (r: Result<CorsOrigins, SettingError>)
    ensures
        match (r, origins_of(setting@)) {
            (Ok(origins), Ok(named)) => origins.deep_view() == named,
            (Err(e), Err(named)) => e == named,
            _ => false,
        },
{
    if same_text(trim(setting).as_str(), "*") {
        return Ok(CorsOrigins::Any);
    }
    let parts = split(setting, ',');
    let ghost all = parts.deep_view();
    let mut origins: Vec<String> = Vec::new();
    let mut i: usize = 0;
    assert(all.take(0) == Seq::<Seq<char>>::empty());
    assert(origins.deep_view() == Seq::<Seq<char>>::empty());
    while i < parts.len()
        invariant
            i <= parts@.len(),
            all == parts.deep_view(),
            origins.deep_view() == origins_in(all.take(i as int)),
        decreases parts@.len() - i,
    {
        let ghost before = origins.deep_view();
        assert(all.take(i + 1).drop_last() == all.take(i as int));
        assert(all.take(i + 1).last() == parts@[i as int]@);
        let origin = trim(parts[i].as_str());
        if !origin.as_str().is_empty() {
            origins.push(origin);
            assert(origins.deep_view() == before.push(origin@));
        }
        i = i + 1;
    }
    assert(all.take(all.len() as int) == all);
    let ghost listed = origins.deep_view();
    let mut k: usize = 0;
    while k < origins.len()
        invariant
            k <= origins@.len(),
            listed == origins.deep_view(),
            listed == origins_in(pieces(setting@, ',')),
            trimmed(setting@) != "*"@,
            forall|j: int| 0 <= j < k ==> is_header_text(#[trigger] listed[j]),
        decreases origins@.len() - k,
    {
        assert(listed[k as int] == origins@[k as int]@);
        if !header_accepts(origins[k].as_str()) {
            assert(!is_header_text(listed[k as int]));
            return Err(SettingError::InvalidOrigin);
        }
        k = k + 1;
    }
    Ok(CorsOrigins::Listed(origins))
}

/// Which requests of pages of other origins are let through.
pub struct CorsRules {
    pub origins: Origins,
    pub methods: Seq<Seq<char>>,
    pub headers: Seq<Seq<char>>,
}

/// Which requests of pages of other origins are let through: from these
/// origins, with these methods and these headers.
#[derive(Debug)]
pub struct CorsPolicy {
    pub origins: CorsOrigins,
    pub methods: [&'static str; 4],
    pub headers: [&'static str; 3],
}

impl DeepView for CorsPolicy {
    type V = CorsRules;

    open spec fn deep_view(&self) -> CorsRules {
        CorsRules {
            origins: self.origins.deep_view(),
            methods: self.methods@.map_values(|method: &'static str| method@),
            headers: self.headers@.map_values(|header: &'static str| header@),
        }
    }
}

/// The rules that a setting of the origins stands for.
pub open spec fn cors_rules_of(setting: Seq<char>) -> Result<CorsRules, SettingError> {
    match origins_of(setting) {
        Ok(origins) => Ok(
            CorsRules {
                origins,
                methods: seq!["GET"@, "POST"@, "PATCH"@, "OPTIONS"@],
                headers: seq!["authorization"@, "content-type"@, TOKEN_HEADER@],
            },
        ),
        Err(e) => Err(e),
    }
}

/// Which requests of pages of other origins are let through.
pub fn cors_layer(setting: &str) -> (r: Result<CorsPolicy, SettingError>)
    ensures
        match (r, cors_rules_of(setting@)) {
            (Ok(policy), Ok(named)) => policy.deep_view() == named,
            (Err(e), Err(named)) => e == named,
            _ => false,
        },
{
    match cors_origins(setting) {
        Ok(origins) => {
            let policy = CorsPolicy {
                origins,
                methods: ["GET", "POST", "PATCH", "OPTIONS"],
                headers: ["authorization", "content-type", TOKEN_HEADER],
            };
            assert(policy.deep_view().methods =~= seq!["GET"@, "POST"@, "PATCH"@, "OPTIONS"@]);
            assert(policy.deep_view().headers =~= seq![
                "authorization"@,
                "content-type"@,
                TOKEN_HEADER@,
            ]);
            Ok(policy)
        },
        Err(e) => Err(e),
    }
}

/// A setting that is given is what was set, without the white space at its ends.
/// It is not given exactly where it was not set or where nothing but white space
/// was.
pub proof fn law_given_is_what_was_set(value: Option<Seq<char>>)
    ensures
        value is None ==> given(value) is None,
        value matches Some(text) ==> match given(value) {
            Some(kept) => kept == trimmed(text) && kept.len() > 0,
            None => forall|i: int| 0 <= i < text.len() ==> is_white_space(#[trigger] text[i]),
        },
{
    match value {
        Some(text) => {
            law_trimmed_is_bare(text);
            if trimmed(text).len() == 0 {
                let (i, j) = choose|i: int, j: int|
                    0 <= i <= j <= text.len() && trimmed(text) == #[trigger] text.subrange(i, j)
                        && (forall|k: int|
                        0 <= k < i || j <= k < text.len() ==> is_white_space(#[trigger] text[k]));
                assert(i == j);
            }
        },
        None => {},
    }
}

/// Whether a path is followed by slashes alone in a text.
pub open spec fn followed_by_slashes(text: Seq<char>, path: Seq<char>) -> bool {
    &&& begins_with(text, path)
    &&& forall|i: int| path.len() <= i < text.len() ==> #[trigger] text[i] == '/'
}

/// The admin path is what was set. Without the white space at its ends, and with
/// a slash before it where it has none, the setting is the path and slashes
/// behind it; where nothing was set the path is `/admin`. A setting is invalid
/// exactly where it holds a character that is no ASCII letter or digit and none
/// of `/`, `-`, `_`, `.` and `~`, or where a part between slashes is one dot or
/// two. It is reserved only where the path would be `/`, `/api` or `/health`,
/// which no path is.
pub proof fn law_admin_path_is_what_was_set(setting: Seq<char>)
    ensures
        ({
            let bare = trimmed(setting);
            let text = if bare.len() > 0 && bare[0] == '/' {
                bare
            } else {
                seq!['/'] + bare
            };
            &&& bare.len() == 0 ==> admin_path_of(setting) == Ok::<Seq<char>, SettingError>(
                seq!['/', 'a', 'd', 'm', 'i', 'n'],
            )
            &&& bare.len() > 0 ==> match admin_path_of(setting) {
                Ok(path) => {
                    &&& followed_by_slashes(text, path)
                    &&& path.last() != '/'
                    &&& path != seq!['/', 'a', 'p', 'i']
                    &&& path != seq!['/', 'h', 'e', 'a', 'l', 't', 'h']
                },
                Err(SettingError::ReservedAdminPath) => {
                    ||| followed_by_slashes(text, seq!['/'])
                    ||| followed_by_slashes(text, seq!['/', 'a', 'p', 'i'])
                    ||| followed_by_slashes(text, seq!['/', 'h', 'e', 'a', 'l', 't', 'h'])
                },
                Err(e) => e is InvalidAdminPath,
            }
            &&& admin_path_of(setting) == Err::<Seq<char>, SettingError>(
                SettingError::InvalidAdminPath,
            ) <==> bare.len() > 0 && ({
                ||| exists|i: int|
                    0 <= i < bare.len() && {
                        let n = #[trigger] bare[i] as int;
                        !(48 <= n <= 57 || 65 <= n <= 90 || 97 <= n <= 122 || n == 45 || n == 46
                            || n == 47 || n == 95 || n == 126)
                    }
                ||| exists|i: int|
                    0 <= i < pieces(bare, '/').len() && (#[trigger] pieces(bare, '/')[i] == seq!['.']
                        || pieces(bare, '/')[i] == seq!['.', '.'])
            })
        }),
{
    reveal_strlit("/admin");
    reveal_strlit("/");
    reveal_strlit("/api");
    reveal_strlit("/health");
    reveal_strlit(".");
    reveal_strlit("..");
    assert("/admin"@ =~= seq!['/', 'a', 'd', 'm', 'i', 'n']);
    assert("/"@ =~= seq!['/']);
    assert("/api"@ =~= seq!['/', 'a', 'p', 'i']);
    assert("/health"@ =~= seq!['/', 'h', 'e', 'a', 'l', 't', 'h']);
    assert("."@ =~= seq!['.']);
    assert(".."@ =~= seq!['.', '.']);
    let bare = trimmed(setting);
    let foreign = exists|i: int|
        0 <= i < bare.len() && {
            let n = #[trigger] bare[i] as int;
            !(48 <= n <= 57 || 65 <= n <= 90 || 97 <= n <= 122 || n == 45 || n == 46 || n == 47 || n
                == 95 || n == 126)
        };
    let dots = exists|i: int|
        0 <= i < pieces(bare, '/').len() && (#[trigger] pieces(bare, '/')[i] == seq!['.'] || pieces(
            bare,
            '/',
        )[i] == seq!['.', '.']);
    assert(is_path(bare) <==> !foreign && !dots) by {
        assert forall|c: char| #[trigger] is_path_char(c) <==> ({
            let n = c as int;
            48 <= n <= 57 || 65 <= n <= 90 || 97 <= n <= 122 || n == 45 || n == 46 || n == 47 || n
                == 95 || n == 126
        }) by {}
        if !is_path(bare) {
            if exists|i: int| 0 <= i < bare.len() && !is_path_char(#[trigger] bare[i]) {
                let i = choose|i: int| 0 <= i < bare.len() && !is_path_char(#[trigger] bare[i]);
                assert(foreign);
            } else {
                let i = choose|i: int|
                    0 <= i < pieces(bare, '/').len() && is_dots(#[trigger] pieces(bare, '/')[i]);
                assert(dots);
            }
        } else {
            assert forall|i: int| 0 <= i < bare.len() implies is_path_char(#[trigger] bare[i]) by {}
        }
    }
    if bare.len() > 0 {
        lemma_slashes_follow(rooted(bare));
        if admin_path_of(setting) is Ok {
            law_admin_path_is_in_order(setting);
        }
    }
}

proof fn lemma_slashes_follow(s: Seq<char>)
    ensures
        followed_by_slashes(s, without_end_slashes(s)),
    decreases s.len(),
{
    if s.len() > 1 && s.last() == '/' {
        let rest = s.drop_last();
        lemma_slashes_follow(rest);
        let path = without_end_slashes(s);
        assert(s.take(path.len() as int) == rest.take(path.len() as int));
        assert forall|i: int| path.len() <= i < s.len() implies #[trigger] s[i] == '/' by {
            if i < rest.len() {
                assert(s[i] == rest[i]);
            }
        }
    } else {
        assert(s.take(s.len() as int) == s);
    }
}

/// A path that is in order is used as it is, however it is written: with white
/// space round it, with slashes behind it, and without the slash before it.
pub proof fn law_path_in_order_is_used(setting: Seq<char>)
    requires
        admin_path_of(setting) is Ok,
    ensures
        admin_path_of(trimmed(setting)) == admin_path_of(setting),
        trimmed(setting).len() > 0 && trimmed(setting)[0] != '/' ==> admin_path_of(
            seq!['/'] + trimmed(setting),
        ) == admin_path_of(setting),
{
    let bare = trimmed(setting);
    law_trim_is_idempotent(setting);
    if bare.len() > 0 && bare[0] != '/' {
        lemma_rooted_is_path(bare);
        lemma_path_is_bare(rooted(bare));
    }
}

/// The origins of a setting: any for a star alone, else the pieces between the
/// commas without the white space at their ends, in their order, as many as have
/// anything left. The setting is refused exactly where one of them holds a
/// control character that is no tab.
pub proof fn law_origins_are_the_pieces(setting: Seq<char>)
    ensures
        match origins_of(setting) {
            Ok(Origins::Any) => trimmed(setting) == seq!['*'],
            Ok(Origins::Listed(listed)) => {
                &&& trimmed(setting) != seq!['*']
                &&& picks_nonblank(pieces(setting, ','), listed)
                &&& forall|i: int| 0 <= i < listed.len() ==> is_header_text(#[trigger] listed[i])
            },
            Err(e) => {
                &&& e is InvalidOrigin
                &&& trimmed(setting) != seq!['*']
                &&& exists|k: int|
                    0 <= k < pieces(setting, ',').len() && !is_header_text(
                        trimmed(#[trigger] pieces(setting, ',')[k]),
                    )
            },
        },
{
    reveal_strlit("*");
    assert("*"@ =~= seq!['*']);
    lemma_origins_are_picked(pieces(setting, ','));
    let parts = pieces(setting, ',');
    let listed = origins_in(parts);
    if origins_of(setting) is Err {
        let i = choose|i: int| 0 <= i < listed.len() && !is_header_text(#[trigger] listed[i]);
        let at = choose|at: Seq<int>| #[trigger] picks(parts, listed, at);
        assert(listed[i] == trimmed(parts[at[i]]));
        assert(!is_header_text(trimmed(parts[at[i]])));
    }
}

/// Whether a list is made of the parts at these places, without the white space
/// at their ends: the places are in order, and they are those of all parts of
/// which something is left.
pub open spec fn picks(parts: Seq<Seq<char>>, listed: Seq<Seq<char>>, at: Seq<int>) -> bool {
    &&& at.len() == listed.len()
    &&& forall|i: int|
        0 <= i < at.len() ==> 0 <= #[trigger] at[i] < parts.len() && listed[i] == trimmed(
            parts[at[i]],
        ) && listed[i].len() > 0
    &&& forall|i: int, j: int| 0 <= i < j < at.len() ==> #[trigger] at[i] < #[trigger] at[j]
    &&& forall|k: int|
        0 <= k < parts.len() && trimmed(#[trigger] parts[k]).len() > 0 ==> at.contains(k)
}

/// Whether a list is made of all parts of which something is left without the
/// white space at their ends, in their order.
pub open spec fn picks_nonblank(parts: Seq<Seq<char>>, listed: Seq<Seq<char>>) -> bool {
    exists|at: Seq<int>| #[trigger] picks(parts, listed, at)
}

proof fn lemma_origins_are_picked(parts: Seq<Seq<char>>)
    ensures
        picks_nonblank(parts, origins_in(parts)),
    decreases parts.len(),
{
    if parts.len() == 0 {
        assert(picks(parts, origins_in(parts), Seq::empty()));
    } else {
        let front = parts.drop_last();
        lemma_origins_are_picked(front);
        let at = choose|at: Seq<int>| #[trigger] picks(front, origins_in(front), at);
        let last = parts.len() - 1;
        assert forall|i: int| 0 <= i < at.len() implies parts[#[trigger] at[i]] == front[at[i]] by {}
        if trimmed(parts.last()).len() > 0 {
            let more = at.push(last);
            assert forall|k: int|
                0 <= k < parts.len() && trimmed(
                    #[trigger] parts[k],
                ).len() > 0 implies more.contains(k) by {
                if k < last {
                    assert(front[k] == parts[k]);
                    assert(at.contains(k));
                    let i = choose|i: int| 0 <= i < at.len() && at[i] == k;
                    assert(more[i] == k);
                } else {
                    assert(more[at.len() as int] == k);
                }
            }
            assert(picks(parts, origins_in(parts), more));
        } else {
            assert forall|k: int|
                0 <= k < parts.len() && trimmed(
                    #[trigger] parts[k],
                ).len() > 0 implies at.contains(k) by {
                assert(front[k] == parts[k]);
            }
            assert(picks(parts, origins_in(parts), at));
        }
    }
}

/// Whatever the origins, the same four methods and the same three headers are
/// let through, and the origins are those of the setting.
pub proof fn law_rules_are_word_for_word(setting: Seq<char>)
    ensures
        match cors_rules_of(setting) {
            Ok(rules) => {
                &&& origins_of(setting) == Ok::<Origins, SettingError>(rules.origins)
                &&& rules.methods == seq!["GET"@, "POST"@, "PATCH"@, "OPTIONS"@]
                &&& rules.headers == seq!["authorization"@, "content-type"@, "x-guideng-token"@]
            },
            Err(e) => origins_of(setting) == Err::<Origins, SettingError>(e),
        },
{
}

/// What the server does where nothing is configured, and what it says of a
/// setting that it refuses.
pub proof fn law_defaults_are_word_for_word()
    ensures
        DEFAULT_BIND@ == "0.0.0.0:8080"@,
        DEFAULT_DATABASE@ == "/data/guideng.sqlite3"@,
        DEFAULT_ADMIN_PATH@ == "/admin"@,
        DEFAULT_ORIGINS@ == "*"@,
        DEFAULT_LOG_FILTER@ == "guideng_server=info,tower_http=info"@,
        LOG_FILE@ == "guideng.log"@,
        TOKEN_HEADER@ == "x-guideng-token"@,
        SettingError::InvalidAdminPath.message()@ == "invalid GUIDENG_ADMIN_PATH"@,
        SettingError::ReservedAdminPath.message()@
            == "GUIDENG_ADMIN_PATH conflicts with a reserved route"@,
        SettingError::InvalidOrigin.message()@ == "failed to parse header value"@,
        SettingError::InvalidLogPath.message()@ == "invalid GUIDENG_LOG_PATH"@,
{
}

/// The view of the rules for other origins holds what the rules hold.
pub proof fn law_view_of_the_rules_is_whole(policy: CorsPolicy)
    ensures
        policy.origins is Any <==> policy.deep_view().origins is Any,
        policy.origins matches CorsOrigins::Listed(origins) ==> (
        policy.deep_view().origins matches Origins::Listed(shown) && shown.len() == origins@.len()
            && forall|i: int| 0 <= i < shown.len() ==> #[trigger] shown[i] == origins@[i]@),
        policy.deep_view().methods.len() == 4,
        policy.deep_view().headers.len() == 3,
        forall|i: int|
            0 <= i < 4 ==> #[trigger] policy.deep_view().methods[i] == policy.methods@[i]@,
        forall|i: int|
            0 <= i < 3 ==> #[trigger] policy.deep_view().headers[i] == policy.headers@[i]@,
{
}

} // verus!
