use guideng::header::header_text;
use guideng::settings::{
    cors_layer, cors_origins, default_log_path, log_file_name, normalize_admin_path, read_optional_env,
    CorsOrigins, LogFile, MapConfig, SettingError,
};

fn admin_path(setting: &str) -> Result<String, SettingError> {
    normalize_admin_path(setting)
}

#[test]
fn admin_path_gets_a_leading_slash_and_loses_trailing_ones() {
    assert_eq!(admin_path("console").unwrap(), "/console");
    assert_eq!(admin_path("/console").unwrap(), "/console");
    assert_eq!(admin_path("  /console///  ").unwrap(), "/console");
    assert_eq!(admin_path("a/b-c_d.e~f/").unwrap(), "/a/b-c_d.e~f");
    assert_eq!(admin_path("//x").unwrap(), "//x");
}

#[test]
fn empty_admin_path_is_the_default() {
    assert_eq!(admin_path("").unwrap(), "/admin");
    assert_eq!(admin_path(" \t\u{3000}").unwrap(), "/admin");
}

#[test]
fn admin_path_with_foreign_characters_is_invalid() {
    for setting in ["/a?b", "/a#b", "/a b", "/管理", "/a%20", "/a\\b", "/a:b"] {
        assert_eq!(admin_path(setting), Err(SettingError::InvalidAdminPath));
    }
}

#[test]
fn admin_path_with_dots_for_a_part_is_invalid() {
    for setting in [".", "..", "/a/./b", "/a/../b", "/..", "./a", "a/.."] {
        assert_eq!(admin_path(setting), Err(SettingError::InvalidAdminPath));
    }
    assert_eq!(admin_path("/...").unwrap(), "/...");
    assert_eq!(admin_path("/.a").unwrap(), "/.a");
}

#[test]
fn admin_path_of_another_route_is_reserved() {
    for setting in ["/", "//", "///", "api", "/api/", "/health", "health///"] {
        assert_eq!(admin_path(setting), Err(SettingError::ReservedAdminPath));
    }
    assert_eq!(admin_path("/api/admin").unwrap(), "/api/admin");
    assert_eq!(admin_path("//api").unwrap(), "//api");
}

#[test]
fn admin_path_is_settled_after_one_step() {
    for setting in ["x", "/x/", " a/b/ ", "", "//y//"] {
        let once = admin_path(setting).unwrap();
        assert_eq!(admin_path(&once).unwrap(), once);
    }
}

#[test]
fn setting_errors_have_messages() {
    assert_eq!(
        SettingError::InvalidAdminPath.message(),
        "invalid GUIDENG_ADMIN_PATH"
    );
    assert_eq!(
        SettingError::ReservedAdminPath.message(),
        "GUIDENG_ADMIN_PATH conflicts with a reserved route"
    );
    assert_eq!(
        SettingError::InvalidOrigin.message(),
        "failed to parse header value"
    );
    assert_eq!(
        SettingError::InvalidLogPath.message(),
        "invalid GUIDENG_LOG_PATH"
    );
    let outside = axum::http::HeaderValue::from_str("\n").unwrap_err();
    assert_eq!(SettingError::InvalidOrigin.message(), outside.to_string());
}

#[test]
fn optional_settings_are_trimmed_or_absent() {
    assert_eq!(read_optional_env(None), None);
    assert_eq!(read_optional_env(Some("")), None);
    assert_eq!(read_optional_env(Some(" \n ")), None);
    assert_eq!(read_optional_env(Some(" key ")), Some("key".to_string()));
}

#[test]
fn map_config_holds_each_key_in_its_place() {
    let config = MapConfig::from_env(Some(" web "), Some("code"), Some(" "), None);
    assert_eq!(config.provider, "amap");
    assert_eq!(config.amap_web_js_api_key.as_deref(), Some("web"));
    assert_eq!(config.amap_web_js_security_code.as_deref(), Some("code"));
    assert_eq!(config.amap_android_key, None);
    assert_eq!(config.amap_ios_key, None);
    let config = MapConfig::from_env(None, None, Some("android"), Some("ios"));
    assert_eq!(config.amap_web_js_api_key, None);
    assert_eq!(config.amap_android_key.as_deref(), Some("android"));
    assert_eq!(config.amap_ios_key.as_deref(), Some("ios"));
}

fn origins(setting: &str) -> Vec<String> {
    match cors_origins(setting).unwrap() {
        CorsOrigins::Listed(origins) => origins,
        CorsOrigins::Any => panic!("no list"),
    }
}

#[test]
fn a_star_allows_any_origin() {
    assert!(matches!(cors_origins("*"), Ok(CorsOrigins::Any)));
    assert!(matches!(cors_origins("  * "), Ok(CorsOrigins::Any)));
    assert_eq!(origins("*,*"), vec!["*", "*"]);
}

#[test]
fn origins_are_listed_with_commas() {
    assert_eq!(
        origins(" https://a.example , ,https://b.example,"),
        vec!["https://a.example", "https://b.example"]
    );
    assert_eq!(origins(""), Vec::<String>::new());
    assert_eq!(origins("https://例.example"), vec!["https://例.example"]);
}

#[test]
fn an_origin_with_a_control_character_is_refused() {
    assert_eq!(
        cors_origins("https://a.example,b\u{7f}c").unwrap_err(),
        SettingError::InvalidOrigin
    );
    assert_eq!(
        cors_origins("a\nb").unwrap_err(),
        SettingError::InvalidOrigin
    );
    assert_eq!(origins("a\tb"), vec!["a\tb"]);
}

#[test]
fn log_goes_where_it_is_configured_to_go() {
    assert!(matches!(
        default_log_path(Some(" /var/log/g.log "), Some("server"), true),
        LogFile::Named(path) if path == "/var/log/g.log"
    ));
    assert!(matches!(
        default_log_path(Some(" "), Some("server"), true),
        LogFile::InWorkingDirectory
    ));
    assert!(matches!(
        default_log_path(None, Some("project"), true),
        LogFile::InServerDirectory
    ));
    assert!(matches!(
        default_log_path(None, None, true),
        LogFile::InServerDirectory
    ));
    assert!(matches!(
        default_log_path(None, Some("project"), false),
        LogFile::InWorkingDirectory
    ));
}

#[test]
fn a_log_needs_a_directory_and_a_name() {
    assert_eq!(log_file_name(true, Some("g.log")).unwrap(), "g.log");
    assert_eq!(log_file_name(true, None), Err(SettingError::InvalidLogPath));
    assert_eq!(
        log_file_name(false, Some("g.log")),
        Err(SettingError::InvalidLogPath)
    );
}

#[test]
fn headers_are_read_where_they_are_visible() {
    assert_eq!(header_text(None), None);
    assert_eq!(header_text(Some(b"")).as_deref(), Some(""));
    assert_eq!(header_text(Some(b"a b\tc~")).as_deref(), Some("a b\tc~"));
    assert_eq!(header_text(Some("é".as_bytes())), None);
    assert_eq!(header_text(Some(b"a\nb")), None);
    assert_eq!(header_text(Some(&[0x7f])), None);
}

#[test]
fn headers_are_read_byte_by_byte() {
    for byte in 0..=255u8 {
        let visible = (32..127).contains(&byte) || byte == 9;
        let text = header_text(Some(&[b'x', byte]));
        if visible {
            assert_eq!(text, Some(format!("x{}", byte as char)));
        } else {
            assert_eq!(text, None);
        }
    }
}

#[test]
fn pages_of_other_origins_may_use_the_api() {
    let policy = cors_layer("https://a.example").unwrap();
    assert_eq!(policy.methods, ["GET", "POST", "PATCH", "OPTIONS"]);
    assert_eq!(
        policy.headers,
        ["authorization", "content-type", "x-guideng-token"]
    );
    assert!(matches!(
        policy.origins,
        CorsOrigins::Listed(origins) if origins == ["https://a.example"]
    ));
    assert!(matches!(cors_layer("*").unwrap().origins, CorsOrigins::Any));
    assert_eq!(cors_layer("a\nb").unwrap_err(), SettingError::InvalidOrigin);
    assert_eq!(policy.headers[0], axum::http::header::AUTHORIZATION.as_str());
    assert_eq!(policy.headers[1], axum::http::header::CONTENT_TYPE.as_str());
}
