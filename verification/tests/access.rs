use guideng::admin::{
    cookie_value, expired_cookie, is_admin_authenticated, require_admin, session_cookie, AppState,
    ADMIN_SESSION_COOKIE,
};
use guideng::api::{
    auth, health, validate_days, validate_location, validate_name, ApiError, ErrorResponse,
};
use guideng::records::{LocationRequest, Reading};
use guideng::secret::{
    generate_session_secret, generate_token, load_or_generate_admin_password,
    load_or_generate_token, spell_token, TOKEN_CHARS, TOKEN_LEN,
};
use guideng::settings::MapConfig;

fn state(session: &str) -> AppState {
    AppState {
        token: "token".to_string(),
        admin_password: "password".to_string(),
        admin_path: "/admin".to_string(),
        admin_session: session.to_string(),
        map_config: MapConfig::from_env(None, None, None, None),
    }
}

fn refusal(error: ApiError) -> (u16, String) {
    (error.status, error.message)
}

#[test]
fn token_passes_in_either_header() {
    assert!(auth("t", Some(b"Bearer t"), None).is_ok());
    assert!(auth("t", None, Some(b"t")).is_ok());
    assert!(auth("t", Some(b"Basic x"), Some(b"t")).is_ok());
    assert!(auth("t", Some(b"Bearer t"), Some(b"wrong")).is_ok());
    assert!(auth("t", Some("Bearer é".as_bytes()), Some(b"t")).is_ok());
}

#[test]
fn wrong_token_is_refused() {
    let refused = (401, "invalid token".to_string());
    for (authorization, custom) in [
        (None, None),
        (Some(&b"Bearer x"[..]), Some(&b"t"[..])),
        (Some(b"t"), None),
        (Some(b"bearer t"), None),
        (Some(b"Bearer  t"), None),
        (None, Some(b"T")),
        (None, Some(b"t ")),
        (None, Some("té".as_bytes())),
    ] {
        assert_eq!(
            refusal(auth("t", authorization, custom).unwrap_err()),
            refused
        );
    }
}

#[test]
fn names_have_one_to_sixty_four_characters() {
    assert!(validate_name("a").is_ok());
    assert!(validate_name(&"机".repeat(64)).is_ok());
    assert!(validate_name(&format!("  {}  ", "x".repeat(64))).is_ok());
    for name in ["".to_string(), "  \t".to_string(), "x".repeat(65)] {
        assert_eq!(
            refusal(validate_name(&name).unwrap_err()),
            (400, "device name must be 1-64 characters".to_string())
        );
    }
}

#[test]
fn days_lie_within_a_century() {
    assert_eq!(validate_days(1).unwrap(), 1);
    assert_eq!(validate_days(36500).unwrap(), 36500);
    for days in [0, -1, 36501, i64::MIN, i64::MAX] {
        assert_eq!(
            refusal(validate_days(days).unwrap_err()),
            (400, "days must be between 1 and 36500".to_string())
        );
    }
}

fn location(latitude: f64, longitude: f64) -> LocationRequest {
    LocationRequest {
        reading: Reading {
            latitude: latitude.to_bits(),
            longitude: longitude.to_bits(),
            accuracy: None,
            altitude: None,
            heading: None,
            speed: None,
            battery_level: None,
        },
        captured_at: None,
    }
}

#[test]
fn coordinates_lie_on_the_globe() {
    assert!(validate_location(&location(31.2, 121.5)).is_ok());
    assert!(validate_location(&location(-90.0, -180.0)).is_ok());
    for (latitude, longitude) in [(90.5, 0.0), (0.0, 180.5), (f64::NAN, 0.0), (0.0, f64::NAN)] {
        assert_eq!(
            refusal(validate_location(&location(latitude, longitude)).unwrap_err()),
            (400, "invalid coordinates".to_string())
        );
    }
}

#[test]
fn refusals_have_their_status() {
    assert_eq!(
        refusal(ApiError::unauthorized("u")),
        (401, "u".to_string())
    );
    assert_eq!(refusal(ApiError::bad_request("b")), (400, "b".to_string()));
    assert_eq!(refusal(ApiError::not_found("n")), (404, "n".to_string()));
    assert_eq!(refusal(ApiError::internal("i")), (500, "i".to_string()));
    assert_eq!(ErrorResponse::new("e").error, "e");
}

#[test]
fn generated_tokens_are_long_and_plain() {
    let token = generate_token();
    assert_eq!(token.len(), 128);
    assert_eq!(TOKEN_LEN, 128);
    assert_eq!(TOKEN_CHARS.len(), 85);
    assert!(token.chars().all(|c| TOKEN_CHARS.contains(c)));
    assert_ne!(token, generate_token());
}

#[test]
fn tokens_are_spelled_from_the_alphabet() {
    assert_eq!(spell_token(&vec![0, 10, 36, 84]), "0aA/");
    assert_eq!(spell_token(&vec![]), "");
}

#[test]
fn configured_secrets_are_taken() {
    assert_eq!(load_or_generate_token(Some(" t ")), "t");
    assert_eq!(load_or_generate_admin_password(Some("p")), "p");
    assert_eq!(load_or_generate_token(Some("  ")).len(), 128);
    assert_eq!(load_or_generate_token(None).len(), 128);
    assert_eq!(load_or_generate_admin_password(None).len(), 128);
}

#[test]
fn session_secrets_are_hexadecimal() {
    let secret = generate_session_secret();
    assert_eq!(secret.len(), 64);
    assert!(secret
        .chars()
        .all(|c| c.is_ascii_digit() || ('a'..='f').contains(&c)));
    assert_ne!(secret, generate_session_secret());
}

#[test]
fn cookies_are_found_by_name() {
    let cookies = "a=1; b = 2;c=3=4; a=5; flag; =x";
    assert_eq!(cookie_value(cookies, "a").as_deref(), Some("1"));
    assert_eq!(cookie_value(cookies, "b").as_deref(), None);
    assert_eq!(cookie_value(cookies, "b ").as_deref(), Some(" 2"));
    assert_eq!(cookie_value(cookies, "c").as_deref(), Some("3=4"));
    assert_eq!(cookie_value(cookies, "flag"), None);
    assert_eq!(cookie_value(cookies, "").as_deref(), Some("x"));
    assert_eq!(cookie_value("", "a"), None);
}

#[test]
fn session_is_recognised_among_cookies() {
    let state = state("s3cret");
    let cookies = format!("theme=dark; {ADMIN_SESSION_COOKIE}=s3cret; x=y");
    assert!(is_admin_authenticated(&state, Some(cookies.as_bytes())));
    assert!(require_admin(&state, Some(cookies.as_bytes())).is_ok());
    let first_counts = format!("{ADMIN_SESSION_COOKIE}=old; {ADMIN_SESSION_COOKIE}=s3cret");
    assert!(!is_admin_authenticated(
        &state,
        Some(first_counts.as_bytes())
    ));
}

#[test]
fn requests_without_the_session_are_refused() {
    let state = state("s3cret");
    for cookies in [
        None,
        Some(&b""[..]),
        Some(b"guideng_admin_session=other"),
        Some(b"guideng_admin_session"),
        Some("guideng_admin_session=s3cret; x=é".as_bytes()),
    ] {
        assert!(!is_admin_authenticated(&state, cookies));
        assert_eq!(
            refusal(require_admin(&state, cookies).unwrap_err()),
            (401, "admin login required".to_string())
        );
    }
}

#[test]
fn login_cookie_is_recognised_and_logout_cookie_is_not() {
    let state = state(&generate_session_secret());
    let set = session_cookie(&state);
    assert_eq!(
        set,
        format!(
            "guideng_admin_session={}; HttpOnly; SameSite=Lax; Path=/admin; Max-Age=2592000",
            state.admin_session
        )
    );
    let sent = set.split(';').next().unwrap();
    assert!(is_admin_authenticated(&state, Some(sent.as_bytes())));
    let unset = expired_cookie(&state);
    assert_eq!(
        unset,
        "guideng_admin_session=; HttpOnly; SameSite=Lax; Path=/admin; Max-Age=0"
    );
    let sent = unset.split(';').next().unwrap();
    assert!(!is_admin_authenticated(&state, Some(sent.as_bytes())));
    for cookie in [set, unset] {
        assert!(axum::http::HeaderValue::from_str(&cookie).is_ok());
    }
}

#[test]
fn server_that_runs_says_so() {
    let health = health();
    assert!(health.ok);
    assert_eq!(health.name, "guideng");
}
