use guideng::admin::{admin_notice_url, admin_url, AppState};
use guideng::lang::AdminLang;
use guideng::pages::{render_admin_page, render_login_page};
use guideng::settings::MapConfig;

fn test_state(admin_path: &str) -> AppState {
    AppState {
        token: "test-token".to_string(),
        admin_password: "test-password".to_string(),
        admin_path: admin_path.to_string(),
        admin_session: "test-session".to_string(),
        map_config: MapConfig {
            provider: "amap",
            amap_web_js_api_key: None,
            amap_web_js_security_code: None,
            amap_android_key: None,
            amap_ios_key: None,
        },
    }
}

#[test]
fn admin_url_keeps_query_on_admin_path() {
    let state = test_state("/adminfm6190123onwf");

    assert_eq!(
        admin_url(&state, "?message=auto%20cleanup%20saved"),
        "/adminfm6190123onwf?message=auto%20cleanup%20saved"
    );
}

#[test]
fn admin_url_keeps_child_paths_under_admin_path() {
    let state = test_state("/adminfm6190123onwf");

    assert_eq!(admin_url(&state, "/login"), "/adminfm6190123onwf/login");
    assert_eq!(admin_url(&state, "login"), "/adminfm6190123onwf/login");
}

#[test]
fn admin_notice_url_keeps_language_and_count() {
    let state = test_state("/adminfm6190123onwf");

    assert_eq!(
        admin_notice_url(&state, AdminLang::En, "stale_devices_deleted", Some(3)),
        "/adminfm6190123onwf?lang=en&msg=stale_devices_deleted&count=3"
    );
}

#[test]
fn render_admin_page_uses_english_labels_and_keeps_language_in_forms() {
    let state = test_state("/adminfm6190123onwf");
    let html = render_admin_page(&state, &[], None, None, AdminLang::En);

    assert!(html.contains("<title>Guideng Admin</title>"));
    assert!(html.contains("Manual cleanup of inactive devices"));
    assert!(html.contains("Auto cleanup settings"));
    assert!(html.contains(r#"name="lang" value="en""#));
    assert!(html.contains(r#"href="/adminfm6190123onwf?lang=zh""#));
}

#[test]
fn render_login_page_uses_english_labels() {
    let state = test_state("/adminfm6190123onwf");
    let html = render_login_page(&state, Some(AdminLang::En.login_error()), AdminLang::En);

    assert!(html.contains("Admin password"));
    assert!(html.contains("Incorrect password"));
    assert!(html.contains(r#"href="/adminfm6190123onwf/login?lang=zh""#));
    assert!(html.contains(r#"name="lang" value="en""#));
}
