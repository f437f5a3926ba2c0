use moyu::commands::{
    check_txt_size, content_title_message, fenbi_image_result_script, native_menu_action_script,
    plan_viewer_open, route_menu_item, toggle_windows_hidden, window_state_key, ContentTitle, MenuCommand,
    VOCABULARY_TXT_MAX_BYTES,
};
use moyu::settings::default_settings;
use moyu::web_url::DEFAULT_URL;

#[test]
fn image_result_scripts() {
    assert_eq!(
        fenbi_image_result_script("img-1", Some("data:image/png;base64,AA=="), true),
        "window.__moyuFenbiImageTransparencyReceive && window.__moyuFenbiImageTransparencyReceive(\"img-1\", \"data:image/png;base64,AA==\", true);"
    );
    assert_eq!(
        fenbi_image_result_script("a\"b", None, false),
        "window.__moyuFenbiImageTransparencyReceive && window.__moyuFenbiImageTransparencyReceive(\"a\\\"b\", \"\", false);"
    );
}

#[test]
fn menu_action_scripts() {
    assert_eq!(
        native_menu_action_script("settings-open"),
        Some("window.dispatchEvent(new CustomEvent('local:native-menu-action', { detail: { action: \"settings-open\" } }));".to_string())
    );
}

#[test]
fn content_titles_are_told_apart() {
    assert_eq!(content_title_message("__MOYU_CONTENT_LOG__hello"), ContentTitle::Log("hello".to_string()));
    assert_eq!(
        content_title_message("__MOYU_CONTENT_IMAGE__{\"id\":\"1\"}"),
        ContentTitle::ImageRequest("{\"id\":\"1\"}".to_string())
    );
    assert_eq!(content_title_message("粉笔"), ContentTitle::Plain);
    assert_eq!(content_title_message("__MOYU_CONTENT_LOG__"), ContentTitle::Log(String::new()));
}

#[test]
fn viewer_plans() {
    let settings = default_settings();
    let plan = plan_viewer_open(None, None, None, None, &settings);
    assert_eq!(plan.url, DEFAULT_URL);
    assert!(plan.clear_image_cache);
    assert!(!plan.rebuild_window);
    assert!(!plan.transparent);
    assert!(plan.fenbi_personalized);
    let plan = plan_viewer_open(
        Some("https://www.fenbi.com".to_string()),
        Some("https://www.fenbi.com/".to_string()),
        Some(false),
        Some(true),
        &settings,
    );
    assert_eq!(plan.url, "https://www.fenbi.com/");
    assert!(!plan.clear_image_cache);
    assert!(plan.rebuild_window);
    assert!(plan.transparent);
}

#[test]
fn visibility_toggles() {
    let mut hidden = false;
    assert!(!toggle_windows_hidden(&mut hidden));
    assert!(hidden);
    assert!(toggle_windows_hidden(&mut hidden));
    assert!(!hidden);
}

#[test]
fn window_state_keys() {
    assert_eq!(window_state_key("content"), Some("transparentContent".to_string()));
    assert_eq!(window_state_key("mental_math"), Some("mentalMath".to_string()));
    assert_eq!(window_state_key("pdf_reader"), Some("pdfReader".to_string()));
    assert_eq!(window_state_key("vocabulary"), Some("vocabulary".to_string()));
    assert_eq!(window_state_key("launcher"), Some("launcher".to_string()));
    assert_eq!(window_state_key("other"), None);
}

#[test]
fn txt_size_limit() {
    assert_eq!(check_txt_size(VOCABULARY_TXT_MAX_BYTES), Ok(()));
    assert_eq!(check_txt_size(VOCABULARY_TXT_MAX_BYTES + 1), Err("TXT 文件不能超过 8 MB".to_string()));
}

#[test]
fn ids_are_escaped_as_json_strings() {
    assert_eq!(
        fenbi_image_result_script("a\"b\\\n\t\r\u{8}\u{c}\u{1}\u{1f} é/", None, true),
        "window.__moyuFenbiImageTransparencyReceive && window.__moyuFenbiImageTransparencyReceive(\"a\\\"b\\\\\\n\\t\\r\\b\\f\\u0001\\u001f é/\", \"\", true);"
    );
    assert_eq!(
        native_menu_action_script("x\u{7f}\u{0}"),
        Some("window.dispatchEvent(new CustomEvent('local:native-menu-action', { detail: { action: \"x\u{7f}\\u0000\" } }));".to_string())
    );
}

#[test]
fn menu_items_are_routed() {
    assert_eq!(route_menu_item("menu.file.show-launcher", "vocabulary"), MenuCommand::ShowLauncher);
    assert_eq!(route_menu_item("menu.file.open-pdf", "vocabulary"), MenuCommand::OpenPdf);
    assert_eq!(
        route_menu_item("menu.file.close-window", "mental_math"),
        MenuCommand::CloseWindow("mental_math".to_string())
    );
    assert_eq!(
        route_menu_item("menu.settings.open", "launcher"),
        MenuCommand::Dispatch { label: "launcher".to_string(), action: "settings-open".to_string() }
    );
    assert_eq!(
        route_menu_item("menu.help.contact", "content"),
        MenuCommand::Dispatch { label: "content".to_string(), action: "contact-open".to_string() }
    );
    assert_eq!(
        route_menu_item("menu.settings.zoom-in", "launcher"),
        MenuCommand::Dispatch { label: "pdf_reader".to_string(), action: "pdf-zoom-in".to_string() }
    );
    assert_eq!(
        route_menu_item("menu.settings.zoom-out", "vocabulary"),
        MenuCommand::Dispatch { label: "pdf_reader".to_string(), action: "pdf-zoom-out".to_string() }
    );
    assert_eq!(route_menu_item("menu.unknown", "launcher"), MenuCommand::Nothing);
}
