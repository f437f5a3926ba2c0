use moyu::settings::{
    check_theme, default_content_image_transparency, default_content_module_settings,
    default_content_plugin_settings, default_expanded_resize_zone,
    default_mental_math_module_settings, default_module_settings, default_pdf_reader_module_settings,
    default_plugin_settings, default_settings, default_theme, default_true, known_theme,
    normalize_plugin_settings, parse_module_setting_key, repair_loaded_settings,
    set_default_transparent, set_expanded_resize_zone, set_module_setting, set_plugin_setting,
    set_theme, set_titlebar_transparent_follow, LoadRepair, ModuleSettingKey, ModuleSettingOutcome,
    SettingFollowUp,
};

#[test]
fn defaults_of_a_fresh_installation() {
    let s = default_settings();
    assert!(!s.default_transparent);
    assert_eq!(s.theme, "mist");
    assert!(s.expanded_resize_zone);
    assert!(!s.titlebar_transparent_follow);
    assert!(s.launcher_compact_migrated);
    assert_eq!(s.module_settings, default_module_settings());
    assert!(s.plugin_settings.content.fenbi_personalized);
    assert_eq!(default_theme(), "mist");
    assert!(default_expanded_resize_zone());
    assert!(default_true());
    assert!(default_content_image_transparency());
    assert_eq!(default_plugin_settings().content, default_content_plugin_settings());
    let c = default_content_module_settings();
    assert_eq!((c.transparent, c.universal_transparency, c.image_transparency), (false, false, true));
    let m = default_mental_math_module_settings();
    assert_eq!((m.transparent, m.weakness_focus, m.strong_text), (true, true, true));
    let p = default_pdf_reader_module_settings();
    assert_eq!(
        (p.transparent, p.monochrome, p.hide_images, p.night_mode, p.trim_margins),
        (true, false, false, false, true)
    );
}

#[test]
fn loading_repairs_migration_theme_and_plugin_sync() {
    let mut s = default_settings();
    s.launcher_compact_migrated = false;
    s.theme = "neon".to_string();
    s.plugin_settings.content.fenbi_personalized = false;
    let repair = repair_loaded_settings(&mut s);
    assert_eq!(repair, LoadRepair { needs_save: true, reset_launcher_window: true });
    assert!(s.launcher_compact_migrated);
    assert_eq!(s.theme, "mist");
    assert!(!s.module_settings.content.image_transparency);
    // A second load finds nothing to repair.
    let again = repair_loaded_settings(&mut s);
    assert_eq!(again, LoadRepair { needs_save: false, reset_launcher_window: false });
}

#[test]
fn known_theme_is_kept_on_load() {
    let mut s = default_settings();
    s.theme = "night".to_string();
    let repair = repair_loaded_settings(&mut s);
    assert!(!repair.needs_save);
    assert_eq!(s.theme, "night");
}

#[test]
fn theme_command() {
    let mut s = default_settings();
    assert_eq!(set_theme(&mut s, "ink".to_string()), Ok(true));
    assert_eq!(s.theme, "ink");
    assert_eq!(set_theme(&mut s, "ink".to_string()), Ok(false));
    assert_eq!(set_theme(&mut s, "rainbow".to_string()), Err("invalid theme".to_string()));
    assert_eq!(s.theme, "ink");
    assert_eq!(check_theme("night"), Ok(()));
    assert_eq!(check_theme("Night"), Err("invalid theme".to_string()));
}

#[test]
fn flag_commands_report_changes() {
    let mut s = default_settings();
    assert!(!set_expanded_resize_zone(&mut s, true));
    assert!(set_expanded_resize_zone(&mut s, false));
    assert!(!s.expanded_resize_zone);
    assert!(set_titlebar_transparent_follow(&mut s, true));
    assert!(s.titlebar_transparent_follow);
    assert!(set_default_transparent(&mut s, true));
    assert!(!set_default_transparent(&mut s, true));
}

#[test]
fn module_setting_commands() {
    let mut s = default_settings();
    let out = set_module_setting(&mut s, "content", "transparent", true).unwrap();
    assert_eq!(out, ModuleSettingOutcome { changed: true, follow_up: SettingFollowUp::ReopenContent });
    assert!(s.module_settings.content.transparent);
    let out = set_module_setting(&mut s, "content", "transparent", true).unwrap();
    assert!(!out.changed);
    let out = set_module_setting(&mut s, "content", "imageTransparency", false).unwrap();
    assert_eq!(out.follow_up, SettingFollowUp::RefreshContentScript);
    assert!(!s.module_settings.content.image_transparency);
    assert!(!s.plugin_settings.content.fenbi_personalized);
    let out = set_module_setting(&mut s, "mentalMath", "transparent", false).unwrap();
    assert_eq!(out.follow_up, SettingFollowUp::ReopenMentalMath);
    let out = set_module_setting(&mut s, "pdfReader", "transparent", false).unwrap();
    assert_eq!(out.follow_up, SettingFollowUp::RecolorPdfReader);
    let out = set_module_setting(&mut s, "pdfReader", "nightMode", true).unwrap();
    assert_eq!(out, ModuleSettingOutcome { changed: true, follow_up: SettingFollowUp::Nothing });
    assert!(s.module_settings.pdf_reader.night_mode);
    for (m, k) in [
        ("content", "universalTransparency"),
        ("mentalMath", "weaknessFocus"),
        ("mentalMath", "strongText"),
        ("pdfReader", "monochrome"),
        ("pdfReader", "hideImages"),
        ("pdfReader", "trimMargins"),
    ] {
        assert!(set_module_setting(&mut s, m, k, true).is_ok(), "{m}.{k}");
    }
    let before = s.clone();
    assert_eq!(
        set_module_setting(&mut s, "content", "nightMode", true),
        Err("unsupported module setting".to_string())
    );
    assert_eq!(
        set_module_setting(&mut s, "vocabulary", "transparent", true),
        Err("unsupported module setting".to_string())
    );
    assert_eq!(s, before);
}

#[test]
fn plugin_setting_command_keeps_image_transparency_in_sync() {
    let mut s = default_settings();
    assert_eq!(set_plugin_setting(&mut s, "content.fenbiPersonalized", false), Ok(true));
    assert!(!s.plugin_settings.content.fenbi_personalized);
    assert!(!s.module_settings.content.image_transparency);
    assert_eq!(set_plugin_setting(&mut s, "content.fenbiPersonalized", false), Ok(false));
    assert_eq!(
        set_plugin_setting(&mut s, "content.other", true),
        Err("unsupported plugin setting".to_string())
    );
}

#[test]
fn parse_module_setting_keys() {
    assert_eq!(parse_module_setting_key("pdfReader", "hideImages"), Some(ModuleSettingKey::PdfReaderHideImages));
    assert_eq!(parse_module_setting_key("pdfReader", "hide_images"), None);
    assert!(known_theme("pine"));
    assert!(!known_theme("Pine"));
}

#[test]
fn normalize_plugin_settings_copies_switch() {
    let mut s = default_settings();
    s.module_settings.content.image_transparency = false;
    normalize_plugin_settings(&mut s);
    assert!(s.module_settings.content.image_transparency);
}
