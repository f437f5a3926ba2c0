//! The application settings: their defaults, the repairs made when they are
//! loaded, and the rules for each settings command.
//!
//! Window sizes are not part of this model; they are kept beside it by the
//! caller (see `window_layout`).

use vstd::prelude::*;
use crate::text::str_equal;
use crate::window_layout::{window_state_keys, missing_keys, lemma_missing_keys_complete};

verus! {

/// The switches of the content window's site plugins.
#[derive(Clone, Copy, Debug, PartialEq, Eq)]
pub struct ContentPluginSettings {
    pub fenbi_personalized: bool,
}

/// The plugin switches, by window.
#[derive(Clone, Copy, Debug, PartialEq, Eq)]
pub struct PluginSettings {
    pub content: ContentPluginSettings,
}

/// The content window's switches.
#[derive(Clone, Copy, Debug, PartialEq, Eq)]
pub struct ContentModuleSettings {
    pub transparent: bool,
    pub universal_transparency: bool,
    pub image_transparency: bool,
}

/// The mental-math window's switches.
#[derive(Clone, Copy, Debug, PartialEq, Eq)]
pub struct MentalMathModuleSettings {
    pub transparent: bool,
    pub weakness_focus: bool,
    pub strong_text: bool,
}

/// The PDF reader's switches.
#[derive(Clone, Copy, Debug, PartialEq, Eq)]
pub struct PdfReaderModuleSettings {
    pub transparent: bool,
    pub monochrome: bool,
    pub hide_images: bool,
    pub night_mode: bool,
    pub trim_margins: bool,
}

/// The switches of every module window.
#[derive(Clone, Copy, Debug, PartialEq, Eq)]
pub struct ModuleSettings {
    pub content: ContentModuleSettings,
    pub mental_math: MentalMathModuleSettings,
    pub pdf_reader: PdfReaderModuleSettings,
}

/// The application settings (the saved window sizes aside).
#[derive(Clone, Debug, PartialEq, Eq)]
pub struct AppSettings {
    pub default_transparent: bool,
    pub theme: String,
    pub expanded_resize_zone: bool,
    pub titlebar_transparent_follow: bool,
    pub module_settings: ModuleSettings,
    pub plugin_settings: PluginSettings,
    pub launcher_compact_migrated: bool,
}

/// The settings as plain values.
pub ghost struct SettingsView {
    pub default_transparent: bool,
    pub theme: Seq<char>,
    pub expanded_resize_zone: bool,
    pub titlebar_transparent_follow: bool,
    pub module_settings: ModuleSettings,
    pub plugin_settings: PluginSettings,
    pub launcher_compact_migrated: bool,
}

impl View for AppSettings {
    type V = SettingsView;

    open spec fn view(&self) -> SettingsView {
        SettingsView {
            default_transparent: self.default_transparent,
            theme: self.theme@,
            expanded_resize_zone: self.expanded_resize_zone,
            titlebar_transparent_follow: self.titlebar_transparent_follow,
            module_settings: self.module_settings,
            plugin_settings: self.plugin_settings,
            launcher_compact_migrated: self.launcher_compact_migrated,
        }
    }
}

/// The themes the interface offers.
pub open spec fn is_known_theme(theme: Seq<char>) -> bool {
    ||| theme == "mist"@
    ||| theme == "paper"@
    ||| theme == "ink"@
    ||| theme == "pine"@
    ||| theme == "night"@
}

/// Whether `theme` is one of the themes the interface offers.
pub fn known_theme(theme: &str) -> (res: bool)
    ensures
        res == is_known_theme(theme@),
{
    str_equal(theme, "mist") || str_equal(theme, "paper") || str_equal(theme, "ink") || str_equal(
        theme,
        "pine",
    ) || str_equal(theme, "night")
}

/// The theme of a fresh installation.
pub fn default_theme() -> (res: String)
    ensures
        res@ == "mist"@,
{
    String::from_str("mist")
}

/// A fresh installation has the wide resize border.
pub fn default_expanded_resize_zone() -> (res: bool)
    ensures
        res,
{
    true
}

/// The default of switches that start on.
pub fn default_true() -> (res: bool)
    ensures
        res,
{
    true
}

/// A fresh installation makes Fenbi images transparent.
pub fn default_content_image_transparency() -> (res: bool)
    ensures
        res,
{
    true
}

/// The content plugins of a fresh installation.
pub fn default_content_plugin_settings() -> (res: ContentPluginSettings)
    ensures
        res == (ContentPluginSettings { fenbi_personalized: true }),
{
    ContentPluginSettings { fenbi_personalized: true }
}

/// The plugin switches of a fresh installation.
pub fn default_plugin_settings() -> (res: PluginSettings)
    ensures
        res == (PluginSettings { content: ContentPluginSettings { fenbi_personalized: true } }),
{
    PluginSettings { content: default_content_plugin_settings() }
}

/// The content window's switches in a fresh installation.
pub fn default_content_module_settings() -> (res: ContentModuleSettings)
    ensures
        res == (ContentModuleSettings {
            transparent: false,
            universal_transparency: false,
            image_transparency: true,
        }),
{
    ContentModuleSettings {
        transparent: false,
        universal_transparency: false,
        image_transparency: true,
    }
}

/// The mental-math window's switches in a fresh installation.
pub fn default_mental_math_module_settings() -> (res: MentalMathModuleSettings)
    ensures
        res == (MentalMathModuleSettings {
            transparent: true,
            weakness_focus: true,
            strong_text: true,
        }),
{
    MentalMathModuleSettings { transparent: true, weakness_focus: true, strong_text: true }
}

/// The PDF reader's switches in a fresh installation.
pub fn default_pdf_reader_module_settings() -> (res: PdfReaderModuleSettings)
    ensures
        res == (PdfReaderModuleSettings {
            transparent: true,
            monochrome: false,
            hide_images: false,
            night_mode: false,
            trim_margins: true,
        }),
{
    PdfReaderModuleSettings {
        transparent: true,
        monochrome: false,
        hide_images: false,
        night_mode: false,
        trim_margins: true,
    }
}

/// The module settings of a fresh installation.
pub open spec fn default_modules() -> ModuleSettings {
    ModuleSettings {
        content: ContentModuleSettings {
            transparent: false,
            universal_transparency: false,
            image_transparency: true,
        },
        mental_math: MentalMathModuleSettings {
            transparent: true,
            weakness_focus: true,
            strong_text: true,
        },
        pdf_reader: PdfReaderModuleSettings {
            transparent: true,
            monochrome: false,
            hide_images: false,
            night_mode: false,
            trim_margins: true,
        },
    }
}

/// The module switches of a fresh installation.
pub fn default_module_settings() -> (res: ModuleSettings)
    ensures
        res == default_modules(),
{
    ModuleSettings {
        content: default_content_module_settings(),
        mental_math: default_mental_math_module_settings(),
        pdf_reader: default_pdf_reader_module_settings(),
    }
}

/// The settings of a fresh installation (window sizes aside).
pub fn default_settings() -> (res: AppSettings)
    ensures
        !res.default_transparent,
        res.theme@ == "mist"@,
        res.expanded_resize_zone,
        !res.titlebar_transparent_follow,
        res.module_settings == default_modules(),
        res.plugin_settings == (PluginSettings {
            content: ContentPluginSettings { fenbi_personalized: true },
        }),
        res.launcher_compact_migrated,
{
    AppSettings {
        default_transparent: false,
        theme: String::from_str("mist"),
        expanded_resize_zone: default_expanded_resize_zone(),
        titlebar_transparent_follow: false,
        module_settings: default_module_settings(),
        plugin_settings: default_plugin_settings(),
        launcher_compact_migrated: true,
    }
}

/// The content module's image transparency follows the Fenbi plugin switch.
pub open spec fn plugins_in_sync(s: SettingsView) -> bool {
    s.module_settings.content.image_transparency == s.plugin_settings.content.fenbi_personalized
}

/// `s` with the image transparency copied from the Fenbi plugin switch.
pub open spec fn with_plugins_synced(s: SettingsView) -> SettingsView {
    SettingsView {
        module_settings: ModuleSettings {
            content: ContentModuleSettings {
                image_transparency: s.plugin_settings.content.fenbi_personalized,
                ..s.module_settings.content
            },
            ..s.module_settings
        },
        ..s
    }
}

/// Copies the Fenbi plugin switch into the content module's image transparency.
pub fn normalize_plugin_settings(settings: &mut AppSettings)
    ensures
        final(settings)@ == with_plugins_synced(old(settings)@),
{
    settings.module_settings.content.image_transparency =
        settings.plugin_settings.content.fenbi_personalized;
}

/// What loading found to repair.
#[derive(Clone, Copy, Debug, PartialEq, Eq)]
pub struct LoadRepair {
    /// The repaired settings differ from the stored ones and are saved back.
    pub needs_save: bool,
    /// The launcher's stored window size is replaced by its default.
    pub reset_launcher_window: bool,
}

/// What loading finds to repair in `s`.
pub open spec fn load_repair_of(s: SettingsView) -> LoadRepair {
    LoadRepair {
        needs_save: !s.launcher_compact_migrated || !is_known_theme(s.theme),
        reset_launcher_window: !s.launcher_compact_migrated,
    }
}

/// The settings after the repairs made on load: the launcher migration is
/// marked done, an unknown theme becomes `mist`, and the Fenbi plugin switch
/// is copied into the content module.
pub open spec fn repaired(s: SettingsView) -> SettingsView {
    with_plugins_synced(
        SettingsView {
            launcher_compact_migrated: true,
            theme: if is_known_theme(s.theme) {
                s.theme
            } else {
                "mist"@
            },
            ..s
        },
    )
}

/// Repairs settings just read from disk (the decisions of `load_settings`).
pub fn repair_loaded_settings(settings: &mut AppSettings) -> (repair: LoadRepair)
    ensures
        repair == load_repair_of(old(settings)@),
        final(settings)@ == repaired(old(settings)@),
{
    let mut needs_save = false;
    let mut reset_launcher_window = false;
    if !settings.launcher_compact_migrated {
        reset_launcher_window = true;
        settings.launcher_compact_migrated = true;
        needs_save = true;
    }
    if !known_theme(settings.theme.as_str()) {
        settings.theme = String::from_str("mist");
        needs_save = true;
    }
    normalize_plugin_settings(settings);
    LoadRepair { needs_save, reset_launcher_window }
}

/// Refuses a theme the interface does not offer (the first step of
/// `app_set_theme`, taken before the settings are loaded).
pub fn check_theme(theme: &str) -> (res: Result<(), String>)
    ensures
        if is_known_theme(theme@) {
            res is Ok
        } else {
            res matches Err(e) && e@ == "invalid theme"@
        },
{
    if !known_theme(theme) {
        return Err(String::from_str("invalid theme"));
    }
    Ok(())
}

/// Applies a theme (the decision of `app_set_theme`): only the known themes
/// are accepted; reports whether the theme changed.
pub fn set_theme(settings: &mut AppSettings, theme: String) -> (res: Result<bool, String>)
    ensures
        if is_known_theme(theme@) {
            res matches Ok(changed) && changed == (old(settings).theme@ != theme@)
                && final(settings).theme@ == theme@ && final(settings)@ == (SettingsView { theme: theme@, ..old(settings)@ })
        } else {
            res matches Err(e) && e@ == "invalid theme"@ && final(settings)@ == old(settings)@
        },
{
    check_theme(theme.as_str())?;
    if str_equal(settings.theme.as_str(), theme.as_str()) {
        return Ok(false);
    }
    settings.theme = theme;
    Ok(true)
}

/// Sets the enlarged resize border; reports whether anything changed.
pub fn set_expanded_resize_zone(settings: &mut AppSettings, enabled: bool) -> (changed: bool)
    ensures
        changed == (old(settings).expanded_resize_zone != enabled),
        final(settings)@ == (SettingsView { expanded_resize_zone: enabled, ..old(settings)@ }),
{
    let changed = settings.expanded_resize_zone != enabled;
    settings.expanded_resize_zone = enabled;
    changed
}

/// Sets whether the title bar follows the transparency; reports whether
/// anything changed.
pub fn set_titlebar_transparent_follow(settings: &mut AppSettings, enabled: bool) -> (changed:
    bool)
    ensures
        changed == (old(settings).titlebar_transparent_follow != enabled),
        final(settings)@ == (SettingsView { titlebar_transparent_follow: enabled, ..old(settings)@ }),
{
    let changed = settings.titlebar_transparent_follow != enabled;
    settings.titlebar_transparent_follow = enabled;
    changed
}

/// Sets the default transparency; reports whether anything changed.
pub fn set_default_transparent(settings: &mut AppSettings, enabled: bool) -> (changed: bool)
    ensures
        changed == (old(settings).default_transparent != enabled),
        final(settings)@ == (SettingsView { default_transparent: enabled, ..old(settings)@ }),
{
    let changed = settings.default_transparent != enabled;
    settings.default_transparent = enabled;
    changed
}

/// The switches of the three modules that the settings page can flip.
#[derive(Clone, Copy, Debug, PartialEq, Eq)]
pub enum ModuleSettingKey {
    ContentTransparent,
    ContentUniversalTransparency,
    ContentImageTransparency,
    MentalMathTransparent,
    MentalMathWeaknessFocus,
    MentalMathStrongText,
    PdfReaderTransparent,
    PdfReaderMonochrome,
    PdfReaderHideImages,
    PdfReaderNightMode,
    PdfReaderTrimMargins,
}

/// The switch a (module, setting) pair of names designates, if any.
pub open spec fn module_setting_key(module: Seq<char>, setting: Seq<char>) -> Option<
    ModuleSettingKey,
> {
    if module == "content"@ {
        if setting == "transparent"@ {
            Some(ModuleSettingKey::ContentTransparent)
        } else if setting == "universalTransparency"@ {
            Some(ModuleSettingKey::ContentUniversalTransparency)
        } else if setting == "imageTransparency"@ {
            Some(ModuleSettingKey::ContentImageTransparency)
        } else {
            None
        }
    } else if module == "mentalMath"@ {
        if setting == "transparent"@ {
            Some(ModuleSettingKey::MentalMathTransparent)
        } else if setting == "weaknessFocus"@ {
            Some(ModuleSettingKey::MentalMathWeaknessFocus)
        } else if setting == "strongText"@ {
            Some(ModuleSettingKey::MentalMathStrongText)
        } else {
            None
        }
    } else if module == "pdfReader"@ {
        if setting == "transparent"@ {
            Some(ModuleSettingKey::PdfReaderTransparent)
        } else if setting == "monochrome"@ {
            Some(ModuleSettingKey::PdfReaderMonochrome)
        } else if setting == "hideImages"@ {
            Some(ModuleSettingKey::PdfReaderHideImages)
        } else if setting == "nightMode"@ {
            Some(ModuleSettingKey::PdfReaderNightMode)
        } else if setting == "trimMargins"@ {
            Some(ModuleSettingKey::PdfReaderTrimMargins)
        } else {
            None
        }
    } else {
        None
    }
}

/// The switch a (module, setting) pair of the settings page names.
pub fn parse_module_setting_key(module: &str, setting: &str) -> (res: Option<ModuleSettingKey>)
    ensures
        res == module_setting_key(module@, setting@),
{
    if str_equal(module, "content") {
        if str_equal(setting, "transparent") {
            Some(ModuleSettingKey::ContentTransparent)
        } else if str_equal(setting, "universalTransparency") {
            Some(ModuleSettingKey::ContentUniversalTransparency)
        } else if str_equal(setting, "imageTransparency") {
            Some(ModuleSettingKey::ContentImageTransparency)
        } else {
            None
        }
    } else if str_equal(module, "mentalMath") {
        if str_equal(setting, "transparent") {
            Some(ModuleSettingKey::MentalMathTransparent)
        } else if str_equal(setting, "weaknessFocus") {
            Some(ModuleSettingKey::MentalMathWeaknessFocus)
        } else if str_equal(setting, "strongText") {
            Some(ModuleSettingKey::MentalMathStrongText)
        } else {
            None
        }
    } else if str_equal(module, "pdfReader") {
        if str_equal(setting, "transparent") {
            Some(ModuleSettingKey::PdfReaderTransparent)
        } else if str_equal(setting, "monochrome") {
            Some(ModuleSettingKey::PdfReaderMonochrome)
        } else if str_equal(setting, "hideImages") {
            Some(ModuleSettingKey::PdfReaderHideImages)
        } else if str_equal(setting, "nightMode") {
            Some(ModuleSettingKey::PdfReaderNightMode)
        } else if str_equal(setting, "trimMargins") {
            Some(ModuleSettingKey::PdfReaderTrimMargins)
        } else {
            None
        }
    } else {
        None
    }
}

/// The current value of a module switch.
pub open spec fn module_flag(m: ModuleSettings, key: ModuleSettingKey) -> bool {
    match key {
        ModuleSettingKey::ContentTransparent => m.content.transparent,
        ModuleSettingKey::ContentUniversalTransparency => m.content.universal_transparency,
        ModuleSettingKey::ContentImageTransparency => m.content.image_transparency,
        ModuleSettingKey::MentalMathTransparent => m.mental_math.transparent,
        ModuleSettingKey::MentalMathWeaknessFocus => m.mental_math.weakness_focus,
        ModuleSettingKey::MentalMathStrongText => m.mental_math.strong_text,
        ModuleSettingKey::PdfReaderTransparent => m.pdf_reader.transparent,
        ModuleSettingKey::PdfReaderMonochrome => m.pdf_reader.monochrome,
        ModuleSettingKey::PdfReaderHideImages => m.pdf_reader.hide_images,
        ModuleSettingKey::PdfReaderNightMode => m.pdf_reader.night_mode,
        ModuleSettingKey::PdfReaderTrimMargins => m.pdf_reader.trim_margins,
    }
}

/// `m` with one module switch set to `v`.
pub open spec fn with_module_flag(m: ModuleSettings, key: ModuleSettingKey, v: bool) -> ModuleSettings {
    match key {
        ModuleSettingKey::ContentTransparent => ModuleSettings {
            content: ContentModuleSettings { transparent: v, ..m.content },
            ..m
        },
        ModuleSettingKey::ContentUniversalTransparency => ModuleSettings {
            content: ContentModuleSettings { universal_transparency: v, ..m.content },
            ..m
        },
        ModuleSettingKey::ContentImageTransparency => ModuleSettings {
            content: ContentModuleSettings { image_transparency: v, ..m.content },
            ..m
        },
        ModuleSettingKey::MentalMathTransparent => ModuleSettings {
            mental_math: MentalMathModuleSettings { transparent: v, ..m.mental_math },
            ..m
        },
        ModuleSettingKey::MentalMathWeaknessFocus => ModuleSettings {
            mental_math: MentalMathModuleSettings { weakness_focus: v, ..m.mental_math },
            ..m
        },
        ModuleSettingKey::MentalMathStrongText => ModuleSettings {
            mental_math: MentalMathModuleSettings { strong_text: v, ..m.mental_math },
            ..m
        },
        ModuleSettingKey::PdfReaderTransparent => ModuleSettings {
            pdf_reader: PdfReaderModuleSettings { transparent: v, ..m.pdf_reader },
            ..m
        },
        ModuleSettingKey::PdfReaderMonochrome => ModuleSettings {
            pdf_reader: PdfReaderModuleSettings { monochrome: v, ..m.pdf_reader },
            ..m
        },
        ModuleSettingKey::PdfReaderHideImages => ModuleSettings {
            pdf_reader: PdfReaderModuleSettings { hide_images: v, ..m.pdf_reader },
            ..m
        },
        ModuleSettingKey::PdfReaderNightMode => ModuleSettings {
            pdf_reader: PdfReaderModuleSettings { night_mode: v, ..m.pdf_reader },
            ..m
        },
        ModuleSettingKey::PdfReaderTrimMargins => ModuleSettings {
            pdf_reader: PdfReaderModuleSettings { trim_margins: v, ..m.pdf_reader },
            ..m
        },
    }
}

/// The settings after flipping a module switch to `v` when it differs: the
/// image transparency switch carries the Fenbi plugin switch with it.
pub open spec fn with_module_setting(s: SettingsView, key: ModuleSettingKey, v: bool) -> SettingsView {
    if module_flag(s.module_settings, key) == v {
        s
    } else if key == ModuleSettingKey::ContentImageTransparency {
        SettingsView {
            module_settings: with_module_flag(s.module_settings, key, v),
            plugin_settings: PluginSettings {
                content: ContentPluginSettings { fenbi_personalized: v },
            },
            ..s
        }
    } else {
        SettingsView { module_settings: with_module_flag(s.module_settings, key, v), ..s }
    }
}

/// What the windows have to do after a module switch was set.
#[derive(Clone, Copy, Debug, PartialEq, Eq)]
pub enum SettingFollowUp {
    /// Rebuild the content window with the given transparency.
    ReopenContent,
    /// Re-run the content page's initialisation script.
    RefreshContentScript,
    /// Reopen the mental-math window with the given transparency.
    ReopenMentalMath,
    /// Repaint the PDF reader's background.
    RecolorPdfReader,
    Nothing,
}

/// The window work a module switch calls for.
pub open spec fn follow_up_of(key: ModuleSettingKey) -> SettingFollowUp {
    match key {
        ModuleSettingKey::ContentTransparent => SettingFollowUp::ReopenContent,
        ModuleSettingKey::ContentImageTransparency => SettingFollowUp::RefreshContentScript,
        ModuleSettingKey::MentalMathTransparent => SettingFollowUp::ReopenMentalMath,
        ModuleSettingKey::PdfReaderTransparent => SettingFollowUp::RecolorPdfReader,
        _ => SettingFollowUp::Nothing,
    }
}

/// The outcome of a module settings command.
#[derive(Clone, Copy, Debug, PartialEq, Eq)]
pub struct ModuleSettingOutcome {
    /// The settings changed and are to be saved.
    pub changed: bool,
    pub follow_up: SettingFollowUp,
}

fn read_module_flag(m: &ModuleSettings, key: ModuleSettingKey) -> (res: bool)
    ensures
        res == module_flag(*m, key),
{
    match key {
        ModuleSettingKey::ContentTransparent => m.content.transparent,
        ModuleSettingKey::ContentUniversalTransparency => m.content.universal_transparency,
        ModuleSettingKey::ContentImageTransparency => m.content.image_transparency,
        ModuleSettingKey::MentalMathTransparent => m.mental_math.transparent,
        ModuleSettingKey::MentalMathWeaknessFocus => m.mental_math.weakness_focus,
        ModuleSettingKey::MentalMathStrongText => m.mental_math.strong_text,
        ModuleSettingKey::PdfReaderTransparent => m.pdf_reader.transparent,
        ModuleSettingKey::PdfReaderMonochrome => m.pdf_reader.monochrome,
        ModuleSettingKey::PdfReaderHideImages => m.pdf_reader.hide_images,
        ModuleSettingKey::PdfReaderNightMode => m.pdf_reader.night_mode,
        ModuleSettingKey::PdfReaderTrimMargins => m.pdf_reader.trim_margins,
    }
}

fn with_flag(m: ModuleSettings, key: ModuleSettingKey, v: bool) -> (res: ModuleSettings)
    ensures
        res == with_module_flag(m, key, v),
{
    let mut r = m;
    match key {
        ModuleSettingKey::ContentTransparent => r.content.transparent = v,
        ModuleSettingKey::ContentUniversalTransparency => r.content.universal_transparency = v,
        ModuleSettingKey::ContentImageTransparency => r.content.image_transparency = v,
        ModuleSettingKey::MentalMathTransparent => r.mental_math.transparent = v,
        ModuleSettingKey::MentalMathWeaknessFocus => r.mental_math.weakness_focus = v,
        ModuleSettingKey::MentalMathStrongText => r.mental_math.strong_text = v,
        ModuleSettingKey::PdfReaderTransparent => r.pdf_reader.transparent = v,
        ModuleSettingKey::PdfReaderMonochrome => r.pdf_reader.monochrome = v,
        ModuleSettingKey::PdfReaderHideImages => r.pdf_reader.hide_images = v,
        ModuleSettingKey::PdfReaderNightMode => r.pdf_reader.night_mode = v,
        ModuleSettingKey::PdfReaderTrimMargins => r.pdf_reader.trim_margins = v,
    }
    r
}

fn write_module_flag(settings: &mut AppSettings, key: ModuleSettingKey, v: bool)
    requires
        module_flag(old(settings).module_settings, key) != v,
    ensures
        final(settings)@ == with_module_setting(old(settings)@, key, v),
{
    settings.module_settings = with_flag(settings.module_settings, key, v);
    if let ModuleSettingKey::ContentImageTransparency = key {
        settings.plugin_settings = PluginSettings {
            content: ContentPluginSettings { fenbi_personalized: v },
        };
    }
}

fn follow_up_for(key: ModuleSettingKey) -> (res: SettingFollowUp)
    ensures
        res == follow_up_of(key),
{
    match key {
        ModuleSettingKey::ContentTransparent => SettingFollowUp::ReopenContent,
        ModuleSettingKey::ContentImageTransparency => SettingFollowUp::RefreshContentScript,
        ModuleSettingKey::MentalMathTransparent => SettingFollowUp::ReopenMentalMath,
        ModuleSettingKey::PdfReaderTransparent => SettingFollowUp::RecolorPdfReader,
        _ => SettingFollowUp::Nothing,
    }
}

/// Applies a module settings command (the decisions of `app_set_module_setting`).
pub fn set_module_setting(
    settings: &mut AppSettings,
    module_key: &str,
    setting_key: &str,
    enabled: bool,
) -> (res: Result<ModuleSettingOutcome, String>)
    ensures
        match module_setting_key(module_key@, setting_key@) {
            None => res matches Err(e) && e@ == "unsupported module setting"@ && final(settings)@
                == old(settings)@,
            Some(key) => res matches Ok(outcome) && outcome.changed == (module_flag(
                old(settings).module_settings,
                key,
            ) != enabled) && outcome.follow_up == follow_up_of(key) && final(settings)@
                == with_module_setting(old(settings)@, key, enabled),
        },
{
    let key = match parse_module_setting_key(module_key, setting_key) {
        Some(key) => key,
        None => return Err(String::from_str("unsupported module setting")),
    };
    let changed = read_module_flag(&settings.module_settings, key) != enabled;
    if changed {
        write_module_flag(settings, key, enabled);
    }
    let follow_up = follow_up_for(key);
    Ok(ModuleSettingOutcome { changed, follow_up })
}

/// The plugin switches the settings page can flip.
pub open spec fn is_known_plugin_key(plugin_key: Seq<char>) -> bool {
    plugin_key == "content.fenbiPersonalized"@
}

/// The settings after setting the Fenbi plugin switch to `v` when it
/// differs: the content module's image transparency follows it.
pub open spec fn with_fenbi_plugin(s: SettingsView, v: bool) -> SettingsView {
    if s.plugin_settings.content.fenbi_personalized == v {
        s
    } else {
        SettingsView {
            plugin_settings: PluginSettings {
                content: ContentPluginSettings { fenbi_personalized: v },
            },
            module_settings: ModuleSettings {
                content: ContentModuleSettings {
                    image_transparency: v,
                    ..s.module_settings.content
                },
                ..s.module_settings
            },
            ..s
        }
    }
}

/// Applies a plugin settings command (the decisions of
/// `app_set_plugin_setting`); reports whether the settings changed. After a
/// successful command the content window is rebuilt with the content
/// module's transparency.
pub fn set_plugin_setting(settings: &mut AppSettings, plugin_key: &str, enabled: bool) -> (res:
    Result<bool, String>)
    ensures
        if is_known_plugin_key(plugin_key@) {
            res matches Ok(changed) && changed == (old(settings).plugin_settings.content.fenbi_personalized != enabled) && final(settings)@
                == with_fenbi_plugin(old(settings)@, enabled)
        } else {
            res matches Err(e) && e@ == "unsupported plugin setting"@ && final(settings)@
                == old(settings)@
        },
{
    if !str_equal(plugin_key, "content.fenbiPersonalized") {
        return Err(String::from_str("unsupported plugin setting"));
    }
    if settings.plugin_settings.content.fenbi_personalized != enabled {
        settings.plugin_settings.content.fenbi_personalized = enabled;
        settings.module_settings.content.image_transparency = enabled;
        Ok(true)
    } else {
        Ok(false)
    }
}

/// A module settings command reads back: afterwards the switch holds the
/// value it was set to.
pub proof fn lemma_module_setting_reads_back(s: SettingsView, key: ModuleSettingKey, v: bool)
    ensures
        module_flag(with_module_setting(s, key, v).module_settings, key) == v,
{
}

/// Setting a module switch twice to the same value is the same as setting it once.
pub proof fn lemma_module_setting_idempotent(s: SettingsView, key: ModuleSettingKey, v: bool)
    ensures
        with_module_setting(with_module_setting(s, key, v), key, v) == with_module_setting(
            s,
            key,
            v,
        ),
{
    lemma_module_setting_reads_back(s, key, v);
}

/// A module settings command leaves every other module switch as it was.
pub proof fn lemma_module_setting_keeps_other_switches(
    s: SettingsView,
    key: ModuleSettingKey,
    other: ModuleSettingKey,
    v: bool,
)
    requires
        other != key,
    ensures
        module_flag(with_module_setting(s, key, v).module_settings, other) == module_flag(
            s.module_settings,
            other,
        ),
{
}

/// The content module's image transparency and the Fenbi plugin switch stay
/// equal under every module and plugin settings command, once they are equal.
pub proof fn lemma_commands_keep_plugins_in_sync(s: SettingsView, key: ModuleSettingKey, v: bool)
    requires
        plugins_in_sync(s),
    ensures
        plugins_in_sync(with_module_setting(s, key, v)),
        plugins_in_sync(with_fenbi_plugin(s, v)),
{
}

/// Loading repairs once: repaired settings need no further repair, are
/// saved no more, and have the plugin switches in sync.
pub proof fn lemma_repair_idempotent(s: SettingsView)
    ensures
        repaired(repaired(s)) == repaired(s),
        load_repair_of(repaired(s)) == (LoadRepair { needs_save: false, reset_launcher_window: false }),
        plugins_in_sync(repaired(s)),
        is_known_theme(repaired(s).theme),
{
}

/// Loading yields complete settings, whatever the file held: after the
/// repair the launcher migration is done, the theme is a known one, the
/// image transparency equals the Fenbi plugin switch, and the stored window
/// states together with the missing ones filled in cover every window key.
pub proof fn lemma_loaded_settings_are_complete(s: SettingsView, stored_keys: Seq<Seq<char>>)
    ensures
        repaired(s).launcher_compact_migrated,
        is_known_theme(repaired(s).theme),
        plugins_in_sync(repaired(s)),
        forall|k: Seq<char>|
            #[trigger] window_state_keys().contains(k) ==> stored_keys.contains(k) || missing_keys(
                window_state_keys(),
                stored_keys,
            ).contains(k),
{
    lemma_repair_idempotent(s);
    assert forall|k: Seq<char>| #[trigger] window_state_keys().contains(k) implies stored_keys.contains(
        k,
    ) || missing_keys(window_state_keys(), stored_keys).contains(k) by {
        lemma_missing_keys_complete(window_state_keys(), stored_keys, k);
    }
}

proof fn lemma_setting_names_differ()
    ensures
        "content"@ != "mentalMath"@,
        "content"@ != "pdfReader"@,
        "content"@ != "transparent"@,
        "content"@ != "universalTransparency"@,
        "content"@ != "imageTransparency"@,
        "content"@ != "weaknessFocus"@,
        "content"@ != "strongText"@,
        "content"@ != "monochrome"@,
        "content"@ != "hideImages"@,
        "content"@ != "nightMode"@,
        "content"@ != "trimMargins"@,
        "mentalMath"@ != "pdfReader"@,
        "mentalMath"@ != "transparent"@,
        "mentalMath"@ != "universalTransparency"@,
        "mentalMath"@ != "imageTransparency"@,
        "mentalMath"@ != "weaknessFocus"@,
        "mentalMath"@ != "strongText"@,
        "mentalMath"@ != "monochrome"@,
        "mentalMath"@ != "hideImages"@,
        "mentalMath"@ != "nightMode"@,
        "mentalMath"@ != "trimMargins"@,
        "pdfReader"@ != "transparent"@,
        "pdfReader"@ != "universalTransparency"@,
        "pdfReader"@ != "imageTransparency"@,
        "pdfReader"@ != "weaknessFocus"@,
        "pdfReader"@ != "strongText"@,
        "pdfReader"@ != "monochrome"@,
        "pdfReader"@ != "hideImages"@,
        "pdfReader"@ != "nightMode"@,
        "pdfReader"@ != "trimMargins"@,
        "transparent"@ != "universalTransparency"@,
        "transparent"@ != "imageTransparency"@,
        "transparent"@ != "weaknessFocus"@,
        "transparent"@ != "strongText"@,
        "transparent"@ != "monochrome"@,
        "transparent"@ != "hideImages"@,
        "transparent"@ != "nightMode"@,
        "transparent"@ != "trimMargins"@,
        "universalTransparency"@ != "imageTransparency"@,
        "universalTransparency"@ != "weaknessFocus"@,
        "universalTransparency"@ != "strongText"@,
        "universalTransparency"@ != "monochrome"@,
        "universalTransparency"@ != "hideImages"@,
        "universalTransparency"@ != "nightMode"@,
        "universalTransparency"@ != "trimMargins"@,
        "imageTransparency"@ != "weaknessFocus"@,
        "imageTransparency"@ != "strongText"@,
        "imageTransparency"@ != "monochrome"@,
        "imageTransparency"@ != "hideImages"@,
        "imageTransparency"@ != "nightMode"@,
        "imageTransparency"@ != "trimMargins"@,
        "weaknessFocus"@ != "strongText"@,
        "weaknessFocus"@ != "monochrome"@,
        "weaknessFocus"@ != "hideImages"@,
        "weaknessFocus"@ != "nightMode"@,
        "weaknessFocus"@ != "trimMargins"@,
        "strongText"@ != "monochrome"@,
        "strongText"@ != "hideImages"@,
        "strongText"@ != "nightMode"@,
        "strongText"@ != "trimMargins"@,
        "monochrome"@ != "hideImages"@,
        "monochrome"@ != "nightMode"@,
        "monochrome"@ != "trimMargins"@,
        "hideImages"@ != "nightMode"@,
        "hideImages"@ != "trimMargins"@,
        "nightMode"@ != "trimMargins"@,
{
    reveal_strlit("content");
    reveal_strlit("mentalMath");
    reveal_strlit("pdfReader");
    reveal_strlit("transparent");
    reveal_strlit("universalTransparency");
    reveal_strlit("imageTransparency");
    reveal_strlit("weaknessFocus");
    reveal_strlit("strongText");
    reveal_strlit("monochrome");
    reveal_strlit("hideImages");
    reveal_strlit("nightMode");
    reveal_strlit("trimMargins");
    assert("content"@.len() != "mentalMath"@.len());
    assert("content"@ != "mentalMath"@);
    assert("content"@.len() != "pdfReader"@.len());
    assert("content"@ != "pdfReader"@);
    assert("content"@.len() != "transparent"@.len());
    assert("content"@ != "transparent"@);
    assert("content"@.len() != "universalTransparency"@.len());
    assert("content"@ != "universalTransparency"@);
    assert("content"@.len() != "imageTransparency"@.len());
    assert("content"@ != "imageTransparency"@);
    assert("content"@.len() != "weaknessFocus"@.len());
    assert("content"@ != "weaknessFocus"@);
    assert("content"@.len() != "strongText"@.len());
    assert("content"@ != "strongText"@);
    assert("content"@.len() != "monochrome"@.len());
    assert("content"@ != "monochrome"@);
    assert("content"@.len() != "hideImages"@.len());
    assert("content"@ != "hideImages"@);
    assert("content"@.len() != "nightMode"@.len());
    assert("content"@ != "nightMode"@);
    assert("content"@.len() != "trimMargins"@.len());
    assert("content"@ != "trimMargins"@);
    assert("mentalMath"@.len() != "pdfReader"@.len());
    assert("mentalMath"@ != "pdfReader"@);
    assert("mentalMath"@.len() != "transparent"@.len());
    assert("mentalMath"@ != "transparent"@);
    assert("mentalMath"@.len() != "universalTransparency"@.len());
    assert("mentalMath"@ != "universalTransparency"@);
    assert("mentalMath"@.len() != "imageTransparency"@.len());
    assert("mentalMath"@ != "imageTransparency"@);
    assert("mentalMath"@.len() != "weaknessFocus"@.len());
    assert("mentalMath"@ != "weaknessFocus"@);
    assert("mentalMath"@[0] != "strongText"@[0]);
    assert("mentalMath"@ != "strongText"@);
    assert("mentalMath"@[1] != "monochrome"@[1]);
    assert("mentalMath"@ != "monochrome"@);
    assert("mentalMath"@[0] != "hideImages"@[0]);
    assert("mentalMath"@ != "hideImages"@);
    assert("mentalMath"@.len() != "nightMode"@.len());
    assert("mentalMath"@ != "nightMode"@);
    assert("mentalMath"@.len() != "trimMargins"@.len());
    assert("mentalMath"@ != "trimMargins"@);
    assert("pdfReader"@.len() != "transparent"@.len());
    assert("pdfReader"@ != "transparent"@);
    assert("pdfReader"@.len() != "universalTransparency"@.len());
    assert("pdfReader"@ != "universalTransparency"@);
    assert("pdfReader"@.len() != "imageTransparency"@.len());
    assert("pdfReader"@ != "imageTransparency"@);
    assert("pdfReader"@.len() != "weaknessFocus"@.len());
    assert("pdfReader"@ != "weaknessFocus"@);
    assert("pdfReader"@.len() != "strongText"@.len());
    assert("pdfReader"@ != "strongText"@);
    assert("pdfReader"@.len() != "monochrome"@.len());
    assert("pdfReader"@ != "monochrome"@);
    assert("pdfReader"@.len() != "hideImages"@.len());
    assert("pdfReader"@ != "hideImages"@);
    assert("pdfReader"@[0] != "nightMode"@[0]);
    assert("pdfReader"@ != "nightMode"@);
    assert("pdfReader"@.len() != "trimMargins"@.len());
    assert("pdfReader"@ != "trimMargins"@);
    assert("transparent"@.len() != "universalTransparency"@.len());
    assert("transparent"@ != "universalTransparency"@);
    assert("transparent"@.len() != "imageTransparency"@.len());
    assert("transparent"@ != "imageTransparency"@);
    assert("transparent"@.len() != "weaknessFocus"@.len());
    assert("transparent"@ != "weaknessFocus"@);
    assert("transparent"@.len() != "strongText"@.len());
    assert("transparent"@ != "strongText"@);
    assert("transparent"@.len() != "monochrome"@.len());
    assert("transparent"@ != "monochrome"@);
    assert("transparent"@.len() != "hideImages"@.len());
    assert("transparent"@ != "hideImages"@);
    assert("transparent"@.len() != "nightMode"@.len());
    assert("transparent"@ != "nightMode"@);
    assert("transparent"@[2] != "trimMargins"@[2]);
    assert("transparent"@ != "trimMargins"@);
    assert("universalTransparency"@.len() != "imageTransparency"@.len());
    assert("universalTransparency"@ != "imageTransparency"@);
    assert("universalTransparency"@.len() != "weaknessFocus"@.len());
    assert("universalTransparency"@ != "weaknessFocus"@);
    assert("universalTransparency"@.len() != "strongText"@.len());
    assert("universalTransparency"@ != "strongText"@);
    assert("universalTransparency"@.len() != "monochrome"@.len());
    assert("universalTransparency"@ != "monochrome"@);
    assert("universalTransparency"@.len() != "hideImages"@.len());
    assert("universalTransparency"@ != "hideImages"@);
    assert("universalTransparency"@.len() != "nightMode"@.len());
    assert("universalTransparency"@ != "nightMode"@);
    assert("universalTransparency"@.len() != "trimMargins"@.len());
    assert("universalTransparency"@ != "trimMargins"@);
    assert("imageTransparency"@.len() != "weaknessFocus"@.len());
    assert("imageTransparency"@ != "weaknessFocus"@);
    assert("imageTransparency"@.len() != "strongText"@.len());
    assert("imageTransparency"@ != "strongText"@);
    assert("imageTransparency"@.len() != "monochrome"@.len());
    assert("imageTransparency"@ != "monochrome"@);
    assert("imageTransparency"@.len() != "hideImages"@.len());
    assert("imageTransparency"@ != "hideImages"@);
    assert("imageTransparency"@.len() != "nightMode"@.len());
    assert("imageTransparency"@ != "nightMode"@);
    assert("imageTransparency"@.len() != "trimMargins"@.len());
    assert("imageTransparency"@ != "trimMargins"@);
    assert("weaknessFocus"@.len() != "strongText"@.len());
    assert("weaknessFocus"@ != "strongText"@);
    assert("weaknessFocus"@.len() != "monochrome"@.len());
    assert("weaknessFocus"@ != "monochrome"@);
    assert("weaknessFocus"@.len() != "hideImages"@.len());
    assert("weaknessFocus"@ != "hideImages"@);
    assert("weaknessFocus"@.len() != "nightMode"@.len());
    assert("weaknessFocus"@ != "nightMode"@);
    assert("weaknessFocus"@.len() != "trimMargins"@.len());
    assert("weaknessFocus"@ != "trimMargins"@);
    assert("strongText"@[0] != "monochrome"@[0]);
    assert("strongText"@ != "monochrome"@);
    assert("strongText"@[0] != "hideImages"@[0]);
    assert("strongText"@ != "hideImages"@);
    assert("strongText"@.len() != "nightMode"@.len());
    assert("strongText"@ != "nightMode"@);
    assert("strongText"@.len() != "trimMargins"@.len());
    assert("strongText"@ != "trimMargins"@);
    assert("monochrome"@[0] != "hideImages"@[0]);
    assert("monochrome"@ != "hideImages"@);
    assert("monochrome"@.len() != "nightMode"@.len());
    assert("monochrome"@ != "nightMode"@);
    assert("monochrome"@.len() != "trimMargins"@.len());
    assert("monochrome"@ != "trimMargins"@);
    assert("hideImages"@.len() != "nightMode"@.len());
    assert("hideImages"@ != "nightMode"@);
    assert("hideImages"@.len() != "trimMargins"@.len());
    assert("hideImages"@ != "trimMargins"@);
    assert("nightMode"@.len() != "trimMargins"@.len());
    assert("nightMode"@ != "trimMargins"@);
}

/// The settings that setting the switch named by (`module`, `setting`) to
/// `v` gives, for a pair the settings page knows.
pub open spec fn named_setting(s: SettingsView, module: Seq<char>, setting: Seq<char>, v: bool) -> SettingsView {
    with_module_setting(s, module_setting_key(module, setting).unwrap(), v)
}

/// Whether `r` is `s` with the module switches `m` and nothing else changed.
pub open spec fn only_modules_changed(s: SettingsView, r: SettingsView, m: ModuleSettings) -> bool {
    r == (SettingsView { module_settings: m, ..s })
}

/// Each name pair of the content window's switches sets the switch of that
/// name to the given value and leaves every other setting as it was. Turning the image transparency
/// also turns the Fenbi plugin switch with it.
pub proof fn lemma_content_setting_names(s: SettingsView, v: bool)
    ensures
        module_setting_key("content"@, "transparent"@) is Some,
        only_modules_changed(
            s,
            named_setting(s, "content"@, "transparent"@, v),
            (ModuleSettings {
                content: (ContentModuleSettings { transparent: v, ..s.module_settings.content }),
                ..s.module_settings
            }),
        ),
        module_setting_key("content"@, "universalTransparency"@) is Some,
        only_modules_changed(
            s,
            named_setting(s, "content"@, "universalTransparency"@, v),
            (ModuleSettings {
                content: (ContentModuleSettings { universal_transparency: v, ..s.module_settings.content }),
                ..s.module_settings
            }),
        ),
        module_setting_key("content"@, "imageTransparency"@) is Some,
        named_setting(s, "content"@, "imageTransparency"@, v).module_settings == (ModuleSettings {
            content: (ContentModuleSettings { image_transparency: v, ..s.module_settings.content }),
            ..s.module_settings
        }),
        s.module_settings.content.image_transparency != v ==> named_setting(
            s,
            "content"@,
            "imageTransparency"@,
            v,
        ).plugin_settings.content.fenbi_personalized == v,
        s.module_settings.content.image_transparency == v ==> named_setting(
            s,
            "content"@,
            "imageTransparency"@,
            v,
        ) == s,
{
    lemma_setting_names_differ();
    reveal_strlit("content");
    reveal_strlit("imageTransparency");
    reveal_strlit("mentalMath");
    reveal_strlit("pdfReader");
    reveal_strlit("transparent");
    reveal_strlit("universalTransparency");
    assert(module_setting_key("content"@, "transparent"@) == Some(ModuleSettingKey::ContentTransparent));
    assert(module_setting_key("content"@, "universalTransparency"@) == Some(ModuleSettingKey::ContentUniversalTransparency));
    assert(module_setting_key("content"@, "imageTransparency"@) == Some(ModuleSettingKey::ContentImageTransparency));
}

/// Each name pair of the mental-math window's switches sets the switch of that
/// name to the given value and leaves every other setting as it was.
pub proof fn lemma_mental_math_setting_names(s: SettingsView, v: bool)
    ensures
        module_setting_key("mentalMath"@, "transparent"@) is Some,
        only_modules_changed(
            s,
            named_setting(s, "mentalMath"@, "transparent"@, v),
            (ModuleSettings {
                mental_math: (MentalMathModuleSettings { transparent: v, ..s.module_settings.mental_math }),
                ..s.module_settings
            }),
        ),
        module_setting_key("mentalMath"@, "weaknessFocus"@) is Some,
        only_modules_changed(
            s,
            named_setting(s, "mentalMath"@, "weaknessFocus"@, v),
            (ModuleSettings {
                mental_math: (MentalMathModuleSettings { weakness_focus: v, ..s.module_settings.mental_math }),
                ..s.module_settings
            }),
        ),
        module_setting_key("mentalMath"@, "strongText"@) is Some,
        only_modules_changed(
            s,
            named_setting(s, "mentalMath"@, "strongText"@, v),
            (ModuleSettings {
                mental_math: (MentalMathModuleSettings { strong_text: v, ..s.module_settings.mental_math }),
                ..s.module_settings
            }),
        ),
{
    lemma_setting_names_differ();
    reveal_strlit("content");
    reveal_strlit("mentalMath");
    reveal_strlit("pdfReader");
    reveal_strlit("strongText");
    reveal_strlit("transparent");
    reveal_strlit("weaknessFocus");
    assert(module_setting_key("mentalMath"@, "transparent"@) == Some(ModuleSettingKey::MentalMathTransparent));
    assert(module_setting_key("mentalMath"@, "weaknessFocus"@) == Some(ModuleSettingKey::MentalMathWeaknessFocus));
    assert(module_setting_key("mentalMath"@, "strongText"@) == Some(ModuleSettingKey::MentalMathStrongText));
}

/// Each name pair of the PDF reader's switches sets the switch of that
/// name to the given value and leaves every other setting as it was.
pub proof fn lemma_pdf_reader_setting_names(s: SettingsView, v: bool)
    ensures
        module_setting_key("pdfReader"@, "transparent"@) is Some,
        only_modules_changed(
            s,
            named_setting(s, "pdfReader"@, "transparent"@, v),
            (ModuleSettings {
                pdf_reader: (PdfReaderModuleSettings { transparent: v, ..s.module_settings.pdf_reader }),
                ..s.module_settings
            }),
        ),
        module_setting_key("pdfReader"@, "monochrome"@) is Some,
        only_modules_changed(
            s,
            named_setting(s, "pdfReader"@, "monochrome"@, v),
            (ModuleSettings {
                pdf_reader: (PdfReaderModuleSettings { monochrome: v, ..s.module_settings.pdf_reader }),
                ..s.module_settings
            }),
        ),
        module_setting_key("pdfReader"@, "hideImages"@) is Some,
        only_modules_changed(
            s,
            named_setting(s, "pdfReader"@, "hideImages"@, v),
            (ModuleSettings {
                pdf_reader: (PdfReaderModuleSettings { hide_images: v, ..s.module_settings.pdf_reader }),
                ..s.module_settings
            }),
        ),
        module_setting_key("pdfReader"@, "nightMode"@) is Some,
        only_modules_changed(
            s,
            named_setting(s, "pdfReader"@, "nightMode"@, v),
            (ModuleSettings {
                pdf_reader: (PdfReaderModuleSettings { night_mode: v, ..s.module_settings.pdf_reader }),
                ..s.module_settings
            }),
        ),
        module_setting_key("pdfReader"@, "trimMargins"@) is Some,
        only_modules_changed(
            s,
            named_setting(s, "pdfReader"@, "trimMargins"@, v),
            (ModuleSettings {
                pdf_reader: (PdfReaderModuleSettings { trim_margins: v, ..s.module_settings.pdf_reader }),
                ..s.module_settings
            }),
        ),
{
    lemma_setting_names_differ();
    reveal_strlit("content");
    reveal_strlit("hideImages");
    reveal_strlit("mentalMath");
    reveal_strlit("monochrome");
    reveal_strlit("nightMode");
    reveal_strlit("pdfReader");
    reveal_strlit("transparent");
    reveal_strlit("trimMargins");
    assert(module_setting_key("pdfReader"@, "transparent"@) == Some(ModuleSettingKey::PdfReaderTransparent));
    assert(module_setting_key("pdfReader"@, "monochrome"@) == Some(ModuleSettingKey::PdfReaderMonochrome));
    assert(module_setting_key("pdfReader"@, "hideImages"@) == Some(ModuleSettingKey::PdfReaderHideImages));
    assert(module_setting_key("pdfReader"@, "nightMode"@) == Some(ModuleSettingKey::PdfReaderNightMode));
    assert(module_setting_key("pdfReader"@, "trimMargins"@) == Some(ModuleSettingKey::PdfReaderTrimMargins));
}

} // verus!
