//! Decisions behind the window commands: what opening the content window
//! does, how messages from the content page are told apart, the scripts that
//! answer the page, and which saved window state a window uses.

use vstd::prelude::*;
use crate::text::{starts_with, has_prefix, str_equal, opt_view};
use crate::web_url::{normalize_url, normalized_url};
use crate::settings::AppSettings;

verus! {

/// Title prefix of a log line sent by the content page.
pub const CONTENT_LOG_PREFIX: &'static str = "__MOYU_CONTENT_LOG__";

/// Title prefix of an image request sent by the content page.
pub const CONTENT_IMAGE_PREFIX: &'static str = "__MOYU_CONTENT_IMAGE__";

/// Imported TXT files larger than this many bytes are refused.
pub const VOCABULARY_TXT_MAX_BYTES: u64 = 8 * 1024 * 1024;

/// The lowercase hexadecimal digit of `d` (0 to 15).
pub open spec fn hex_digit(d: int) -> char {
    if d < 10 {
        (48 + d) as char
    } else {
        (87 + d) as char
    }
}

/// How one character appears inside a JSON string written by `serde_json`:
/// `"` and `\` behind a backslash, the short escapes for backspace, tab,
/// line feed, form feed and carriage return, `\u00XX` (lowercase hex) for the
/// other control characters below U+0020, every other character as it is.
pub open spec fn json_escape_char(c: char) -> Seq<char> {
    let u = c as int;
    if c == '"' {
        seq!['\\', '"']
    } else if c == '\\' {
        seq!['\\', '\\']
    } else if u == 8 {
        seq!['\\', 'b']
    } else if u == 9 {
        seq!['\\', 't']
    } else if u == 10 {
        seq!['\\', 'n']
    } else if u == 12 {
        seq!['\\', 'f']
    } else if u == 13 {
        seq!['\\', 'r']
    } else if u < 32 {
        seq!['\\', 'u', '0', '0', hex_digit(u / 16), hex_digit(u % 16)]
    } else {
        seq![c]
    }
}

/// The characters of `s`, each escaped as in a JSON string.
pub open spec fn json_escaped(s: Seq<char>) -> Seq<char>
    decreases s.len(),
{
    if s.len() == 0 {
        seq![]
    } else {
        json_escaped(s.drop_last()) + json_escape_char(s.last())
    }
}

/// The JSON string literal of `s`: the escaped characters between quotes.
pub open spec fn json_quoted(s: Seq<char>) -> Seq<char> {
    seq!['"'] + json_escaped(s) + seq!['"']
}

/// Calls `serde_json::to_string` on a `&str`. Claimed: it succeeds (it writes
/// into a `Vec`, which never fails) and gives the JSON string literal
/// `json_quoted` of the characters, as `format_escaped_str` and the
/// `ESCAPE` table of `serde_json` write it.
#[verifier::external_body]
fn json_quote(s: &str) -> (res: Option<String>)
    ensures
        res is Some,
        match res {
            Some(j) => j@ == json_quoted(s@),
            None => true,
        },
{
    serde_json::to_string(s).ok()
}

/// The JSON literal of `s`; should serialization fail, `""` would stand in.
fn json_quote_or_empty(s: &str) -> (res: String)
    ensures
        res@ == json_quoted(s@),
{
    match json_quote(s) {
        Some(j) => j,
        None => String::from_str("\"\""),
    }
}

/// The script that hands a processed image (or the failure) back to the page.
pub open spec fn image_result_script(id: Seq<char>, data_url: Seq<char>, ok: bool) -> Seq<char> {
    "window.__moyuFenbiImageTransparencyReceive && window.__moyuFenbiImageTransparencyReceive("@
        + json_quoted(id) + ", "@ + json_quoted(data_url) + ", "@ + (if ok {
        "true"@
    } else {
        "false"@
    }) + ");"@
}

/// Builds the script that answers an image request
/// (`eval_fenbi_image_result`); a missing data URL is sent as `""`.
pub fn fenbi_image_result_script(id: &str, data_url: Option<&str>, ok: bool) -> (res: String)
    ensures
        res@ == image_result_script(
            id@,
            match data_url {
                Some(d) => d@,
                None => Seq::<char>::empty(),
            },
            ok,
        ),
{
    let id_json = json_quote_or_empty(id);
    let data = match data_url {
        Some(d) => d,
        None => "",
    };
    proof {
        reveal_strlit("");
    }
    let data_json = json_quote_or_empty(data);
    let flag = if ok {
        "true"
    } else {
        "false"
    };
    assert(flag@ == (if ok {
        "true"@
    } else {
        "false"@
    }));
    assert(data@ == match data_url {
        Some(d) => d@,
        None => Seq::<char>::empty(),
    });
    let res = String::from_str(
        "window.__moyuFenbiImageTransparencyReceive && window.__moyuFenbiImageTransparencyReceive(",
    ).concat(id_json.as_str()).concat(", ").concat(data_json.as_str()).concat(", ").concat(
        flag,
    ).concat(");");
    res
}

/// The script that dispatches a native menu action inside a page.
pub open spec fn menu_action_script(action_json: Seq<char>) -> Seq<char> {
    "window.dispatchEvent(new CustomEvent('local:native-menu-action', { detail: { action: "@
        + action_json + " } }));"@
}

/// Builds the script that dispatches a native menu action inside a page
/// (part of `emit_native_menu_action`); there is always one, since a string
/// always serializes.
pub fn native_menu_action_script(action: &str) -> (res: Option<String>)
    ensures
        res matches Some(s) && s@ == menu_action_script(json_quoted(action@)),
{
    match json_quote(action) {
        Some(j) => Some(
            String::from_str(
                "window.dispatchEvent(new CustomEvent('local:native-menu-action', { detail: { action: ",
            ).concat(j.as_str()).concat(" } }));"),
        ),
        None => None,
    }
}

/// A document title set by the content page.
#[derive(Clone, Debug, PartialEq, Eq)]
pub enum ContentTitle {
    /// A line for the debug log.
    Log(String),
    /// An image request, as JSON.
    ImageRequest(String),
    /// An ordinary title.
    Plain,
}

/// Whether a title is a log line, an image request or an ordinary title.
pub open spec fn classify_title(title: Seq<char>) -> (u8, Seq<char>) {
    if has_prefix(title, CONTENT_LOG_PREFIX@) {
        (0, title.subrange(CONTENT_LOG_PREFIX@.len() as int, title.len() as int))
    } else if has_prefix(title, CONTENT_IMAGE_PREFIX@) {
        (1, title.subrange(CONTENT_IMAGE_PREFIX@.len() as int, title.len() as int))
    } else {
        (2, title)
    }
}

/// Tells a content page title apart (the dispatch in `content_page_builder`).
pub fn content_title_message(title: &str) -> (res: ContentTitle)
    ensures
        match res {
            ContentTitle::Log(m) => classify_title(title@) == (0u8, m@),
            ContentTitle::ImageRequest(p) => classify_title(title@) == (1u8, p@),
            ContentTitle::Plain => classify_title(title@).0 == 2,
        },
{
    let n = title.unicode_len();
    if starts_with(title, CONTENT_LOG_PREFIX) {
        let m = CONTENT_LOG_PREFIX.unicode_len();
        return ContentTitle::Log(String::from_str(title.substring_char(m, n)));
    }
    if starts_with(title, CONTENT_IMAGE_PREFIX) {
        let m = CONTENT_IMAGE_PREFIX.unicode_len();
        return ContentTitle::ImageRequest(String::from_str(title.substring_char(m, n)));
    }
    ContentTitle::Plain
}

/// What opening the content window does.
pub struct ViewerPlan {
    /// The address to show.
    pub url: String,
    /// The address changed: processed images of the old page are forgotten.
    pub clear_image_cache: bool,
    /// The window exists with the other transparency and is rebuilt.
    pub rebuild_window: bool,
    pub transparent: bool,
    pub fenbi_personalized: bool,
}

/// Decides how the content window opens (the decisions of `viewer_open`):
/// `previous_url` is the address shown before, `current_transparent` the
/// transparency of the existing window, if any.
pub fn plan_viewer_open(
    target_url: Option<String>,
    previous_url: Option<String>,
    current_transparent: Option<bool>,
    requested_transparent: Option<bool>,
    settings: &AppSettings,
) -> (plan: ViewerPlan)
    ensures
        plan.url@ == normalized_url(opt_view(target_url)),
        plan.clear_image_cache == (opt_view(previous_url) != Some(plan.url@)),
        plan.transparent == match requested_transparent {
            Some(t) => t,
            None => settings.module_settings.content.transparent,
        },
        plan.fenbi_personalized == settings.plugin_settings.content.fenbi_personalized,
        plan.rebuild_window == match current_transparent {
            Some(c) => c != plan.transparent,
            None => false,
        },
{
    let url = normalize_url(target_url);
    let clear_image_cache = match &previous_url {
        Some(p) => !str_equal(p.as_str(), url.as_str()),
        None => true,
    };
    let transparent = match requested_transparent {
        Some(t) => t,
        None => settings.module_settings.content.transparent,
    };
    let rebuild_window = match current_transparent {
        Some(c) => c != transparent,
        None => false,
    };
    ViewerPlan {
        url,
        clear_image_cache,
        rebuild_window,
        transparent,
        fenbi_personalized: settings.plugin_settings.content.fenbi_personalized,
    }
}

/// Flips the "all windows hidden" state (`toggle_all_windows_visibility`);
/// returns whether the windows are to be shown (they were hidden).
pub fn toggle_windows_hidden(hidden: &mut bool) -> (show: bool)
    ensures
        show == *old(hidden),
        *final(hidden) == !*old(hidden),
{
    let show = *hidden;
    *hidden = !show;
    show
}

/// The key a window's size is saved under.
pub open spec fn state_key_of_label(label: Seq<char>) -> Option<Seq<char>> {
    if label == "launcher"@ {
        Some("launcher"@)
    } else if label == "content"@ {
        Some("transparentContent"@)
    } else if label == "mental_math"@ {
        Some("mentalMath"@)
    } else if label == "pdf_reader"@ {
        Some("pdfReader"@)
    } else if label == "vocabulary"@ {
        Some("vocabulary"@)
    } else {
        None
    }
}

/// The key the window with `label` saves its size under, if it saves one.
pub fn window_state_key(label: &str) -> (res: Option<String>)
    ensures
        opt_view(res) == state_key_of_label(label@),
{
    if str_equal(label, "launcher") {
        Some(String::from_str("launcher"))
    } else if str_equal(label, "content") {
        Some(String::from_str("transparentContent"))
    } else if str_equal(label, "mental_math") {
        Some(String::from_str("mentalMath"))
    } else if str_equal(label, "pdf_reader") {
        Some(String::from_str("pdfReader"))
    } else if str_equal(label, "vocabulary") {
        Some(String::from_str("vocabulary"))
    } else {
        None
    }
}

/// Menu item: show the launcher.
pub const MENU_FILE_SHOW_LAUNCHER: &'static str = "menu.file.show-launcher";
/// Menu item: open a PDF file.
pub const MENU_FILE_OPEN_PDF: &'static str = "menu.file.open-pdf";
/// Menu item: close the focused window.
pub const MENU_FILE_CLOSE_WINDOW: &'static str = "menu.file.close-window";
/// Menu item: open the preferences.
pub const MENU_SETTINGS_OPEN: &'static str = "menu.settings.open";
/// Menu item: open the contact page.
pub const MENU_HELP_CONTACT: &'static str = "menu.help.contact";
/// Menu item: zoom the PDF reader in.
pub const MENU_SETTINGS_ZOOM_IN: &'static str = "menu.settings.zoom-in";
/// Menu item: zoom the PDF reader out.
pub const MENU_SETTINGS_ZOOM_OUT: &'static str = "menu.settings.zoom-out";

/// What choosing a native menu item does.
#[derive(Clone, Debug, PartialEq, Eq)]
pub enum MenuCommand {
    /// Show the launcher.
    ShowLauncher,
    /// Pick and open a PDF file.
    OpenPdf,
    /// Close the window with this label.
    CloseWindow(String),
    /// Dispatch an action inside the page of the window with this label.
    Dispatch { label: String, action: String },
    /// Nothing (an unknown item).
    Nothing,
}

/// Whether `cmd` is what the menu item `id` does while the window labelled
/// `focused` has the focus. Preferences and contact go to the focused
/// window; zooming always goes to the PDF reader.
pub open spec fn routes_menu_item(id: Seq<char>, focused: Seq<char>, cmd: MenuCommand) -> bool {
    if id == MENU_FILE_SHOW_LAUNCHER@ {
        cmd is ShowLauncher
    } else if id == MENU_FILE_OPEN_PDF@ {
        cmd is OpenPdf
    } else if id == MENU_FILE_CLOSE_WINDOW@ {
        cmd matches MenuCommand::CloseWindow(l) && l@ == focused
    } else if id == MENU_SETTINGS_OPEN@ {
        cmd matches MenuCommand::Dispatch { label, action } && label@ == focused && action@
            == "settings-open"@
    } else if id == MENU_HELP_CONTACT@ {
        cmd matches MenuCommand::Dispatch { label, action } && label@ == focused && action@
            == "contact-open"@
    } else if id == MENU_SETTINGS_ZOOM_IN@ {
        cmd matches MenuCommand::Dispatch { label, action } && label@ == "pdf_reader"@ && action@
            == "pdf-zoom-in"@
    } else if id == MENU_SETTINGS_ZOOM_OUT@ {
        cmd matches MenuCommand::Dispatch { label, action } && label@ == "pdf_reader"@ && action@
            == "pdf-zoom-out"@
    } else {
        cmd is Nothing
    }
}

/// Decides what a native menu item does (the routing of the menu handler).
pub fn route_menu_item(id: &str, focused: &str) -> (cmd: MenuCommand)
    ensures
        routes_menu_item(id@, focused@, cmd),
{
    if str_equal(id, MENU_FILE_SHOW_LAUNCHER) {
        MenuCommand::ShowLauncher
    } else if str_equal(id, MENU_FILE_OPEN_PDF) {
        MenuCommand::OpenPdf
    } else if str_equal(id, MENU_FILE_CLOSE_WINDOW) {
        MenuCommand::CloseWindow(String::from_str(focused))
    } else if str_equal(id, MENU_SETTINGS_OPEN) {
        MenuCommand::Dispatch {
            label: String::from_str(focused),
            action: String::from_str("settings-open"),
        }
    } else if str_equal(id, MENU_HELP_CONTACT) {
        MenuCommand::Dispatch {
            label: String::from_str(focused),
            action: String::from_str("contact-open"),
        }
    } else if str_equal(id, MENU_SETTINGS_ZOOM_IN) {
        MenuCommand::Dispatch {
            label: String::from_str("pdf_reader"),
            action: String::from_str("pdf-zoom-in"),
        }
    } else if str_equal(id, MENU_SETTINGS_ZOOM_OUT) {
        MenuCommand::Dispatch {
            label: String::from_str("pdf_reader"),
            action: String::from_str("pdf-zoom-out"),
        }
    } else {
        MenuCommand::Nothing
    }
}

/// Checks the size of a TXT file picked for import.
pub fn check_txt_size(len: u64) -> (res: Result<(), String>)
    ensures
        if len > VOCABULARY_TXT_MAX_BYTES {
            res matches Err(e) && e@ == "TXT 文件不能超过 8 MB"@
        } else {
            res is Ok
        },
{
    if len > VOCABULARY_TXT_MAX_BYTES {
        return Err(String::from_str("TXT 文件不能超过 8 MB"));
    }
    Ok(())
}

} // verus!
