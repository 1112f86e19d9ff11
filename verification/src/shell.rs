//! Decisions of the application shell: tray menu commands, the tray menu
//! to show, closing the main window, and the slot editor window.

use vstd::prelude::*;
use crate::settings::{CommandError, LauncherSettings};
use crate::text::{
    append_chars, chars_of, decimal_chars, decimal_digits, has_prefix, starts_with_chars,
    str_equal, string_from_chars,
};

verus! {

/// Label of the launcher bar window.
pub const MAIN_WINDOW_LABEL: &'static str = "main";

/// Label of the settings window.
pub const SETTINGS_WINDOW_LABEL: &'static str = "settings";

/// Identifier of the tray icon.
pub const TRAY_ICON_ID: &'static str = "main-tray";

/// Identifier of the tray menu item that shows the launcher.
pub const TRAY_MENU_SHOW_ID: &'static str = "tray-show";

/// Identifier of the tray menu item that hides the launcher.
pub const TRAY_MENU_HIDE_ID: &'static str = "tray-hide";

/// Identifier of the tray menu item that opens the settings.
pub const TRAY_MENU_SETTINGS_ID: &'static str = "tray-settings";

/// Identifier of the tray menu item that quits.
pub const TRAY_MENU_EXIT_ID: &'static str = "tray-exit";

/// What a tray menu item asks for.
#[derive(Clone, Copy, Debug, PartialEq, Eq, Structural)]
pub enum TrayCommand {
    Show,
    Hide,
    OpenSettings,
    Exit,
}

/// The command of the tray menu item `id`, if it is one of ours.
pub fn tray_menu_command(id: &str) -> (c: Option<TrayCommand>)
    ensures
        id@ == "tray-show"@ ==> c == Some(TrayCommand::Show),
        id@ == "tray-hide"@ ==> c == Some(TrayCommand::Hide),
        id@ == "tray-settings"@ ==> c == Some(TrayCommand::OpenSettings),
        id@ == "tray-exit"@ ==> c == Some(TrayCommand::Exit),
        id@ != "tray-show"@ && id@ != "tray-hide"@ && id@ != "tray-settings"@ && id@
            != "tray-exit"@ ==> c is None,
{
    proof {
        reveal_strlit("tray-show");
        reveal_strlit("tray-hide");
        reveal_strlit("tray-settings");
        reveal_strlit("tray-exit");
        assert("tray-show"@[5] != "tray-hide"@[5]);
        assert("tray-show"@.len() != "tray-settings"@.len());
        assert("tray-show"@[5] != "tray-exit"@[5]);
        assert("tray-hide"@.len() != "tray-settings"@.len());
        assert("tray-hide"@[5] != "tray-exit"@[5]);
        assert("tray-settings"@.len() != "tray-exit"@.len());
    }
    if str_equal(id, TRAY_MENU_SHOW_ID) {
        Some(TrayCommand::Show)
    } else if str_equal(id, TRAY_MENU_HIDE_ID) {
        Some(TrayCommand::Hide)
    } else if str_equal(id, TRAY_MENU_SETTINGS_ID) {
        Some(TrayCommand::OpenSettings)
    } else if str_equal(id, TRAY_MENU_EXIT_ID) {
        Some(TrayCommand::Exit)
    } else {
        None
    }
}

/// The two tray menus.
#[derive(Clone, Copy, Debug, PartialEq, Eq, Structural)]
pub enum TrayMenu {
    /// Hide / Settings / Exit, while the launcher is shown.
    WhileShown,
    /// Show / Settings / Exit, while the launcher is hidden.
    WhileHidden,
}

/// The menu a left click on the tray icon brings up, given whether the
/// launcher window is visible (`None` when that could not be found out).
pub fn tray_menu_for(main_visible: Option<bool>) -> (m: TrayMenu)
    ensures
        m == (if main_visible == Some(true) {
            TrayMenu::WhileShown
        } else {
            TrayMenu::WhileHidden
        }),
{
    match main_visible {
        Some(true) => TrayMenu::WhileShown,
        _ => TrayMenu::WhileHidden,
    }
}

/// What to do with a request to close a window.
#[derive(Clone, Copy, Debug, PartialEq, Eq, Structural)]
pub enum CloseDecision {
    /// Not the launcher window: leave the request alone.
    NotOurs,
    /// The application is quitting: let the window close.
    Close,
    /// Keep the window and put the launcher in the tray instead.
    HideToTray,
}

/// Closing the launcher window puts it in the tray, unless the application
/// is quitting; other windows close normally.
pub fn close_request(label: &str, exiting: bool) -> (d: CloseDecision)
    ensures
        label@ != "main"@ ==> d == CloseDecision::NotOurs,
        label@ == "main"@ && exiting ==> d == CloseDecision::Close,
        label@ == "main"@ && !exiting ==> d == CloseDecision::HideToTray,
{
    if !str_equal(label, MAIN_WINDOW_LABEL) {
        CloseDecision::NotOurs
    } else if exiting {
        CloseDecision::Close
    } else {
        CloseDecision::HideToTray
    }
}

/// The editor window of one slot.
#[derive(Debug)]
pub struct SlotEditorWindow {
    pub label: String,
    pub title: String,
}

/// Label of the editor window of slot `index`.
pub open spec fn editor_label_of(index: nat) -> Seq<char> {
    "slot-editor-"@ + decimal_digits(index)
}

/// Title of the editor window of slot `index` (slots numbered from 1).
pub open spec fn editor_title_of(index: nat) -> Seq<char> {
    "ショートカット設定 "@ + decimal_digits(index + 1)
}

/// The editor window to open for slot `index`; refused with
/// `SlotOutOfRange` when there is no such slot.  Editor windows already
/// open are those whose label `is_slot_editor_label` accepts.
pub fn launcher_open_slot_editor(settings: &LauncherSettings, index: usize) -> (r: Result<
    SlotEditorWindow,
    CommandError,
>)
    ensures
        index >= settings.slots@.len() ==> r == Err::<SlotEditorWindow, CommandError>(
            CommandError::SlotOutOfRange,
        ),
        index < settings.slots@.len() ==> (r matches Ok(w) && w.label@ == editor_label_of(
            index as nat,
        ) && w.title@ == editor_title_of(index as nat)),
{
    if index >= settings.slots.len() {
        return Err(CommandError::SlotOutOfRange);
    }
    let mut label = chars_of("slot-editor-");
    append_chars(&mut label, &decimal_chars(index as u128));
    let mut title = chars_of("ショートカット設定 ");
    append_chars(&mut title, &decimal_chars(index as u128 + 1));
    Ok(SlotEditorWindow { label: string_from_chars(&label), title: string_from_chars(&title) })
}

/// Whether a window with this label is a slot editor.
pub fn is_slot_editor_label(label: &str) -> (r: bool)
    ensures
        r == has_prefix(label@, "slot-editor"@),
{
    starts_with_chars(&chars_of(label), &chars_of("slot-editor"))
}

/// Law: every editor window that `launcher_open_slot_editor` names is one
/// that `is_slot_editor_label` accepts, so opening an editor closes any
/// editor opened before.
pub proof fn lemma_editor_labels_are_recognised(index: nat)
    ensures
        has_prefix(editor_label_of(index), "slot-editor"@),
{
    reveal_strlit("slot-editor-");
    reveal_strlit("slot-editor");
    let l = editor_label_of(index);
    assert(l.subrange(0, "slot-editor"@.len() as int) =~= "slot-editor"@);
}

} // verus!
