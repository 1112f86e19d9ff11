use kactive_window_launcher::settings::{default_settings, CommandError};
use kactive_window_launcher::shell::{
    close_request, is_slot_editor_label, launcher_open_slot_editor, tray_menu_command,
    tray_menu_for, CloseDecision, TrayCommand, TrayMenu, TRAY_ICON_ID, TRAY_MENU_EXIT_ID,
    TRAY_MENU_HIDE_ID, TRAY_MENU_SETTINGS_ID, TRAY_MENU_SHOW_ID,
};

#[test]
fn tray_menu_items() {
    assert_eq!(TRAY_ICON_ID, "main-tray");
    assert_eq!(tray_menu_command(TRAY_MENU_SHOW_ID), Some(TrayCommand::Show));
    assert_eq!(tray_menu_command(TRAY_MENU_HIDE_ID), Some(TrayCommand::Hide));
    assert_eq!(tray_menu_command(TRAY_MENU_SETTINGS_ID), Some(TrayCommand::OpenSettings));
    assert_eq!(tray_menu_command(TRAY_MENU_EXIT_ID), Some(TrayCommand::Exit));
    assert_eq!(tray_menu_command("tray-unknown"), None);
    assert_eq!(tray_menu_command(""), None);
}

#[test]
fn tray_menu_follows_visibility() {
    assert_eq!(tray_menu_for(Some(true)), TrayMenu::WhileShown);
    assert_eq!(tray_menu_for(Some(false)), TrayMenu::WhileHidden);
    assert_eq!(tray_menu_for(None), TrayMenu::WhileHidden);
}

#[test]
fn closing_the_launcher_puts_it_in_the_tray() {
    assert_eq!(close_request("main", false), CloseDecision::HideToTray);
    assert_eq!(close_request("main", true), CloseDecision::Close);
    assert_eq!(close_request("settings", false), CloseDecision::NotOurs);
}

#[test]
fn slot_editor_windows() {
    let s = default_settings();
    let w = launcher_open_slot_editor(&s, 0).unwrap();
    assert_eq!(w.label, "slot-editor-0");
    assert_eq!(w.title, "ショートカット設定 1");
    let w = launcher_open_slot_editor(&s, 63).unwrap();
    assert_eq!(w.label, "slot-editor-63");
    assert_eq!(w.title, "ショートカット設定 64");
    assert!(is_slot_editor_label(&w.label));
    assert!(!is_slot_editor_label("settings"));
    assert!(launcher_open_slot_editor(&s, 64).is_err());
    assert_eq!(launcher_open_slot_editor(&s, 64).err(), Some(CommandError::SlotOutOfRange));
}
