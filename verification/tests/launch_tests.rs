use kactive_window_launcher::launch::{is_blank_str, slot_execute};
use kactive_window_launcher::settings::{
    default_settings, CommandError, DataType, LauncherSettings, LauncherSlot,
};

fn with_slot(data_type: DataType, path: &str, arg: &str, exist: bool) -> LauncherSettings {
    let mut s = default_settings();
    s.slots[2] = LauncherSlot {
        index: 2,
        data_type,
        path: path.to_string(),
        arg: arg.to_string(),
        comment: String::new(),
        exist,
    };
    s
}

#[test]
fn missing_and_unusable_slots_are_refused() {
    let s = default_settings();
    assert_eq!(slot_execute(&s, 64, None).unwrap_err(), CommandError::SlotMissing);
    assert_eq!(slot_execute(&s, 0, None).unwrap_err(), CommandError::NothingToExecute);
    let s = with_slot(DataType::Exe, "a.exe", "", false);
    assert_eq!(slot_execute(&s, 2, None).unwrap_err(), CommandError::NothingToExecute);
    let s = with_slot(DataType::Empty, "a.exe", "", true);
    assert_eq!(slot_execute(&s, 2, None).unwrap_err(), CommandError::NothingToExecute);
}

#[test]
fn folders_open_in_the_explorer() {
    let s = with_slot(DataType::Folder, "C:\\data", "ignored", true);
    let c = slot_execute(&s, 2, Some("x".to_string())).unwrap();
    assert_eq!(c.program, "explorer");
    assert_eq!(c.args, vec!["C:\\data".to_string()]);
}

#[test]
fn web_addresses_open_through_start() {
    let s = with_slot(DataType::Url, "https://example.com", "", true);
    let c = slot_execute(&s, 2, Some("x".to_string())).unwrap();
    assert_eq!(c.program, "cmd");
    assert_eq!(c.args, vec!["/C", "start", "", "https://example.com"]);
}

#[test]
fn control_panel_items_open_in_control() {
    let s = with_slot(DataType::Cpl, "desk.cpl", "", true);
    let c = slot_execute(&s, 2, None).unwrap();
    assert_eq!(c.program, "control");
    assert_eq!(c.args, vec!["desk.cpl"]);
}

#[test]
fn scripts_run_in_cmd_with_the_dropped_argument() {
    let s = with_slot(DataType::Script, "run.bat", "own", true);
    let c = slot_execute(&s, 2, Some("D:\\in file.txt".to_string())).unwrap();
    assert_eq!(c.program, "cmd");
    assert_eq!(c.args, vec!["/C", "run.bat", "D:\\in file.txt"]);
    let c = slot_execute(&s, 2, Some("   ".to_string())).unwrap();
    assert_eq!(c.args, vec!["/C", "run.bat"]);
}

#[test]
fn programs_get_the_dropped_then_their_own_argument() {
    let s = with_slot(DataType::Exe, "C:\\app.exe", "--flag", true);
    let c = slot_execute(&s, 2, Some("drop.txt".to_string())).unwrap();
    assert_eq!(c.program, "C:\\app.exe");
    assert_eq!(c.args, vec!["drop.txt", "--flag"]);
    let c = slot_execute(&s, 2, None).unwrap();
    assert_eq!(c.args, vec!["--flag"]);
    let s = with_slot(DataType::Image, "pic.png", "  ", true);
    let c = slot_execute(&s, 2, Some(" ".to_string())).unwrap();
    assert_eq!(c.program, "pic.png");
    assert!(c.args.is_empty());
}

#[test]
fn blankness() {
    assert!(is_blank_str(""));
    assert!(is_blank_str(" \t\n\u{3000}"));
    assert!(!is_blank_str(" a "));
}
