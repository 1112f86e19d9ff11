use kactive_window_launcher::backups::{
    backup_file_name, backup_name_from_extension, backup_file_paths, file_modified_time, is_backup_file_name,
    plan_backup_rotation, BackupEntry, BACKUP_GENERATIONS,
};

fn entry(name: &str, modified: i128) -> BackupEntry {
    BackupEntry { file_name: name.to_string(), modified }
}

#[test]
fn backup_names() {
    assert_eq!(backup_file_name(0), "settings_backup_0.json");
    assert_eq!(backup_file_name(1725029869123), "settings_backup_1725029869123.json");
    assert!(is_backup_file_name(&backup_file_name(42)));
}

#[test]
fn recognising_backups() {
    assert!(is_backup_file_name("settings_backup_17.json"));
    assert!(is_backup_file_name("old-settings_backup_.json"));
    assert!(!is_backup_file_name("settings.json"));
    assert!(!is_backup_file_name("settings_backup_17.JSON"));
    assert!(!is_backup_file_name("settings_backup_17.json.tmp"));
    assert!(!is_backup_file_name("backup_17.json"));
}

#[test]
fn missing_times_sort_as_the_epoch() {
    assert_eq!(file_modified_time(None), 0);
    assert_eq!(file_modified_time(Some(-5)), -5);
    assert_eq!(file_modified_time(Some(123)), 123);
}

#[test]
fn backups_newest_first() {
    let listed = vec![
        entry("settings.json", 999),
        entry("settings_backup_1.json", 10),
        entry("settings_backup_3.json", 30),
        entry("notes.txt", 50),
        entry("settings_backup_2.json", 20),
        entry("settings_backup_2b.json", 20),
    ];
    assert_eq!(backup_file_paths(&listed), vec![2, 4, 5, 1]);
    assert!(backup_file_paths(&Vec::new()).is_empty());
}

#[test]
fn rotation_keeps_the_newest_five() {
    let listed: Vec<BackupEntry> = (0..8)
        .map(|i| entry(&format!("settings_backup_{i}.json"), i as i128))
        .collect();
    let (keep, remove) = plan_backup_rotation(&listed);
    assert_eq!(BACKUP_GENERATIONS, 5);
    assert_eq!(keep, vec![7, 6, 5, 4, 3]);
    assert_eq!(remove, vec![2, 1, 0]);
}

#[test]
fn rotation_removes_nothing_with_few_backups() {
    let listed = vec![entry("settings_backup_1.json", 1), entry("settings.json", 5)];
    let (keep, remove) = plan_backup_rotation(&listed);
    assert_eq!(keep, vec![0]);
    assert!(remove.is_empty());
}

#[test]
fn backup_names_from_their_extension() {
    assert!(backup_name_from_extension("settings_backup_1.json", Some("json")));
    assert!(!backup_name_from_extension("settings_backup_1.json", Some("JSON")));
    assert!(!backup_name_from_extension("settings_backup_1.json", None));
    assert!(!backup_name_from_extension("other.json", Some("json")));
}
