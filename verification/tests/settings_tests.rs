use kactive_window_launcher::paths::DiskQuery;
use kactive_window_launcher::settings::{
    default_settings, default_theme, empty_slot, normalize_queries, normalize_settings,
    pick_loaded_settings, slot_clear, slot_swap, slot_update, CommandError, DataType,
    LauncherSettings, LauncherSlot, Theme, SETTINGS_VERSION, SLOT_COUNT,
};

fn slot(index: usize, data_type: DataType, path: &str) -> LauncherSlot {
    LauncherSlot {
        index,
        data_type,
        path: path.to_string(),
        arg: String::new(),
        comment: format!("comment {index}"),
        exist: false,
    }
}

fn settings_with(slots: Vec<LauncherSlot>) -> LauncherSettings {
    LauncherSettings { version: 0, theme: Theme::Dark, slots }
}

#[test]
fn default_settings_hold_sixty_four_empty_slots() {
    let s = default_settings();
    assert_eq!(s.version, SETTINGS_VERSION);
    assert_eq!(s.theme, Theme::Classic);
    assert_eq!(s.slots.len(), SLOT_COUNT);
    assert_eq!(SLOT_COUNT, 64);
    for (i, slot) in s.slots.iter().enumerate() {
        assert_eq!(slot.index, i);
        assert_eq!(slot.data_type, DataType::Empty);
        assert!(slot.path.is_empty() && slot.arg.is_empty() && slot.comment.is_empty());
        assert!(!slot.exist);
    }
}

#[test]
fn default_theme_is_classic() {
    assert_eq!(default_theme(), Theme::Classic);
}

#[test]
fn empty_slot_keeps_its_index() {
    let s = empty_slot(7);
    assert_eq!(s.index, 7);
    assert_eq!(s.data_type, DataType::Empty);
    assert!(!s.exist);
}

#[test]
fn normalize_pads_renumbers_and_rechecks_existence() {
    let s = settings_with(vec![
        slot(5, DataType::Exe, "  C:\\tools\\a.exe "),
        slot(9, DataType::Url, "https://example.com"),
        slot(3, DataType::Folder, "   "),
    ]);
    let queries = normalize_queries(&s);
    assert_eq!(queries.len(), 3);
    match &queries[0] {
        Some(DiskQuery::Exists(p)) => assert_eq!(p, "C:\\tools\\a.exe"),
        other => panic!("unexpected query {other:?}"),
    }
    assert!(queries[1].is_none());
    assert!(queries[2].is_none());
    let r = normalize_settings(s, &vec![true, false, true]);
    assert_eq!(r.version, 1);
    assert_eq!(r.theme, Theme::Dark);
    assert_eq!(r.slots.len(), 64);
    assert_eq!(r.slots[0].index, 0);
    assert!(r.slots[0].exist);
    assert_eq!(r.slots[0].path, "  C:\\tools\\a.exe ");
    assert_eq!(r.slots[0].comment, "comment 5");
    assert_eq!(r.slots[1].index, 1);
    assert!(r.slots[1].exist);
    assert_eq!(r.slots[2].index, 2);
    assert!(!r.slots[2].exist);
    for i in 3..64 {
        assert_eq!(r.slots[i].index, i);
        assert_eq!(r.slots[i].data_type, DataType::Empty);
        assert!(!r.slots[i].exist);
    }
}

#[test]
fn normalize_drops_slots_beyond_sixty_four() {
    let slots: Vec<LauncherSlot> = (0..70).map(|i| slot(i, DataType::Exe, "x.exe")).collect();
    let s = settings_with(slots);
    let queries = normalize_queries(&s);
    assert_eq!(queries.len(), 64);
    let answers = vec![false; 64];
    let r = normalize_settings(s, &answers);
    assert_eq!(r.slots.len(), 64);
    assert_eq!(r.slots[63].index, 63);
}

#[test]
fn normalize_twice_changes_nothing() {
    let s = settings_with(vec![slot(2, DataType::Exe, "x.exe"), slot(0, DataType::Url, "www.a")]);
    let once = normalize_settings(s, &vec![true, false]);
    let answers: Vec<bool> = (0..64).map(|i| i == 0).collect();
    let again = normalize_settings(
        LauncherSettings { version: once.version, theme: once.theme, slots: once.slots.iter().map(|s| s.duplicate()).collect() },
        &answers,
    );
    assert_eq!(again.slots.len(), once.slots.len());
    for (a, b) in again.slots.iter().zip(once.slots.iter()) {
        assert_eq!(a.index, b.index);
        assert_eq!(a.data_type, b.data_type);
        assert_eq!(a.path, b.path);
        assert_eq!(a.exist, b.exist);
    }
}

#[test]
fn swap_exchanges_and_renumbers() {
    let s = normalize_settings(
        settings_with(vec![slot(0, DataType::Exe, "a.exe"), slot(1, DataType::Text, "b.txt")]),
        &vec![true, true],
    );
    let r = slot_swap(s, 0, 1).unwrap();
    assert_eq!(r.slots[0].path, "b.txt");
    assert_eq!(r.slots[0].index, 0);
    assert_eq!(r.slots[0].data_type, DataType::Text);
    assert_eq!(r.slots[1].path, "a.exe");
    assert_eq!(r.slots[1].index, 1);
    let back = slot_swap(r, 0, 1).unwrap();
    assert_eq!(back.slots[0].path, "a.exe");
    assert_eq!(back.slots[1].path, "b.txt");
}

#[test]
fn swap_out_of_range_is_refused() {
    let s = default_settings();
    assert_eq!(slot_swap(s, 0, 64).unwrap_err(), CommandError::SlotOutOfRange);
    let s = default_settings();
    assert_eq!(slot_swap(s, 64, 0).unwrap_err(), CommandError::SlotOutOfRange);
}

#[test]
fn update_stores_slot_and_rechecks_existence() {
    let s = default_settings();
    let r = slot_update(s, slot(4, DataType::Folder, " C:\\data "), true).unwrap();
    assert_eq!(r.slots[4].path, " C:\\data ");
    assert_eq!(r.slots[4].data_type, DataType::Folder);
    assert!(r.slots[4].exist);
    let r = slot_update(r, slot(5, DataType::Url, "ftp://example"), true).unwrap();
    assert!(!r.slots[5].exist);
    let r = slot_update(r, slot(6, DataType::Exe, "   "), true).unwrap();
    assert!(!r.slots[6].exist);
    assert_eq!(
        slot_update(r, slot(64, DataType::Exe, "a.exe"), true).unwrap_err(),
        CommandError::SlotOutOfRange
    );
}

#[test]
fn clear_empties_one_slot() {
    let s = slot_update(default_settings(), slot(3, DataType::Exe, "a.exe"), true).unwrap();
    let r = slot_clear(s, 3).unwrap();
    assert_eq!(r.slots[3].index, 3);
    assert_eq!(r.slots[3].data_type, DataType::Empty);
    assert!(r.slots[3].path.is_empty());
    assert!(!r.slots[3].exist);
    assert_eq!(slot_clear(r, 100).unwrap_err(), CommandError::SlotOutOfRange);
}

#[test]
fn loading_takes_the_first_readable_candidate() {
    assert!(pick_loaded_settings(vec![None, None]).is_none());
    assert!(pick_loaded_settings(Vec::new()).is_none());
    let (position, chosen) = pick_loaded_settings(vec![
        None,
        Some(settings_with(vec![slot(0, DataType::Exe, "first.exe")])),
        Some(settings_with(vec![slot(0, DataType::Exe, "second.exe")])),
    ])
    .unwrap();
    assert_eq!(position, 1);
    assert_eq!(chosen.slots[0].path, "first.exe");
    let (position, _) =
        pick_loaded_settings(vec![Some(settings_with(Vec::new())), None]).unwrap();
    assert_eq!(position, 0);
}

#[test]
fn error_messages() {
    assert_eq!(CommandError::SlotOutOfRange.message(), "スロット番号が範囲外です");
    assert_eq!(CommandError::SlotMissing.message(), "スロットが存在しません");
    assert_eq!(CommandError::NothingToExecute.message(), "実行可能な対象がありません");
}

#[test]
fn default_settings_are_already_normal() {
    let d = default_settings();
    let queries = normalize_queries(&d);
    assert_eq!(queries.len(), 64);
    assert!(queries.iter().all(|q| q.is_none()));
    let r = normalize_settings(default_settings(), &vec![true; 64]);
    assert_eq!(r.version, d.version);
    assert_eq!(r.theme, d.theme);
    for (a, b) in r.slots.iter().zip(d.slots.iter()) {
        assert_eq!(a.index, b.index);
        assert_eq!(a.data_type, b.data_type);
        assert_eq!(a.path, b.path);
        assert_eq!(a.exist, b.exist);
    }
}
