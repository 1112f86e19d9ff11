use kactive_window_launcher::paths::{
    data_type_from_extension, detect_data_type, detect_query, disk_path_exists, path_query,
    DiskQuery,
};
use kactive_window_launcher::settings::DataType;

#[test]
fn blank_paths_have_no_type() {
    assert_eq!(detect_data_type("", true), DataType::Empty);
    assert_eq!(detect_data_type("  \t ", true), DataType::Empty);
    assert!(detect_query("   ").is_none());
}

#[test]
fn directories_are_folders() {
    assert_eq!(detect_data_type(" C:\\Users ", true), DataType::Folder);
    match detect_query(" C:\\Users ") {
        Some(DiskQuery::IsDirectory(p)) => assert_eq!(p, "C:\\Users"),
        other => panic!("unexpected query {other:?}"),
    }
}

#[test]
fn web_addresses_in_any_case() {
    assert_eq!(detect_data_type("http://example.com", false), DataType::Url);
    assert_eq!(detect_data_type("  HTTPS://EXAMPLE.COM/a.exe", false), DataType::Url);
    assert_eq!(detect_data_type("WWW.example.com", false), DataType::Url);
    assert_eq!(detect_data_type("ftp://example.com", false), DataType::OtherApp);
}

#[test]
fn extensions_decide_the_type() {
    let cases = [
        ("C:\\tools\\app.exe", DataType::Exe),
        ("C:\\tools\\APP.EXE", DataType::Exe),
        ("run.bat", DataType::Script),
        ("run.VBS", DataType::Script),
        ("a.bmp", DataType::Image),
        ("a.jpg", DataType::Image),
        ("a.jpe", DataType::Image),
        ("a.jpeg", DataType::Image),
        ("a.png", DataType::Image),
        ("a.tga", DataType::Image),
        ("notes.txt", DataType::Text),
        ("page.htm", DataType::Url),
        ("page.HTML", DataType::Url),
        ("x.ppt", DataType::Doc),
        ("x.xls", DataType::Doc),
        ("x.doc", DataType::Doc),
        ("x.pdf", DataType::Doc),
        ("desk.cpl", DataType::Cpl),
        ("file.xyz", DataType::OtherApp),
        ("noextension", DataType::OtherApp),
        (".hidden", DataType::OtherApp),
        ("archive.tar.txt", DataType::Text),
    ];
    for (path, expected) in cases {
        assert_eq!(detect_data_type(path, false), expected, "{path}");
    }
}

#[test]
fn extension_mapping() {
    assert_eq!(data_type_from_extension(Some("JPEG")), DataType::Image);
    assert_eq!(data_type_from_extension(Some("")), DataType::OtherApp);
    assert_eq!(data_type_from_extension(None), DataType::OtherApp);
    assert_eq!(data_type_from_extension(Some("docx")), DataType::OtherApp);
}

#[test]
fn existence_of_web_addresses_needs_no_disk() {
    assert!(disk_path_exists("https://example.com", &DataType::Url, false));
    assert!(disk_path_exists("see http://x", &DataType::Url, false));
    assert!(disk_path_exists(" www.example.com ", &DataType::Url, false));
    assert!(!disk_path_exists("example.com", &DataType::Url, true));
    assert!(path_query("https://example.com", &DataType::Url).is_none());
}

#[test]
fn existence_of_files_follows_the_disk() {
    assert!(!disk_path_exists("   ", &DataType::Exe, true));
    assert!(disk_path_exists("a.exe", &DataType::Exe, true));
    assert!(!disk_path_exists("a.exe", &DataType::Exe, false));
    assert!(disk_path_exists("C:\\data", &DataType::Folder, true));
    match path_query(" C:\\data ", &DataType::Folder) {
        Some(DiskQuery::IsDirectory(p)) => assert_eq!(p, "C:\\data"),
        other => panic!("unexpected query {other:?}"),
    }
    match path_query(" a.exe", &DataType::Exe) {
        Some(DiskQuery::Exists(p)) => assert_eq!(p, "a.exe"),
        other => panic!("unexpected query {other:?}"),
    }
    assert!(path_query("", &DataType::Exe).is_none());
}

#[test]
fn detection_ignores_ascii_case() {
    for path in ["Report.PDF", " Setup.Exe ", "WWW.Example.com", "Photo.JpEg", "noext", "Desk.CPL"] {
        assert_eq!(
            detect_data_type(path, false),
            detect_data_type(&path.to_ascii_lowercase(), false),
            "{path}"
        );
        assert_eq!(detect_data_type(path, false), detect_data_type(path.trim(), false), "{path}");
    }
}
