use claude_usage::desktop::{
    desktop_entry, desktop_file_path, entry_is_current, first_window_named, icon_install_path, kwin_script,
    kwin_script_name, parse_script_id, window_name, xdg_data_dir,
};

#[test]
fn desktop_locations() {
    assert_eq!(xdg_data_dir(Some("/x"), Some("/h")), "/x");
    assert_eq!(xdg_data_dir(None, Some("/h")), "/h/.local/share");
    assert_eq!(xdg_data_dir(None, None), "/tmp/.local/share");
    assert_eq!(desktop_file_path("/d", "acme-usage"), "/d/applications/acme-usage.desktop");
    assert_eq!(icon_install_path("/d", "acme-usage"), "/d/icons/hicolor/256x256/apps/acme-usage.png");
}

#[test]
fn desktop_entry_names_the_executable() {
    let e = desktop_entry("/opt/cu", "acme-usage", "Acme");
    assert!(e.starts_with("[Desktop Entry]\nType=Application\nName=Acme Usage\nComment=Desktop widget showing Acme usage stats\n"));
    assert!(e.contains("\nExec=/opt/cu\nIcon=acme-usage\nTerminal=false\nStartupWMClass=acme-usage\n"));
    assert!(e.ends_with("Categories=Utility;\n"));
    assert!(entry_is_current(&e, "/opt/cu"));
    assert!(!entry_is_current(&e, "/opt/other"));
}

#[test]
fn window_and_script_names() {
    assert_eq!(window_name("Acme", 4242), "Acme Usage 4242");
    assert_eq!(kwin_script_name("acme", 7), "acme_sticky_7");
    assert_eq!(
        kwin_script("Acme Usage 7", true),
        "var w = workspace.windowList();\nfor (var i = 0; i < w.length; i++) {\nif (w[i].caption === \"Acme Usage 7\") {\nw[i].onAllDesktops = true;\nbreak;\n}\n}"
    );
    assert!(kwin_script("x", false).contains("onAllDesktops = false;"));
}

#[test]
fn script_ids_from_dbus_output() {
    assert_eq!(parse_script_id("method return time=1.0 sender=:1.2\n   int32 17\n"), Some(17));
    assert_eq!(parse_script_id("int32 -3"), Some(-3));
    assert_eq!(parse_script_id("int32 +4\r\n"), Some(4));
    assert_eq!(parse_script_id("int32 x\nint32 5"), Some(5));
    assert_eq!(parse_script_id("int32 2147483648"), None);
    assert_eq!(parse_script_id("int32 -2147483648"), Some(i32::MIN));
    assert_eq!(parse_script_id("int32 "), None);
    assert_eq!(parse_script_id("uint32 5"), None);
    assert_eq!(parse_script_id(""), None);
    assert_eq!(parse_script_id("\u{3000}int32 9\u{a0}"), Some(9));
}

#[test]
fn hints_go_to_the_first_window_of_that_name() {
    let names = vec![None, Some("Other".to_string()), Some("Acme Usage 7".to_string()), Some("Acme Usage 7".to_string())];
    assert_eq!(first_window_named(&names, "Acme Usage 7"), Some(2));
    assert_eq!(first_window_named(&names, "Acme Usage 8"), None);
    assert_eq!(first_window_named(&vec![], "x"), None);
}
