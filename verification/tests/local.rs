use zcode_update::local::{
    detect_linux, detect_macos, detect_windows, exe_resource_version, fixed_file_version_text, linux_dirs_installed,
    package_manager_version, product_version_text, read_plist_version, version_from_dpkg_output,
    version_from_rpm_output, ExeProbe, LocalApp, macos_app_dir, linux_install_dirs, MACOS_DEFAULT_APP,
};
use zcode_update::version::{squirrel_pick_latest, version_from_squirrel_dir_name, version_sort_key};

const PLIST: &str = "<?xml version=\"1.0\" encoding=\"UTF-8\"?>\
     <!DOCTYPE plist PUBLIC \"-//Apple//DTD PLIST 1.0//EN\" \"http://www.apple.com/DTDs/PropertyList-1.0.dtd\">\
     <plist version=\"1.0\"><dict>\
     <key>CFBundleShortVersionString</key><string>3.2.1</string>\
     </dict></plist>";

#[test]
fn squirrel_dir_name_yields_version() {
    assert_eq!(
        version_from_squirrel_dir_name("app-1.2.3"),
        Some("1.2.3".to_string())
    );
    assert_eq!(
        version_from_squirrel_dir_name("app-10.0.1"),
        Some("10.0.1".to_string())
    );
    assert_eq!(version_from_squirrel_dir_name("app-beta"), None);
    assert_eq!(version_from_squirrel_dir_name("packages"), None);
}

#[test]
fn squirrel_numeric_ordering_prefers_highest() {
    let names: Vec<String> = ["app-1.10.0", "app-1.9.0", "app-1.2.3"]
        .iter()
        .map(|s| s.to_string())
        .collect();
    assert_eq!(squirrel_pick_latest(&names), Some("1.10.0".to_string()));
}

#[test]
fn dpkg_status_output_parses_version_line() {
    let text = "Package: zcode\nStatus: install ok installed\nVersion: 1.2.3\n";
    assert_eq!(version_from_dpkg_output(text), Some("1.2.3".to_string()));
    assert_eq!(version_from_dpkg_output("no version here"), None);
}

#[test]
fn rpm_query_output_parses_version_field() {
    assert_eq!(
        version_from_rpm_output("zcode-1.2.3-1.x86_64\n"),
        Some("1.2.3".to_string())
    );
    assert_eq!(
        version_from_rpm_output("package zcode is not installed\n"),
        None
    );
}

#[test]
fn plist_fixture_version_is_read() {
    assert_eq!(read_plist_version(Some(PLIST.as_bytes())), Some("3.2.1".to_string()));
    // An unreadable file gives no contents.
    assert_eq!(read_plist_version(None), None);
}

#[test]
fn detect_missing_override_reports_not_installed() {
    let not_installed = LocalApp {
        installed: false,
        version: None,
    };
    // macOS: the given .app directory does not exist.
    assert_eq!(detect_macos(false, None), not_installed);
    // Windows: the given executable is not a file and has no version resource.
    let probe = ExeProbe {
        is_file: false,
        version: None,
    };
    assert_eq!(detect_windows(Some(probe), None, None), not_installed);
    // Linux: the given path does not exist and no package manager knows the app.
    assert_eq!(detect_linux(Some(false), true, None), not_installed);
}

// ---------- further cases ----------

#[test]
fn squirrel_rejects_empty_and_non_digit_versions() {
    assert_eq!(version_from_squirrel_dir_name("app-"), None);
    assert_eq!(version_from_squirrel_dir_name("app-.1"), None);
    assert_eq!(version_from_squirrel_dir_name("app-1.2-beta"), None);
    assert_eq!(version_from_squirrel_dir_name("App-1.2"), None);
    assert_eq!(version_from_squirrel_dir_name("app-1."), Some("1.".to_string()));
}

#[test]
fn sort_key_reads_four_numeric_fields() {
    assert_eq!(version_sort_key("1.2.3"), (1, 2, 3, 0));
    assert_eq!(version_sort_key("1.10.0.7.9"), (1, 10, 0, 7));
    assert_eq!(version_sort_key(""), (0, 0, 0, 0));
    assert_eq!(version_sort_key("1..3"), (1, 0, 3, 0));
    assert_eq!(version_sort_key("+4.x.5"), (4, 0, 5, 0));
    assert_eq!(version_sort_key("18446744073709551615.18446744073709551616"), (u64::MAX, 0, 0, 0));
    assert_eq!(version_sort_key("-1.+.2"), (0, 0, 2, 0));
}

#[test]
fn squirrel_pick_ignores_other_entries_and_keeps_first_of_equal_keys() {
    let names: Vec<String> = ["packages", "app-1.2", "app-1.2.0", "Update.exe", "app-0.9"]
        .iter()
        .map(|s| s.to_string())
        .collect();
    assert_eq!(squirrel_pick_latest(&names), Some("1.2".to_string()));
    let none: Vec<String> = vec!["packages".to_string()];
    assert_eq!(squirrel_pick_latest(&none), None);
    assert_eq!(squirrel_pick_latest(&Vec::new()), None);
}

#[test]
fn dpkg_first_version_line_wins_and_blank_value_is_none() {
    assert_eq!(
        version_from_dpkg_output("Version: 2.0 \r\nVersion: 3.0\n"),
        Some("2.0".to_string())
    );
    assert_eq!(version_from_dpkg_output("Version:   \nVersion: 3.0\n"), None);
    assert_eq!(version_from_dpkg_output("A\nVersion: 4.1"), Some("4.1".to_string()));
    assert_eq!(version_from_dpkg_output(" Version: 4.1\n"), None);
    assert_eq!(version_from_dpkg_output(""), None);
}

#[test]
fn rpm_version_needs_a_leading_digit() {
    assert_eq!(version_from_rpm_output("  zcode-2.0.1  "), Some("2.0.1".to_string()));
    assert_eq!(version_from_rpm_output("zcode-beta-1"), None);
    assert_eq!(version_from_rpm_output("zcode"), None);
    assert_eq!(version_from_rpm_output("zcode--1"), None);
}

#[test]
fn package_managers_are_asked_in_order() {
    assert_eq!(
        package_manager_version(Some("Version: 1.0\n"), Some("zcode-2.0-1")),
        Some("1.0".to_string())
    );
    assert_eq!(
        package_manager_version(Some("Status: deinstall\n"), Some("zcode-2.0-1")),
        Some("2.0".to_string())
    );
    assert_eq!(package_manager_version(None, None), None);
}

#[test]
fn linux_installation_places() {
    let names: Vec<String> = vec!["google".to_string(), "ZCode-1.2.3".to_string()];
    assert!(linux_dirs_installed(false, &names));
    assert!(linux_dirs_installed(true, &Vec::new()));
    let other: Vec<String> = vec!["Zcode".to_string()];
    assert!(!linux_dirs_installed(false, &other));
    assert_eq!(
        detect_linux(None, true, Some("1.0".to_string())),
        LocalApp {
            installed: true,
            version: Some("1.0".to_string())
        }
    );
}

#[test]
fn macos_installed_reads_plist() {
    assert_eq!(
        detect_macos(true, Some(PLIST.as_bytes())),
        LocalApp {
            installed: true,
            version: Some("3.2.1".to_string())
        }
    );
    assert_eq!(
        detect_macos(true, Some(b"not a plist".as_slice())),
        LocalApp {
            installed: true,
            version: None
        }
    );
}

#[test]
fn windows_order_is_override_nsis_squirrel() {
    let nsis = || ExeProbe {
        is_file: true,
        version: Some("2.0.0".to_string()),
    };
    let names = vec!["app-1.0.0".to_string()];
    assert_eq!(
        detect_windows(None, Some(nsis()), Some(names.clone())),
        LocalApp {
            installed: true,
            version: Some("2.0.0".to_string())
        }
    );
    let missing = ExeProbe {
        is_file: false,
        version: None,
    };
    assert_eq!(
        detect_windows(None, Some(missing), Some(names)),
        LocalApp {
            installed: true,
            version: Some("1.0.0".to_string())
        }
    );
    let over = ExeProbe {
        is_file: true,
        version: None,
    };
    assert_eq!(
        detect_windows(Some(over), Some(nsis()), None),
        LocalApp {
            installed: true,
            version: None
        }
    );
}

#[test]
fn exe_version_texts() {
    assert_eq!(product_version_text("  1.2.3 \t"), Some("1.2.3".to_string()));
    assert_eq!(product_version_text(" \u{3000} "), None);
    assert_eq!(fixed_file_version_text((1 << 16) | 2, (3 << 16) | 0), "1.2.3");
    assert_eq!(fixed_file_version_text((1 << 16) | 2, (3 << 16) | 4), "1.2.3.4");
    assert_eq!(fixed_file_version_text(0, 0), "0.0.0");
    assert_eq!(fixed_file_version_text(u32::MAX, u32::MAX), "65535.65535.65535.65535");
}

#[test]
fn exe_version_prefers_product_version() {
    assert_eq!(exe_resource_version(Some(" 1.2.3 "), Some((0x0009_0009, 0))), Some("1.2.3".to_string()));
    assert_eq!(exe_resource_version(Some("  "), Some((0x0001_0002, 0x0003_0004))), Some("1.2.3.4".to_string()));
    assert_eq!(exe_resource_version(None, Some((0x0001_0000, 0))), Some("1.0.0".to_string()));
    assert_eq!(exe_resource_version(None, None), None);
    assert_eq!(exe_resource_version(Some(""), None), None);
}

#[test]
fn install_locations() {
    assert_eq!(macos_app_dir(None), "/Applications/ZCode.app");
    assert_eq!(macos_app_dir(None), MACOS_DEFAULT_APP);
    assert_eq!(macos_app_dir(Some("/tmp/Fake.app")), "/tmp/Fake.app");
    assert_eq!(linux_install_dirs(), vec!["/opt/ZCode", "/opt/zcode", "/usr/lib/zcode"]);
}
