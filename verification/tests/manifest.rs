use zcode_update::error::UpdateError;
use zcode_update::local::{detect_linux, detect_macos};
use zcode_update::manifest::{FileEntry, Manifest, RawManifest};
use zcode_update::output::report;

/// The manifest fields of a YAML text, read through `serde_yaml_ng::Value`.
fn raw_from_yaml(text: &str) -> RawManifest {
    let v: serde_yaml_ng::Value = serde_yaml_ng::from_str(text).unwrap();
    let field = |k: &str| v.get(k).and_then(|x| x.as_str()).map(|s| s.to_string());
    let files = v.get("files").and_then(|f| f.as_sequence()).map(|seq| {
        seq.iter()
            .map(|e| FileEntry {
                url: e.get("url").and_then(|u| u.as_str()).unwrap().to_string(),
            })
            .collect()
    });
    RawManifest {
        release_name: field("releaseName"),
        release_date: field("releaseDate"),
        version: field("version"),
        files,
        path: field("path"),
        release_notes: field("releaseNotes"),
    }
}

fn from_yaml(text: &str) -> Result<Manifest, UpdateError> {
    Manifest::from_raw(raw_from_yaml(text))
}

const SAMPLE: &str = r#"
version: 1.2.3
releaseName: "ZCode Preview"
releaseDate: 2026-07-31T13:02:56.736Z
releaseNotes: |
  ## What's New

  - 修复若干问题
files:
  - url: https://example.com/zcode.dmg
  - url: https://example.com/zcode.exe
  - url: https://example.com/zcode.dmg
"#;

#[test]
fn parses_fields_and_dedups_urls_in_order() {
    let m = from_yaml(SAMPLE).unwrap();
    assert_eq!(m.version, "1.2.3");
    assert_eq!(m.release_name.as_deref(), Some("ZCode Preview"));
    assert_eq!(m.release_date.as_deref(), Some("2026-07-31T13:02:56.736Z"));
    assert_eq!(
        m.urls,
        vec![
            "https://example.com/zcode.dmg".to_string(),
            "https://example.com/zcode.exe".to_string(),
        ]
    );
    assert!(m
        .release_notes
        .as_deref()
        .unwrap()
        .contains("## What's New"));
}

#[test]
fn falls_back_to_top_level_path_when_no_files() {
    let yaml = "version: 2.0.0\npath: https://example.com/pkg.zip";
    let m = from_yaml(yaml).unwrap();
    assert_eq!(m.urls, vec!["https://example.com/pkg.zip".to_string()]);
}

#[test]
fn missing_version_is_rejected_in_chinese() {
    let yaml = "files:\n  - url: https://example.com/a";
    let err = from_yaml(yaml).unwrap_err().message();
    assert!(err.contains("Manifest 中缺少 version"), "got: {err}");
}

#[test]
fn missing_urls_and_path_is_rejected() {
    let yaml = "version: 1.0.0";
    let err = from_yaml(yaml).unwrap_err().message();
    assert!(err.contains("Manifest 中缺少下载链接"), "got: {err}");
}

#[test]
fn quoted_values_are_unquoted_by_yaml_spec() {
    let yaml = "version: \"9.9.9\"\npath: https://example.com/pkg.zip";
    assert_eq!(from_yaml(yaml).unwrap().version, "9.9.9");
}

// ---------- end to end, from manifest text to the report ----------

const FRESH_MANIFEST: &str = "\
version: 99.0.0
releaseNotes: |
  - 新特性 A
files:
  - url: https://example.com/zcode-99.0.0.dmg
";

#[test]
fn not_installed_branch_prints_full_info_and_exits_zero() {
    let m = from_yaml(FRESH_MANIFEST).unwrap();
    // The --app path does not exist.
    let app = detect_linux(Some(false), false, None);
    let text = report(&m, "manifest.yml", &app);

    assert!(text.contains("ℹ️ 未检测到本地 ZCode 应用"), "got:\n{text}");
    assert!(text.contains("最新版本：99.0.0"));
    assert!(text.contains("DMG  https://example.com/zcode-99.0.0.dmg"));
}

#[test]
fn missing_version_file_errors_with_exit_code_2() {
    let err = from_yaml("releaseName: broken\n").unwrap_err();
    assert_eq!(err, UpdateError::MissingVersion);
}

#[test]
fn up_to_date_branch_exits_zero_on_macos() {
    let plist = "<?xml version=\"1.0\" encoding=\"UTF-8\"?>\
         <plist version=\"1.0\"><dict>\
         <key>CFBundleShortVersionString</key><string>99.0.0</string>\
         </dict></plist>";
    let m = from_yaml(FRESH_MANIFEST).unwrap();
    let app = detect_macos(true, Some(plist.as_bytes()));
    assert_eq!(
        report(&m, "manifest.yml", &app),
        "✅ 当前已是最新版本：99.0.0，暂无更新。\n"
    );
}

// ---------- further cases ----------

#[test]
fn blank_version_and_blank_path_are_missing() {
    let raw = RawManifest {
        release_name: None,
        release_date: None,
        version: Some(" \t".to_string()),
        files: None,
        path: Some("https://x/p.zip".to_string()),
        release_notes: None,
    };
    assert_eq!(Manifest::from_raw(raw).unwrap_err(), UpdateError::MissingVersion);

    let raw = RawManifest {
        release_name: None,
        release_date: None,
        version: Some("1.0".to_string()),
        files: Some(vec![FileEntry { url: String::new() }]),
        path: Some("  ".to_string()),
        release_notes: None,
    };
    assert_eq!(Manifest::from_raw(raw).unwrap_err(), UpdateError::MissingDownloadUrl);
}

#[test]
fn files_win_over_path_and_empty_urls_are_dropped() {
    let raw = RawManifest {
        release_name: None,
        release_date: None,
        version: Some("1.0".to_string()),
        files: Some(vec![
            FileEntry { url: String::new() },
            FileEntry { url: "b".to_string() },
            FileEntry { url: "a".to_string() },
            FileEntry { url: "b".to_string() },
        ]),
        path: Some("p".to_string()),
        release_notes: None,
    };
    let m = Manifest::from_raw(raw).unwrap();
    assert_eq!(m.urls, vec!["b".to_string(), "a".to_string()]);
}

#[test]
fn error_messages() {
    assert_eq!(
        UpdateError::ManifestYaml("bad".to_string()).message(),
        "解析 Manifest YAML 失败: bad"
    );
    assert_eq!(
        UpdateError::ReadFile {
            path: "/x".to_string(),
            detail: "No such file".to_string()
        }
        .message(),
        "无法读取文件：/x: No such file"
    );
    assert_eq!(UpdateError::Download("timeout".to_string()).message(), "下载 Manifest 失败：timeout");
    assert_eq!(UpdateError::ReadResponse("eof".to_string()).message(), "读取 Manifest 响应失败: eof");
    assert_eq!(UpdateError::UnsupportedTarget("bsd".to_string()).message(), "不支持的目标：bsd");
}
