use jiff::tz::TimeZone;
use zcode_update::local::LocalApp;
use zcode_update::manifest::Manifest;
use zcode_update::output::{
    classify_url, format_release_date, format_release_date_in, is_up_to_date, render,
    render_report, render_up_to_date, report, strip_v, RELEASE_DATE_FORMAT,
};

#[test]
fn strip_v_removes_single_v_or_v_capital_prefix() {
    assert_eq!(strip_v("v1.2.3"), "1.2.3");
    assert_eq!(strip_v("V1.2.3"), "1.2.3");
    assert_eq!(strip_v("1.2.3"), "1.2.3");
    assert_eq!(strip_v(""), "");
    assert_eq!(strip_v("vv1.2"), "v1.2");
}

#[test]
fn classify_urls_by_extension_anywhere_in_url() {
    assert_eq!(classify_url("https://x/a.dmg"), "DMG");
    assert_eq!(classify_url("https://x/a.zip?sig=1"), "ZIP");
    assert_eq!(classify_url("https://x/ZCode.exe"), "EXE");
    assert_eq!(classify_url("https://x/zcode-1.2.3.tar.gz"), "FILE");
}

#[test]
fn iso8601_formats_in_fixed_utc() {
    let utc = TimeZone::UTC;
    assert_eq!(
        format_release_date_in("2026-07-31T13:02:56.736Z", &utc).unwrap(),
        "2026-07-31 13:02:56"
    );
    assert_eq!(
        format_release_date_in("2026-07-31T15:02:56+02:00", &utc).unwrap(),
        "2026-07-31 13:02:56"
    );
}

#[test]
fn non_iso_input_passes_through() {
    let utc = TimeZone::UTC;
    assert_eq!(format_release_date_in("2026-07-31", &utc), None);
    assert_eq!(format_release_date_in("", &utc), None);
}

#[test]
fn system_fallback_keeps_raw_on_error() {
    assert_eq!(format_release_date("不是日期"), "不是日期");
}

fn sample_manifest() -> Manifest {
    Manifest {
        version: "1.2.3".into(),
        release_name: Some("ZCode Preview".into()),
        release_date: Some("2026-07-31T13:02:56.736Z".into()),
        urls: vec![
            "https://example.com/a.dmg".into(),
            "https://example.com/b.exe".into(),
        ],
        release_notes: Some("- 修复若干问题".into()),
    }
}

#[test]
fn up_to_date_line_matches_shell_copy() {
    assert_eq!(
        render_up_to_date("1.2.3"),
        "✅ 当前已是最新版本：1.2.3，暂无更新。\n"
    );
}

#[test]
fn full_render_installed_branch_matches_shell_layout() {
    let m = sample_manifest();
    let local = LocalApp {
        installed: true,
        version: Some("1.2.2".into()),
    };
    let text = render(&m, "https://src.example", &local);
    assert!(text.starts_with("\nZCode 更新信息\n=============\n🎉 发现新版本！\n本地版本：1.2.2\n最新版本：1.2.3\n名称：ZCode Preview\n日期："), "got:\n{text}");
    assert!(text.contains("来源：https://src.example\n\n下载链接：\n  DMG  https://example.com/a.dmg\n  EXE  https://example.com/b.exe\n\n更新日志：\n- 修复若干问题\n"), "got:\n{text}");
}

#[test]
fn full_render_not_installed_branch_matches_shell_layout() {
    let m = sample_manifest();
    let local = LocalApp {
        installed: false,
        version: None,
    };
    let text = render(&m, "file.yml", &local);
    assert!(text.contains("ℹ️ 未检测到本地 ZCode 应用，以下为最新版本信息\n提示：如已安装在其它位置，请使用 --app 指定路径\n"), "got:\n{text}");
    assert!(!text.contains("本地版本："));
}

#[test]
fn missing_notes_prints_placeholder() {
    let mut m = sample_manifest();
    m.release_notes = None;
    let local = LocalApp {
        installed: true,
        version: Some("0.0.1".into()),
    };
    let text = render(&m, "src", &local);
    assert!(
        text.ends_with("\n更新日志：\n（Manifest 未提供更新日志）\n"),
        "got:\n{text}"
    );
}

#[test]
fn block_scalar_notes_trailing_newlines_are_normalized() {
    let mut m = sample_manifest();
    m.release_notes = Some("- 修复若干问题\n\n".into());
    let local = LocalApp {
        installed: true,
        version: Some("0.0.1".into()),
    };
    let text = render(&m, "src", &local);
    assert!(
        text.ends_with("\n更新日志：\n- 修复若干问题\n"),
        "got:\n{text}"
    );
}

// ---------- further cases ----------

#[test]
fn whole_report_with_a_given_date() {
    let mut m = sample_manifest();
    m.urls.push("https://example.com/c.zip".into());
    m.urls.push("https://example.com/d.tar.gz".into());
    let local = LocalApp {
        installed: true,
        version: None,
    };
    let text = render_report(&m, "src", &local, &Some("2026-07-31 13:02:56".to_string()));
    assert_eq!(
        text,
        "\nZCode 更新信息\n=============\n🎉 发现新版本！\n本地版本：\n最新版本：1.2.3\n\
         名称：ZCode Preview\n日期：2026-07-31 13:02:56\n来源：src\n\n下载链接：\n\
         \x20 DMG  https://example.com/a.dmg\n  EXE  https://example.com/b.exe\n\
         \x20 ZIP  https://example.com/c.zip\n  FILE https://example.com/d.tar.gz\n\n\
         更新日志：\n- 修复若干问题\n"
    );
}

#[test]
fn report_without_name_or_date() {
    let mut m = sample_manifest();
    m.release_name = None;
    m.release_date = None;
    let local = LocalApp {
        installed: false,
        version: None,
    };
    let text = render(&m, "src", &local);
    assert!(text.contains("最新版本：1.2.3\n来源：src\n"), "got:\n{text}");
}

#[test]
fn unparsable_date_is_shown_as_given() {
    let mut m = sample_manifest();
    m.release_date = Some("2026-07-31".into());
    let local = LocalApp {
        installed: false,
        version: None,
    };
    assert!(render(&m, "src", &local).contains("日期：2026-07-31\n"));
}

#[test]
fn up_to_date_compares_without_v_prefix() {
    let local = |v: &str| LocalApp {
        installed: true,
        version: Some(v.to_string()),
    };
    assert!(is_up_to_date("v1.2.3", &local("1.2.3")));
    assert!(is_up_to_date("1.2.3", &local("V1.2.3")));
    assert!(!is_up_to_date("1.2.3", &local("1.2.4")));
    assert!(!is_up_to_date(
        "1.2.3",
        &LocalApp {
            installed: true,
            version: None
        }
    ));
    assert!(!is_up_to_date(
        "1.2.3",
        &LocalApp {
            installed: false,
            version: Some("1.2.3".into())
        }
    ));
}

#[test]
fn report_picks_branch() {
    let m = sample_manifest();
    let same = LocalApp {
        installed: true,
        version: Some("v1.2.3".into()),
    };
    assert_eq!(report(&m, "src", &same), "✅ 当前已是最新版本：v1.2.3，暂无更新。\n");
    let older = LocalApp {
        installed: true,
        version: Some("1.2.0".into()),
    };
    assert!(report(&m, "src", &older).contains("🎉 发现新版本！\n本地版本：1.2.0\n"));
}

#[test]
fn classify_takes_first_matching_extension() {
    assert_eq!(classify_url("https://x/a.exe.zip"), "ZIP");
    assert_eq!(classify_url("https://x/a.zip.dmg"), "DMG");
    assert_eq!(classify_url("https://x/A.DMG"), "FILE");
}

#[test]
fn system_zone_formatting_matches_formatting_in_that_zone() {
    let raw = "2026-07-31T13:02:56.736Z";
    let expected = format_release_date_in(raw, &TimeZone::system()).unwrap();
    assert_eq!(format_release_date(raw), expected);
    assert_eq!(expected.len(), "2026-07-31 13:02:56".len());
}

#[test]
fn release_date_format_constant() {
    assert_eq!(RELEASE_DATE_FORMAT, "%Y-%m-%d %H:%M:%S");
}
