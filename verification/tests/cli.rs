use zcode_update::cli::{channel_id, normalize_arch, resolve_source, source_label, Cli, Source};

/// The architecture of the machine these tests pretend to run on.
const NATIVE: &str = "x86_64";

#[test]
fn normalize_arch_maps_aliases() {
    assert_eq!(normalize_arch("arm64").unwrap(), "aarch64");
    assert_eq!(normalize_arch("aarch64").unwrap(), "aarch64");
    assert_eq!(normalize_arch("x64").unwrap(), "x86_64");
    assert_eq!(normalize_arch("x86_64").unwrap(), "x86_64");
    assert_eq!(normalize_arch("amd64").unwrap(), "x86_64");
}

#[test]
fn normalize_arch_rejects_unknown() {
    let err = normalize_arch("mips").unwrap_err().message();
    assert!(err.contains("不支持的架构"), "got: {err}");
}

#[test]
fn file_takes_priority() {
    let cli = Cli {
        file: Some("/tmp/m.yml".to_string()),
        url: Some("https://example.com/m".into()),
        ..Default::default()
    };
    assert_eq!(
        resolve_source(&cli, NATIVE).unwrap(),
        Source::LocalFile("/tmp/m.yml".to_string())
    );
}

#[test]
fn url_must_be_http_or_https() {
    let cli = Cli {
        url: Some("ftp://example.com".into()),
        ..Default::default()
    };
    let err = resolve_source(&cli, NATIVE).unwrap_err().message();
    assert!(err.contains("--url 仅支持 HTTP/HTTPS 地址"), "got: {err}");

    let cli = Cli {
        url: Some("http://example.com/m".into()),
        ..Default::default()
    };
    assert_eq!(
        resolve_source(&cli, NATIVE).unwrap(),
        Source::Remote("http://example.com/m".into())
    );
}

#[test]
fn default_target_mac_uses_channel_preview_and_local_arch() {
    let cli = Cli::default();
    match resolve_source(&cli, NATIVE).unwrap() {
        Source::Remote(url) => {
            let arch = normalize_arch(NATIVE).unwrap();
            assert_eq!(
                url,
                format!("https://zcode.z.ai/api/v1/releases/electron/manifest?platform=darwin-{arch}&channel=3")
            );
        }
        other => panic!("期望 Remote，得到 {other:?}"),
    }
}

#[test]
fn windows_defaults_x86_64_and_stable_is_1() {
    let cli = Cli {
        target: Some("win".into()),
        channel: Some("stable".into()),
        ..Default::default()
    };
    match resolve_source(&cli, "aarch64").unwrap() {
        Source::Remote(url) => assert_eq!(
            url,
            "https://zcode.z.ai/api/v1/releases/electron/manifest?platform=windows-x86_64&channel=1"
        ),
        other => panic!("期望 Remote，得到 {other:?}"),
    }
}

#[test]
fn explicit_arch_overrides_default() {
    let cli = Cli {
        target: Some("windows".into()),
        arch: Some("arm64".into()),
        ..Default::default()
    };
    match resolve_source(&cli, NATIVE).unwrap() {
        Source::Remote(url) => assert!(url.contains("platform=windows-aarch64"), "got: {url}"),
        other => panic!("期望 Remote，得到 {other:?}"),
    }
}

#[test]
fn rejects_unknown_target_and_channel() {
    let cli = Cli {
        target: Some("freebsd".into()),
        ..Default::default()
    };
    assert!(resolve_source(&cli, NATIVE)
        .unwrap_err()
        .message()
        .contains("不支持的目标"));

    let cli = Cli {
        channel: Some("beta".into()),
        ..Default::default()
    };
    assert!(resolve_source(&cli, NATIVE)
        .unwrap_err()
        .message()
        .contains("不支持的更新通道"));
}

#[test]
fn linux_defaults_to_native_arch() {
    let cli = Cli {
        target: Some("linux".into()),
        ..Default::default()
    };
    match resolve_source(&cli, NATIVE).unwrap() {
        Source::Remote(url) => {
            let arch = normalize_arch(NATIVE).unwrap();
            assert_eq!(
                url,
                format!("https://zcode.z.ai/api/v1/releases/electron/manifest?platform=linux-{arch}&channel=3")
            );
        }
        other => panic!("期望 Remote，得到 {other:?}"),
    }
}

#[test]
fn linux_explicit_arm64_maps_to_aarch64() {
    let cli = Cli {
        target: Some("linux".into()),
        arch: Some("arm64".into()),
        ..Default::default()
    };
    match resolve_source(&cli, NATIVE).unwrap() {
        Source::Remote(url) => {
            assert!(url.contains("platform=linux-aarch64"), "got: {url}");
        }
        other => panic!("期望 Remote，得到 {other:?}"),
    }
}

// ---------- further cases ----------

#[test]
fn native_arch_alias_is_normalised_for_mac() {
    let cli = Cli::default();
    assert_eq!(
        resolve_source(&cli, "arm64").unwrap(),
        Source::Remote(
            "https://zcode.z.ai/api/v1/releases/electron/manifest?platform=darwin-aarch64&channel=3"
                .into()
        )
    );
}

#[test]
fn unknown_native_arch_is_an_error_only_when_needed() {
    let mac = Cli::default();
    let err = resolve_source(&mac, "riscv64").unwrap_err().message();
    assert_eq!(err, "不支持的架构：riscv64");

    let win = Cli {
        target: Some("windows".into()),
        ..Default::default()
    };
    assert!(resolve_source(&win, "riscv64").is_ok());
}

#[test]
fn explicit_bad_arch_is_reported_with_its_name() {
    let cli = Cli {
        target: Some("linux".into()),
        arch: Some("ppc".into()),
        channel: Some("beta".into()),
        ..Default::default()
    };
    // The architecture is checked before the channel.
    assert_eq!(resolve_source(&cli, NATIVE).unwrap_err().message(), "不支持的架构：ppc");
}

#[test]
fn https_url_is_kept_verbatim_even_with_other_options() {
    let cli = Cli {
        url: Some("https://example.com/m?x=1".into()),
        target: Some("freebsd".into()),
        channel: Some("beta".into()),
        ..Default::default()
    };
    assert_eq!(
        resolve_source(&cli, NATIVE).unwrap(),
        Source::Remote("https://example.com/m?x=1".into())
    );
}

#[test]
fn target_aliases_macos_and_darwin() {
    for t in ["macos", "darwin"] {
        let cli = Cli {
            target: Some(t.into()),
            arch: Some("x64".into()),
            ..Default::default()
        };
        assert_eq!(
            resolve_source(&cli, NATIVE).unwrap(),
            Source::Remote(
                "https://zcode.z.ai/api/v1/releases/electron/manifest?platform=darwin-x86_64&channel=3"
                    .into()
            )
        );
    }
}

#[test]
fn source_label_is_path_or_url() {
    assert_eq!(source_label(&Source::LocalFile("file.yml".into())), "file.yml");
    assert_eq!(
        source_label(&Source::Remote("https://src.example".into())),
        "https://src.example"
    );
}

#[test]
fn channel_ids() {
    assert_eq!(channel_id("preview").unwrap(), "3");
    assert_eq!(channel_id("stable").unwrap(), "1");
    assert_eq!(channel_id("Stable").unwrap_err().message(), "不支持的更新通道：Stable");
}
