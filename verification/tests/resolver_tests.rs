use rusty_rebase::catalog::{SetupStep, SoftwareSpec, SourceSpec};
use rusty_rebase::distro::{DistroInfo, PackageManager};
use rusty_rebase::resolver::{
    asset_score, github_api_url, preferred_extension, resolution_plan, resolve_android_studio,
    resolve_flutter, resolve_generic_scraper, resolve_github, resolve_package_only,
    resolve_static, vscode_asset_from_redirect, vscode_fetch_url, FlutterRelease, GitHubAsset,
    GitHubRelease, ResolutionPlan,
};

fn spec_with_source(source: SourceSpec) -> SoftwareSpec {
    SoftwareSpec {
        display_name: "Tool".to_string(),
        description: None,
        enabled_by_default: false,
        install_dir: None,
        source,
        setup_steps: Vec::new(),
    }
}

fn apt_host() -> DistroInfo {
    DistroInfo { id: "ubuntu".to_string(), pkg_manager: PackageManager::Apt }
}

#[test]
fn plan_dispatches_on_the_source() {
    let flutter = spec_with_source(SourceSpec::OfficialSource {
        id: Some("flutter".to_string()),
        url: None,
        version_regex: None,
        download_url_regex: None,
    });
    assert!(matches!(resolution_plan(&flutter), ResolutionPlan::Flutter));

    let vscode = spec_with_source(SourceSpec::OfficialSource {
        id: Some("vscode".to_string()),
        url: None,
        version_regex: None,
        download_url_regex: None,
    });
    assert!(matches!(resolution_plan(&vscode), ResolutionPlan::Vscode));

    let scraper = spec_with_source(SourceSpec::OfficialSource {
        id: None,
        url: Some("https://example.com".to_string()),
        version_regex: Some("v(\\d+)".to_string()),
        download_url_regex: Some("x\\.tar\\.gz".to_string()),
    });
    match resolution_plan(&scraper) {
        ResolutionPlan::Scraper { url, version_regex, download_url_regex } => {
            assert_eq!(url, "https://example.com");
            assert_eq!(version_regex, "v(\\d+)");
            assert_eq!(download_url_regex, "x\\.tar\\.gz");
        },
        _ => panic!("expected the scraper strategy"),
    }

    let fixed = spec_with_source(SourceSpec::OfficialSource {
        id: None,
        url: Some("https://example.com/a.zip".to_string()),
        version_regex: None,
        download_url_regex: None,
    });
    assert!(matches!(resolution_plan(&fixed), ResolutionPlan::StaticUrl { .. }));

    let broken = spec_with_source(SourceSpec::OfficialSource {
        id: None,
        url: Some("https://example.com".to_string()),
        version_regex: Some("v(\\d+)".to_string()),
        download_url_regex: None,
    });
    match resolution_plan(&broken) {
        ResolutionPlan::Misconfigured { error } => {
            assert_eq!(error, "official_source missing valid configuration");
        },
        _ => panic!("expected a misconfiguration"),
    }

    assert!(matches!(
        resolution_plan(&spec_with_source(SourceSpec::PackageManager)),
        ResolutionPlan::PackageOnly
    ));

    let gh = spec_with_source(SourceSpec::Github {
        repo: Some("foo/bar".to_string()),
        asset_pattern: "\\.deb$".to_string(),
    });
    assert!(matches!(resolution_plan(&gh), ResolutionPlan::GithubRelease { .. }));

    let gh_bare = spec_with_source(SourceSpec::Github {
        repo: None,
        asset_pattern: "\\.deb$".to_string(),
    });
    match resolution_plan(&gh_bare) {
        ResolutionPlan::Misconfigured { error } => {
            assert_eq!(error, "github repo not configured for this software");
        },
        _ => panic!("expected a misconfiguration"),
    }
}

#[test]
fn static_and_package_only_resolutions() {
    let a = resolve_static("https://example.com/file.bin", "download").unwrap();
    assert_eq!(a.version, "static");
    assert_eq!(a.url, "https://example.com/file.bin");
    assert_eq!(a.file_name, "download");

    let s = spec_with_source(SourceSpec::PackageManager);
    let with_version = resolve_package_only(&s, Some("2.39.2".to_string())).unwrap();
    assert_eq!(with_version.version, "2.39.2");
    assert_eq!(with_version.url, "N/A");
    assert_eq!(with_version.file_name, "N/A");
    let without = resolve_package_only(&s, None).unwrap();
    assert_eq!(without.version, "package-manager");
}

#[test]
fn flutter_feed_resolution() {
    let current = vec![
        ("beta".to_string(), "bbb".to_string()),
        ("stable".to_string(), "abc123".to_string()),
    ];
    let releases = vec![
        FlutterRelease {
            hash: "bbb".to_string(),
            version: "3.20.0-beta".to_string(),
            archive: "beta/linux/flutter_linux_3.20.0-beta.tar.xz".to_string(),
        },
        FlutterRelease {
            hash: "abc123".to_string(),
            version: "3.19.0".to_string(),
            archive: "stable/linux/flutter_linux_3.19.0-stable.tar.xz".to_string(),
        },
    ];
    let a = resolve_flutter("stable", &current, &releases).unwrap();
    assert_eq!(a.version, "3.19.0");
    assert_eq!(
        a.url,
        "https://storage.googleapis.com/flutter_infra_release/releases/stable/linux/flutter_linux_3.19.0-stable.tar.xz"
    );
    assert_eq!(a.file_name, "flutter_linux_3.19.0-stable.tar.xz");

    let missing = resolve_flutter("dev", &current, &releases);
    assert_eq!(missing.unwrap_err(), "missing current release hash for channel 'dev'");
    let no_release = resolve_flutter("stable", &current, &Vec::new());
    assert_eq!(no_release.unwrap_err(), "failed to resolve flutter release by hash");
}

#[test]
fn android_studio_page_resolution() {
    let html = "<a href=\"https://redirector.gvt1.com/edgedl/android/studio/ide-zips/2023.2.1.24/android-studio-2023.2.1.24-linux.tar.gz\">x</a>";
    let a = resolve_android_studio(html).unwrap();
    assert_eq!(a.file_name, "android-studio-2023.2.1.24-linux.tar.gz");
    assert_eq!(a.version, "2023.2.1.24");

    let fallback = "download from https://dl.example.com/android-studio-2024.1.1-linux.tar.gz now";
    let b = resolve_android_studio(fallback).unwrap();
    assert_eq!(b.version, "2024.1.1");

    let err = resolve_android_studio("nothing to see").unwrap_err();
    assert_eq!(
        err,
        "could not resolve android studio linux tarball link from developer.android.com"
    );
}

#[test]
fn vscode_redirect_resolution() {
    assert_eq!(
        vscode_fetch_url(&PackageManager::Apt),
        "https://update.code.visualstudio.com/latest/linux-deb-x64/stable"
    );
    assert_eq!(
        vscode_fetch_url(&PackageManager::Dnf),
        "https://update.code.visualstudio.com/latest/linux-rpm-x64/stable"
    );
    assert_eq!(
        vscode_fetch_url(&PackageManager::Pacman),
        "https://update.code.visualstudio.com/latest/linux-x64/stable"
    );

    let a = vscode_asset_from_redirect("https://az764295.vo.msecnd.net/stable/x/code_1.85.2-1705561292_amd64.deb");
    assert_eq!(a.file_name, "code_1.85.2-1705561292_amd64.deb");
    assert_eq!(a.version, "1.85.2");
    let b = vscode_asset_from_redirect("https://example.com/vscode_latest");
    assert_eq!(b.version, "latest");
}

#[test]
fn scraper_resolution_substitutes_and_joins() {
    let html = "Latest release v1.42 — get <a href=\"tool-amd64.tar.gz\">it</a>";
    let a = resolve_generic_scraper(
        html,
        "https://example.com/downloads/page.html",
        "release v(\\d+\\.\\d+)",
        "tool-{arch}\\.tar\\.gz",
        "x86_64",
    )
    .unwrap();
    assert_eq!(a.version, "1.42");
    assert_eq!(a.url, "https://example.com/downloads/tool-amd64.tar.gz");
    assert_eq!(a.file_name, "tool-amd64.tar.gz");
}

#[test]
fn scraper_resolution_is_deterministic() {
    let html = "v7.7 at <a href=\"https://cdn.example.com/t-7.7.zip\">here</a>";
    let r1 = resolve_generic_scraper(html, "https://e.com", "v(\\d+\\.\\d+)", "https://[a-z.]+/t-7\\.7\\.zip", "aarch64");
    let r2 = resolve_generic_scraper(html, "https://e.com", "v(\\d+\\.\\d+)", "https://[a-z.]+/t-7\\.7\\.zip", "aarch64");
    let a1 = r1.unwrap();
    let a2 = r2.unwrap();
    assert_eq!(a1.version, a2.version);
    assert_eq!(a1.url, a2.url);
    assert_eq!(a1.file_name, a2.file_name);
}

#[test]
fn scraper_errors_name_the_failing_pattern() {
    let html = "no version markers at all";
    let err = resolve_generic_scraper(html, "https://e.com/p", "v(\\d+)", "x\\.zip", "x86_64")
        .unwrap_err();
    assert_eq!(err, "could not find version on https://e.com/p using regex v(\\d+)");

    let err2 = resolve_generic_scraper("v9 here", "https://e.com/p", "v(\\d+)", "x\\.zip", "x86_64")
        .unwrap_err();
    assert_eq!(err2, "could not find download url on https://e.com/p using regex x\\.zip");

    let bad = resolve_generic_scraper(html, "https://e.com/p", "v((", "x\\.zip", "x86_64")
        .unwrap_err();
    assert!(bad.starts_with("invalid version regex: "));

    // A broken download pattern is reported even when no version is found:
    // both patterns are compiled before any search, as resolution promises.
    let bad_dl = resolve_generic_scraper(html, "https://e.com/p", "v(\\d+)", "((", "x86_64")
        .unwrap_err();
    assert!(bad_dl.starts_with("invalid download url regex: "));
}

fn release_with(tag: &str, names: &[&str]) -> GitHubRelease {
    GitHubRelease {
        tag_name: tag.to_string(),
        assets: names
            .iter()
            .map(|n| GitHubAsset {
                name: n.to_string(),
                browser_download_url: format!("https://github.example/{n}"),
            })
            .collect(),
    }
}

#[test]
fn github_picks_the_host_architecture() {
    let release = release_with("v1.2.3", &["bar-linux-amd64.tar.gz", "bar-linux-arm64.tar.gz"]);
    let a = resolve_github(&release, "foo/bar", "\\.tar\\.gz$", &apt_host(), "x86_64").unwrap();
    assert_eq!(a.file_name, "bar-linux-amd64.tar.gz");
    assert_eq!(a.version, "1.2.3");
    assert_eq!(a.url, "https://github.example/bar-linux-amd64.tar.gz");
}

#[test]
fn github_prefers_the_native_package_and_keeps_listing_order_on_ties() {
    let release = release_with(
        "v2.0",
        &["tool_amd64.AppImage", "tool_amd64.deb", "tool_amd64.rpm", "tool_amd64.tar.gz"],
    );
    let a = resolve_github(&release, "o/r", "tool", &apt_host(), "x86_64").unwrap();
    assert_eq!(a.file_name, "tool_amd64.deb");

    let dnf = DistroInfo { id: "fedora".to_string(), pkg_manager: PackageManager::Dnf };
    let b = resolve_github(&release, "o/r", "tool", &dnf, "x86_64").unwrap();
    assert_eq!(b.file_name, "tool_amd64.rpm");

    let tied = release_with("v3.0", &["first-amd64.tar.gz", "second-amd64.tar.gz"]);
    let c = resolve_github(&tied, "o/r", "\\.tar\\.gz$", &apt_host(), "x86_64").unwrap();
    assert_eq!(c.file_name, "first-amd64.tar.gz");
}

#[test]
fn github_errors() {
    let release = release_with("v1.0", &["tool-windows.zip"]);
    let err = resolve_github(&release, "foo/bar", "\\.deb$", &apt_host(), "x86_64").unwrap_err();
    assert_eq!(err, "no asset matching '\\.deb$' found in github:foo/bar");

    let bad = resolve_github(&release, "foo/bar", "((", &apt_host(), "x86_64").unwrap_err();
    assert!(bad.starts_with("invalid asset pattern regex: "));

    let empty = release_with("v1.0", &[]);
    let err2 = resolve_github(&empty, "foo/bar", "\\.deb$", &apt_host(), "x86_64").unwrap_err();
    assert_eq!(err2, "no asset matching '\\.deb$' found in github:foo/bar");
}

#[test]
fn scoring_and_endpoints() {
    assert_eq!(asset_score("tool-amd64.deb", "x86_64", ".deb"), 150);
    assert_eq!(asset_score("tool-amd64.deb", "x86_64", ".rpm"), 120);
    assert_eq!(asset_score("tool.AppImage", "x86_64", ".deb"), 10);
    assert_eq!(asset_score("Tool-ARM64.tar.gz", "aarch64", "___"), 105);
    assert_eq!(asset_score("tool-armhf.deb", "arm", ".deb"), 150);
    assert_eq!(asset_score("tool-arm64.deb", "arm", ".deb"), 50);
    assert_eq!(asset_score("plain.txt", "x86_64", ".deb"), 0);
    assert_eq!(preferred_extension(&PackageManager::Apt), ".deb");
    assert_eq!(preferred_extension(&PackageManager::Unknown), "___");
    assert_eq!(github_api_url("foo/bar"), "https://api.github.com/repos/foo/bar/releases/latest");
}

#[test]
fn package_only_spec_is_not_misread() {
    let spec = SoftwareSpec {
        display_name: "Git".to_string(),
        description: Some("vcs".to_string()),
        enabled_by_default: true,
        install_dir: None,
        source: SourceSpec::PackageManager,
        setup_steps: vec![SetupStep::Package { packages: vec!["git".to_string()] }],
    };
    assert_eq!(rusty_rebase::resolver::first_package_name(&spec), "git");
    assert!(matches!(resolution_plan(&spec), ResolutionPlan::PackageOnly));
}
