use rusty_rebase::catalog::{SetupStep, SoftwareSpec, SourceSpec};
use rusty_rebase::distro::PackageManager;
use rusty_rebase::host::{arch_alias, expand_tilde, staging_dir, staging_dir_under};
use rusty_rebase::installer::{
    artifact_plan, extract_archive, handle_vscode_install, item_header_logs, plan_step,
    profile_update, resolve_install_root, uses_vscode_installer, ArtifactPlan, Downloader,
    ExtractPlan, ProfileUpdate, StepContext, StepPlan,
};
use rusty_rebase::resolver::ResolvedAsset;
use rusty_rebase::runner::InstallMsg;

fn ctx(dry_run: bool) -> StepContext {
    StepContext {
        dry_run,
        pkg_manager: PackageManager::Apt,
        arch: "x86_64".to_string(),
        shell: "/bin/bash".to_string(),
        home: "/home/user".to_string(),
        install_dir: Some("~/tools/foo".to_string()),
    }
}

fn asset(url: &str, file_name: &str) -> ResolvedAsset {
    ResolvedAsset {
        version: "1.0".to_string(),
        url: url.to_string(),
        file_name: file_name.to_string(),
    }
}

fn spec_of(source: SourceSpec) -> SoftwareSpec {
    SoftwareSpec {
        display_name: "Tool".to_string(),
        description: None,
        enabled_by_default: false,
        install_dir: Some("~/tools/foo".to_string()),
        source,
        setup_steps: Vec::new(),
    }
}

#[test]
fn tilde_expansion_and_paths() {
    assert_eq!(expand_tilde("~", "/home/user"), "/home/user");
    assert_eq!(expand_tilde("~/tools/foo", "/home/user"), "/home/user/tools/foo");
    assert_eq!(expand_tilde("/opt/x", "/home/user"), "/opt/x");
    assert_eq!(staging_dir_under("/home/user"), "/home/user/Downloads/rusty_rebase");
    if let Some(dir) = staging_dir() {
        assert!(dir.ends_with("/Downloads/rusty_rebase"));
    }
    assert_eq!(arch_alias("x86_64"), "amd64");
    assert_eq!(arch_alias("aarch64"), "arm64");
    assert_eq!(arch_alias("x86"), "386");
    assert_eq!(arch_alias("riscv64"), "riscv64");
    assert_eq!(
        resolve_install_root(&Some("~/tools/foo".to_string()), "/home/user"),
        "/home/user/tools/foo"
    );
    assert_eq!(resolve_install_root(&None, "/home/user"), "/home/user");
}

#[test]
fn package_step_plans() {
    let step = SetupStep::Package { packages: vec!["git".to_string()] };
    match plan_step(&step, &ctx(false)) {
        StepPlan::RunCommand { command, log } => {
            assert_eq!(command, "sudo apt update && sudo apt install -y git");
            assert_eq!(log, "running: sudo apt update && sudo apt install -y git");
        },
        _ => panic!("expected a command"),
    }
    match plan_step(&step, &ctx(true)) {
        StepPlan::DryRunLog { log } => {
            assert_eq!(log, "[dry-run] sudo apt update && sudo apt install -y git");
        },
        _ => panic!("dry-run must only log"),
    }
    let mut unknown = ctx(false);
    unknown.pkg_manager = PackageManager::Unknown;
    match plan_step(&step, &unknown) {
        StepPlan::SkipLog { log } => {
            assert_eq!(log, "package manager unknown, skipped package setup step");
        },
        _ => panic!("an unknown manager is a soft skip"),
    }
}

#[test]
fn path_hint_appends_exactly_once() {
    let step = SetupStep::PathHint { value: "<install_root>/bin".to_string() };
    let (profile_path, export_line, rendered) = match plan_step(&step, &ctx(false)) {
        StepPlan::EditProfile { profile_path, export_line, rendered } => {
            (profile_path, export_line, rendered)
        },
        _ => panic!("expected a profile edit"),
    };
    assert_eq!(profile_path, "/home/user/.bashrc");
    assert_eq!(export_line, "export PATH=\"$PATH:/home/user/tools/foo/bin\"");
    assert_eq!(rendered, "/home/user/tools/foo/bin");

    let first = profile_update("", &export_line, &rendered, &profile_path);
    let appended = match first {
        ProfileUpdate::Append { text, log } => {
            assert_eq!(log, "added /home/user/tools/foo/bin to /home/user/.bashrc");
            assert!(text.contains(&export_line));
            text
        },
        _ => panic!("an empty profile gets the line"),
    };
    let second = profile_update(&appended, &export_line, &rendered, &profile_path);
    match second {
        ProfileUpdate::AlreadyPresent { log } => {
            assert_eq!(log, "path already configured in /home/user/.bashrc");
        },
        _ => panic!("the second run must not append again"),
    }
}

#[test]
fn shell_step_substitutes_architecture() {
    let step = SetupStep::Shell { command: "get tool-{arch} for {xarch}".to_string() };
    match plan_step(&step, &ctx(false)) {
        StepPlan::RunCommand { command, .. } => {
            assert_eq!(command, "get tool-amd64 for x86_64");
        },
        _ => panic!("expected a command"),
    }
    let note = SetupStep::Note { value: "read the docs".to_string() };
    match plan_step(&note, &ctx(false)) {
        StepPlan::NoteLog { log } => assert_eq!(log, "note: read the docs"),
        _ => panic!("a note only logs"),
    }
}

#[test]
fn shell_flavors_pick_profile_and_syntax() {
    let step = SetupStep::PathHint { value: "<install_root>/bin".to_string() };
    let mut zsh = ctx(false);
    zsh.shell = "/usr/bin/zsh".to_string();
    match plan_step(&step, &zsh) {
        StepPlan::EditProfile { profile_path, export_line, .. } => {
            assert_eq!(profile_path, "/home/user/.zshrc");
            assert!(export_line.starts_with("export PATH="));
        },
        _ => panic!("expected a profile edit"),
    }
    let mut fish = ctx(false);
    fish.shell = "/usr/bin/fish".to_string();
    match plan_step(&step, &fish) {
        StepPlan::EditProfile { profile_path, export_line, .. } => {
            assert_eq!(profile_path, "/home/user/.config/fish/config.fish");
            assert_eq!(export_line, "fish_add_path /home/user/tools/foo/bin");
        },
        _ => panic!("expected a profile edit"),
    }
}

#[test]
fn artifact_plans() {
    let software = spec_of(SourceSpec::PackageManager);
    match artifact_plan(&software, &asset("u", "f"), "/home/user/Downloads/rusty_rebase", false) {
        ArtifactPlan::SkipPackageOnly { log } => {
            assert_eq!(log, "source is package-only, skipping download/extract");
        },
        _ => panic!("package-only downloads nothing"),
    }

    let web = spec_of(SourceSpec::OfficialSource {
        id: None,
        url: Some("https://e.com/t.tar.gz".to_string()),
        version_regex: None,
        download_url_regex: None,
    });
    let a = asset("https://e.com/t.tar.gz", "t.tar.gz");
    match artifact_plan(&web, &a, "/home/user/Downloads/rusty_rebase", true) {
        ArtifactPlan::DryRunDownload { archive_path, log } => {
            assert_eq!(archive_path, "/home/user/Downloads/rusty_rebase/t.tar.gz");
            assert_eq!(
                log,
                "[dry-run] download https://e.com/t.tar.gz -> /home/user/Downloads/rusty_rebase/t.tar.gz"
            );
        },
        _ => panic!("dry-run must only log"),
    }
    match artifact_plan(&web, &a, "/home/user/Downloads/rusty_rebase", false) {
        ArtifactPlan::Download { url, archive_path, log } => {
            assert_eq!(url, "https://e.com/t.tar.gz");
            assert_eq!(archive_path, "/home/user/Downloads/rusty_rebase/t.tar.gz");
            assert_eq!(log, "downloading from https://e.com/t.tar.gz");
        },
        _ => panic!("expected a download"),
    }
}

#[test]
fn extraction_is_chosen_by_suffix() {
    match extract_archive("/d/a.tar.gz", "/opt/x", false) {
        ExtractPlan::Command { command } => {
            assert_eq!(command, "tar -xzf '/d/a.tar.gz' -C '/opt/x'");
        },
        _ => panic!("expected a command"),
    }
    match extract_archive("/d/a.tar.xz", "/opt/x", false) {
        ExtractPlan::Command { command } => {
            assert_eq!(command, "tar -xJf '/d/a.tar.xz' -C '/opt/x'");
        },
        _ => panic!("expected a command"),
    }
    match extract_archive("/d/a.zip", "/opt/x", false) {
        ExtractPlan::Command { command } => {
            assert_eq!(command, "unzip -o -q '/d/a.zip' -d '/opt/x'");
        },
        _ => panic!("expected a command"),
    }
    match extract_archive("/d/a.AppImage", "/opt/x", false) {
        ExtractPlan::Leave { log } => {
            assert_eq!(log, "downloaded artifact at /d/a.AppImage, extraction skipped");
        },
        _ => panic!("an unrecognized suffix is left in place"),
    }
    match extract_archive("/d/a.tar.gz", "/opt/x", true) {
        ExtractPlan::DryRun { log } => {
            assert_eq!(log, "[dry-run] extract /d/a.tar.gz into /opt/x");
        },
        _ => panic!("dry-run must only log"),
    }
}

#[test]
fn vscode_install_per_manager() {
    match handle_vscode_install("/d/code.deb", &PackageManager::Apt, false) {
        ExtractPlan::Command { command } => {
            assert_eq!(command, "sudo apt install -y '/d/code.deb'");
        },
        _ => panic!("expected a command"),
    }
    match handle_vscode_install("/d/code.rpm", &PackageManager::Dnf, false) {
        ExtractPlan::Command { command } => {
            assert_eq!(command, "sudo dnf install -y '/d/code.rpm'");
        },
        _ => panic!("expected a command"),
    }
    match handle_vscode_install("/d/code.tar.gz", &PackageManager::Pacman, false) {
        ExtractPlan::Command { command } => {
            assert_eq!(
                command,
                "mkdir -p \"$HOME\"/.local/opt && tar -xzf '/d/code.tar.gz' -C \"$HOME\"/.local/opt"
            );
        },
        _ => panic!("expected a command"),
    }
    match handle_vscode_install("/d/code.deb", &PackageManager::Unknown, false) {
        ExtractPlan::Leave { log } => {
            assert_eq!(log, "unknown package manager: please install vscode artifact manually");
        },
        _ => panic!("expected manual advice"),
    }
    match handle_vscode_install("/d/code.deb", &PackageManager::Apt, true) {
        ExtractPlan::DryRun { log } => {
            assert_eq!(log, "[dry-run] sudo apt install -y '/d/code.deb'");
        },
        _ => panic!("dry-run must only log"),
    }

    let vs = spec_of(SourceSpec::OfficialSource {
        id: Some("vscode".to_string()),
        url: None,
        version_regex: None,
        download_url_regex: None,
    });
    assert!(uses_vscode_installer(&vs));
    assert!(!uses_vscode_installer(&spec_of(SourceSpec::PackageManager)));
}

#[test]
fn header_logs() {
    let logs = item_header_logs("git", "Git", "2.39.2");
    assert_eq!(logs, vec!["== git (Git) ==".to_string(), "resolved version: 2.39.2".to_string()]);
}

#[test]
fn download_progress_is_monotone_and_bounded() {
    let total: u64 = 10 * 1024 * 1024;
    let mut d = Downloader::begin(Some(total));
    let mut last_ratio: f64 = 0.0;
    let mut emitted = 0u32;
    while d.downloaded < total {
        let msg = d.chunk_received(8192).expect("a known total always reports");
        match msg {
            InstallMsg::SubProgress(num, den) => {
                assert_eq!(den, total);
                assert!(num <= den);
                let ratio = num as f64 / den as f64;
                assert!(ratio > 0.0);
                assert!(ratio >= last_ratio);
                assert!(ratio <= 1.0);
                last_ratio = ratio;
            },
            _ => panic!("a chunk reports sub-progress"),
        }
        emitted += 1;
    }
    assert_eq!(emitted, 1280);
    assert_eq!(last_ratio, 1.0);

    let mut unknown = Downloader::begin(None);
    assert!(unknown.chunk_received(8192).is_none());
    assert_eq!(unknown.downloaded, 8192);

    let mut lying = Downloader::begin(Some(100));
    let msg = lying.chunk_received(250).unwrap();
    match msg {
        InstallMsg::SubProgress(num, den) => {
            assert_eq!(num, 100);
            assert_eq!(den, 100);
        },
        _ => panic!("a chunk reports sub-progress"),
    }
}
