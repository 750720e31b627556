use rusty_rebase::catalog::{CatalogFile, SetupStep, SoftwareSpec, SourceSpec};
use rusty_rebase::distro::{
    detect_package_manager, parse_apt_candidate, parse_os_release, parse_version_line,
    runtime_probe_order, PackageManager,
};

fn plain_spec(source: SourceSpec) -> SoftwareSpec {
    SoftwareSpec {
        display_name: "Tool".to_string(),
        description: None,
        enabled_by_default: false,
        install_dir: None,
        source,
        setup_steps: Vec::new(),
    }
}

#[test]
fn install_command_per_manager() {
    let pkgs = vec!["git".to_string(), "curl".to_string()];
    assert_eq!(
        PackageManager::Apt.install_command(&pkgs),
        Some("sudo apt update && sudo apt install -y git curl".to_string())
    );
    assert_eq!(
        PackageManager::Dnf.install_command(&pkgs),
        Some("sudo dnf install -y git curl".to_string())
    );
    assert_eq!(
        PackageManager::Pacman.install_command(&pkgs),
        Some("sudo pacman -Sy --noconfirm git curl".to_string())
    );
    assert_eq!(PackageManager::Unknown.install_command(&pkgs), None);
    assert_eq!(PackageManager::Apt.install_command(&Vec::new()), None);
}

#[test]
fn apt_candidate_parsing() {
    let out = "git:\n  Installed: (none)\n  Candidate: 1:2.34.1-1ubuntu1.10\n  Version table:\n";
    assert_eq!(parse_apt_candidate(out), Some("1".to_string()));
    let simple = "tool:\n  Candidate: 3.1.4\n";
    assert_eq!(parse_apt_candidate(simple), Some("3.1.4".to_string()));
    let none = "tool:\n  Candidate: (none)\n";
    assert_eq!(parse_apt_candidate(none), None);
    assert_eq!(parse_apt_candidate("unrelated output"), None);
}

#[test]
fn version_line_parsing() {
    let dnf = "Name         : ripgrep\nVersion      : 13.0.0\nRelease      : 1.fc38\n";
    assert_eq!(parse_version_line(dnf), Some("13.0.0".to_string()));
    assert_eq!(parse_version_line("no such field"), None);
}

#[test]
fn os_release_parsing_takes_last_value_and_strips_quotes() {
    let content = "NAME=\"Ubuntu\"\nID=ubuntu\nID_LIKE=debian\nVERSION_ID=\"22.04\"\n";
    let (id, id_like) = parse_os_release(content);
    assert_eq!(id, "ubuntu");
    assert_eq!(id_like, "debian");

    let overridden = "ID=first\nID=\"second\"\n";
    let (id2, like2) = parse_os_release(overridden);
    assert_eq!(id2, "second");
    assert_eq!(like2, "");
}

#[test]
fn package_manager_detection_tables() {
    assert!(matches!(detect_package_manager("ubuntu", ""), PackageManager::Apt));
    assert!(matches!(detect_package_manager("pop", ""), PackageManager::Apt));
    assert!(matches!(detect_package_manager("fedora", ""), PackageManager::Dnf));
    assert!(matches!(detect_package_manager("rocky", ""), PackageManager::Dnf));
    assert!(matches!(detect_package_manager("manjaro", ""), PackageManager::Pacman));
    assert!(matches!(detect_package_manager("weird", "ubuntu debian"), PackageManager::Apt));
    assert!(matches!(detect_package_manager("weird", "rhel fedora"), PackageManager::Dnf));
    assert!(matches!(detect_package_manager("weird", "archlinux arch"), PackageManager::Pacman));
    assert!(matches!(detect_package_manager("weird", "suse"), PackageManager::Unknown));
}

#[test]
fn probe_order_and_query_commands() {
    let order = runtime_probe_order();
    let names: Vec<&str> = order.iter().map(|p| p.0.as_str()).collect();
    assert_eq!(names, vec!["apt", "dnf", "pacman", "yum", "zypper"]);
    assert!(matches!(order[3].1, PackageManager::Dnf));
    assert!(matches!(order[4].1, PackageManager::Unknown));

    let (prog, args) = PackageManager::Apt.version_query_command("git").unwrap();
    assert_eq!(prog, "apt-cache");
    assert_eq!(args, vec!["policy".to_string(), "git".to_string()]);
    let (prog, args) = PackageManager::Dnf.version_query_command("rg").unwrap();
    assert_eq!(prog, "dnf");
    assert_eq!(args, vec!["info".to_string(), "-q".to_string(), "rg".to_string()]);
    let (prog, args) = PackageManager::Pacman.version_query_command("rg").unwrap();
    assert_eq!(prog, "pacman");
    assert_eq!(args, vec!["-Si".to_string(), "rg".to_string()]);
    assert!(PackageManager::Unknown.version_query_command("rg").is_none());
}

#[test]
fn parse_version_output_dispatches_by_manager() {
    let apt_out = "tool:\n  Candidate: 9.9\n";
    assert_eq!(PackageManager::Apt.parse_version_output(apt_out), Some("9.9".to_string()));
    let pac_out = "Repository : extra\nVersion : 1.2-3\n";
    assert_eq!(PackageManager::Pacman.parse_version_output(pac_out), Some("1.2-3".to_string()));
    assert_eq!(PackageManager::Unknown.parse_version_output(apt_out), None);
}

#[test]
fn manager_names() {
    assert_eq!(PackageManager::Apt.name(), "apt");
    assert_eq!(PackageManager::Dnf.name(), "dnf");
    assert_eq!(PackageManager::Pacman.name(), "pacman");
    assert_eq!(PackageManager::Unknown.name(), "unknown");
}

#[test]
fn kind_keys_and_catalog_lookup() {
    let official = SourceSpec::OfficialSource {
        id: None,
        url: None,
        version_regex: None,
        download_url_regex: None,
    };
    assert_eq!(official.kind_key(), "official_source");
    assert_eq!(SourceSpec::PackageManager.kind_key(), "package_manager");
    let gh = SourceSpec::Github { repo: None, asset_pattern: ".*".to_string() };
    assert_eq!(gh.kind_key(), "github");

    let catalog = CatalogFile {
        software: vec![
            ("alpha".to_string(), plain_spec(SourceSpec::PackageManager)),
            ("beta".to_string(), plain_spec(gh.clone())),
        ],
    };
    assert!(catalog.get("alpha").is_some());
    assert_eq!(catalog.get("beta").unwrap().display_name, "Tool");
    assert!(catalog.get("gamma").is_none());
}

#[test]
fn first_package_skips_empty_package_steps() {
    let spec = SoftwareSpec {
        display_name: "T".to_string(),
        description: None,
        enabled_by_default: false,
        install_dir: None,
        source: SourceSpec::PackageManager,
        setup_steps: vec![
            SetupStep::Note { value: "hi".to_string() },
            SetupStep::Package { packages: Vec::new() },
            SetupStep::Package { packages: vec!["real-pkg".to_string()] },
        ],
    };
    assert_eq!(rusty_rebase::resolver::first_package_name(&spec), "real-pkg");
    let bare = plain_spec(SourceSpec::PackageManager);
    assert_eq!(rusty_rebase::resolver::first_package_name(&bare), "unknown");
}
