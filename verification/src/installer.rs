//! Installation planning: what each setup step does, how an artifact is
//! downloaded and extracted, and the chunked-download progress tracker.
//! Every mutating action is computed here as a plan; the caller performs
//! the I/O and honors dry-run by never executing a passive plan.

use vstd::prelude::*;

use crate::catalog::{SetupStep, SoftwareSpec, SourceSpec};
use crate::distro::PackageManager;
use crate::host::{arch_alias, spec_arch_alias, spec_expand_tilde, expand_tilde};
use crate::resolver::ResolvedAsset;
use crate::runner::InstallMsg;
use crate::text::{
    cat, contains_seq, replace_all, replace_seq, str_contains, str_ends_with, ends_with,
    views_of,
};

verus! {

/// What one item's installation produced: its accumulated log lines.
#[derive(Debug)]
pub struct InstallOutcome {
    pub logs: Vec<String>,
}

/// The facts a step plan is computed from: the host's package manager and
/// architecture, the user's shell and home, the item's install directory,
/// and the dry-run flag.
#[derive(Debug, Clone)]
pub struct StepContext {
    pub dry_run: bool,
    pub pkg_manager: PackageManager,
    pub arch: String,
    pub shell: String,
    pub home: String,
    pub install_dir: Option<String>,
}

/// The action one setup step calls for.
pub enum StepPlan {
    RunCommand { command: String, log: String },
    DryRunLog { log: String },
    EditProfile { profile_path: String, export_line: String, rendered: String },
    NoteLog { log: String },
    SkipLog { log: String },
}

pub enum StepPlanView {
    RunCommand { command: Seq<char>, log: Seq<char> },
    DryRunLog { log: Seq<char> },
    EditProfile { profile_path: Seq<char>, export_line: Seq<char>, rendered: Seq<char> },
    NoteLog { log: Seq<char> },
    SkipLog { log: Seq<char> },
}

impl View for StepPlan {
    type V = StepPlanView;

    open spec fn view(&self) -> StepPlanView {
        match self {
            StepPlan::RunCommand { command, log } => (StepPlanView::RunCommand {
                command: command@,
                log: log@,
            }),
            StepPlan::DryRunLog { log } => (StepPlanView::DryRunLog { log: log@ }),
            StepPlan::EditProfile { profile_path, export_line, rendered } => (
            StepPlanView::EditProfile {
                profile_path: profile_path@,
                export_line: export_line@,
                rendered: rendered@,
            }),
            StepPlan::NoteLog { log } => (StepPlanView::NoteLog { log: log@ }),
            StepPlan::SkipLog { log } => (StepPlanView::SkipLog { log: log@ }),
        }
    }
}

/// The profile file a shell sources, by the shell's name.
pub open spec fn spec_profile_name(shell: Seq<char>) -> Seq<char> {
    if contains_seq(shell, "zsh"@) {
        ".zshrc"@
    } else if contains_seq(shell, "fish"@) {
        ".config/fish/config.fish"@
    } else {
        ".bashrc"@
    }
}

/// The line that puts `rendered` on the PATH, in the shell's own syntax.
pub open spec fn spec_export_line(shell: Seq<char>, rendered: Seq<char>) -> Seq<char> {
    if contains_seq(shell, "fish"@) {
        "fish_add_path "@ + rendered
    } else {
        "export PATH=\"$PATH:"@ + rendered + "\""@
    }
}

/// The item's install root: its configured directory, tilde-expanded, or
/// the home directory when none is configured.
pub open spec fn spec_install_root(install_dir: Option<String>, home: Seq<char>) -> Seq<char> {
    match install_dir {
        Some(d) => spec_expand_tilde(d@, home),
        None => home,
    }
}

pub fn resolve_install_root(install_dir: &Option<String>, home: &str) -> (r: String)
    ensures
        r@ == spec_install_root(*install_dir, home@),
{
    match install_dir {
        Some(d) => expand_tilde(d.as_str(), home),
        None => String::from_str(home),
    }
}

/// The plan for one setup step, per its kind: a package install command, a
/// PATH hint against the shell profile, a note, or a substituted shell
/// command — each one logged instead of performed under dry-run.
pub open spec fn spec_plan_step(step: SetupStep, ctx: StepContext) -> StepPlanView {
    match step {
        SetupStep::Package { packages } => match ctx.pkg_manager.install_command_spec(
            views_of(packages@),
        ) {
            Some(cmd) => if ctx.dry_run {
                (StepPlanView::DryRunLog { log: "[dry-run] "@ + cmd })
            } else {
                (StepPlanView::RunCommand { command: cmd, log: "running: "@ + cmd })
            },
            None => (StepPlanView::SkipLog {
                log: "package manager unknown, skipped package setup step"@,
            }),
        },
        SetupStep::PathHint { value } => {
            let root = spec_install_root(ctx.install_dir, ctx.home@);
            let rendered = replace_seq(value@, "<install_root>"@, root);
            let path = ctx.home@ + "/"@ + spec_profile_name(ctx.shell@);
            let line = spec_export_line(ctx.shell@, rendered);
            if ctx.dry_run {
                (StepPlanView::DryRunLog {
                    log: "[dry-run] append to "@ + path + ": "@ + line,
                })
            } else {
                (StepPlanView::EditProfile { profile_path: path, export_line: line, rendered })
            }
        },
        SetupStep::Note { value } => (StepPlanView::NoteLog { log: "note: "@ + value@ }),
        SetupStep::Shell { command } => {
            let processed = replace_seq(
                replace_seq(command@, "{arch}"@, spec_arch_alias(ctx.arch@)),
                "{xarch}"@,
                ctx.arch@,
            );
            if ctx.dry_run {
                (StepPlanView::DryRunLog { log: "[dry-run] shell: "@ + processed })
            } else {
                (StepPlanView::RunCommand {
                    command: processed,
                    log: "running shell: "@ + processed,
                })
            }
        },
    }
}

pub fn plan_step(step: &SetupStep, ctx: &StepContext) -> (p: StepPlan)
    ensures
        p@ == spec_plan_step(*step, *ctx),
{
    match step {
        SetupStep::Package { packages } => match ctx.pkg_manager.install_command(packages) {
            Some(cmd) => {
                if ctx.dry_run {
                    StepPlan::DryRunLog { log: cat("[dry-run] ", cmd.as_str()) }
                } else {
                    let log = cat("running: ", cmd.as_str());
                    StepPlan::RunCommand { command: cmd, log }
                }
            },
            None => StepPlan::SkipLog {
                log: String::from_str("package manager unknown, skipped package setup step"),
            },
        },
        SetupStep::PathHint { value } => {
            let root = resolve_install_root(&ctx.install_dir, ctx.home.as_str());
            let rendered = replace_all(value.as_str(), "<install_root>", root.as_str());
            let profile: &'static str = if str_contains(ctx.shell.as_str(), "zsh") {
                ".zshrc"
            } else if str_contains(ctx.shell.as_str(), "fish") {
                ".config/fish/config.fish"
            } else {
                ".bashrc"
            };
            let path = cat(cat(ctx.home.as_str(), "/").as_str(), profile);
            let line = if str_contains(ctx.shell.as_str(), "fish") {
                cat("fish_add_path ", rendered.as_str())
            } else {
                cat(cat("export PATH=\"$PATH:", rendered.as_str()).as_str(), "\"")
            };
            if ctx.dry_run {
                StepPlan::DryRunLog {
                    log: cat(
                        cat(cat("[dry-run] append to ", path.as_str()).as_str(), ": ").as_str(),
                        line.as_str(),
                    ),
                }
            } else {
                StepPlan::EditProfile { profile_path: path, export_line: line, rendered }
            }
        },
        SetupStep::Note { value } => StepPlan::NoteLog { log: cat("note: ", value.as_str()) },
        SetupStep::Shell { command } => {
            let alias = arch_alias(ctx.arch.as_str());
            let step1 = replace_all(command.as_str(), "{arch}", alias.as_str());
            let processed = replace_all(step1.as_str(), "{xarch}", ctx.arch.as_str());
            if ctx.dry_run {
                StepPlan::DryRunLog { log: cat("[dry-run] shell: ", processed.as_str()) }
            } else {
                let log = cat("running shell: ", processed.as_str());
                StepPlan::RunCommand { command: processed, log }
            }
        },
    }
}

/// A plan that only logs: nothing is run and no file is touched.
pub open spec fn spec_step_plan_passive(p: StepPlanView) -> bool {
    match p {
        StepPlanView::RunCommand { .. } => false,
        StepPlanView::EditProfile { .. } => false,
        StepPlanView::DryRunLog { .. } => true,
        StepPlanView::NoteLog { .. } => true,
        StepPlanView::SkipLog { .. } => true,
    }
}

/// Under dry-run every step plan is passive: no sub-process is spawned and
/// no file written on account of any setup step.
pub proof fn lemma_dry_run_steps_passive(step: SetupStep, ctx: StepContext)
    requires
        ctx.dry_run,
    ensures
        spec_step_plan_passive(spec_plan_step(step, ctx)),
{
}

// ---------------- idempotent profile editing ----------------

/// How a profile file is brought to carry the export line.
pub enum ProfileUpdate {
    AlreadyPresent { log: String },
    Append { text: String, log: String },
}

pub enum ProfileUpdateView {
    AlreadyPresent { log: Seq<char> },
    Append { text: Seq<char>, log: Seq<char> },
}

impl View for ProfileUpdate {
    type V = ProfileUpdateView;

    open spec fn view(&self) -> ProfileUpdateView {
        match self {
            ProfileUpdate::AlreadyPresent { log } => (ProfileUpdateView::AlreadyPresent {
                log: log@,
            }),
            ProfileUpdate::Append { text, log } => (ProfileUpdateView::Append {
                text: text@,
                log: log@,
            }),
        }
    }
}

/// A profile that already contains the exact line is left alone; otherwise
/// the line is appended once, under its marker comment.
pub open spec fn spec_profile_update(
    content: Seq<char>,
    line: Seq<char>,
    rendered: Seq<char>,
    path: Seq<char>,
) -> ProfileUpdateView {
    if contains_seq(content, line) {
        (ProfileUpdateView::AlreadyPresent { log: "path already configured in "@ + path })
    } else {
        (ProfileUpdateView::Append {
            text: "\n# Added by rusty_rebase\n"@ + line + "\n"@,
            log: "added "@ + rendered + " to "@ + path,
        })
    }
}

pub fn profile_update(content: &str, line: &str, rendered: &str, path: &str) -> (u: ProfileUpdate)
    ensures
        u@ == spec_profile_update(content@, line@, rendered@, path@),
{
    if str_contains(content, line) {
        ProfileUpdate::AlreadyPresent { log: cat("path already configured in ", path) }
    } else {
        ProfileUpdate::Append {
            text: cat(cat("\n# Added by rusty_rebase\n", line).as_str(), "\n"),
            log: cat(cat(cat("added ", rendered).as_str(), " to ").as_str(), path),
        }
    }
}

// ---------------- artifact download and extraction ----------------

/// Whether an artifact is downloaded at all, and where to.
pub enum ArtifactPlan {
    SkipPackageOnly { log: String },
    DryRunDownload { archive_path: String, log: String },
    Download { url: String, archive_path: String, log: String },
}

pub enum ArtifactPlanView {
    SkipPackageOnly { log: Seq<char> },
    DryRunDownload { archive_path: Seq<char>, log: Seq<char> },
    Download { url: Seq<char>, archive_path: Seq<char>, log: Seq<char> },
}

impl View for ArtifactPlan {
    type V = ArtifactPlanView;

    open spec fn view(&self) -> ArtifactPlanView {
        match self {
            ArtifactPlan::SkipPackageOnly { log } => (ArtifactPlanView::SkipPackageOnly {
                log: log@,
            }),
            ArtifactPlan::DryRunDownload { archive_path, log } => (
            ArtifactPlanView::DryRunDownload { archive_path: archive_path@, log: log@ }),
            ArtifactPlan::Download { url, archive_path, log } => (ArtifactPlanView::Download {
                url: url@,
                archive_path: archive_path@,
                log: log@,
            }),
        }
    }
}

/// A package-manager-only source downloads nothing; anything else stages
/// the artifact under the staging directory, or only logs so in dry-run.
pub open spec fn spec_artifact_plan(
    package_only: bool,
    url: Seq<char>,
    file_name: Seq<char>,
    staging: Seq<char>,
    dry_run: bool,
) -> ArtifactPlanView {
    if package_only {
        (ArtifactPlanView::SkipPackageOnly {
            log: "source is package-only, skipping download/extract"@,
        })
    } else {
        let path = staging + "/"@ + file_name;
        if dry_run {
            (ArtifactPlanView::DryRunDownload {
                archive_path: path,
                log: "[dry-run] download "@ + url + " -> "@ + path,
            })
        } else {
            (ArtifactPlanView::Download {
                url: url,
                archive_path: path,
                log: "downloading from "@ + url,
            })
        }
    }
}

pub fn artifact_plan(
    software: &SoftwareSpec,
    resolved: &ResolvedAsset,
    staging: &str,
    dry_run: bool,
) -> (p: ArtifactPlan)
    ensures
        p@ == spec_artifact_plan(
            software.source is PackageManager,
            resolved.url@,
            resolved.file_name@,
            staging@,
            dry_run,
        ),
{
    if matches!(software.source, SourceSpec::PackageManager) {
        return ArtifactPlan::SkipPackageOnly {
            log: String::from_str("source is package-only, skipping download/extract"),
        };
    }
    let path = cat(cat(staging, "/").as_str(), resolved.file_name.as_str());
    if dry_run {
        let log = cat(
            cat(cat("[dry-run] download ", resolved.url.as_str()).as_str(), " -> ").as_str(),
            path.as_str(),
        );
        ArtifactPlan::DryRunDownload { archive_path: path, log }
    } else {
        ArtifactPlan::Download {
            url: resolved.url.clone(),
            archive_path: path,
            log: cat("downloading from ", resolved.url.as_str()),
        }
    }
}

/// Whether the dedicated VS Code installer overrides plain extraction.
pub open spec fn spec_uses_vscode_installer(s: SoftwareSpec) -> bool {
    match s.source {
        SourceSpec::OfficialSource { id, .. } => match id {
            Some(i) => i@ == "vscode"@,
            None => false,
        },
        _ => false,
    }
}

pub fn uses_vscode_installer(software: &SoftwareSpec) -> (r: bool)
    ensures
        r == spec_uses_vscode_installer(*software),
{
    match &software.source {
        SourceSpec::OfficialSource { id: Some(i), .. } => crate::text::str_eq(
            i.as_str(),
            "vscode",
        ),
        _ => false,
    }
}

/// How an archive is installed, chosen by its file suffix.
pub enum ExtractPlan {
    DryRun { log: String },
    Command { command: String },
    Leave { log: String },
}

pub enum ExtractPlanView {
    DryRun { log: Seq<char> },
    Command { command: Seq<char> },
    Leave { log: Seq<char> },
}

impl View for ExtractPlan {
    type V = ExtractPlanView;

    open spec fn view(&self) -> ExtractPlanView {
        match self {
            ExtractPlan::DryRun { log } => (ExtractPlanView::DryRun { log: log@ }),
            ExtractPlan::Command { command } => (ExtractPlanView::Command { command: command@ }),
            ExtractPlan::Leave { log } => (ExtractPlanView::Leave { log: log@ }),
        }
    }
}

/// Extraction by suffix: gzip and xz tarballs and zip archives have their
/// commands; an unrecognized suffix leaves the artifact in place.
pub open spec fn spec_extract_plan(
    path: Seq<char>,
    install_root: Seq<char>,
    dry_run: bool,
) -> ExtractPlanView {
    if dry_run {
        (ExtractPlanView::DryRun { log: "[dry-run] extract "@ + path + " into "@ + install_root })
    } else if ends_with(path, ".tar.gz"@) {
        (ExtractPlanView::Command {
            command: "tar -xzf '"@ + path + "' -C '"@ + install_root + "'"@,
        })
    } else if ends_with(path, ".tar.xz"@) {
        (ExtractPlanView::Command {
            command: "tar -xJf '"@ + path + "' -C '"@ + install_root + "'"@,
        })
    } else if ends_with(path, ".zip"@) {
        (ExtractPlanView::Command {
            command: "unzip -o -q '"@ + path + "' -d '"@ + install_root + "'"@,
        })
    } else {
        (ExtractPlanView::Leave { log: "downloaded artifact at "@ + path + ", extraction skipped"@ })
    }
}

pub fn extract_archive(archive_path: &str, install_root: &str, dry_run: bool) -> (p: ExtractPlan)
    ensures
        p@ == spec_extract_plan(archive_path@, install_root@, dry_run),
{
    if dry_run {
        return ExtractPlan::DryRun {
            log: cat(
                cat(cat("[dry-run] extract ", archive_path).as_str(), " into ").as_str(),
                install_root,
            ),
        };
    }
    if str_ends_with(archive_path, ".tar.gz") {
        ExtractPlan::Command {
            command: cat(
                cat(cat(cat("tar -xzf '", archive_path).as_str(), "' -C '").as_str(), install_root)
                    .as_str(),
                "'",
            ),
        }
    } else if str_ends_with(archive_path, ".tar.xz") {
        ExtractPlan::Command {
            command: cat(
                cat(cat(cat("tar -xJf '", archive_path).as_str(), "' -C '").as_str(), install_root)
                    .as_str(),
                "'",
            ),
        }
    } else if str_ends_with(archive_path, ".zip") {
        ExtractPlan::Command {
            command: cat(
                cat(cat(cat("unzip -o -q '", archive_path).as_str(), "' -d '").as_str(),
                    install_root).as_str(),
                "'",
            ),
        }
    } else {
        ExtractPlan::Leave {
            log: cat(
                cat("downloaded artifact at ", archive_path).as_str(),
                ", extraction skipped",
            ),
        }
    }
}

/// The dedicated VS Code install: the native package command on apt and
/// dnf hosts, a local unpack on pacman, manual advice elsewhere.
pub open spec fn spec_vscode_plan(
    path: Seq<char>,
    pm: PackageManager,
    dry_run: bool,
) -> ExtractPlanView {
    let cmd: Option<Seq<char>> = match pm {
        PackageManager::Apt => Some("sudo apt install -y '"@ + path + "'"@),
        PackageManager::Dnf => Some("sudo dnf install -y '"@ + path + "'"@),
        PackageManager::Pacman => Some(
            "mkdir -p \"$HOME\"/.local/opt && tar -xzf '"@ + path
                + "' -C \"$HOME\"/.local/opt"@,
        ),
        PackageManager::Unknown => None,
    };
    match cmd {
        Some(c) => if dry_run {
            (ExtractPlanView::DryRun { log: "[dry-run] "@ + c })
        } else {
            (ExtractPlanView::Command { command: c })
        },
        None => (ExtractPlanView::Leave {
            log: "unknown package manager: please install vscode artifact manually"@,
        }),
    }
}

pub fn handle_vscode_install(archive_path: &str, pm: &PackageManager, dry_run: bool) -> (p:
    ExtractPlan)
    ensures
        p@ == spec_vscode_plan(archive_path@, *pm, dry_run),
{
    let cmd: Option<String> = match pm {
        PackageManager::Apt => Some(
            cat(cat("sudo apt install -y '", archive_path).as_str(), "'"),
        ),
        PackageManager::Dnf => Some(
            cat(cat("sudo dnf install -y '", archive_path).as_str(), "'"),
        ),
        PackageManager::Pacman => Some(
            cat(
                cat("mkdir -p \"$HOME\"/.local/opt && tar -xzf '", archive_path).as_str(),
                "' -C \"$HOME\"/.local/opt",
            ),
        ),
        PackageManager::Unknown => None,
    };
    match cmd {
        Some(c) => {
            if dry_run {
                ExtractPlan::DryRun { log: cat("[dry-run] ", c.as_str()) }
            } else {
                ExtractPlan::Command { command: c }
            }
        },
        None => ExtractPlan::Leave {
            log: String::from_str("unknown package manager: please install vscode artifact manually"),
        },
    }
}

/// Under dry-run neither the artifact plan nor any install plan carries a
/// command or a download: dry-run performs nothing.
pub proof fn lemma_dry_run_artifact_passive(
    package_only: bool,
    url: Seq<char>,
    file_name: Seq<char>,
    staging: Seq<char>,
    path: Seq<char>,
    install_root: Seq<char>,
    pm: PackageManager,
)
    ensures
        !(spec_artifact_plan(package_only, url, file_name, staging, true) is Download),
        !(spec_extract_plan(path, install_root, true) is Command),
        !(spec_vscode_plan(path, pm, true) is Command),
{
}

/// The opening log lines of one item's installation.
pub fn item_header_logs(key: &str, display_name: &str, version: &str) -> (r: Vec<String>)
    ensures
        r@.len() == 2,
        r@[0]@ == "== "@ + key@ + " ("@ + display_name@ + ") =="@,
        r@[1]@ == "resolved version: "@ + version@,
{
    let mut v: Vec<String> = Vec::new();
    v.push(
        cat(
            cat(cat(cat("== ", key).as_str(), " (").as_str(), display_name).as_str(),
            ") ==",
        ),
    );
    v.push(cat("resolved version: ", version));
    v
}

// ---------------- chunked download progress ----------------

/// The bytes of `d` that count toward completion of `t`: never more than
/// the total itself.
pub open spec fn sub_amount(d: u64, t: u64) -> u64 {
    if d <= t {
        d
    } else {
        t
    }
}

/// The streamed-download tracker: bytes received so far, and the content
/// length when the server reported one.
pub struct Downloader {
    pub downloaded: u64,
    pub total: Option<u64>,
}

impl Downloader {
    pub fn begin(total: Option<u64>) -> (d: Downloader)
        ensures
            d.downloaded == 0,
            d.total == total,
    {
        Downloader { downloaded: 0, total }
    }

    /// Accounts one chunk and, when the total is known, yields the
    /// sub-progress event for it: completed bytes over the total, the
    /// numerator clamped to the denominator.
    pub fn chunk_received(&mut self, n: usize) -> (msg: Option<InstallMsg>)
        requires
            old(self).downloaded + n <= u64::MAX,
        ensures
            final(self).total == old(self).total,
            final(self).downloaded == old(self).downloaded + n,
            match old(self).total {
                Some(t) => msg == Some(
                    InstallMsg::SubProgress(sub_amount((old(self).downloaded + n) as u64, t), t),
                ),
                None => msg is None,
            },
    {
        self.downloaded = self.downloaded + (n as u64);
        match self.total {
            Some(t) => {
                let num: u64 = if self.downloaded <= t {
                    self.downloaded
                } else {
                    t
                };
                Some(InstallMsg::SubProgress(num, t))
            },
            None => None,
        }
    }
}

/// Sub-progress is monotone in the bytes received and never exceeds
/// completion: as a download advances, the reported fraction can only
/// grow, is positive as soon as any byte arrived, and never passes the
/// whole.
pub proof fn lemma_subprogress_monotone(t: u64, d1: u64, d2: u64)
    requires
        d1 <= d2,
    ensures
        sub_amount(d1, t) <= sub_amount(d2, t),
        sub_amount(d2, t) <= t,
        d1 > 0 && t > 0 ==> sub_amount(d1, t) > 0,
{
}

} // verus!
