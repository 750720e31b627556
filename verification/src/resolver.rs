//! Asset resolution: turning one catalog entry's source specification into
//! a concrete, versioned download location.

use vstd::prelude::*;

use crate::catalog::{SetupStep, SoftwareSpec, SourceSpec};
use crate::distro::{DistroInfo, PackageManager};
use crate::foreign::{
    re_capture1, re_capture1_of, re_find, re_find_of, re_is_match, re_match_of, url_join,
    url_join_of,
};
use crate::host::{arch_alias, spec_arch_alias};
use crate::text::{
    after_last, cat, contains_seq, drop_lead, ends_with, lower_seq, lower_ascii, replace_all,
    replace_seq, str_contains, str_ends_with, str_eq, strip_lead, strip_trail, tail_after_last,
    trim_lead_char, trim_lead_pat, trim_trail_pat,
};

verus! {

/// A concrete downloadable artifact: never empty-versioned when resolution
/// succeeded, and carrying sentinel values for package-manager-only items.
#[derive(Debug, Clone)]
pub struct ResolvedAsset {
    pub version: String,
    pub url: String,
    pub file_name: String,
}

pub struct ResolvedAssetView {
    pub version: Seq<char>,
    pub url: Seq<char>,
    pub file_name: Seq<char>,
}

impl View for ResolvedAsset {
    type V = ResolvedAssetView;

    open spec fn view(&self) -> ResolvedAssetView {
        ResolvedAssetView { version: self.version@, url: self.url@, file_name: self.file_name@ }
    }
}

pub open spec fn asset_result_view(r: Result<ResolvedAsset, String>) -> Result<
    ResolvedAssetView,
    Seq<char>,
> {
    match r {
        Ok(a) => Ok(a@),
        Err(e) => Err(e@),
    }
}

// ---------------- strategy dispatch ----------------

/// Which resolution strategy a source specification calls for, with the
/// data that strategy needs.  Fetching is the caller's business; every
/// computation on the fetched data is this module's.
pub enum ResolutionPlan {
    Flutter,
    AndroidStudio,
    Vscode,
    Scraper { url: String, version_regex: String, download_url_regex: String },
    StaticUrl { url: String },
    PackageOnly,
    GithubRelease { repo: String, asset_pattern: String },
    Misconfigured { error: String },
}

pub enum PlanView {
    Flutter,
    AndroidStudio,
    Vscode,
    Scraper { url: Seq<char>, version_regex: Seq<char>, download_url_regex: Seq<char> },
    StaticUrl { url: Seq<char> },
    PackageOnly,
    GithubRelease { repo: Seq<char>, asset_pattern: Seq<char> },
    Misconfigured { error: Seq<char> },
}

impl View for ResolutionPlan {
    type V = PlanView;

    open spec fn view(&self) -> PlanView {
        match self {
            ResolutionPlan::Flutter => PlanView::Flutter,
            ResolutionPlan::AndroidStudio => PlanView::AndroidStudio,
            ResolutionPlan::Vscode => PlanView::Vscode,
            ResolutionPlan::Scraper { url, version_regex, download_url_regex } => (
            PlanView::Scraper {
                url: url@,
                version_regex: version_regex@,
                download_url_regex: download_url_regex@,
            }),
            ResolutionPlan::StaticUrl { url } => (PlanView::StaticUrl { url: url@ }),
            ResolutionPlan::PackageOnly => PlanView::PackageOnly,
            ResolutionPlan::GithubRelease { repo, asset_pattern } => (PlanView::GithubRelease {
                repo: repo@,
                asset_pattern: asset_pattern@,
            }),
            ResolutionPlan::Misconfigured { error } => (PlanView::Misconfigured { error: error@ }),
        }
    }
}

pub open spec fn spec_official_plan(
    id: Option<String>,
    url: Option<String>,
    version_regex: Option<String>,
    download_url_regex: Option<String>,
) -> PlanView {
    let named: Option<PlanView> = match id {
        Some(i) => if i@ == "flutter"@ {
            Some(PlanView::Flutter)
        } else if i@ == "android_studio"@ {
            Some(PlanView::AndroidStudio)
        } else if i@ == "vscode"@ {
            Some(PlanView::Vscode)
        } else {
            None
        },
        None => None,
    };
    match named {
        Some(p) => p,
        None => match (url, version_regex, download_url_regex) {
            (Some(u), Some(v), Some(d)) => (PlanView::Scraper {
                url: u@,
                version_regex: v@,
                download_url_regex: d@,
            }),
            (Some(u), None, None) => (PlanView::StaticUrl { url: u@ }),
            _ => (PlanView::Misconfigured {
                error: "official_source missing valid configuration"@,
            }),
        },
    }
}

pub open spec fn spec_resolution_plan(s: SoftwareSpec) -> PlanView {
    match s.source {
        SourceSpec::OfficialSource { id, url, version_regex, download_url_regex } => {
            spec_official_plan(id, url, version_regex, download_url_regex)
        },
        SourceSpec::PackageManager => PlanView::PackageOnly,
        SourceSpec::Github { repo, asset_pattern } => match repo {
            Some(r) => (PlanView::GithubRelease { repo: r@, asset_pattern: asset_pattern@ }),
            None => (PlanView::Misconfigured {
                error: "github repo not configured for this software"@,
            }),
        },
    }
}

/// The strategy that resolves `spec`, per its source specification: named
/// official sources get their dedicated strategies; an official source with
/// page and regexes is scraped; one with only a page is a static,
/// version-less download; package-manager sources are not downloaded at
/// all; a GitHub source needs its repository configured.
pub fn resolution_plan(spec: &SoftwareSpec) -> (p: ResolutionPlan)
    ensures
        p@ == spec_resolution_plan(*spec),
{
    match &spec.source {
        SourceSpec::OfficialSource { id, url, version_regex, download_url_regex } => {
            if let Some(i) = id {
                if str_eq(i.as_str(), "flutter") {
                    return ResolutionPlan::Flutter;
                }
                if str_eq(i.as_str(), "android_studio") {
                    return ResolutionPlan::AndroidStudio;
                }
                if str_eq(i.as_str(), "vscode") {
                    return ResolutionPlan::Vscode;
                }
            }
            match (url, version_regex, download_url_regex) {
                (Some(u), Some(v), Some(d)) => ResolutionPlan::Scraper {
                    url: u.clone(),
                    version_regex: v.clone(),
                    download_url_regex: d.clone(),
                },
                (Some(u), None, None) => ResolutionPlan::StaticUrl { url: u.clone() },
                _ => ResolutionPlan::Misconfigured {
                    error: String::from_str("official_source missing valid configuration"),
                },
            }
        },
        SourceSpec::PackageManager => ResolutionPlan::PackageOnly,
        SourceSpec::Github { repo, asset_pattern } => match repo {
            Some(r) => ResolutionPlan::GithubRelease {
                repo: r.clone(),
                asset_pattern: asset_pattern.clone(),
            },
            None => ResolutionPlan::Misconfigured {
                error: String::from_str("github repo not configured for this software"),
            },
        },
    }
}

// ---------------- static and package-manager strategies ----------------

/// A version-less download at a fixed URL.
pub fn resolve_static(url: &str, file_name: &str) -> (r: Result<ResolvedAsset, String>)
    ensures
        r matches Ok(a) && a.version@ == "static"@ && a.url@ == url@ && a.file_name@ == file_name@,
{
    Ok(
        ResolvedAsset {
            version: String::from_str("static"),
            url: String::from_str(url),
            file_name: String::from_str(file_name),
        },
    )
}

/// The first package named by the first non-empty `Package` step, or
/// `unknown` when no step names one.
pub open spec fn spec_first_package(steps: Seq<SetupStep>) -> Seq<char>
    decreases steps.len(),
{
    if steps.len() == 0 {
        "unknown"@
    } else {
        match steps[0] {
            SetupStep::Package { packages } => if packages@.len() > 0 {
                packages@[0]@
            } else {
                spec_first_package(steps.subrange(1, steps.len() as int))
            },
            _ => spec_first_package(steps.subrange(1, steps.len() as int)),
        }
    }
}

pub fn first_package_name(spec: &SoftwareSpec) -> (r: String)
    ensures
        r@ == spec_first_package(spec.setup_steps@),
{
    let n: usize = spec.setup_steps.len();
    let mut i: usize = 0;
    proof {
        assert(spec.setup_steps@.subrange(0, n as int) =~= spec.setup_steps@);
    }
    while i < n
        invariant
            i <= n,
            n == spec.setup_steps@.len(),
            spec_first_package(spec.setup_steps@.subrange(i as int, n as int))
                == spec_first_package(spec.setup_steps@),
        decreases n - i,
    {
        let ghost tail = spec.setup_steps@.subrange(i as int, n as int);
        proof {
            assert(tail[0] == spec.setup_steps@[i as int]);
            assert(tail.subrange(1, tail.len() as int) =~= spec.setup_steps@.subrange(
                i + 1 as int,
                n as int,
            ));
        }
        if let SetupStep::Package { packages } = &spec.setup_steps[i] {
            if packages.len() > 0 {
                return packages[0].clone();
            }
        }
        i = i + 1;
    }
    proof {
        assert(spec.setup_steps@.subrange(n as int, n as int).len() == 0);
    }
    String::from_str("unknown")
}

/// A package-manager-only item: no artifact, and the version the host's
/// package query reported, or the `package-manager` sentinel when it
/// reported none.
pub fn resolve_package_only(spec: &SoftwareSpec, queried_version: Option<String>) -> (r: Result<
    ResolvedAsset,
    String,
>)
    ensures
        r matches Ok(a) && a.url@ == "N/A"@ && a.file_name@ == "N/A"@ && a.version@ == (
        match queried_version {
            Some(v) => v@,
            None => "package-manager"@,
        }),
{
    let version = match queried_version {
        Some(v) => v,
        None => String::from_str("package-manager"),
    };
    Ok(
        ResolvedAsset {
            version,
            url: String::from_str("N/A"),
            file_name: String::from_str("N/A"),
        },
    )
}

// ---------------- the Flutter release feed ----------------

/// One entry of the Flutter release feed.
#[derive(Debug, Clone)]
pub struct FlutterRelease {
    pub hash: String,
    pub version: String,
    pub archive: String,
}

/// The value stored under `key` in a sequence of key/value pairs.
pub open spec fn pair_lookup(pairs: Seq<(String, String)>, key: Seq<char>) -> Option<Seq<char>>
    decreases pairs.len(),
{
    if pairs.len() == 0 {
        None
    } else if pairs[0].0@ == key {
        Some(pairs[0].1@)
    } else {
        pair_lookup(pairs.subrange(1, pairs.len() as int), key)
    }
}

/// The first release whose hash reads `h`.
pub open spec fn first_release_with_hash(rs: Seq<FlutterRelease>, h: Seq<char>) -> Option<
    FlutterRelease,
>
    decreases rs.len(),
{
    if rs.len() == 0 {
        None
    } else if rs[0].hash@ == h {
        Some(rs[0])
    } else {
        first_release_with_hash(rs.subrange(1, rs.len() as int), h)
    }
}

pub open spec fn spec_resolve_flutter(
    channel: Seq<char>,
    current: Seq<(String, String)>,
    releases: Seq<FlutterRelease>,
) -> Result<ResolvedAssetView, Seq<char>> {
    match pair_lookup(current, channel) {
        None => Err("missing current release hash for channel '"@ + channel + "'"@),
        Some(h) => match first_release_with_hash(releases, h) {
            None => Err("failed to resolve flutter release by hash"@),
            Some(rel) => Ok(
                ResolvedAssetView {
                    version: rel.version@,
                    url: "https://storage.googleapis.com/flutter_infra_release/releases/"@
                        + rel.archive@,
                    file_name: after_last(rel.archive@, '/'),
                },
            ),
        },
    }
}

proof fn lemma_pair_lookup_found(pairs: Seq<(String, String)>, key: Seq<char>, i: int)
    requires
        0 <= i < pairs.len(),
        pairs[i].0@ == key,
        forall|j: int| 0 <= j < i ==> pairs[j].0@ != key,
    ensures
        pair_lookup(pairs, key) == Some(pairs[i].1@),
    decreases pairs.len(),
{
    if i > 0 {
        lemma_pair_lookup_found(pairs.subrange(1, pairs.len() as int), key, i - 1);
    }
}

proof fn lemma_pair_lookup_absent(pairs: Seq<(String, String)>, key: Seq<char>)
    requires
        forall|j: int| 0 <= j < pairs.len() ==> pairs[j].0@ != key,
    ensures
        pair_lookup(pairs, key) is None,
    decreases pairs.len(),
{
    if pairs.len() > 0 {
        lemma_pair_lookup_absent(pairs.subrange(1, pairs.len() as int), key);
    }
}

proof fn lemma_release_found(rs: Seq<FlutterRelease>, h: Seq<char>, i: int)
    requires
        0 <= i < rs.len(),
        rs[i].hash@ == h,
        forall|j: int| 0 <= j < i ==> rs[j].hash@ != h,
    ensures
        first_release_with_hash(rs, h) == Some(rs[i]),
    decreases rs.len(),
{
    if i > 0 {
        lemma_release_found(rs.subrange(1, rs.len() as int), h, i - 1);
    }
}

proof fn lemma_release_absent(rs: Seq<FlutterRelease>, h: Seq<char>)
    requires
        forall|j: int| 0 <= j < rs.len() ==> rs[j].hash@ != h,
    ensures
        first_release_with_hash(rs, h) is None,
    decreases rs.len(),
{
    if rs.len() > 0 {
        lemma_release_absent(rs.subrange(1, rs.len() as int), h);
    }
}

fn lookup_pair_value<'a>(pairs: &'a Vec<(String, String)>, key: &str) -> (r: Option<&'a String>)
    ensures
        match r {
            Some(v) => pair_lookup(pairs@, key@) == Some(v@),
            None => pair_lookup(pairs@, key@) is None,
        },
{
    let n: usize = pairs.len();
    let mut i: usize = 0;
    while i < n
        invariant
            i <= n,
            n == pairs@.len(),
            forall|j: int| 0 <= j < i ==> pairs@[j].0@ != key@,
        decreases n - i,
    {
        if str_eq(pairs[i].0.as_str(), key) {
            proof {
                lemma_pair_lookup_found(pairs@, key@, i as int);
            }
            return Some(&pairs[i].1);
        }
        i = i + 1;
    }
    proof {
        lemma_pair_lookup_absent(pairs@, key@);
    }
    None
}

fn find_release<'a>(releases: &'a Vec<FlutterRelease>, h: &str) -> (r: Option<&'a FlutterRelease>)
    ensures
        match r {
            Some(rel) => first_release_with_hash(releases@, h@) == Some(*rel),
            None => first_release_with_hash(releases@, h@) is None,
        },
{
    let m: usize = releases.len();
    let mut k: usize = 0;
    while k < m
        invariant
            k <= m,
            m == releases@.len(),
            forall|j: int| 0 <= j < k ==> releases@[j].hash@ != h@,
        decreases m - k,
    {
        if str_eq(releases[k].hash.as_str(), h) {
            proof {
                lemma_release_found(releases@, h@, k as int);
            }
            return Some(&releases[k]);
        }
        k = k + 1;
    }
    proof {
        lemma_release_absent(releases@, h@);
    }
    None
}

/// Resolution against an already-fetched Flutter release feed: the current
/// hash for `channel` names the release; its archive path gives the
/// download location and file name.
pub fn resolve_flutter(
    channel: &str,
    current_release: &Vec<(String, String)>,
    releases: &Vec<FlutterRelease>,
) -> (r: Result<ResolvedAsset, String>)
    ensures
        asset_result_view(r) == spec_resolve_flutter(channel@, current_release@, releases@),
{
    let hash = match lookup_pair_value(current_release, channel) {
        Some(h) => h,
        None => {
            return Err(
                cat(cat("missing current release hash for channel '", channel).as_str(), "'"),
            );
        },
    };
    match find_release(releases, hash.as_str()) {
        Some(rel) => Ok(
            ResolvedAsset {
                version: rel.version.clone(),
                url: cat(
                    "https://storage.googleapis.com/flutter_infra_release/releases/",
                    rel.archive.as_str(),
                ),
                file_name: tail_after_last(rel.archive.as_str(), '/'),
            },
        ),
        None => Err(String::from_str("failed to resolve flutter release by hash")),
    }
}

// ---------------- the VS Code redirect ----------------

pub open spec fn spec_vscode_platform(pm: PackageManager) -> Seq<char> {
    match pm {
        PackageManager::Apt => "linux-deb-x64"@,
        PackageManager::Dnf => "linux-rpm-x64"@,
        _ => "linux-x64"@,
    }
}

/// The release channel URL whose redirect names the current VS Code build
/// for this host's package format.
pub fn vscode_fetch_url(pm: &PackageManager) -> (r: String)
    ensures
        r@ == "https://update.code.visualstudio.com/latest/"@ + spec_vscode_platform(*pm)
            + "/stable"@,
{
    let platform: &'static str = match pm {
        PackageManager::Apt => "linux-deb-x64",
        PackageManager::Dnf => "linux-rpm-x64",
        _ => "linux-x64",
    };
    cat(cat("https://update.code.visualstudio.com/latest/", platform).as_str(), "/stable")
}

/// The dotted triple in the redirected file name, or `latest` when none is
/// found there.
pub open spec fn spec_vscode_version(file_name: Seq<char>) -> Seq<char> {
    match re_find_of("(\\d+\\.\\d+\\.\\d+)"@, file_name) {
        Ok(Some(m)) => m,
        _ => "latest"@,
    }
}

/// The asset that a followed VS Code redirect denotes: the final URL, its
/// last path segment as file name, and the version read out of that name.
pub fn vscode_asset_from_redirect(final_url: &str) -> (r: ResolvedAsset)
    ensures
        r.url@ == final_url@,
        r.file_name@ == after_last(final_url@, '/'),
        r.version@ == spec_vscode_version(after_last(final_url@, '/')),
{
    let file_name = tail_after_last(final_url, '/');
    let version = match re_find("(\\d+\\.\\d+\\.\\d+)", file_name.as_str()) {
        Ok(Some(m)) => m,
        _ => String::from_str("latest"),
    };
    ResolvedAsset { version, url: String::from_str(final_url), file_name }
}

// ---------------- the Android Studio page ----------------

/// The first tarball link that either of the two fixed patterns finds in
/// the page, or the compile error of whichever pattern failed.
pub open spec fn spec_android_pick(html: Seq<char>) -> Result<Option<Seq<char>>, Seq<char>> {
    match re_find_of(
        "https://redirector\\.gvt1\\.com/edgedl/android/studio/ide-zips/[^\"']+linux\\.tar\\.gz"@,
        html,
    ) {
        Err(e) => Err("failed to compile android studio regex: "@ + e),
        Ok(Some(u)) => Ok(Some(u)),
        Ok(None) => match re_find_of(
            "https://[^\\s\"']+android-studio-[^\\s\"']+linux\\.tar\\.gz"@,
            html,
        ) {
            Err(e) => Err("failed to compile android studio regex: "@ + e),
            Ok(Some(u)) => Ok(Some(u)),
            Ok(None) => Ok(None),
        },
    }
}

pub open spec fn spec_resolve_android(html: Seq<char>) -> Result<ResolvedAssetView, Seq<char>> {
    match spec_android_pick(html) {
        Err(e) => Err(e),
        Ok(None) => Err(
            "could not resolve android studio linux tarball link from developer.android.com"@,
        ),
        Ok(Some(u)) => Ok(
            ResolvedAssetView {
                version: strip_trail(
                    strip_lead(after_last(u, '/'), "android-studio-"@),
                    "-linux.tar.gz"@,
                ),
                url: u,
                file_name: after_last(u, '/'),
            },
        ),
    }
}

/// Resolution against the fetched Android Studio page: the first matching
/// tarball link, named and versioned by its file name.
pub fn resolve_android_studio(html: &str) -> (r: Result<ResolvedAsset, String>)
    ensures
        asset_result_view(r) == spec_resolve_android(html@),
{
    let picked: Result<Option<String>, String> = match re_find(
        "https://redirector\\.gvt1\\.com/edgedl/android/studio/ide-zips/[^\"']+linux\\.tar\\.gz",
        html,
    ) {
        Err(e) => Err(cat("failed to compile android studio regex: ", e.as_str())),
        Ok(Some(u)) => Ok(Some(u)),
        Ok(None) => match re_find(
            "https://[^\\s\"']+android-studio-[^\\s\"']+linux\\.tar\\.gz",
            html,
        ) {
            Err(e) => Err(cat("failed to compile android studio regex: ", e.as_str())),
            Ok(Some(u)) => Ok(Some(u)),
            Ok(None) => Ok(None),
        },
    };
    match picked {
        Err(e) => Err(e),
        Ok(None) => Err(
            String::from_str(
                "could not resolve android studio linux tarball link from developer.android.com",
            ),
        ),
        Ok(Some(u)) => {
            let file_name = tail_after_last(u.as_str(), '/');
            let stripped = trim_lead_pat(file_name.as_str(), "android-studio-");
            let version = trim_trail_pat(stripped.as_str(), "-linux.tar.gz");
            Ok(ResolvedAsset { version, url: u, file_name })
        },
    }
}

// ---------------- the generic scraper ----------------

/// A configured pattern with its architecture placeholders substituted, in
/// the order the placeholders are documented: `{arch}` by the common alias,
/// `{xarch}` by the raw architecture, `{xarch_dash}` by its dashed form.
pub open spec fn spec_subst(p: Seq<char>, arch: Seq<char>) -> Seq<char> {
    replace_seq(
        replace_seq(replace_seq(p, "{arch}"@, spec_arch_alias(arch)), "{xarch}"@, arch),
        "{xarch_dash}"@,
        replace_seq(arch, "_"@, "-"@),
    )
}

pub fn subst_placeholders(p: &str, arch: &str) -> (r: String)
    ensures
        r@ == spec_subst(p@, arch@),
{
    let alias = arch_alias(arch);
    let dashed = replace_all(arch, "_", "-");
    let step1 = replace_all(p, "{arch}", alias.as_str());
    let step2 = replace_all(step1.as_str(), "{xarch}", arch);
    replace_all(step2.as_str(), "{xarch_dash}", dashed.as_str())
}

pub open spec fn spec_resolve_scraper(
    html: Seq<char>,
    url: Seq<char>,
    vre: Seq<char>,
    dre: Seq<char>,
    arch: Seq<char>,
) -> Result<ResolvedAssetView, Seq<char>> {
    let rv = re_capture1_of(spec_subst(vre, arch), html);
    let rd = re_find_of(spec_subst(dre, arch), html);
    match rv {
        Err(e) => Err("invalid version regex: "@ + e),
        Ok(vo) => match rd {
            Err(e) => Err("invalid download url regex: "@ + e),
            Ok(dl) => match vo {
                None => Err("could not find version on "@ + url + " using regex "@ + vre),
                Some(ver) => match dl {
                    None => Err(
                        "could not find download url on "@ + url + " using regex "@ + dre,
                    ),
                    Some(d) => {
                        let fin = match url_join_of(url, d) {
                            Some(j) => j,
                            None => d,
                        };
                        Ok(
                            ResolvedAssetView {
                                version: ver,
                                url: fin,
                                file_name: after_last(fin, '/'),
                            },
                        )
                    },
                },
            },
        },
    }
}

/// Resolution against a fetched page: the version is the configured
/// pattern's first capture group, the download link its pattern's first
/// match resolved against the page URL, and both patterns see the host's
/// architecture substituted for their placeholders.
pub fn resolve_generic_scraper(
    html: &str,
    url: &str,
    version_regex: &str,
    download_url_regex: &str,
    arch: &str,
) -> (r: Result<ResolvedAsset, String>)
    ensures
        asset_result_view(r) == spec_resolve_scraper(
            html@,
            url@,
            version_regex@,
            download_url_regex@,
            arch@,
        ),
{
    let pv = subst_placeholders(version_regex, arch);
    let pd = subst_placeholders(download_url_regex, arch);
    let rv = re_capture1(pv.as_str(), html);
    let rd = re_find(pd.as_str(), html);
    match rv {
        Err(e) => Err(cat("invalid version regex: ", e.as_str())),
        Ok(vo) => match rd {
            Err(e) => Err(cat("invalid download url regex: ", e.as_str())),
            Ok(dl) => match vo {
                None => Err(
                    cat(
                        cat(cat("could not find version on ", url).as_str(), " using regex ")
                            .as_str(),
                        version_regex,
                    ),
                ),
                Some(ver) => match dl {
                    None => Err(
                        cat(
                            cat(
                                cat("could not find download url on ", url).as_str(),
                                " using regex ",
                            ).as_str(),
                            download_url_regex,
                        ),
                    ),
                    Some(d) => {
                        let fin = match url_join(url, d.as_str()) {
                            Some(j) => j,
                            None => d,
                        };
                        let file_name = tail_after_last(fin.as_str(), '/');
                        Ok(ResolvedAsset { version: ver, url: fin, file_name })
                    },
                },
            },
        },
    }
}

/// Resolving the same page content with the same configuration twice gives
/// the same asset: resolution is a function of its inputs alone.
pub proof fn lemma_scraper_deterministic(
    html: Seq<char>,
    url: Seq<char>,
    vre: Seq<char>,
    dre: Seq<char>,
    arch: Seq<char>,
    r1: Result<ResolvedAssetView, Seq<char>>,
    r2: Result<ResolvedAssetView, Seq<char>>,
)
    requires
        r1 == spec_resolve_scraper(html, url, vre, dre, arch),
        r2 == spec_resolve_scraper(html, url, vre, dre, arch),
    ensures
        r1 == r2,
{
}

// ---------------- GitHub releases ----------------

/// One asset of a GitHub release.
#[derive(Debug, Clone)]
pub struct GitHubAsset {
    pub name: String,
    pub browser_download_url: String,
}

/// The latest-release metadata of a repository.
#[derive(Debug, Clone)]
pub struct GitHubRelease {
    pub tag_name: String,
    pub assets: Vec<GitHubAsset>,
}

/// The GitHub release metadata endpoint for a repository.
pub fn github_api_url(repo: &str) -> (r: String)
    ensures
        r@ == "https://api.github.com/repos/"@ + repo@ + "/releases/latest"@,
{
    cat(cat("https://api.github.com/repos/", repo).as_str(), "/releases/latest")
}

/// The artifact extension the host installs natively, or a sentinel that
/// matches no file name.
pub open spec fn spec_preferred_ext(pm: PackageManager) -> Seq<char> {
    match pm {
        PackageManager::Apt => ".deb"@,
        PackageManager::Dnf => ".rpm"@,
        _ => "___"@,
    }
}

pub fn preferred_extension(pm: &PackageManager) -> (r: String)
    ensures
        r@ == spec_preferred_ext(*pm),
{
    match pm {
        PackageManager::Apt => String::from_str(".deb"),
        PackageManager::Dnf => String::from_str(".rpm"),
        _ => String::from_str("___"),
    }
}

/// Whether a lower-cased asset name carries one of the keywords of the
/// host's architecture.
pub open spec fn spec_arch_keyword(low: Seq<char>, arch: Seq<char>) -> bool {
    if arch == "x86_64"@ {
        contains_seq(low, "x86_64"@) || contains_seq(low, "x86-64"@) || contains_seq(
            low,
            "amd64"@,
        ) || contains_seq(low, "x64"@)
    } else if arch == "aarch64"@ {
        contains_seq(low, "aarch64"@) || contains_seq(low, "arm64"@) || contains_seq(
            low,
            "arm-64"@,
        )
    } else if arch == "arm"@ {
        contains_seq(low, "armv7"@) || contains_seq(low, "armhf"@) || (contains_seq(low, "arm"@)
            && !contains_seq(low, "64"@))
    } else if arch == "x86"@ {
        contains_seq(low, "i386"@) || contains_seq(low, "x86"@) || contains_seq(low, "386"@)
    } else {
        false
    }
}

/// An asset's rank: architecture keywords dominate, then the host's native
/// package extension, then other installable or archive extensions.
pub open spec fn spec_asset_score(name: Seq<char>, arch: Seq<char>, pref: Seq<char>) -> int {
    (if spec_arch_keyword(lower_seq(name), arch) {
        100int
    } else {
        0int
    }) + (if ends_with(name, pref) {
        50int
    } else if ends_with(name, ".deb"@) || ends_with(name, ".rpm"@) {
        20int
    } else if ends_with(name, ".AppImage"@) {
        10int
    } else if ends_with(name, ".tar.gz"@) || ends_with(name, ".tar.xz"@) || ends_with(
        name,
        ".zip"@,
    ) {
        5int
    } else {
        0int
    })
}

pub fn asset_score(name: &str, arch: &str, preferred_ext: &str) -> (s: u32)
    ensures
        s as int == spec_asset_score(name@, arch@, preferred_ext@),
{
    let low = lower_ascii(name);
    let has_arch: bool = if str_eq(arch, "x86_64") {
        str_contains(low.as_str(), "x86_64") || str_contains(low.as_str(), "x86-64")
            || str_contains(low.as_str(), "amd64") || str_contains(low.as_str(), "x64")
    } else if str_eq(arch, "aarch64") {
        str_contains(low.as_str(), "aarch64") || str_contains(low.as_str(), "arm64")
            || str_contains(low.as_str(), "arm-64")
    } else if str_eq(arch, "arm") {
        str_contains(low.as_str(), "armv7") || str_contains(low.as_str(), "armhf") || (
        str_contains(low.as_str(), "arm") && !str_contains(low.as_str(), "64"))
    } else if str_eq(arch, "x86") {
        str_contains(low.as_str(), "i386") || str_contains(low.as_str(), "x86") || str_contains(
            low.as_str(),
            "386",
        )
    } else {
        false
    };
    let arch_part: u32 = if has_arch {
        100
    } else {
        0
    };
    let ext_part: u32 = if str_ends_with(name, preferred_ext) {
        50
    } else if str_ends_with(name, ".deb") || str_ends_with(name, ".rpm") {
        20
    } else if str_ends_with(name, ".AppImage") {
        10
    } else if str_ends_with(name, ".tar.gz") || str_ends_with(name, ".tar.xz") || str_ends_with(
        name,
        ".zip",
    ) {
        5
    } else {
        0
    };
    arch_part + ext_part
}

/// Which assets the configured pattern matches, in listing order; an
/// invalid pattern is the error its first compilation reports.
pub open spec fn spec_match_flags(assets: Seq<GitHubAsset>, pat: Seq<char>) -> Result<
    Seq<bool>,
    Seq<char>,
>
    decreases assets.len(),
{
    if assets.len() == 0 {
        Ok(Seq::empty())
    } else {
        match spec_match_flags(assets.drop_last(), pat) {
            Err(e) => Err(e),
            Ok(rest) => match re_match_of(pat, assets.last().name@) {
                Err(e) => Err(e),
                Ok(b) => Ok(rest.push(b)),
            },
        }
    }
}

proof fn lemma_flags_err_extends(assets: Seq<GitHubAsset>, pat: Seq<char>, k: int)
    requires
        0 <= k <= assets.len(),
        spec_match_flags(assets.subrange(0, k), pat) is Err,
    ensures
        spec_match_flags(assets, pat) == spec_match_flags(assets.subrange(0, k), pat),
    decreases assets.len() - k,
{
    if k == assets.len() {
        assert(assets.subrange(0, k) =~= assets);
    } else {
        assert(assets.subrange(0, k + 1).drop_last() =~= assets.subrange(0, k));
        lemma_flags_err_extends(assets, pat, k + 1);
    }
}

/// The selected index: a matching asset whose score no matching asset
/// exceeds, and which no earlier matching asset ties.
pub open spec fn is_first_best(
    assets: Seq<GitHubAsset>,
    flags: Seq<bool>,
    arch: Seq<char>,
    pref: Seq<char>,
    i: int,
) -> bool {
    &&& 0 <= i < assets.len()
    &&& flags.len() == assets.len()
    &&& flags[i]
    &&& forall|j: int|
        0 <= j < assets.len() && flags[j] ==> spec_asset_score(assets[j].name@, arch, pref)
            <= spec_asset_score(assets[i].name@, arch, pref)
    &&& forall|j: int|
        0 <= j < i && flags[j] ==> spec_asset_score(assets[j].name@, arch, pref)
            < spec_asset_score(assets[i].name@, arch, pref)
}

/// Among the matching assets the selected one carries the highest score,
/// and a tie keeps the earliest listing: at most one index can be selected.
pub proof fn lemma_first_best_unique(
    assets: Seq<GitHubAsset>,
    flags: Seq<bool>,
    arch: Seq<char>,
    pref: Seq<char>,
    i1: int,
    i2: int,
)
    requires
        is_first_best(assets, flags, arch, pref, i1),
        is_first_best(assets, flags, arch, pref, i2),
    ensures
        i1 == i2,
{
    if i1 < i2 {
        assert(spec_asset_score(assets[i1].name@, arch, pref) < spec_asset_score(
            assets[i2].name@,
            arch,
            pref,
        ));
    }
    if i2 < i1 {
        assert(spec_asset_score(assets[i2].name@, arch, pref) < spec_asset_score(
            assets[i1].name@,
            arch,
            pref,
        ));
    }
}

/// What `resolve_github` returns: of the assets the pattern matches, the
/// best-scoring one wins, earliest first on ties; the version is the
/// release tag without its leading `v`s; an invalid pattern and a pattern
/// without matches are the two errors.
/// `a` is the asset that the ranking selects from `release` under the
/// match verdicts `flags`.
pub open spec fn github_selects(
    release: GitHubRelease,
    flags: Seq<bool>,
    arch: Seq<char>,
    pref: Seq<char>,
    a: ResolvedAsset,
) -> bool {
    exists|i: int|
        {
            &&& is_first_best(release.assets@, flags, arch, pref, i)
            &&& a.url@ == release.assets@[i].browser_download_url@
            &&& a.file_name@ == release.assets@[i].name@
            &&& a.version@ == drop_lead(release.tag_name@, 'v')
        }
}

pub open spec fn spec_github_outcome(
    release: GitHubRelease,
    repo: Seq<char>,
    pat: Seq<char>,
    pm: PackageManager,
    arch: Seq<char>,
    r: Result<ResolvedAsset, String>,
) -> bool {
    let pref = spec_preferred_ext(pm);
    match spec_match_flags(release.assets@, pat) {
        Err(e) => r matches Err(m) && m@ == "invalid asset pattern regex: "@ + e,
        Ok(flags) => {
            if exists|i: int| 0 <= i < flags.len() && flags[i] {
                r matches Ok(a) && github_selects(release, flags, arch, pref, a)
            } else {
                r matches Err(m) && m@ == "no asset matching '"@ + pat + "' found in github:"@
                    + repo
            }
        },
    }
}

/// Resolution against fetched latest-release metadata, per
/// `spec_github_outcome`.
pub fn resolve_github(
    release: &GitHubRelease,
    repo: &str,
    asset_pattern: &str,
    distro: &DistroInfo,
    arch: &str,
) -> (r: Result<ResolvedAsset, String>)
    ensures
        spec_github_outcome(*release, repo@, asset_pattern@, distro.pkg_manager, arch@, r),
{
    let n: usize = release.assets.len();
    let mut flags: Vec<bool> = Vec::new();
    let mut i: usize = 0;
    proof {
        assert(release.assets@.subrange(0, 0) =~= Seq::<GitHubAsset>::empty());
    }
    while i < n
        invariant
            i <= n,
            n == release.assets@.len(),
            flags@.len() == i,
            spec_match_flags(release.assets@.subrange(0, i as int), asset_pattern@) == Ok::<
                Seq<bool>,
                Seq<char>,
            >(flags@),
        decreases n - i,
    {
        proof {
            assert(release.assets@.subrange(0, i + 1 as int).drop_last() =~= release.assets@
                .subrange(0, i as int));
            assert(release.assets@.subrange(0, i + 1 as int).last() == release.assets@[i as int]);
        }
        match re_is_match(asset_pattern, release.assets[i].name.as_str()) {
            Ok(b) => {
                flags.push(b);
            },
            Err(e) => {
                proof {
                    lemma_flags_err_extends(release.assets@, asset_pattern@, i + 1);
                }
                return Err(cat("invalid asset pattern regex: ", e.as_str()));
            },
        }
        i = i + 1;
    }
    proof {
        assert(release.assets@.subrange(0, n as int) =~= release.assets@);
    }
    let pref = preferred_extension(&distro.pkg_manager);
    let mut best: Option<usize> = None;
    let mut best_score: u32 = 0;
    let mut k: usize = 0;
    while k < n
        invariant
            k <= n,
            n == release.assets@.len(),
            flags@.len() == n,
            spec_match_flags(release.assets@, asset_pattern@) == Ok::<Seq<bool>, Seq<char>>(
                flags@,
            ),
            pref@ == spec_preferred_ext(distro.pkg_manager),
            match best {
                Some(b) => {
                    &&& b < k
                    &&& flags@[b as int]
                    &&& best_score as int == spec_asset_score(
                        release.assets@[b as int].name@,
                        arch@,
                        pref@,
                    )
                    &&& forall|j: int|
                        0 <= j < k && flags@[j] ==> spec_asset_score(
                            release.assets@[j].name@,
                            arch@,
                            pref@,
                        ) <= best_score as int
                    &&& forall|j: int|
                        0 <= j < b && flags@[j] ==> spec_asset_score(
                            release.assets@[j].name@,
                            arch@,
                            pref@,
                        ) < best_score as int
                },
                None => forall|j: int| 0 <= j < k ==> !flags@[j],
            },
        decreases n - k,
    {
        if flags[k] {
            let sc = asset_score(release.assets[k].name.as_str(), arch, pref.as_str());
            match best {
                None => {
                    best = Some(k);
                    best_score = sc;
                },
                Some(_) => {
                    if sc > best_score {
                        best = Some(k);
                        best_score = sc;
                    }
                },
            }
        }
        k = k + 1;
    }
    match best {
        Some(b) => {
            proof {
                assert(is_first_best(
                    release.assets@,
                    flags@,
                    arch@,
                    spec_preferred_ext(distro.pkg_manager),
                    b as int,
                ));
                assert(exists|i: int| 0 <= i < flags@.len() && flags@[i]) by {
                    assert(flags@[b as int]);
                }
            }
            let asset = &release.assets[b];
            let version = trim_lead_char(release.tag_name.as_str(), 'v');
            let r = ResolvedAsset {
                version,
                url: asset.browser_download_url.clone(),
                file_name: asset.name.clone(),
            };
            let res: Result<ResolvedAsset, String> = Ok(r);
            proof {
                let a = res.get_Ok_0();
                assert(github_selects(
                    *release,
                    flags@,
                    arch@,
                    spec_preferred_ext(distro.pkg_manager),
                    a,
                )) by {
                    assert({
                        &&& is_first_best(
                            release.assets@,
                            flags@,
                            arch@,
                            spec_preferred_ext(distro.pkg_manager),
                            b as int,
                        )
                        &&& a.url@ == release.assets@[b as int].browser_download_url@
                        &&& a.file_name@ == release.assets@[b as int].name@
                        &&& a.version@ == drop_lead(release.tag_name@, 'v')
                    });
                }
                assert(spec_github_outcome(
                    *release,
                    repo@,
                    asset_pattern@,
                    distro.pkg_manager,
                    arch@,
                    res,
                ));
            }
            res
        },
        None => {
            proof {
                assert(!(exists|i: int| 0 <= i < flags@.len() && flags@[i]));
            }
            let res: Result<ResolvedAsset, String> = Err(
                cat(
                    cat(cat("no asset matching '", asset_pattern).as_str(), "' found in github:")
                        .as_str(),
                    repo,
                ),
            );
            proof {
                assert(spec_github_outcome(
                    *release,
                    repo@,
                    asset_pattern@,
                    distro.pkg_manager,
                    arch@,
                    res,
                ));
            }
            res
        },
    }
}

} // verus!
