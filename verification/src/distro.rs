//! Host distribution model: the package-manager capability, the static
//! detection tables, and the parsers for the host's own tool output.

use vstd::prelude::*;

use crate::text::{
    cat, colon_seg1, colon_segment1, contains_seq, drop_lead, drop_trail, idx_of, join_spaced,
    join_spaces, lines_of, split_lines, str_contains, str_eq, trim_both_char, trim_seq,
    trim_spaces, views_of, find_char, lemma_idx_of,
};

verus! {

/// The host's native package manager.
#[derive(Debug, Clone, Copy, PartialEq, Eq, Structural)]
pub enum PackageManager {
    Apt,
    Dnf,
    Pacman,
    Unknown,
}

/// The detected distribution: its os-release id and its package manager.
#[derive(Debug, Clone)]
pub struct DistroInfo {
    pub id: String,
    pub pkg_manager: PackageManager,
}

impl PackageManager {
    pub open spec fn name_spec(&self) -> Seq<char> {
        match self {
            PackageManager::Apt => "apt"@,
            PackageManager::Dnf => "dnf"@,
            PackageManager::Pacman => "pacman"@,
            PackageManager::Unknown => "unknown"@,
        }
    }

    /// The manager's display name.
    pub fn name(&self) -> (r: String)
        ensures
            r@ == self.name_spec(),
    {
        match self {
            PackageManager::Apt => String::from_str("apt"),
            PackageManager::Dnf => String::from_str("dnf"),
            PackageManager::Pacman => String::from_str("pacman"),
            PackageManager::Unknown => String::from_str("unknown"),
        }
    }

    pub open spec fn install_command_spec(&self, packages: Seq<Seq<char>>) -> Option<Seq<char>> {
        if packages.len() == 0 {
            None
        } else {
            match self {
                PackageManager::Apt => Some(
                    "sudo apt update && sudo apt install -y "@ + join_spaced(packages),
                ),
                PackageManager::Dnf => Some("sudo dnf install -y "@ + join_spaced(packages)),
                PackageManager::Pacman => Some(
                    "sudo pacman -Sy --noconfirm "@ + join_spaced(packages),
                ),
                PackageManager::Unknown => None,
            }
        }
    }

    /// The shell command that installs `packages`, or `None` when the
    /// manager is unknown or the list is empty.
    pub fn install_command(&self, packages: &Vec<String>) -> (r: Option<String>)
        ensures
            match r {
                Some(c) => self.install_command_spec(views_of(packages@)) == Some(c@),
                None => self.install_command_spec(views_of(packages@)) is None,
            },
    {
        if packages.len() == 0 {
            return None;
        }
        let joined = join_spaces(packages);
        match self {
            PackageManager::Apt => Some(
                cat("sudo apt update && sudo apt install -y ", joined.as_str()),
            ),
            PackageManager::Dnf => Some(cat("sudo dnf install -y ", joined.as_str())),
            PackageManager::Pacman => Some(cat("sudo pacman -Sy --noconfirm ", joined.as_str())),
            PackageManager::Unknown => None,
        }
    }

    /// The program and arguments that query a package's candidate or
    /// repository version, or `None` for an unknown manager.
    pub fn version_query_command(&self, package: &str) -> (r: Option<(String, Vec<String>)>)
        ensures
            match self {
                PackageManager::Apt => r matches Some(c) && c.0@ == "apt-cache"@ && views_of(
                    c.1@,
                ) =~= seq!["policy"@, package@],
                PackageManager::Dnf => r matches Some(c) && c.0@ == "dnf"@ && views_of(c.1@)
                    =~= seq!["info"@, "-q"@, package@],
                PackageManager::Pacman => r matches Some(c) && c.0@ == "pacman"@ && views_of(c.1@)
                    =~= seq!["-Si"@, package@],
                PackageManager::Unknown => r is None,
            },
    {
        match self {
            PackageManager::Apt => {
                let mut args: Vec<String> = Vec::new();
                args.push(String::from_str("policy"));
                args.push(String::from_str(package));
                Some((String::from_str("apt-cache"), args))
            },
            PackageManager::Dnf => {
                let mut args: Vec<String> = Vec::new();
                args.push(String::from_str("info"));
                args.push(String::from_str("-q"));
                args.push(String::from_str(package));
                Some((String::from_str("dnf"), args))
            },
            PackageManager::Pacman => {
                let mut args: Vec<String> = Vec::new();
                args.push(String::from_str("-Si"));
                args.push(String::from_str(package));
                Some((String::from_str("pacman"), args))
            },
            PackageManager::Unknown => None,
        }
    }

    pub open spec fn parse_version_output_spec(&self, out: Seq<char>) -> Option<Seq<char>> {
        match self {
            PackageManager::Apt => spec_apt_candidate(out),
            PackageManager::Dnf => spec_version_line(out),
            PackageManager::Pacman => spec_version_line(out),
            PackageManager::Unknown => None,
        }
    }

    /// The version that this manager's query output reports, if any.
    pub fn parse_version_output(&self, out: &str) -> (r: Option<String>)
        ensures
            match r {
                Some(v) => self.parse_version_output_spec(out@) == Some(v@),
                None => self.parse_version_output_spec(out@) is None,
            },
    {
        match self {
            PackageManager::Apt => parse_apt_candidate(out),
            PackageManager::Dnf => parse_version_line(out),
            PackageManager::Pacman => parse_version_line(out),
            PackageManager::Unknown => None,
        }
    }
}

/// The first of `ls` that contains `needle`.
pub open spec fn spec_first_line_with(ls: Seq<Seq<char>>, needle: Seq<char>) -> Option<Seq<char>>
    decreases ls.len(),
{
    if ls.len() == 0 {
        None
    } else if contains_seq(ls[0], needle) {
        Some(ls[0])
    } else {
        spec_first_line_with(ls.subrange(1, ls.len() as int), needle)
    }
}

proof fn lemma_first_line_found(ls: Seq<Seq<char>>, needle: Seq<char>, i: int)
    requires
        0 <= i < ls.len(),
        contains_seq(ls[i], needle),
        forall|j: int| 0 <= j < i ==> !contains_seq(ls[j], needle),
    ensures
        spec_first_line_with(ls, needle) == Some(ls[i]),
    decreases ls.len(),
{
    if i > 0 {
        lemma_first_line_found(ls.subrange(1, ls.len() as int), needle, i - 1);
    }
}

proof fn lemma_first_line_absent(ls: Seq<Seq<char>>, needle: Seq<char>)
    requires
        forall|j: int| 0 <= j < ls.len() ==> !contains_seq(ls[j], needle),
    ensures
        spec_first_line_with(ls, needle) is None,
    decreases ls.len(),
{
    if ls.len() > 0 {
        lemma_first_line_absent(ls.subrange(1, ls.len() as int), needle);
    }
}

fn first_line_with(out: &str, needle: &str) -> (r: Option<String>)
    ensures
        match r {
            Some(l) => spec_first_line_with(lines_of(out@), needle@) == Some(l@),
            None => spec_first_line_with(lines_of(out@), needle@) is None,
        },
{
    let lines = split_lines(out);
    let n: usize = lines.len();
    let mut i: usize = 0;
    while i < n
        invariant
            i <= n,
            n == lines@.len(),
            views_of(lines@) == lines_of(out@),
            forall|j: int| 0 <= j < i ==> !contains_seq(views_of(lines@)[j], needle@),
        decreases n - i,
    {
        if str_contains(lines[i].as_str(), needle) {
            proof {
                assert(views_of(lines@)[i as int] == lines@[i as int]@);
                lemma_first_line_found(views_of(lines@), needle@, i as int);
            }
            let r = lines[i].clone();
            proof {
                assert(r@ == lines@[i as int]@);
            }
            return Some(r);
        }
        i = i + 1;
    }
    proof {
        lemma_first_line_absent(views_of(lines@), needle@);
    }
    None
}

/// What `apt-cache policy` reports as the candidate version: the text after
/// the first `:` of the first `Candidate:` line, trimmed; `(none)` and a
/// missing line both mean no version.
pub open spec fn spec_apt_candidate(out: Seq<char>) -> Option<Seq<char>> {
    match spec_first_line_with(lines_of(out), "Candidate:"@) {
        None => None,
        Some(line) => match colon_seg1(line) {
            None => None,
            Some(seg) => if trim_seq(seg) == "(none)"@ {
                None
            } else {
                Some(trim_seq(seg))
            },
        },
    }
}

pub fn parse_apt_candidate(out: &str) -> (r: Option<String>)
    ensures
        match r {
            Some(v) => spec_apt_candidate(out@) == Some(v@),
            None => spec_apt_candidate(out@) is None,
        },
{
    match first_line_with(out, "Candidate:") {
        None => None,
        Some(line) => match colon_segment1(line.as_str()) {
            None => None,
            Some(seg) => {
                let v = trim_spaces(seg.as_str());
                if str_eq(v.as_str(), "(none)") {
                    None
                } else {
                    Some(v)
                }
            },
        },
    }
}

/// What `dnf info` or `pacman -Si` reports as the version: the text after
/// the first `:` of the first `Version` line, trimmed.
pub open spec fn spec_version_line(out: Seq<char>) -> Option<Seq<char>> {
    match spec_first_line_with(lines_of(out), "Version"@) {
        None => None,
        Some(line) => match colon_seg1(line) {
            None => None,
            Some(seg) => Some(trim_seq(seg)),
        },
    }
}

pub fn parse_version_line(out: &str) -> (r: Option<String>)
    ensures
        match r {
            Some(v) => spec_version_line(out@) == Some(v@),
            None => spec_version_line(out@) is None,
        },
{
    match first_line_with(out, "Version") {
        None => None,
        Some(line) => match colon_segment1(line.as_str()) {
            None => None,
            Some(seg) => Some(trim_spaces(seg.as_str())),
        },
    }
}

/// The value of the last `key=value` line of an os-release file whose key is
/// exactly `key`, with surrounding double quotes stripped; empty when no
/// such line exists.
pub open spec fn spec_os_release_value(ls: Seq<Seq<char>>, key: Seq<char>) -> Seq<char>
    decreases ls.len(),
{
    if ls.len() == 0 {
        Seq::empty()
    } else {
        let l = ls.last();
        let i = idx_of(l, '=');
        if 0 <= i && i < l.len() && l.subrange(0, i) == key {
            drop_trail(drop_lead(l.subrange(i + 1, l.len() as int), '"'), '"')
        } else {
            spec_os_release_value(ls.drop_last(), key)
        }
    }
}

pub fn os_release_value(content: &str, key: &str) -> (r: String)
    ensures
        r@ == spec_os_release_value(lines_of(content@), key@),
{
    let lines = split_lines(content);
    let n: usize = lines.len();
    let mut i: usize = n;
    proof {
        assert(views_of(lines@).subrange(0, n as int) =~= views_of(lines@));
    }
    while i > 0
        invariant
            i <= n,
            n == lines@.len(),
            views_of(lines@) == lines_of(content@),
            spec_os_release_value(views_of(lines@).subrange(0, i as int), key@)
                == spec_os_release_value(views_of(lines@), key@),
        decreases i,
    {
        let line: &str = lines[i - 1].as_str();
        proof {
            lemma_idx_of(line@, '=');
            assert(views_of(lines@).subrange(0, i as int).last() == line@);
            assert(views_of(lines@).subrange(0, i as int).drop_last() =~= views_of(
                lines@,
            ).subrange(0, i - 1 as int));
        }
        let hit: Option<String> = match find_char(line, '=') {
            Some(p) => {
                proof {
                    if idx_of(line@, '=') < p {
                        assert(line@[idx_of(line@, '=')] == '=');
                    }
                }
                let m: usize = line.unicode_len();
                if str_eq(line.substring_char(0, p), key) {
                    Some(trim_both_char(line.substring_char(p + 1, m), '"'))
                } else {
                    None
                }
            },
            None => {
                proof {
                    if idx_of(line@, '=') < line@.len() {
                        assert(line@[idx_of(line@, '=')] == '=');
                    }
                }
                None
            },
        };
        if let Some(v) = hit {
            return v;
        }
        i = i - 1;
    }
    proof {
        assert(views_of(lines@).subrange(0, 0) =~= Seq::<Seq<char>>::empty());
    }
    String::new()
}

/// The os-release `ID` and `ID_LIKE` values of `content`.
pub fn parse_os_release(content: &str) -> (r: (String, String))
    ensures
        r.0@ == spec_os_release_value(lines_of(content@), "ID"@),
        r.1@ == spec_os_release_value(lines_of(content@), "ID_LIKE"@),
{
    (os_release_value(content, "ID"), os_release_value(content, "ID_LIKE"))
}

pub open spec fn spec_detect_pm(id: Seq<char>, id_like: Seq<char>) -> PackageManager {
    if id == "ubuntu"@ || id == "debian"@ || id == "linuxmint"@ || id == "pop"@ || id
        == "ubuntu-budgie"@ || id == "kdeneon"@ {
        PackageManager::Apt
    } else if id == "fedora"@ || id == "rhel"@ || id == "centos"@ || id == "rocky"@ {
        PackageManager::Dnf
    } else if id == "arch"@ || id == "manjaro"@ || id == "endeavouros"@ || id == "artix"@ {
        PackageManager::Pacman
    } else if contains_seq(id_like, "debian"@) || contains_seq(id_like, "ubuntu"@) {
        PackageManager::Apt
    } else if contains_seq(id_like, "fedora"@) || contains_seq(id_like, "rhel"@) {
        PackageManager::Dnf
    } else if contains_seq(id_like, "arch"@) {
        PackageManager::Pacman
    } else {
        PackageManager::Unknown
    }
}

/// The package manager that the os-release id tables name; `Unknown` when
/// neither `id` nor `id_like` decides, in which case the caller may fall
/// back to probing the host for the managers of `runtime_probe_order`.
pub fn detect_package_manager(id: &str, id_like: &str) -> (r: PackageManager)
    ensures
        r == spec_detect_pm(id@, id_like@),
{
    if str_eq(id, "ubuntu") || str_eq(id, "debian") || str_eq(id, "linuxmint") || str_eq(id, "pop")
        || str_eq(id, "ubuntu-budgie") || str_eq(id, "kdeneon") {
        PackageManager::Apt
    } else if str_eq(id, "fedora") || str_eq(id, "rhel") || str_eq(id, "centos") || str_eq(
        id,
        "rocky",
    ) {
        PackageManager::Dnf
    } else if str_eq(id, "arch") || str_eq(id, "manjaro") || str_eq(id, "endeavouros") || str_eq(
        id,
        "artix",
    ) {
        PackageManager::Pacman
    } else if str_contains(id_like, "debian") || str_contains(id_like, "ubuntu") {
        PackageManager::Apt
    } else if str_contains(id_like, "fedora") || str_contains(id_like, "rhel") {
        PackageManager::Dnf
    } else if str_contains(id_like, "arch") {
        PackageManager::Pacman
    } else {
        PackageManager::Unknown
    }
}

/// The commands to probe for, in order, when the static tables decide
/// nothing, and the manager each one implies.
pub fn runtime_probe_order() -> (r: Vec<(String, PackageManager)>)
    ensures
        r@.len() == 5,
        r@[0].0@ == "apt"@ && r@[0].1 == PackageManager::Apt,
        r@[1].0@ == "dnf"@ && r@[1].1 == PackageManager::Dnf,
        r@[2].0@ == "pacman"@ && r@[2].1 == PackageManager::Pacman,
        r@[3].0@ == "yum"@ && r@[3].1 == PackageManager::Dnf,
        r@[4].0@ == "zypper"@ && r@[4].1 == PackageManager::Unknown,
{
    let mut v: Vec<(String, PackageManager)> = Vec::new();
    v.push((String::from_str("apt"), PackageManager::Apt));
    v.push((String::from_str("dnf"), PackageManager::Dnf));
    v.push((String::from_str("pacman"), PackageManager::Pacman));
    v.push((String::from_str("yum"), PackageManager::Dnf));
    v.push((String::from_str("zypper"), PackageManager::Unknown));
    v
}

} // verus!
