//! The software catalog's data model: one entry per installable tool, with
//! its source strategy and ordered setup steps.

use vstd::prelude::*;

use crate::text::str_eq;

verus! {

/// How one tool's downloadable artifact is located.
#[derive(Debug, Clone)]
pub enum SourceSpec {
    OfficialSource {
        id: Option<String>,
        url: Option<String>,
        version_regex: Option<String>,
        download_url_regex: Option<String>,
    },
    PackageManager,
    Github { repo: Option<String>, asset_pattern: String },
}

impl SourceSpec {
    pub open spec fn kind_key_spec(&self) -> Seq<char> {
        match self {
            SourceSpec::OfficialSource { .. } => "official_source"@,
            SourceSpec::PackageManager => "package_manager"@,
            SourceSpec::Github { .. } => "github"@,
        }
    }

    /// The tag this variant carries in the catalog file.
    pub fn kind_key(&self) -> (r: &'static str)
        ensures
            r@ == self.kind_key_spec(),
    {
        match self {
            SourceSpec::OfficialSource { .. } => "official_source",
            SourceSpec::PackageManager => "package_manager",
            SourceSpec::Github { .. } => "github",
        }
    }
}

/// One declarative installation action, run in declaration order.
#[derive(Debug, Clone)]
pub enum SetupStep {
    Package { packages: Vec<String> },
    PathHint { value: String },
    Note { value: String },
    Shell { command: String },
}

/// One catalog entry, immutable once loaded.
#[derive(Debug, Clone)]
pub struct SoftwareSpec {
    pub display_name: String,
    pub description: Option<String>,
    pub enabled_by_default: bool,
    pub install_dir: Option<String>,
    pub source: SourceSpec,
    pub setup_steps: Vec<SetupStep>,
}

/// The parsed catalog: keyed entries in their loaded order, keys distinct.
#[derive(Debug, Clone)]
pub struct CatalogFile {
    pub software: Vec<(String, SoftwareSpec)>,
}

/// The first entry of `entries` whose key reads `key`.
pub open spec fn lookup_in(entries: Seq<(String, SoftwareSpec)>, key: Seq<char>) -> Option<
    SoftwareSpec,
>
    decreases entries.len(),
{
    if entries.len() == 0 {
        None
    } else if entries[0].0@ == key {
        Some(entries[0].1)
    } else {
        lookup_in(entries.subrange(1, entries.len() as int), key)
    }
}

proof fn lemma_lookup_found(entries: Seq<(String, SoftwareSpec)>, key: Seq<char>, i: int)
    requires
        0 <= i < entries.len(),
        entries[i].0@ == key,
        forall|j: int| 0 <= j < i ==> entries[j].0@ != key,
    ensures
        lookup_in(entries, key) == Some(entries[i].1),
    decreases entries.len(),
{
    if i > 0 {
        let rest = entries.subrange(1, entries.len() as int);
        lemma_lookup_found(rest, key, i - 1);
    }
}

proof fn lemma_lookup_absent(entries: Seq<(String, SoftwareSpec)>, key: Seq<char>)
    requires
        forall|j: int| 0 <= j < entries.len() ==> entries[j].0@ != key,
    ensures
        lookup_in(entries, key) is None,
    decreases entries.len(),
{
    if entries.len() > 0 {
        lemma_lookup_absent(entries.subrange(1, entries.len() as int), key);
    }
}

impl CatalogFile {
    pub open spec fn lookup(&self, key: Seq<char>) -> Option<SoftwareSpec> {
        lookup_in(self.software@, key)
    }

    /// The entry stored under `key`, if any.
    pub fn get(&self, key: &str) -> (r: Option<&SoftwareSpec>)
        ensures
            match r {
                Some(spec) => self.lookup(key@) == Some(*spec),
                None => self.lookup(key@) is None,
            },
    {
        let n: usize = self.software.len();
        let mut i: usize = 0;
        while i < n
            invariant
                i <= n,
                n == self.software@.len(),
                forall|j: int| 0 <= j < i ==> self.software@[j].0@ != key@,
            decreases n - i,
        {
            if str_eq(self.software[i].0.as_str(), key) {
                proof {
                    lemma_lookup_found(self.software@, key@, i as int);
                }
                return Some(&self.software[i].1);
            }
            i = i + 1;
        }
        proof {
            lemma_lookup_absent(self.software@, key@);
        }
        None
    }
}

} // verus!
