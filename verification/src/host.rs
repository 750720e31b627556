//! Host-environment helpers: tilde expansion, architecture aliases, and the
//! staging directory for downloaded artifacts.

use vstd::prelude::*;

use crate::foreign::host_home_dir;
use crate::text::{cat, starts_with, str_eq, str_starts_with};

verus! {

/// `input` with a leading `~` or `~/` replaced by `home`; any other path is
/// returned unchanged.
pub open spec fn spec_expand_tilde(input: Seq<char>, home: Seq<char>) -> Seq<char> {
    if input == "~"@ {
        home
    } else if starts_with(input, "~/"@) {
        home + "/"@ + input.subrange(2, input.len() as int)
    } else {
        input
    }
}

pub fn expand_tilde(input: &str, home: &str) -> (r: String)
    ensures
        r@ == spec_expand_tilde(input@, home@),
{
    if str_eq(input, "~") {
        return String::from_str(home);
    }
    if str_starts_with(input, "~/") {
        let n: usize = input.unicode_len();
        proof {
            reveal_strlit("~/");
        }
        let rest = input.substring_char(2, n);
        return cat(cat(home, "/").as_str(), rest);
    }
    String::from_str(input)
}

/// The common short name of a machine architecture: what release asset
/// names usually carry in place of the kernel's identifier.
pub open spec fn spec_arch_alias(arch: Seq<char>) -> Seq<char> {
    if arch == "x86_64"@ {
        "amd64"@
    } else if arch == "aarch64"@ {
        "arm64"@
    } else if arch == "x86"@ {
        "386"@
    } else {
        arch
    }
}

pub fn arch_alias(arch: &str) -> (r: String)
    ensures
        r@ == spec_arch_alias(arch@),
{
    if str_eq(arch, "x86_64") {
        String::from_str("amd64")
    } else if str_eq(arch, "aarch64") {
        String::from_str("arm64")
    } else if str_eq(arch, "x86") {
        String::from_str("386")
    } else {
        String::from_str(arch)
    }
}

/// The artifact staging directory under a given home directory.
pub fn staging_dir_under(home: &str) -> (r: String)
    ensures
        r@ == home@ + "/Downloads/rusty_rebase"@,
{
    cat(home, "/Downloads/rusty_rebase")
}

/// The artifact staging directory under the host's home directory, when the
/// platform reports one.
pub fn staging_dir() -> (r: Option<String>)
    ensures
        r matches Some(p) ==> exists|h: Seq<char>| p@ == h + "/Downloads/rusty_rebase"@,
{
    match host_home_dir() {
        Some(home) => Some(staging_dir_under(home.as_str())),
        None => None,
    }
}

} // verus!
