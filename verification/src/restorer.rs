//! Backup restoration: the manifest model, per-file content-integrity
//! checking against recorded SHA-256 hashes, and restore progress.

use vstd::prelude::*;

use crate::foreign::{opt_str_view, sha256_bytes, sha256_of};
use crate::runner::InstallMsg;
use crate::text::{cat, dec_str, push_char, str_eq, usize_dec};

verus! {

/// One file recorded by a backup: where it lived, how large it was, and
/// the hash its content had.
#[derive(Debug, Clone)]
pub struct BackupIndexEntry {
    pub relative_path: String,
    pub original_size: u64,
    pub sha256_hash: String,
    pub zip_file: Option<String>,
}

/// A backup's manifest: the restore destination, when it was taken, its
/// archives in order, and the optional integrity index — older backups
/// lack it, which disables integrity checks, never the restore.
#[derive(Debug)]
pub struct BackupInfo {
    pub source_path: String,
    pub backup_time: String,
    pub zip_files: Vec<String>,
    pub index: Option<Vec<BackupIndexEntry>>,
}

/// The manifest's fixed file name inside a backup directory.
pub fn manifest_path(backup_dir: &str) -> (r: String)
    ensures
        r@ == backup_dir@ + "/.rusty_sync_info.json"@,
{
    cat(backup_dir, "/.rusty_sync_info.json")
}

// ---------------- hexadecimal rendering ----------------

pub open spec fn hex_digit(d: int) -> char {
    if d == 0 {
        '0'
    } else if d == 1 {
        '1'
    } else if d == 2 {
        '2'
    } else if d == 3 {
        '3'
    } else if d == 4 {
        '4'
    } else if d == 5 {
        '5'
    } else if d == 6 {
        '6'
    } else if d == 7 {
        '7'
    } else if d == 8 {
        '8'
    } else if d == 9 {
        '9'
    } else if d == 10 {
        'a'
    } else if d == 11 {
        'b'
    } else if d == 12 {
        'c'
    } else if d == 13 {
        'd'
    } else if d == 14 {
        'e'
    } else {
        'f'
    }
}

pub open spec fn hex_byte(b: u8) -> Seq<char> {
    seq![hex_digit(b as int / 16), hex_digit(b as int % 16)]
}

/// The lower-case hexadecimal rendering of a byte string, two digits per
/// byte.
pub open spec fn hex_of(bs: Seq<u8>) -> Seq<char>
    decreases bs.len(),
{
    if bs.len() == 0 {
        Seq::empty()
    } else {
        hex_of(bs.drop_last()) + hex_byte(bs.last())
    }
}

fn hex_digit_x(d: u8) -> (r: char)
    requires
        d < 16,
    ensures
        r == hex_digit(d as int),
{
    if d == 0 {
        '0'
    } else if d == 1 {
        '1'
    } else if d == 2 {
        '2'
    } else if d == 3 {
        '3'
    } else if d == 4 {
        '4'
    } else if d == 5 {
        '5'
    } else if d == 6 {
        '6'
    } else if d == 7 {
        '7'
    } else if d == 8 {
        '8'
    } else if d == 9 {
        '9'
    } else if d == 10 {
        'a'
    } else if d == 11 {
        'b'
    } else if d == 12 {
        'c'
    } else if d == 13 {
        'd'
    } else if d == 14 {
        'e'
    } else {
        'f'
    }
}

pub fn to_hex(bs: &Vec<u8>) -> (r: String)
    ensures
        r@ == hex_of(bs@),
{
    let n: usize = bs.len();
    let mut out = String::new();
    let mut i: usize = 0;
    proof {
        assert(bs@.subrange(0, 0) =~= Seq::<u8>::empty());
    }
    while i < n
        invariant
            i <= n,
            n == bs@.len(),
            out@ == hex_of(bs@.subrange(0, i as int)),
        decreases n - i,
    {
        let b = bs[i];
        let hi = hex_digit_x(b / 16);
        let lo = hex_digit_x(b % 16);
        let ghost before = out@;
        push_char(&mut out, hi);
        push_char(&mut out, lo);
        proof {
            assert(bs@.subrange(0, i + 1 as int).drop_last() =~= bs@.subrange(0, i as int));
            assert(bs@.subrange(0, i + 1 as int).last() == bs@[i as int]);
            assert(out@ =~= before + hex_byte(bs@[i as int]));
        }
        i = i + 1;
    }
    proof {
        assert(bs@.subrange(0, n as int) =~= bs@);
    }
    out
}

/// The SHA-256 of `data`, rendered in hexadecimal as the backup index
/// records hashes.
pub fn sha256_hex(data: &[u8]) -> (r: String)
    ensures
        r@ == hex_of(sha256_of(data@)),
{
    let digest = sha256_bytes(data);
    to_hex(&digest)
}

// ---------------- the integrity check ----------------

/// The first index entry recorded for `rel`.
pub open spec fn spec_index_entry(entries: Seq<BackupIndexEntry>, rel: Seq<char>) -> Option<
    BackupIndexEntry,
>
    decreases entries.len(),
{
    if entries.len() == 0 {
        None
    } else if entries[0].relative_path@ == rel {
        Some(entries[0])
    } else {
        spec_index_entry(entries.subrange(1, entries.len() as int), rel)
    }
}

proof fn lemma_index_entry_found(entries: Seq<BackupIndexEntry>, rel: Seq<char>, i: int)
    requires
        0 <= i < entries.len(),
        entries[i].relative_path@ == rel,
        forall|j: int| 0 <= j < i ==> entries[j].relative_path@ != rel,
    ensures
        spec_index_entry(entries, rel) == Some(entries[i]),
    decreases entries.len(),
{
    if i > 0 {
        lemma_index_entry_found(entries.subrange(1, entries.len() as int), rel, i - 1);
    }
}

proof fn lemma_index_entry_absent(entries: Seq<BackupIndexEntry>, rel: Seq<char>)
    requires
        forall|j: int| 0 <= j < entries.len() ==> entries[j].relative_path@ != rel,
    ensures
        spec_index_entry(entries, rel) is None,
    decreases entries.len(),
{
    if entries.len() > 0 {
        lemma_index_entry_absent(entries.subrange(1, entries.len() as int), rel);
    }
}

fn find_index_entry<'a>(entries: &'a Vec<BackupIndexEntry>, rel: &str) -> (r: Option<
    &'a BackupIndexEntry,
>)
    ensures
        match r {
            Some(en) => spec_index_entry(entries@, rel@) == Some(*en),
            None => spec_index_entry(entries@, rel@) is None,
        },
{
    let n: usize = entries.len();
    let mut i: usize = 0;
    while i < n
        invariant
            i <= n,
            n == entries@.len(),
            forall|j: int| 0 <= j < i ==> entries@[j].relative_path@ != rel@,
        decreases n - i,
    {
        if str_eq(entries[i].relative_path.as_str(), rel) {
            proof {
                lemma_index_entry_found(entries@, rel@, i as int);
            }
            return Some(&entries[i]);
        }
        i = i + 1;
    }
    proof {
        lemma_index_entry_absent(entries@, rel@);
    }
    None
}

/// The warning an extracted file earns: present exactly when an index is
/// recorded, it lists this path, and the extracted bytes hash differently.
pub open spec fn spec_integrity_warning(
    index: Option<Vec<BackupIndexEntry>>,
    rel: Seq<char>,
    data: Seq<u8>,
) -> Option<Seq<char>> {
    match index {
        None => None,
        Some(entries) => match spec_index_entry(entries@, rel) {
            None => None,
            Some(en) => if hex_of(sha256_of(data)) != en.sha256_hash@ {
                Some("[WARNING] Integrity check FAILED for "@ + rel)
            } else {
                None
            },
        },
    }
}

/// Recomputes an extracted file's hash against the recorded one.  A
/// mismatch yields the warning line and nothing more: it never fails the
/// file or the run.
pub fn check_entry_integrity(
    index: &Option<Vec<BackupIndexEntry>>,
    rel_path: &str,
    data: &[u8],
) -> (w: Option<String>)
    ensures
        opt_str_view(w) == spec_integrity_warning(*index, rel_path@, data@),
{
    match index {
        None => None,
        Some(entries) => match find_index_entry(entries, rel_path) {
            None => None,
            Some(en) => {
                let current = sha256_hex(data);
                if !str_eq(current.as_str(), en.sha256_hash.as_str()) {
                    Some(cat("[WARNING] Integrity check FAILED for ", rel_path))
                } else {
                    None
                }
            },
        },
    }
}

// ---------------- restore progress and logs ----------------

/// Restore progress: files restored so far over the pre-scanned total.
pub struct RestoreProgress {
    pub restored: usize,
    pub total: usize,
}

impl RestoreProgress {
    pub fn begin(total: usize) -> (p: RestoreProgress)
        ensures
            p.restored == 0,
            p.total == total,
    {
        RestoreProgress { restored: 0, total }
    }

    /// Counts one restored file and yields its progress event, clamped so
    /// the fraction never exceeds the whole.
    pub fn file_restored(&mut self) -> (msg: InstallMsg)
        requires
            old(self).restored < usize::MAX,
        ensures
            final(self).restored == old(self).restored + 1,
            final(self).total == old(self).total,
            msg == InstallMsg::SubProgress(
                (if old(self).restored + 1 <= old(self).total {
                    (old(self).restored + 1) as u64
                } else {
                    old(self).total as u64
                }),
                old(self).total as u64,
            ),
    {
        self.restored = self.restored + 1;
        let num: usize = if self.restored <= self.total {
            self.restored
        } else {
            self.total
        };
        InstallMsg::SubProgress(num as u64, self.total as u64)
    }
}

/// Registers one extracted file: it always counts as restored — integrity
/// trouble is reported as a warning line beside the progress event, and
/// the restore stays successful.
pub fn register_restored_file(
    progress: &mut RestoreProgress,
    index: &Option<Vec<BackupIndexEntry>>,
    rel_path: &str,
    data: &[u8],
) -> (r: (Option<String>, InstallMsg))
    requires
        old(progress).restored < usize::MAX,
    ensures
        final(progress).restored == old(progress).restored + 1,
        final(progress).total == old(progress).total,
        opt_str_view(r.0) == spec_integrity_warning(*index, rel_path@, data@),
        r.1 == InstallMsg::SubProgress(
            (if old(progress).restored + 1 <= old(progress).total {
                (old(progress).restored + 1) as u64
            } else {
                old(progress).total as u64
            }),
            old(progress).total as u64,
        ),
{
    let warning = check_entry_integrity(index, rel_path, data);
    let msg = progress.file_restored();
    (warning, msg)
}

/// An archive entry that denotes a directory, as zip archives mark them.
pub fn is_dir_entry(name: &str) -> (r: bool)
    ensures
        r == (name@.len() > 0 && name@[name@.len() - 1] == '/'),
{
    let n: usize = name.unicode_len();
    if n == 0 {
        return false;
    }
    name.get_char(n - 1) == '/'
}

// ---------------- the restore run's log lines ----------------

pub fn restore_header_log(backup_dir: &str, dest: &str) -> (r: String)
    ensures
        r@ == "Restoring backup from '"@ + backup_dir@ + "' to '"@ + dest@ + "'"@,
{
    cat(
        cat(cat(cat("Restoring backup from '", backup_dir).as_str(), "' to '").as_str(), dest)
            .as_str(),
        "'",
    )
}

pub fn no_archives_log() -> (r: String)
    ensures
        r@ == "No zip files found in metadata."@,
{
    String::from_str("No zip files found in metadata.")
}

pub fn found_files_log(total_files: usize, total_archives: usize) -> (r: String)
    ensures
        r@ == "[info] Found "@ + dec_str(total_files as nat) + " files across "@ + dec_str(
            total_archives as nat,
        ) + " archives."@,
{
    let f = usize_dec(total_files);
    let a = usize_dec(total_archives);
    cat(
        cat(
            cat(cat("[info] Found ", f.as_str()).as_str(), " files across ").as_str(),
            a.as_str(),
        ).as_str(),
        " archives.",
    )
}

pub fn archive_missing_log(zip_name: &str) -> (r: String)
    ensures
        r@ == "[error] Zip archive missing: "@ + zip_name@,
{
    cat("[error] Zip archive missing: ", zip_name)
}

pub fn archive_done_log(zip_name: &str) -> (r: String)
    ensures
        r@ == "[done] Restored archive: "@ + zip_name@,
{
    cat("[done] Restored archive: ", zip_name)
}

/// The caption of the archive being extracted, one-based over the count.
pub fn extracting_caption(zip_name: &str, archive_idx: usize, total_archives: usize) -> (r:
    String)
    requires
        archive_idx < usize::MAX,
    ensures
        r@ == "Extracting "@ + zip_name@ + " ("@ + dec_str((archive_idx + 1) as nat) + "/"@
            + dec_str(total_archives as nat) + ")"@,
{
    let i = usize_dec(archive_idx + 1);
    let t = usize_dec(total_archives);
    cat(
        cat(
            cat(cat(cat("Extracting ", zip_name).as_str(), " (").as_str(), i.as_str()).as_str(),
            "/",
        ).as_str(),
        cat(t.as_str(), ")").as_str(),
    )
}

pub fn restore_done_log() -> (r: String)
    ensures
        r@ == "Restore completed successfully!"@,
{
    String::from_str("Restore completed successfully!")
}

} // verus!
