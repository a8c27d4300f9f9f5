//! Isolating an infected file: its fingerprint, the names of the copy and of
//! the marker left in its place, and finding a quarantined file again.
use vstd::prelude::*;
use crate::text::{chars_eq, chars_of, hex_lower, hex_lower_exec, slice_of, string_from};
use crate::paths::{join_path, parent_of, path_join, path_parent, path_set_extension, with_extension};

verus! {

broadcast use vstd::string::group_string_axioms;

/// Names the SHA-256 digest of a byte sequence.
pub uninterp spec fn sha256(data: Seq<u8>) -> Seq<u8>;

/// `Sha256::digest` of the `sha2` crate: the 32-byte SHA-256 digest of
/// `data`, named by `sha256`.
#[verifier::external_body]
fn sha256_digest(data: &[u8]) -> (d: Vec<u8>)
    ensures
        d@ == sha256(data@),
        d@.len() == 32,
{
    <sha2::Sha256 as sha2::Digest>::digest(data).to_vec()
}

/// The fingerprint of a quarantined file's contents and its quarantine id:
/// the SHA-256 digest in lower-case hexadecimal, and its first 8 digits.
pub fn file_fingerprint(data: &[u8]) -> (r: (String, String))
    ensures
        r.0@ == hex_lower(sha256(data@)),
        r.0@.len() == 64,
        r.1@ == r.0@.take(8),
{
    let digest = sha256_digest(data);
    let hash = hex_lower_exec(&digest);
    let v = chars_of(hash.as_str());
    proof {
        lemma_hex_len(digest@);
    }
    let id = slice_of(&v, 0, 8);
    assert(id@ =~= hash@.take(8));
    (hash, string_from(&id))
}

proof fn lemma_hex_len(b: Seq<u8>)
    ensures
        hex_lower(b).len() == 2 * b.len(),
    decreases b.len(),
{
    if b.len() > 0 {
        lemma_hex_len(b.drop_last());
    }
}

/// The file name of the quarantined copy: the time of quarantine, `_`, the
/// original file name and `.quar`.
pub fn quarantine_file_name(timestamp: &str, file_name: &str) -> (r: String)
    ensures
        r@ == timestamp@ + "_"@ + file_name@ + ".quar"@,
{
    let mut r = String::from_str(timestamp);
    r.append("_");
    r.append(file_name);
    r.append(".quar");
    r
}

/// The marker file left where the infected file was: an empty file whose
/// name tells that the file was quarantined.
pub fn marker_path(original_path: &str) -> (r: String)
    ensures
        r@ == original_path@ + ".quarantined"@,
{
    let mut r = String::from_str(original_path);
    r.append(".quarantined");
    r
}

/// `metadata.json` in the quarantine directory.
pub fn metadata_file(quarantine_dir: &str) -> (r: String)
    ensures
        r@ == path_join(quarantine_dir@, "metadata.json"@),
{
    join_path(quarantine_dir, "metadata.json")
}

/// The quarantine directory: the configured one when the settings could be
/// read, otherwise `clamtk-rs/quarantine` in the platform's data directory.
pub fn quarantine_dir(configured: Option<&str>, data_base: Option<&str>) -> (r: String)
    ensures
        r@ == match configured {
            Some(c) => c@,
            None => path_join(
                crate::config::app_dir(crate::config::opt_view(data_base)),
                "quarantine"@,
            ),
        },
{
    match configured {
        Some(c) => String::from_str(c),
        None => {
            let app = crate::config::AppConfig::data_dir(data_base);
            join_path(app.as_str(), "quarantine")
        },
    }
}

/// The index of the first entry whose id is `id`.
pub fn find_entry(ids: &Vec<String>, id: &str) -> (r: Option<usize>)
    ensures
        r matches Some(i) ==> i < ids@.len() && ids@[i as int]@ == id@ && forall|j: int|
            0 <= j < i ==> ids@[j]@ != id@,
        r is None ==> forall|j: int| 0 <= j < ids@.len() ==> ids@[j]@ != id@,
{
    let target = chars_of(id);
    let mut i: usize = 0;
    while i < ids.len()
        invariant
            i <= ids@.len(),
            target@ == id@,
            forall|j: int| 0 <= j < i ==> ids@[j]@ != id@,
        decreases ids@.len() - i,
    {
        let cur = chars_of(ids[i].as_str());
        if chars_eq(&cur, &target) {
            return Some(i);
        }
        i = i + 1;
    }
    None
}

/// The directory a quarantined file goes back to, given the parent of its
/// original path: that parent, or `/tmp` when the path has none.
pub fn restore_dir_of(parent: Option<String>) -> (r: String)
    ensures
        r@ == match parent {
            Some(p) => p@,
            None => "/tmp"@,
        },
{
    match parent {
        Some(p) => p,
        None => String::from_str("/tmp"),
    }
}

/// The directory a quarantined file goes back to: the parent of its
/// original path, or `/tmp` when that path has none.
pub fn restore_dir(original_path: &str) -> (r: String)
    ensures
        r@ == match path_parent(original_path@) {
            Some(p) => p,
            None => "/tmp"@,
        },
{
    restore_dir_of(parent_of(original_path))
}

/// Where a quarantined file goes back to: its original path, or, when a
/// file is there again, that path with the extension `restored.<time>`.
/// The time is a plain stamp such as `20250101120000`: it holds no `/`.
pub fn restore_path(original_path: &str, original_exists: bool, timestamp: &str) -> (r: String)
    requires
        !timestamp@.contains('/'),
    ensures
        r@ == if original_exists {
            path_set_extension(original_path@, "restored."@ + timestamp@)
        } else {
            original_path@
        },
{
    if original_exists {
        let mut ext = String::from_str("restored.");
        ext.append(timestamp);
        proof {
            reveal_strlit("restored.");
            assert forall|i: int| 0 <= i < ext@.len() implies ext@[i] != '/' by {
                if i >= 9 {
                    assert(ext@[i] == timestamp@[i - 9]);
                    assert(!timestamp@.contains('/'));
                }
            }
        }
        with_extension(original_path, ext.as_str())
    } else {
        String::from_str(original_path)
    }
}

/// The indices of the entries not yet restored, in order.
pub open spec fn active_indices(restored: Seq<bool>) -> Seq<usize>
    decreases restored.len(),
{
    if restored.len() == 0 {
        seq![]
    } else {
        let rest = active_indices(restored.drop_last());
        if restored.last() {
            rest
        } else {
            rest.push((restored.len() - 1) as usize)
        }
    }
}

/// The quarantine entries that the page lists, given whether each was
/// restored: the indices of those that were not, in order.
pub fn active_entries(restored: &Vec<bool>) -> (r: Vec<usize>)
    ensures
        r@ == active_indices(restored@),
{
    let mut r: Vec<usize> = Vec::new();
    let mut i: usize = 0;
    while i < restored.len()
        invariant
            i <= restored@.len(),
            r@ == active_indices(restored@.take(i as int)),
        decreases restored@.len() - i,
    {
        proof {
            assert(restored@.take(i + 1).drop_last() =~= restored@.take(i as int));
        }
        if !restored[i] {
            r.push(i);
        }
        i = i + 1;
    }
    proof {
        assert(restored@.take(i as int) =~= restored@);
    }
    r
}

} // verus!
