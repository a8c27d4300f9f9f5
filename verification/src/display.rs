//! The texts that the pages show, composed from the values they display.
use vstd::prelude::*;
use crate::text::{chars_of, decimal, join, starts_with, starts_with_exec, string_of, u64_to_string, views};
use crate::scanner::{FileStatus, ScanType};
use crate::utils::{truncate_path, truncated, truncation_ok};
use crate::paths::{join_path, path_join};

verus! {

broadcast use vstd::string::group_string_axioms;

/// The short name of a scan type that the scan page shows while scanning.
pub open spec fn scan_kind(t: ScanType) -> Seq<char> {
    match t {
        ScanType::File => "File"@,
        ScanType::Directory => "Directory"@,
        ScanType::Home => "Home Directory"@,
        ScanType::FullSystem => "Full System"@,
        ScanType::Custom => "Custom"@,
    }
}

/// The short name of a scan type.
pub fn scan_kind_label(t: ScanType) -> (r: &'static str)
    ensures
        r@ == scan_kind(t),
{
    match t {
        ScanType::File => "File",
        ScanType::Directory => "Directory",
        ScanType::Home => "Home Directory",
        ScanType::FullSystem => "Full System",
        ScanType::Custom => "Custom",
    }
}

/// The progress bar text and the file label when a scan starts.
pub fn started_texts(target: &str, scan_type: ScanType) -> (r: (String, String))
    ensures
        r.0@ == "Scanning: "@ + target@ + " ("@ + scan_kind(scan_type) + ")"@,
        r.1@ == "Scanning: "@ + target@,
{
    let mut bar = String::from_str("Scanning: ");
    bar.append(target);
    bar.append(" (");
    bar.append(scan_kind_label(scan_type));
    bar.append(")");
    let mut label = String::from_str("Scanning: ");
    label.append(target);
    (bar, label)
}

/// The progress bar text while scanning: the files scanned, and the threats
/// when there are any.
pub fn progress_text(files_scanned: u64, known_threats: u64) -> (r: String)
    ensures
        r@ == if known_threats > 0 {
            "Files scanned: "@ + decimal(files_scanned as nat) + "  —  Threats found: "@ + decimal(
                known_threats as nat,
            )
        } else {
            "Files scanned: "@ + decimal(files_scanned as nat)
        },
{
    let mut r = String::from_str("Files scanned: ");
    let f = u64_to_string(files_scanned);
    r.append(f.as_str());
    if known_threats > 0 {
        r.append("  —  Threats found: ");
        let t = u64_to_string(known_threats);
        r.append(t.as_str());
    }
    r
}

/// The mark shown beside a reported file.
pub fn file_result_icon(status: FileStatus) -> (r: &'static str)
    ensures
        r@ == match status {
            FileStatus::Infected => "⚠️"@,
            FileStatus::Clean => "✅"@,
            _ => "❓"@,
        },
{
    match status {
        FileStatus::Infected => "⚠️",
        FileStatus::Clean => "✅",
        _ => "❓",
    }
}

/// The status line of a finished scan; `duration` is the elapsed time as
/// the page writes it.
pub fn completed_text(infected_count: u64, files_scanned: u64, duration: &str) -> (r: String)
    ensures
        r@ == if infected_count == 0 {
            "✅ Scan complete — No threats found. "@ + decimal(files_scanned as nat)
                + " files scanned in "@ + duration@ + "."@
        } else {
            "⚠️ Scan complete — "@ + decimal(infected_count as nat) + " threat(s) found! "@
                + decimal(files_scanned as nat) + " files scanned in "@ + duration@ + "."@
        },
{
    let files = u64_to_string(files_scanned);
    if infected_count == 0 {
        let mut r = String::from_str("✅ Scan complete — No threats found. ");
        r.append(files.as_str());
        r.append(" files scanned in ");
        r.append(duration);
        r.append(".");
        r
    } else {
        let mut r = String::from_str("⚠️ Scan complete — ");
        let n = u64_to_string(infected_count);
        r.append(n.as_str());
        r.append(" threat(s) found! ");
        r.append(files.as_str());
        r.append(" files scanned in ");
        r.append(duration);
        r.append(".");
        r
    }
}

/// The result line of a history record; `duration` is the elapsed time as
/// the page writes it.
pub fn history_result_text(files_scanned: u64, threats_found: u64, duration: &str) -> (r: String)
    ensures
        r@ == if threats_found == 0 {
            "✅ "@ + decimal(files_scanned as nat) + " files scanned, no threats found ("@
                + duration@ + ")"@
        } else {
            "⚠️ "@ + decimal(files_scanned as nat) + " files scanned, "@ + decimal(
                threats_found as nat,
            ) + " threat(s) found ("@ + duration@ + ")"@
        },
{
    let files = u64_to_string(files_scanned);
    if threats_found == 0 {
        let mut r = String::from_str("✅ ");
        r.append(files.as_str());
        r.append(" files scanned, no threats found (");
        r.append(duration);
        r.append(")");
        r
    } else {
        let mut r = String::from_str("⚠️ ");
        r.append(files.as_str());
        r.append(" files scanned, ");
        let t = u64_to_string(threats_found);
        r.append(t.as_str());
        r.append(" threat(s) found (");
        r.append(duration);
        r.append(")");
        r
    }
}

/// The target line of a history record, its path cut to 80 bytes.
pub fn history_target_text(target: &str) -> (r: String)
    requires
        truncation_ok(target@, 80),
    ensures
        exists|t: Seq<char>| truncated(target@, 80, t) && r@ == "Target: "@ + t,
{
    let t = truncate_path(target, 80);
    let mut r = String::from_str("Target: ");
    r.append(t.as_str());
    r
}

/// The infected files of a history record, each cut to 60 bytes, after
/// `Infected: `, separated by commas.
pub fn infected_summary(files: &Vec<String>) -> (r: String)
    requires
        forall|i: int| 0 <= i < files@.len() ==> truncation_ok(#[trigger] files@[i]@, 60),
    ensures
        exists|shown: Seq<Seq<char>>|
            shown.len() == files@.len() && (forall|i: int|
                0 <= i < files@.len() ==> truncated(files@[i]@, 60, #[trigger] shown[i]))
                && r@ == "Infected: "@ + join(shown, ", "@),
{
    let mut shown: Vec<String> = Vec::new();
    let mut i: usize = 0;
    while i < files.len()
        invariant
            i <= files@.len(),
            forall|k: int| 0 <= k < files@.len() ==> truncation_ok(#[trigger] files@[k]@, 60),
            shown@.len() == i,
            forall|k: int| 0 <= k < i ==> truncated(files@[k]@, 60, #[trigger] views(shown@)[k]),
        decreases files@.len() - i,
    {
        let t = truncate_path(files[i].as_str(), 60);
        let ghost old_shown = shown@;
        let ghost tv = t@;
        shown.push(t);
        proof {
            assert forall|k: int| 0 <= k < i + 1 implies truncated(
                files@[k]@,
                60,
                #[trigger] views(shown@)[k],
            ) by {
                assert(views(shown@)[k] == shown@[k]@);
                if k < i {
                    assert(shown@[k] == old_shown[k]);
                    assert(views(old_shown)[k] == old_shown[k]@);
                } else {
                    assert(shown@[k]@ == tv);
                }
            }
        }
        i = i + 1;
    }
    let joined = crate::text::join_strings(&shown, ", ");
    let mut r = String::from_str("Infected: ");
    r.append(joined.as_str());
    r
}

/// The details line of a quarantined file; `size` and `date` are written
/// by the page.
pub fn quarantine_details(threat_name: &str, size: &str, date: &str) -> (r: String)
    ensures
        r@ == "Threat: "@ + threat_name@ + " | Size: "@ + size@ + " | Quarantined: "@ + date@,
{
    let mut r = String::from_str("Threat: ");
    r.append(threat_name);
    r.append(" | Size: ");
    r.append(size);
    r.append(" | Quarantined: ");
    r.append(date);
    r
}

/// A status label: its text and style class.
pub type StatusLabel = (&'static str, &'static str);

/// The engine status on the dashboard.
pub fn engine_status(clamscan_available: bool) -> (r: StatusLabel)
    ensures
        clamscan_available ==> r.0@ == "● Active"@ && r.1@ == "status-good"@,
        !clamscan_available ==> r.0@ == "● Not Found"@ && r.1@ == "status-bad"@,
{
    if clamscan_available {
        ("● Active", "status-good")
    } else {
        ("● Not Found", "status-bad")
    }
}

/// The freshclam status on the dashboard.
pub fn freshclam_status(freshclam_available: bool) -> (r: StatusLabel)
    ensures
        freshclam_available ==> r.0@ == "● Available"@ && r.1@ == "status-good"@,
        !freshclam_available ==> r.0@ == "● Not Found"@ && r.1@ == "status-warn"@,
{
    if freshclam_available {
        ("● Available", "status-good")
    } else {
        ("● Not Found", "status-warn")
    }
}

/// The daemon status on the dashboard; whether it runs matters only when it
/// is installed.
pub fn clamd_status(clamd_available: bool, running: bool) -> (r: StatusLabel)
    ensures
        clamd_available && running ==> r.0@ == "● Running"@ && r.1@ == "status-good"@,
        clamd_available && !running ==> r.0@ == "● Available (not running)"@ && r.1@
            == "status-warn"@,
        !clamd_available ==> r.0@ == "● Not Available"@ && r.1@ == "status-bad"@,
{
    if clamd_available {
        if running {
            ("● Running", "status-good")
        } else {
            ("● Available (not running)", "status-warn")
        }
    } else {
        ("● Not Available", "status-bad")
    }
}

/// The freshclam status on the update page.
pub fn update_page_freshclam_status(freshclam_available: bool) -> (r: StatusLabel)
    ensures
        freshclam_available ==> r.0@ == "Freshclam: ● Available"@ && r.1@ == "status-good"@,
        !freshclam_available ==> r.0@ == "Freshclam: ● Not Found"@ && r.1@ == "status-bad"@,
{
    if freshclam_available {
        ("Freshclam: ● Available", "status-good")
    } else {
        ("Freshclam: ● Not Found", "status-bad")
    }
}

/// Whether the update page offers a manual update: only with freshclam
/// installed, and not on Ubuntu or a derivative, whose freshclam service
/// keeps the signatures current by itself.
pub fn manual_update_enabled(freshclam_available: bool, host_is_ubuntu: bool) -> (r: bool)
    ensures
        r == (freshclam_available && !host_is_ubuntu),
{
    freshclam_available && !host_is_ubuntu
}

/// The file whose presence records that the snap setup dialog was shown:
/// `.snap-setup-done` in the snap's per-user data directory, or in the
/// temporary directory when that is not set.
pub fn setup_sentinel_file(snap_user_data: Option<&str>, temp_dir: &str) -> (r: String)
    ensures
        r@ == path_join(
            match snap_user_data {
                Some(d) => d@,
                None => temp_dir@,
            },
            ".snap-setup-done"@,
        ),
{
    match snap_user_data {
        Some(d) => join_path(d, ".snap-setup-done"),
        None => join_path(temp_dir, ".snap-setup-done"),
    }
}

/// Whether the snap setup dialog is shown: inside a snap, and only until
/// it has been shown once.
pub fn needs_snap_setup(in_snap: bool, already_shown: bool) -> (r: bool)
    ensures
        r == (in_snap && !already_shown),
{
    in_snap && !already_shown
}

/// The widget name of the sidebar row of a page.
pub fn row_name(page: &str) -> (r: String)
    ensures
        r@ == "nav-"@ + page@,
{
    let mut r = String::from_str("nav-");
    r.append(page);
    r
}

/// The page that a sidebar row leads to: its widget name after `nav-`.
pub fn page_of_row(row: &str) -> (r: Option<String>)
    ensures
        starts_with(row@, "nav-"@) ==> (r matches Some(p) && p@ == row@.skip(4)),
        !starts_with(row@, "nav-"@) ==> r is None,
{
    let v = chars_of(row);
    let prefix = chars_of("nav-");
    proof {
        reveal_strlit("nav-");
    }
    if starts_with_exec(&v, &prefix) {
        let p = string_of(&v, 4, v.len());
        assert(p@ =~= row@.skip(4));
        Some(p)
    } else {
        None
    }
}

/// The row of a page leads back to that page.
pub proof fn law_sidebar_round_trip(page: Seq<char>)
    ensures
        starts_with("nav-"@ + page, "nav-"@),
        ("nav-"@ + page).skip(4) == page,
{
    reveal_strlit("nav-");
    assert(("nav-"@ + page).subrange(0, 4) =~= "nav-"@);
    assert(("nav-"@ + page).skip(4) =~= page);
}

} // verus!
