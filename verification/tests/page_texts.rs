use clamtk_rs::display::{
    clamd_status, completed_text, engine_status, file_result_icon, freshclam_status,
    history_result_text, history_target_text, infected_summary, page_of_row, progress_text,
    quarantine_details, row_name, scan_kind_label, started_texts, update_page_freshclam_status,
    manual_update_enabled, setup_sentinel_file, needs_snap_setup,
};
use clamtk_rs::scanner::{FileStatus, ScanType};

#[test]
fn scan_start_texts() {
    let (bar, label) = started_texts("/home/u", ScanType::Home);
    assert_eq!(bar, "Scanning: /home/u (Home Directory)");
    assert_eq!(label, "Scanning: /home/u");
    assert_eq!(scan_kind_label(ScanType::FullSystem), "Full System");
}

#[test]
fn progress_counts() {
    assert_eq!(progress_text(12, 0), "Files scanned: 12");
    assert_eq!(progress_text(12, 3), "Files scanned: 12  —  Threats found: 3");
    assert_eq!(progress_text(0, 0), "Files scanned: 0");
}

#[test]
fn result_icons() {
    assert_eq!(file_result_icon(FileStatus::Infected), "⚠️");
    assert_eq!(file_result_icon(FileStatus::Clean), "✅");
    assert_eq!(file_result_icon(FileStatus::Error), "❓");
}

#[test]
fn completion_texts() {
    assert_eq!(completed_text(0, 42, "3.2s"), "✅ Scan complete — No threats found. 42 files scanned in 3.2s.");
    assert_eq!(completed_text(2, 42, "1m 5s"), "⚠️ Scan complete — 2 threat(s) found! 42 files scanned in 1m 5s.");
}

#[test]
fn history_record_texts() {
    assert_eq!(history_result_text(10, 0, "1.0s"), "✅ 10 files scanned, no threats found (1.0s)");
    assert_eq!(history_result_text(10, 1, "1.0s"), "⚠️ 10 files scanned, 1 threat(s) found (1.0s)");
    assert_eq!(history_target_text("/home/u"), "Target: /home/u");
    let long = "/".repeat(100);
    assert_eq!(history_target_text(&long), format!("Target: ...{}", "/".repeat(77)));
    let files = vec!["/tmp/a".to_string(), "/tmp/b".to_string()];
    assert_eq!(infected_summary(&files), "Infected: /tmp/a, /tmp/b");
    assert_eq!(infected_summary(&Vec::new()), "Infected: ");
}

#[test]
fn quarantine_line() {
    assert_eq!(quarantine_details("Eicar", "68 B", "2025-01-01 12:00"), "Threat: Eicar | Size: 68 B | Quarantined: 2025-01-01 12:00");
}

#[test]
fn dashboard_statuses() {
    assert_eq!(engine_status(true), ("● Active", "status-good"));
    assert_eq!(engine_status(false), ("● Not Found", "status-bad"));
    assert_eq!(freshclam_status(true), ("● Available", "status-good"));
    assert_eq!(freshclam_status(false), ("● Not Found", "status-warn"));
    assert_eq!(clamd_status(true, true), ("● Running", "status-good"));
    assert_eq!(clamd_status(true, false), ("● Available (not running)", "status-warn"));
    assert_eq!(clamd_status(false, true), ("● Not Available", "status-bad"));
}

#[test]
fn sidebar_rows_lead_back_to_their_pages() {
    assert_eq!(row_name("dashboard"), "nav-dashboard");
    assert_eq!(page_of_row(&row_name("scan")).as_deref(), Some("scan"));
    assert_eq!(page_of_row("other"), None);
}

#[test]
fn update_page_availability() {
    assert_eq!(update_page_freshclam_status(true), ("Freshclam: ● Available", "status-good"));
    assert_eq!(update_page_freshclam_status(false), ("Freshclam: ● Not Found", "status-bad"));
    assert!(manual_update_enabled(true, false));
    assert!(!manual_update_enabled(true, true));
    assert!(!manual_update_enabled(false, false));
}

#[test]
fn snap_setup_is_shown_once_inside_a_snap() {
    assert_eq!(setup_sentinel_file(Some("/home/u/snap/clamtk-rs/1"), "/tmp"), "/home/u/snap/clamtk-rs/1/.snap-setup-done");
    assert_eq!(setup_sentinel_file(None, "/tmp"), "/tmp/.snap-setup-done");
    assert!(needs_snap_setup(true, false));
    assert!(!needs_snap_setup(true, true));
    assert!(!needs_snap_setup(false, false));
}
