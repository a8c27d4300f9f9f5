use clamtk_rs::config::{parse_exclude_paths, AppConfig};

fn args(c: &AppConfig) -> Vec<String> {
    c.to_clamscan_args()
}

#[test]
fn defaults_of_a_new_user() {
    let c = AppConfig::default_in(Some("/home/u/.local/share"));
    assert!(c.scan_archives && c.scan_elf && c.scan_pdf && c.scan_mail && c.scan_ole2);
    assert!(!c.detect_pua);
    assert!(c.heuristic_scan);
    assert!(!c.scan_follow_symlinks);
    assert_eq!(c.exclude_paths, vec!["/proc", "/sys", "/dev"]);
    assert_eq!(c.max_file_size_mb, 25);
    assert_eq!(c.max_scan_time_sec, 600);
    assert_eq!(c.quarantine_dir, "/home/u/.local/share/clamtk-rs/quarantine");
    assert_eq!(c.history_limit, 100);
    let t = AppConfig::default_in(None);
    assert_eq!(t.quarantine_dir, "/tmp/clamtk-rs/quarantine");
}

#[test]
fn settings_files_live_in_the_application_directories() {
    assert_eq!(AppConfig::config_dir(Some("/home/u/.config")), "/home/u/.config/clamtk-rs");
    assert_eq!(
        AppConfig::config_file(Some("/home/u/.config/")),
        "/home/u/.config/clamtk-rs/config.json"
    );
    assert_eq!(AppConfig::data_dir(None), "/tmp/clamtk-rs");
    assert_eq!(AppConfig::history_file(None), "/tmp/clamtk-rs/history.json");
}

#[test]
fn default_scan_arguments() {
    let c = AppConfig::default_in(None);
    assert_eq!(
        args(&c),
        vec![
            "--archive-verbose",
            "--scan-elf=yes",
            "--scan-pdf=yes",
            "--scan-mail=yes",
            "--scan-ole2=yes",
            "--heuristic-scan-precedence=yes",
            "--follow-file-symlinks=0",
            "--max-filesize=25M",
            "--max-scantime=600000",
            "--recursive",
            "--exclude-dir",
            "/proc",
            "--exclude-dir",
            "/sys",
            "--exclude-dir",
            "/dev",
            "--infected",
            "--bell",
        ]
    );
}

#[test]
fn disabled_options_give_their_negative_forms() {
    let mut c = AppConfig::default_in(None);
    c.scan_archives = false;
    c.scan_elf = false;
    c.scan_pdf = false;
    c.scan_mail = false;
    c.scan_ole2 = false;
    c.detect_pua = true;
    c.heuristic_scan = false;
    c.scan_follow_symlinks = true;
    c.exclude_paths = Vec::new();
    c.max_file_size_mb = 0;
    c.max_scan_time_sec = 0;
    assert_eq!(
        args(&c),
        vec![
            "--no-archive",
            "--scan-pdf=no",
            "--scan-mail=no",
            "--scan-ole2=no",
            "--detect-pua=yes",
            "--max-filesize=0M",
            "--max-scantime=0",
            "--recursive",
            "--infected",
            "--bell",
        ]
    );
}

#[test]
fn scan_time_wraps_at_the_u64_limit() {
    let mut c = AppConfig::default_in(None);
    c.max_scan_time_sec = u64::MAX;
    c.max_file_size_mb = u64::MAX;
    let a = args(&c);
    assert!(a.contains(&"--max-scantime=18446744073709550616".to_string()));
    assert!(a.contains(&"--max-filesize=18446744073709551615M".to_string()));
}

#[test]
fn excluded_paths_round_trip_through_the_settings_text() {
    let mut c = AppConfig::default_in(None);
    c.exclude_paths = vec!["/proc".to_string(), "/home/u/My Files".to_string(), "/é".to_string()];
    let text = c.exclude_paths_text();
    assert_eq!(text, "/proc\n/home/u/My Files\n/é");
    assert_eq!(parse_exclude_paths(&text), c.exclude_paths);
}

#[test]
fn settings_text_lines_are_trimmed_and_blank_ones_dropped() {
    assert_eq!(parse_exclude_paths("  /a  \n\n\t\n/b\r\n"), vec!["/a", "/b"]);
    assert!(parse_exclude_paths("").is_empty());
}
