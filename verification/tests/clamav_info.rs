use clamtk_rs::clamav::{
    apply_version_line, detect_clamav, download_failure_message, freshclam_config_text,
    get_info, is_database_file, needs_database_download, parse_clamscan_version,
    refresh_info, snap_database_available, snap_freshclam_config_path, unknown_info,
    version_args,
};

#[test]
fn version_line_is_split_into_fields() {
    let (version, count, build) =
        parse_clamscan_version("ClamAV 1.0.7/27320/Wed Jan  8 08:28:22 2025");
    assert_eq!(version, "Wed Jan  8 08:28:22 2025");
    assert_eq!(count, "27320");
    assert_eq!(build, "ClamAV 1.0.7");
}

#[test]
fn last_version_line_wins_among_other_lines() {
    let out = "warning: something\nClamAV 1.0.7/27320/Wed Jan  8 08:28:22 2025\nClamAV 1.4.2/27500/Mon Jan  6 09:00:00 2025\n";
    let (version, count, build) = parse_clamscan_version(out);
    assert_eq!(version, "Mon Jan  6 09:00:00 2025");
    assert_eq!(count, "27500");
    assert_eq!(build, "ClamAV 1.4.2");
}

#[test]
fn upper_case_engine_name_is_recognised() {
    let (version, count, build) = parse_clamscan_version("CLAMAV 0.103.8/26000/Tue");
    assert_eq!(version, "Tue");
    assert_eq!(count, "26000");
    assert_eq!(build, "CLAMAV 0.103.8");
}

#[test]
fn compact_text_without_engine_name_is_read_whole() {
    let (version, count, build) = parse_clamscan_version(" 1.0.7 / 27320 / Wed ");
    assert_eq!(version, "Wed");
    assert_eq!(count, "27320");
    assert_eq!(build, "1.0.7");
}

#[test]
fn missing_version_stays_unknown() {
    let (version, count, build) = parse_clamscan_version("Not found");
    assert_eq!(version, "Unknown");
    assert_eq!(count, "Unknown");
    assert_eq!(build, "Not found");
}

#[test]
fn line_without_date_keeps_version_unknown() {
    let (version, count, build) = parse_clamscan_version("ClamAV 1.0.7/27320");
    assert_eq!(version, "Unknown");
    assert_eq!(count, "27320");
    assert_eq!(build, "ClamAV 1.0.7");
}

#[test]
fn single_line_is_applied_with_its_lower_case() {
    let start = ("Unknown".to_string(), "Unknown".to_string(), String::new());
    let r = apply_version_line(start, "X 1/2/3", "clamav 1/2/3");
    assert_eq!(r, ("3".to_string(), "2".to_string(), "X 1".to_string()));
    let start = ("v".to_string(), "c".to_string(), "b".to_string());
    let r = apply_version_line(start, "ClamAV 1/2/3", "no engine here/");
    assert_eq!(r, ("v".to_string(), "c".to_string(), "b".to_string()));
}

#[test]
fn detection_without_clamscan_output() {
    let info = detect_clamav(None, false, true, false);
    assert_eq!(info.signature_version, "Unknown");
    assert_eq!(info.signature_count, "Unknown");
    assert_eq!(info.build_info, "Not found");
    assert!(!info.is_clamscan_available);
    assert!(info.is_freshclam_available);
    assert!(!info.is_clamd_available);
}

#[test]
fn detection_reads_version_output() {
    let info = detect_clamav(Some("ClamAV 1.0.7/27320/Wed Jan  8 08:28:22 2025"), true, true, true);
    assert_eq!(info.signature_count, "27320");
    assert_eq!(info.build_info, "ClamAV 1.0.7");
    assert!(info.is_clamd_available);
}

#[test]
fn refresh_then_get_gives_the_stored_info() {
    let mut cache = None;
    assert!(get_info(&cache).is_none());
    let info = detect_clamav(Some("ClamAV 1.0.7/27320/Wed"), true, false, false);
    let stored = refresh_info(&mut cache, Some(info));
    let got = get_info(&cache).expect("cached");
    assert_eq!(got.signature_version, "Wed");
    assert_eq!(got.signature_count, stored.signature_count);
    assert_eq!(got.build_info, "ClamAV 1.0.7");
    assert!(got.is_clamscan_available);
}

#[test]
fn failed_detection_stores_unknown_info() {
    let mut cache = None;
    let r = refresh_info(&mut cache, None);
    assert_eq!(r.signature_version, "Unknown");
    assert_eq!(r.signature_count, "Unknown");
    assert_eq!(r.build_info, "");
    let u = unknown_info();
    assert_eq!(get_info(&cache).unwrap().build_info, u.build_info);
}

#[test]
fn version_arguments_name_the_snap_database() {
    assert_eq!(version_args(None), vec!["--version".to_string()]);
    assert_eq!(
        version_args(Some("/home/u/snap/clamtk-rs/x1/clamav")),
        vec!["--version", "--database", "/home/u/snap/clamtk-rs/x1/clamav"]
    );
}

#[test]
fn freshclam_config_sits_beside_the_database() {
    assert_eq!(
        snap_freshclam_config_path(Some("/home/u/snap/clamtk-rs/12")),
        Some("/home/u/snap/clamtk-rs/12/freshclam.conf".to_string())
    );
    assert_eq!(
        snap_freshclam_config_path(Some("/data/")),
        Some("/data/freshclam.conf".to_string())
    );
    assert_eq!(snap_freshclam_config_path(None), None);
}

#[test]
fn freshclam_config_contents() {
    assert_eq!(
        freshclam_config_text("/db", "/certs"),
        "DatabaseDirectory /db\nDatabaseMirror database.clamav.net\ncvdcertsdir /certs\nTestDatabases no\nLogTime true\nConnectTimeout 30\nReceiveTimeout 30\nMaxAttempts 5\n"
    );
}

#[test]
fn database_files_are_recognised_by_extension() {
    assert!(is_database_file("main.cvd"));
    assert!(is_database_file("daily.cld"));
    assert!(is_database_file("a.b.cvd"));
    assert!(!is_database_file(".cvd"));
    assert!(!is_database_file("main.cvd.tmp"));
    assert!(!is_database_file("cvd"));
    assert!(!is_database_file("main.CVD"));
    assert!(!is_database_file(".."));
}

#[test]
fn database_directory_with_a_database_is_usable() {
    let names = vec!["freshclam.dat".to_string(), "bytecode.cvd".to_string()];
    assert!(snap_database_available(&names));
    assert!(!snap_database_available(&vec!["freshclam.dat".to_string()]));
    assert!(!snap_database_available(&Vec::new()));
}

#[test]
fn download_is_needed_only_in_a_snap_without_database() {
    assert!(needs_database_download(true, false));
    assert!(!needs_database_download(true, true));
    assert!(!needs_database_download(false, false));
}

#[test]
fn download_failure_names_the_last_error_line() {
    assert_eq!(
        download_failure_message("ERROR: first\nERROR: Update failed\n  \n"),
        "Could not download the virus database: ERROR: Update failed"
    );
    assert_eq!(
        download_failure_message("   "),
        "Could not download the virus database: unknown error"
    );
}
