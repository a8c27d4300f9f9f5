use clamtk_rs::scanner::{
    infected_results, parse_clamscan_output, parse_clamscan_summary, result_paths, summary_count,
    ExitReport, FileStatus, ScanEvent, ScanOutcome, ScanSession, scan_command_args,
    database_failure_message, launch_failure_message,
};
use clamtk_rs::config::AppConfig;

const OUTPUT: &str = "Scan started\n/tmp/a.txt: OK\n/tmp/b.exe: Win.Test.EICAR_HDB-1 FOUND\n/tmp/c: Access denied ERROR\n\n----------- SCAN SUMMARY -----------\nKnown viruses: 8700000\nScanned directories: 1\nScanned files: 3\nInfected files: 1\n";

#[test]
fn output_lines_become_results() {
    let r = parse_clamscan_output(OUTPUT);
    assert_eq!(r.len(), 3);
    assert_eq!(r[0].path, "/tmp/a.txt");
    assert_eq!(r[0].status, FileStatus::Clean);
    assert_eq!(r[0].threat, None);
    assert_eq!(r[1].path, "/tmp/b.exe");
    assert_eq!(r[1].status, FileStatus::Infected);
    assert_eq!(r[1].threat.as_deref(), Some("Win.Test.EICAR_HDB-1"));
    assert_eq!(r[2].path, "/tmp/c");
    assert_eq!(r[2].status, FileStatus::Error);
}

#[test]
fn path_is_what_precedes_the_last_separator() {
    let r = parse_clamscan_output("  /tmp/x: y: Eicar FOUND  \n/tmp/no separator FOUND\n");
    assert_eq!(r.len(), 1);
    assert_eq!(r[0].path, "/tmp/x: y");
    assert_eq!(r[0].threat.as_deref(), Some("Eicar"));
}

#[test]
fn summary_adds_directories_and_files() {
    assert_eq!(parse_clamscan_summary(OUTPUT).files_scanned, 4);
}

#[test]
fn summary_without_totals_counts_file_lines() {
    let out = "/tmp/a: OK\n/tmp/b: OK\nScanned files: none\n";
    assert_eq!(parse_clamscan_summary(out).files_scanned, 2);
    assert_eq!(parse_clamscan_summary("").files_scanned, 0);
}

#[test]
fn summary_total_wraps_at_the_u64_limit() {
    let out = "Scanned files: 18446744073709551615\nscanned directories: +2\n";
    assert_eq!(parse_clamscan_summary(out).files_scanned, 1);
}

#[test]
fn summary_count_of_single_lines() {
    assert_eq!(summary_count("scanned files: 12"), 12);
    assert_eq!(summary_count("scanned directories:7:9"), 7);
    assert_eq!(summary_count("scanned files: x"), 0);
    assert_eq!(summary_count("scanned files: 18446744073709551616"), 0);
    assert_eq!(summary_count("infected files: 3"), 0);
}

fn run(lines: &[&str], total: u64) -> (ScanSession, Vec<Vec<ScanEvent>>) {
    let mut s = ScanSession::new(total);
    let mut all = Vec::new();
    for l in lines {
        all.push(s.process_line(l));
    }
    (s, all)
}

#[test]
fn session_reports_each_file_line() {
    let (s, events) = run(&["Scan started", "/x/a: OK", "/x/b: Eicar FOUND"], 5);
    assert!(events[0].is_empty());
    match &events[1][..] {
        [ScanEvent::FileResult(r), ScanEvent::Progress { current_file, files_scanned, known_threats, total_files }] => {
            assert_eq!(r.path, "/x/a");
            assert_eq!(r.status, FileStatus::Clean);
            assert_eq!(current_file, "/x/a");
            assert_eq!(*files_scanned, 1);
            assert_eq!(*known_threats, 0);
            assert_eq!(*total_files, 5);
        }
        other => panic!("unexpected events {:?}", other),
    }
    match &events[2][..] {
        [ScanEvent::FileResult(r), ScanEvent::Progress { files_scanned, .. }] => {
            assert_eq!(r.threat.as_deref(), Some("Eicar"));
            assert_eq!(*files_scanned, 2);
        }
        other => panic!("unexpected events {:?}", other),
    }
    assert_eq!(s.files_scanned, 2);
    assert_eq!(s.results.len(), 2);
    assert_eq!(s.lines.len(), 3);
}

#[test]
fn session_counts_summary_lines() {
    let (s, events) = run(&["/x/a: OK", "----------- SCAN SUMMARY -----------", "  Scanned directories: 2", "Scanned files: 1"], 0);
    assert!(events[1].is_empty() && events[2].is_empty() && events[3].is_empty());
    assert_eq!(s.files_scanned, 4);
}

#[test]
fn clean_exit_completes_with_the_summary_count() {
    let (s, _) = run(&["/x/a: OK", "/x/b: Eicar FOUND", "Scanned directories: 2", "Scanned files: 1"], 0);
    match s.finish(false, ExitReport::Code(1), "", false) {
        ScanOutcome::Completed { files_scanned, results, warning } => {
            assert_eq!(files_scanned, 3);
            assert_eq!(results.len(), 1);
            assert_eq!(results[0].path, "/x/b");
            assert_eq!(warning, None);
        }
        other => panic!("unexpected outcome {:?}", other),
    }
}

#[test]
fn counter_stands_when_the_summary_counts_nothing() {
    let (s, _) = run(&["Scanned files: 0"], 0);
    match s.finish(false, ExitReport::Code(0), "", false) {
        ScanOutcome::Completed { files_scanned, results, .. } => {
            assert_eq!(files_scanned, 0);
            assert!(results.is_empty());
        }
        other => panic!("unexpected outcome {:?}", other),
    }
}

#[test]
fn exit_code_two_without_files_is_a_failure() {
    let (s, _) = run(&[], 0);
    match s.finish(false, ExitReport::Code(2), "LibClamAV Error: no database\nERROR: Can't open file\n\n  \n", false) {
        ScanOutcome::Error(e) => assert_eq!(e, "clamscan failed (exit code 2): ERROR: Can't open file"),
        other => panic!("unexpected outcome {:?}", other),
    }
    match s.finish(false, ExitReport::Code(2), "", false) {
        ScanOutcome::Error(e) => assert_eq!(e, "clamscan failed (exit code 2): unknown error"),
        other => panic!("unexpected outcome {:?}", other),
    }
}

#[test]
fn exit_code_two_after_files_is_a_warning() {
    let (s, _) = run(&["/x/a: OK", "/x/b: Permission denied ERROR"], 0);
    match s.finish(false, ExitReport::Code(2), "", true) {
        ScanOutcome::Completed { files_scanned, warning, .. } => {
            assert_eq!(files_scanned, 2);
            assert_eq!(warning.as_deref(), Some("some files were skipped because the snap sandbox cannot read hidden or system files"));
        }
        other => panic!("unexpected outcome {:?}", other),
    }
    match s.finish(false, ExitReport::Code(2), "", false) {
        ScanOutcome::Completed { warning, .. } => {
            assert_eq!(warning.as_deref(), Some("some files could not be read and were skipped"));
        }
        other => panic!("unexpected outcome {:?}", other),
    }
}

#[test]
fn other_endings_are_failures() {
    let (s, _) = run(&["/x/a: OK"], 0);
    match s.finish(false, ExitReport::Code(40), "", false) {
        ScanOutcome::Error(e) => assert_eq!(e, "clamscan exited unexpectedly (40)"),
        other => panic!("unexpected outcome {:?}", other),
    }
    match s.finish(false, ExitReport::Code(-2147483648), "", false) {
        ScanOutcome::Error(e) => assert_eq!(e, "clamscan exited unexpectedly (-2147483648)"),
        other => panic!("unexpected outcome {:?}", other),
    }
    match s.finish(false, ExitReport::Signal, "", false) {
        ScanOutcome::Error(e) => assert_eq!(e, "clamscan exited unexpectedly (killed by signal)"),
        other => panic!("unexpected outcome {:?}", other),
    }
    match s.finish(false, ExitReport::WaitFailed("interrupted".to_string()), "", false) {
        ScanOutcome::Error(e) => assert_eq!(e, "Scan failed: interrupted"),
        other => panic!("unexpected outcome {:?}", other),
    }
    assert!(matches!(s.finish(true, ExitReport::Code(0), "", false), ScanOutcome::Cancelled));
}

#[test]
fn infected_results_and_their_paths() {
    let r = parse_clamscan_output(OUTPUT);
    let inf = infected_results(&r);
    assert_eq!(inf.len(), 1);
    assert_eq!(result_paths(&inf), vec!["/tmp/b.exe"]);
    assert_eq!(result_paths(&r), vec!["/tmp/a.txt", "/tmp/b.exe", "/tmp/c"]);
}

#[test]
fn scan_command_line_outside_a_snap() {
    let c = AppConfig::default_in(Some("/d"));
    let args = scan_command_args(&c, false, Some("/s/clamav"), Some("/snap/certs"), "/home/u");
    let mut want = c.to_clamscan_args();
    want.push("/home/u".to_string());
    assert_eq!(args, want);
}

#[test]
fn scan_command_line_inside_a_snap() {
    let c = AppConfig::default_in(Some("/d"));
    let args = scan_command_args(&c, true, Some("/s/clamav"), Some("/snap/etc/clamav/certs"), "/home/u");
    let mut want = c.to_clamscan_args();
    for a in ["--database", "/s/clamav", "--cvdcertsdir", "/snap/etc/clamav/certs", "/home/u"] {
        want.push(a.to_string());
    }
    assert_eq!(args, want);
    let only_db = scan_command_args(&c, true, Some("/s/clamav"), None, "/x");
    assert_eq!(&only_db[only_db.len() - 3..], &["--database".to_string(), "/s/clamav".to_string(), "/x".to_string()]);
}

#[test]
fn scan_start_failures() {
    assert_eq!(database_failure_message("offline"), "Could not prepare the virus database: offline");
    assert_eq!(launch_failure_message("No such file or directory (os error 2)"), "Failed to start clamscan: No such file or directory (os error 2). Is ClamAV installed?");
}

#[test]
fn joined_outputs_give_both_result_lists() {
    let a = "/tmp/a: OK\r";
    let b = "/tmp/b: Eicar FOUND\n/tmp/c: OK\n";
    let joined = format!("{}\n{}", a, b);
    let paths = |s: &str| -> Vec<String> { parse_clamscan_output(s).into_iter().map(|r| r.path).collect() };
    let mut want = paths(a);
    want.extend(paths(b));
    assert_eq!(paths(&joined), want);
    assert_eq!(paths(&joined), vec!["/tmp/a", "/tmp/b", "/tmp/c"]);
    assert_eq!(paths(&format!("{}\n{}", "", b)), paths(b));
}
