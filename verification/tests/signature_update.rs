use clamtk_rs::update::{
    classify_update_output, command_script, launch_failure, privileged_outcome,
    update_status_message, FreshclamCommand, FreshclamRun, FreshclamStage, FreshclamStep,
    UpdateStatus,
};

fn command_of(step: &FreshclamStep) -> FreshclamCommand {
    match step {
        FreshclamStep::Run { command, .. } => *command,
        FreshclamStep::Done(_) => panic!("the update ended early"),
    }
}

#[test]
fn privileged_output_joins_both_streams() {
    assert_eq!(privileged_outcome(true, "out\n", "err\n"), Ok("out\n\nerr".to_string()));
    assert_eq!(privileged_outcome(true, "", ""), Ok(String::new()));
    assert_eq!(privileged_outcome(false, "out", "  denied \n"), Err("denied".to_string()));
    assert_eq!(launch_failure("not found"), "Failed to launch pkexec: not found");
}

#[test]
fn command_lines() {
    assert_eq!(command_script(FreshclamCommand::StopService), "service clamav-freshclam stop");
    assert_eq!(command_script(FreshclamCommand::UpdateSignatures), "freshclam");
    assert_eq!(command_script(FreshclamCommand::StartService), "service clamav-freshclam start");
}

#[test]
fn successful_update_runs_three_commands() {
    let (mut run, first) = FreshclamRun::start();
    assert_eq!(command_of(&first), FreshclamCommand::StopService);
    match &first {
        FreshclamStep::Run { status, .. } => {
            assert_eq!(status.as_deref(), Some("Stopping freshclam service..."))
        }
        _ => panic!(),
    }
    let second = run.record(Ok(String::new()));
    assert_eq!(command_of(&second), FreshclamCommand::UpdateSignatures);
    let third = run.record(Ok("Database updated".to_string()));
    assert_eq!(command_of(&third), FreshclamCommand::StartService);
    match run.record(Ok(String::new())) {
        FreshclamStep::Done(r) => assert_eq!(
            r,
            Ok("Database updated\nFreshclam service stopped.\n\nFreshclam service started.".to_string())
        ),
        _ => panic!("the update should be over"),
    }
    assert!(matches!(run.stage, FreshclamStage::Finished));
}

#[test]
fn failed_update_restarts_the_service_and_reports() {
    let (mut run, _) = FreshclamRun::start();
    run.record(Err("inactive".to_string()));
    let step = run.record(Err("x".to_string()));
    match &step {
        FreshclamStep::Run { command, status } => {
            assert_eq!(*command, FreshclamCommand::StartService);
            assert_eq!(*status, None);
        }
        _ => panic!(),
    }
    match run.record(Err("ignored".to_string())) {
        FreshclamStep::Done(r) => assert_eq!(r, Err("Signature update failed: x".to_string())),
        _ => panic!("the update should be over"),
    }
    assert_eq!(run.log, vec!["Note: could not stop freshclam service: inactive".to_string()]);
}

#[test]
fn service_notes_follow_the_freshclam_output() {
    let (mut run, _) = FreshclamRun::start();
    run.record(Err("no unit".to_string()));
    run.record(Ok("ClamAV update process started\ndaily.cvd database is up-to-date".to_string()));
    match run.record(Err("no unit".to_string())) {
        FreshclamStep::Done(r) => assert_eq!(
            r,
            Ok("ClamAV update process started\ndaily.cvd database is up-to-date\nNote: could not stop freshclam service: no unit\nNote: could not restart freshclam service: no unit".to_string())
        ),
        _ => panic!(),
    }
}

#[test]
fn update_output_is_classified() {
    assert_eq!(classify_update_output("Database updated (8700000 signatures)"), UpdateStatus::Updated);
    assert_eq!(classify_update_output("main.cvd updated"), UpdateStatus::Updated);
    assert_eq!(classify_update_output("daily.cvd database is already up-to-date"), UpdateStatus::UpToDate);
    assert_eq!(classify_update_output("something else"), UpdateStatus::Unclear);
    assert_eq!(update_status_message(UpdateStatus::Updated), ("✅ Signatures updated successfully!", "status-good"));
    assert_eq!(update_status_message(UpdateStatus::UpToDate), ("ℹ️ Signatures are already up to date.", "status-good"));
    assert_eq!(update_status_message(UpdateStatus::Unclear), ("⚠️ Update completed. Check output for details.", "status-warn"));
}
