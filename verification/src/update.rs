//! The manual signature update: stopping the freshclam service, running
//! freshclam and starting the service again, each through `pkexec`.
use vstd::prelude::*;
use crate::text::{chars_of, contains, contains_exec, join, string_from, trim, trim_chars, views};

verus! {

broadcast use vstd::string::group_string_axioms;

/// The result of a privileged command: its output, or the error text.
pub open spec fn result_view(r: Result<String, String>) -> Result<Seq<char>, Seq<char>> {
    match r {
        Ok(s) => Ok(s@),
        Err(e) => Err(e@),
    }
}

/// What a privileged command gives back: on success its standard output and
/// error output, one line apart and trimmed; on failure its trimmed error
/// output.
pub open spec fn privileged_result(success: bool, stdout: Seq<char>, stderr: Seq<char>) -> Result<
    Seq<char>,
    Seq<char>,
> {
    if success {
        Ok(trim(stdout + "\n"@ + stderr))
    } else {
        Err(trim(stderr))
    }
}

/// The result of a privileged command that ran: `success` is its exit
/// status, `stdout` and `stderr` its decoded output.
pub fn privileged_outcome(success: bool, stdout: &str, stderr: &str) -> (r: Result<String, String>)
    ensures
        result_view(r) == privileged_result(success, stdout@, stderr@),
{
    if success {
        let mut all = String::from_str(stdout);
        all.append("\n");
        all.append(stderr);
        let v = chars_of(all.as_str());
        Ok(string_from(&trim_chars(&v)))
    } else {
        let v = chars_of(stderr);
        Err(string_from(&trim_chars(&v)))
    }
}

/// The error when `pkexec` itself could not be started.
pub fn launch_failure(error: &str) -> (r: String)
    ensures
        r@ == "Failed to launch pkexec: "@ + error@,
{
    let mut r = String::from_str("Failed to launch pkexec: ");
    r.append(error);
    r
}

/// The privileged commands of an update.
#[derive(Debug, Clone, Copy, PartialEq, Eq, Structural)]
pub enum FreshclamCommand {
    StopService,
    UpdateSignatures,
    StartService,
}

/// The shell command line of a privileged command.
pub open spec fn script(c: FreshclamCommand) -> Seq<char> {
    match c {
        FreshclamCommand::StopService => "service clamav-freshclam stop"@,
        FreshclamCommand::UpdateSignatures => "freshclam"@,
        FreshclamCommand::StartService => "service clamav-freshclam start"@,
    }
}

/// The shell command line that `pkexec sh -c` runs for `command`.
pub fn command_script(command: FreshclamCommand) -> (r: &'static str)
    ensures
        r@ == script(command),
{
    match command {
        FreshclamCommand::StopService => "service clamav-freshclam stop",
        FreshclamCommand::UpdateSignatures => "freshclam",
        FreshclamCommand::StartService => "service clamav-freshclam start",
    }
}

/// Where an update stands: which command runs next, or that it is over.
#[derive(Debug)]
pub enum FreshclamStage {
    Stopping,
    Updating,
    Starting,
    /// The update failed with this error; the service is being started again.
    Recovering(String),
    Finished,
}

/// What the caller does next: run a command (after showing the status, if
/// any), or report the end of the update.
#[derive(Debug)]
pub enum FreshclamStep {
    Run { command: FreshclamCommand, status: Option<String> },
    Done(Result<String, String>),
}

/// The spec form of a `FreshclamStage`.
pub enum StageView {
    Stopping,
    Updating,
    Starting,
    Recovering(Seq<char>),
    Finished,
}

/// The spec form of a `FreshclamStep`.
pub enum StepView {
    Run(FreshclamCommand, Option<Seq<char>>),
    Done(Result<Seq<char>, Seq<char>>),
}

pub open spec fn stage_view(s: FreshclamStage) -> StageView {
    match s {
        FreshclamStage::Stopping => StageView::Stopping,
        FreshclamStage::Updating => StageView::Updating,
        FreshclamStage::Starting => StageView::Starting,
        FreshclamStage::Recovering(e) => StageView::Recovering(e@),
        FreshclamStage::Finished => StageView::Finished,
    }
}

pub open spec fn step_view(s: FreshclamStep) -> StepView {
    match s {
        FreshclamStep::Run { command, status } => StepView::Run(
            command,
            match status {
                Some(t) => Some(t@),
                None => None,
            },
        ),
        FreshclamStep::Done(r) => StepView::Done(result_view(r)),
    }
}

/// The log line for the result of stopping the service.
pub open spec fn stop_line(r: Result<Seq<char>, Seq<char>>) -> Seq<char> {
    match r {
        Ok(out) => "Freshclam service stopped.\n"@ + out,
        Err(e) => "Note: could not stop freshclam service: "@ + e,
    }
}

/// The log line for the result of starting the service.
pub open spec fn start_line(r: Result<Seq<char>, Seq<char>>) -> Seq<char> {
    match r {
        Ok(out) => "Freshclam service started.\n"@ + out,
        Err(e) => "Note: could not restart freshclam service: "@ + e,
    }
}

/// Stage, log and freshclam output after a command's result, and the next
/// step.
pub open spec fn freshclam_step(
    stage: StageView,
    log: Seq<Seq<char>>,
    output: Seq<char>,
    r: Result<Seq<char>, Seq<char>>,
) -> (StageView, Seq<Seq<char>>, Seq<char>, StepView) {
    match stage {
        StageView::Stopping => (
            StageView::Updating,
            log.push(stop_line(r)),
            output,
            StepView::Run(
                FreshclamCommand::UpdateSignatures,
                Some("Updating virus signatures (root password required)..."@),
            ),
        ),
        StageView::Updating => match r {
            Ok(out) => (
                StageView::Starting,
                log,
                out,
                StepView::Run(FreshclamCommand::StartService, Some("Starting freshclam service..."@)),
            ),
            Err(e) => (
                StageView::Recovering("Signature update failed: "@ + e),
                log,
                output,
                StepView::Run(FreshclamCommand::StartService, None),
            ),
        },
        StageView::Starting => {
            let l = log.push(start_line(r));
            (StageView::Finished, l, output, StepView::Done(Ok(trim(output + "\n"@ + join(l, "\n"@)))))
        },
        StageView::Recovering(e) => (StageView::Finished, log, output, StepView::Done(Err(e))),
        StageView::Finished => (StageView::Finished, log, output, StepView::Done(Err(seq![]))),
    }
}

/// What an update ends with, given the results of its three commands: the
/// failure of freshclam, or its output followed by the two service notes.
pub open spec fn freshclam_outcome(
    stop: Result<Seq<char>, Seq<char>>,
    update: Result<Seq<char>, Seq<char>>,
    start: Result<Seq<char>, Seq<char>>,
) -> Result<Seq<char>, Seq<char>> {
    match update {
        Ok(out) => Ok(trim(out + "\n"@ + stop_line(stop) + "\n"@ + start_line(start))),
        Err(e) => Err("Signature update failed: "@ + e),
    }
}

/// An update in progress.
pub struct FreshclamRun {
    pub stage: FreshclamStage,
    pub log: Vec<String>,
    pub update_output: String,
}

impl FreshclamRun {
    /// A new update and its first step: stopping the service.
    pub fn start() -> (r: (FreshclamRun, FreshclamStep))
        ensures
            stage_view(r.0.stage) == StageView::Stopping,
            r.0.log@.len() == 0,
            r.0.update_output@ == Seq::<char>::empty(),
            step_view(r.1) == StepView::Run(
                FreshclamCommand::StopService,
                Some("Stopping freshclam service..."@),
            ),
    {
        (
            FreshclamRun { stage: FreshclamStage::Stopping, log: Vec::new(), update_output: String::new() },
            FreshclamStep::Run {
                command: FreshclamCommand::StopService,
                status: Some(String::from_str("Stopping freshclam service...")),
            },
        )
    }

    /// Takes the result of the command of the last step; returns the next.
    pub fn record(&mut self, result: Result<String, String>) -> (step: FreshclamStep)
        ensures
            ({
                let n = freshclam_step(
                    stage_view(old(self).stage),
                    views(old(self).log@),
                    old(self).update_output@,
                    result_view(result),
                );
                &&& stage_view(final(self).stage) == n.0
                &&& views(final(self).log@) == n.1
                &&& final(self).update_output@ == n.2
                &&& step_view(step) == n.3
            }),
    {
        let ghost old_log = views(self.log@);
        match self.stage {
            FreshclamStage::Stopping => {
                let line = match result {
                    Ok(out) => {
                        let mut l = String::from_str("Freshclam service stopped.\n");
                        l.append(out.as_str());
                        l
                    },
                    Err(e) => {
                        let mut l = String::from_str("Note: could not stop freshclam service: ");
                        l.append(e.as_str());
                        l
                    },
                };
                self.log.push(line);
                assert(views(self.log@) =~= old_log.push(line@));
                self.stage = FreshclamStage::Updating;
                FreshclamStep::Run {
                    command: FreshclamCommand::UpdateSignatures,
                    status: Some(
                        String::from_str("Updating virus signatures (root password required)..."),
                    ),
                }
            },
            FreshclamStage::Updating => match result {
                Ok(out) => {
                    self.update_output = out;
                    self.stage = FreshclamStage::Starting;
                    FreshclamStep::Run {
                        command: FreshclamCommand::StartService,
                        status: Some(String::from_str("Starting freshclam service...")),
                    }
                },
                Err(e) => {
                    let mut msg = String::from_str("Signature update failed: ");
                    msg.append(e.as_str());
                    self.stage = FreshclamStage::Recovering(msg);
                    FreshclamStep::Run { command: FreshclamCommand::StartService, status: None }
                },
            },
            FreshclamStage::Starting => {
                let line = match result {
                    Ok(out) => {
                        let mut l = String::from_str("Freshclam service started.\n");
                        l.append(out.as_str());
                        l
                    },
                    Err(e) => {
                        let mut l = String::from_str("Note: could not restart freshclam service: ");
                        l.append(e.as_str());
                        l
                    },
                };
                self.log.push(line);
                assert(views(self.log@) =~= old_log.push(line@));
                self.stage = FreshclamStage::Finished;
                let mut all = self.update_output.clone();
                all.append("\n");
                let joined = crate::text::join_strings(&self.log, "\n");
                all.append(joined.as_str());
                let v = chars_of(all.as_str());
                FreshclamStep::Done(Ok(string_from(&trim_chars(&v))))
            },
            FreshclamStage::Recovering(_) => {
                let mut stage = FreshclamStage::Finished;
                std::mem::swap(&mut stage, &mut self.stage);
                match stage {
                    FreshclamStage::Recovering(e) => FreshclamStep::Done(Err(e)),
                    _ => FreshclamStep::Done(Err(String::new())),
                }
            },
            FreshclamStage::Finished => FreshclamStep::Done(Err(String::new())),
        }
    }
}

/// Whatever the three commands give back, the update ends as
/// `freshclam_outcome` says, after exactly three commands.
pub proof fn law_freshclam_sequence(
    stop: Result<Seq<char>, Seq<char>>,
    update: Result<Seq<char>, Seq<char>>,
    start: Result<Seq<char>, Seq<char>>,
)
    ensures
        ({
            let s1 = freshclam_step(StageView::Stopping, seq![], seq![], stop);
            let s2 = freshclam_step(s1.0, s1.1, s1.2, update);
            let s3 = freshclam_step(s2.0, s2.1, s2.2, start);
            &&& s1.3 is Run
            &&& s2.3 is Run
            &&& s3.3 == StepView::Done(freshclam_outcome(stop, update, start))
        }),
{
    let l = seq![stop_line(stop), start_line(start)];
    assert(seq![stop_line(stop)].push(start_line(start)) =~= l);
    assert(l.drop_last() =~= seq![stop_line(stop)]);
    assert(join(seq![stop_line(stop)], "\n"@) == stop_line(stop));
    assert(l.last() == start_line(start));
    assert(join(l, "\n"@) == stop_line(stop) + "\n"@ + start_line(start));
    match update {
        Ok(out) => {
            assert(out + "\n"@ + join(l, "\n"@) =~= out + "\n"@ + stop_line(stop) + "\n"@
                + start_line(start));
        },
        Err(_) => {},
    }
}

/// What the update page says of a finished update.
#[derive(Debug, Clone, Copy, PartialEq, Eq, Structural)]
pub enum UpdateStatus {
    /// New signatures were downloaded.
    Updated,
    /// The signatures were already current.
    UpToDate,
    /// The output says neither; the user should read it.
    Unclear,
}

/// How the output of a successful update reads.
pub open spec fn update_status(output: Seq<char>) -> UpdateStatus {
    if contains(output, "Database updated"@) || contains(output, "main.cvd"@) {
        UpdateStatus::Updated
    } else if contains(output, "already up-to-date"@) {
        UpdateStatus::UpToDate
    } else {
        UpdateStatus::Unclear
    }
}

/// An output that reports new signatures (`Database updated`, or a new
/// `main.cvd`) reads as updated, whatever else it says; it reads as up to
/// date only when it reports none of them and says `already up-to-date`;
/// any other output is unclear.
pub proof fn law_update_status(output: Seq<char>)
    ensures
        contains(output, "Database updated"@) ==> update_status(output) == UpdateStatus::Updated,
        contains(output, "main.cvd"@) ==> update_status(output) == UpdateStatus::Updated,
        update_status(output) == UpdateStatus::UpToDate <==> (!contains(output, "Database updated"@)
            && !contains(output, "main.cvd"@) && contains(output, "already up-to-date"@)),
        update_status(output) == UpdateStatus::Unclear <==> (!contains(output, "Database updated"@)
            && !contains(output, "main.cvd"@) && !contains(output, "already up-to-date"@)),
{
}

/// How the output of a successful update reads.
pub fn classify_update_output(output: &str) -> (r: UpdateStatus)
    ensures
        r == update_status(output@),
{
    let v = chars_of(output);
    if contains_exec(&v, &chars_of("Database updated")) || contains_exec(&v, &chars_of("main.cvd")) {
        UpdateStatus::Updated
    } else if contains_exec(&v, &chars_of("already up-to-date")) {
        UpdateStatus::UpToDate
    } else {
        UpdateStatus::Unclear
    }
}

/// The message the update page shows for a status, and its style class.
pub fn update_status_message(status: UpdateStatus) -> (r: (&'static str, &'static str))
    ensures
        r.0@ == match status {
            UpdateStatus::Updated => "✅ Signatures updated successfully!"@,
            UpdateStatus::UpToDate => "ℹ️ Signatures are already up to date."@,
            UpdateStatus::Unclear => "⚠️ Update completed. Check output for details."@,
        },
        r.1@ == match status {
            UpdateStatus::Updated => "status-good"@,
            UpdateStatus::UpToDate => "status-good"@,
            UpdateStatus::Unclear => "status-warn"@,
        },
{
    match status {
        UpdateStatus::Updated => ("✅ Signatures updated successfully!", "status-good"),
        UpdateStatus::UpToDate => ("ℹ️ Signatures are already up to date.", "status-good"),
        UpdateStatus::Unclear => ("⚠️ Update completed. Check output for details.", "status-warn"),
    }
}

} // verus!
