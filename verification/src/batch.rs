//! Tasks that are run one after the other, and the report on them.
use vstd::prelude::*;

use crate::api::{DownloadSummary, UploadSummary};
use crate::error::{concat, error_message, outcome, Error, ErrorView};
use crate::path::{lossy_text, LocalPath};
use crate::text::{decimal, numeral};

verus! {

/// Something to do with remote files. The remote paths are those that the user writes.
#[derive(Debug, Clone, PartialEq, Eq)]
pub enum BatchTask {
    Mkdir { path: String },
    Rm { path: String },
    Mv { from: String, to: String },
    Cp { from: String, to: String },
    Upload { local: LocalPath, remote: String, encrypt: bool, force: bool },
    Download { remote: String, local: LocalPath, decrypt: bool, force: bool },
}

/// What a task gives. The remote paths are those of the platform.
#[derive(Debug, Clone, PartialEq, Eq)]
pub enum TaskOutput {
    Path { path: String },
    Relocation { from: String, to: String },
    Upload(UploadSummary),
    Download(DownloadSummary),
}

/// What came of a task.
#[derive(Debug, Clone, PartialEq, Eq)]
pub struct BatchTaskResult {
    pub task: BatchTask,
    pub ok: bool,
    pub output: Option<TaskOutput>,
    pub error: Option<String>,
}

/// What came of a batch.
#[derive(Debug, Clone, PartialEq, Eq)]
pub struct BatchReport {
    pub total: usize,
    pub succeeded: usize,
    pub failed: usize,
    pub results: Vec<BatchTaskResult>,
}

/// A list of tasks, bare or as the member of an object.
#[derive(Debug, Clone, PartialEq, Eq)]
pub enum BatchManifest {
    Tasks(Vec<BatchTask>),
    Wrapped { tasks: Vec<BatchTask> },
}

impl BatchManifest {
    /// The tasks, in either form.
    pub fn into_tasks(self) -> (result: Vec<BatchTask>)
        ensures
            result == (match self {
                BatchManifest::Tasks(tasks) => tasks,
                BatchManifest::Wrapped { tasks } => tasks,
            }),
    {
        match self {
            BatchManifest::Tasks(tasks) => tasks,
            BatchManifest::Wrapped { tasks } => tasks,
        }
    }
}

/// A task in a few words.
pub open spec fn description(task: BatchTask) -> Seq<char> {
    match task {
        BatchTask::Mkdir { path } => "mkdir "@ + path@,
        BatchTask::Rm { path } => "rm "@ + path@,
        BatchTask::Mv { from, to } => "mv "@ + from@ + " -> "@ + to@,
        BatchTask::Cp { from, to } => "cp "@ + from@ + " -> "@ + to@,
        BatchTask::Upload { local, remote, .. } => "upload "@ + lossy_text(local@) + " -> "@
            + remote@,
        BatchTask::Download { remote, local, .. } => "download "@ + remote@ + " -> "@ + lossy_text(
            local@,
        ),
    }
}

fn arrow(verb: &str, from: &str, to: &str) -> (result: String)
    ensures
        result@ == verb@ + from@ + " -> "@ + to@,
{
    let mut text = concat(verb, from);
    text.append(" -> ");
    text.append(to);
    text
}

/// A task in a few words.
pub fn describe_batch_task(task: &BatchTask) -> (result: String)
    ensures
        result@ == description(*task),
{
    match task {
        BatchTask::Mkdir { path } => concat("mkdir ", path.as_str()),
        BatchTask::Rm { path } => concat("rm ", path.as_str()),
        BatchTask::Mv { from, to } => arrow("mv ", from.as_str(), to.as_str()),
        BatchTask::Cp { from, to } => arrow("cp ", from.as_str(), to.as_str()),
        BatchTask::Upload { local, remote, .. } => arrow(
            "upload ",
            local.display().as_str(),
            remote.as_str(),
        ),
        BatchTask::Download { remote, local, .. } => arrow(
            "download ",
            remote.as_str(),
            local.display().as_str(),
        ),
    }
}

/// The line on a task, the `index`th of `total`.
pub open spec fn task_line_text(
    index: nat,
    total: nat,
    task: BatchTask,
    failure: Option<ErrorView>,
) -> Seq<char> {
    let head = "["@ + numeral(index + 1) + "/"@ + numeral(total) + "] "@;
    match failure {
        None => head + "ok: "@ + description(task),
        Some(error) => head + "failed: "@ + description(task) + ": "@ + error_message(error),
    }
}

/// The line on a task, the `index`th of `total`.
pub fn task_line(index: usize, total: usize, task: &BatchTask, failure: Option<&Error>) -> (result:
    String)
    requires
        index < total,
    ensures
        result@ == task_line_text(
            index as nat,
            total as nat,
            *task,
            match failure {
                Some(error) => Some(error@),
                None => None,
            },
        ),
{
    let mut text = concat("[", decimal(index as u64 + 1).as_str());
    text.append("/");
    text.append(decimal(total as u64).as_str());
    text.append("] ");
    match failure {
        None => {
            text.append("ok: ");
            text.append(describe_batch_task(task).as_str());
        },
        Some(error) => {
            text.append("failed: ");
            text.append(describe_batch_task(task).as_str());
            text.append(": ");
            text.append(error.to_string().as_str());
        },
    }
    text
}

/// How many of the tasks succeeded.
pub open spec fn successes(results: Seq<BatchTaskResult>) -> nat
    decreases results.len(),
{
    if results.len() == 0 {
        0
    } else if results.last().ok {
        successes(results.drop_last()) + 1
    } else {
        successes(results.drop_last())
    }
}

/// A batch on its way.
#[derive(Debug, Clone, PartialEq, Eq)]
pub struct BatchRun {
    pub total: usize,
    pub continue_on_error: bool,
    pub results: Vec<BatchTaskResult>,
}

/// What is noted of a task.
pub open spec fn result_of(task: BatchTask, outcome: Result<TaskOutput, Error>, noted: BatchTaskResult) -> bool {
    &&& noted.task == task
    &&& match outcome {
        Ok(output) => noted.ok && noted.output == Some(output) && noted.error is None,
        Err(error) => !noted.ok && noted.output is None && noted.error is Some
            && noted.error->0@ == error_message(error@),
    }
}

impl BatchRun {
    /// Unless the batch goes on after errors, no task comes after one that failed.
    pub open spec fn wf(&self) -> bool {
        &&& self.results@.len() <= self.total
        &&& !self.continue_on_error ==> forall|i: int|
            0 <= i < self.results@.len() - 1 ==> (#[trigger] self.results@[i]).ok
    }

    /// There is a task left to run.
    pub open spec fn going_on(&self) -> bool {
        &&& self.results@.len() < self.total
        &&& self.continue_on_error || self.results@.len() == 0 || self.results@.last().ok
    }

    pub fn new(total: usize, continue_on_error: bool) -> (result: BatchRun)
        ensures
            result.wf(),
            result.total == total,
            result.continue_on_error == continue_on_error,
            result.results@.len() == 0,
    {
        BatchRun { total, continue_on_error, results: Vec::new() }
    }

    /// The number of the task to run next, from zero on, if there is one.
    pub fn next(&self) -> (result: Option<usize>)
        requires
            self.wf(),
        ensures
            result == (if self.going_on() {
                Some(self.results@.len() as usize)
            } else {
                None
            }),
    {
        let done = self.results.len();
        if done >= self.total {
            return None;
        }
        if self.continue_on_error || done == 0 || self.results[done - 1].ok {
            Some(done)
        } else {
            None
        }
    }

    /// Notes what came of a task.
    pub fn record(&mut self, task: BatchTask, outcome: Result<TaskOutput, Error>)
        requires
            old(self).wf(),
            old(self).going_on(),
        ensures
            final(self).wf(),
            final(self).total == old(self).total,
            final(self).continue_on_error == old(self).continue_on_error,
            final(self).results@.len() == old(self).results@.len() + 1,
            final(self).results@.drop_last() == old(self).results@,
            result_of(task, outcome, final(self).results@.last()),
    {
        let noted = match outcome {
            Ok(output) => BatchTaskResult { task, ok: true, output: Some(output), error: None },
            Err(error) => BatchTaskResult {
                task,
                ok: false,
                output: None,
                error: Some(error.to_string()),
            },
        };
        let ghost before = self.results@;
        self.results.push(noted);
        assert(self.results@.drop_last() =~= before);
    }

    /// The report on what was run.
    pub fn report(self) -> (result: BatchReport)
        requires
            self.wf(),
        ensures
            result.total == self.total,
            result.succeeded == successes(self.results@),
            result.succeeded + result.failed == self.results@.len(),
            result.results == self.results,
    {
        let mut succeeded: usize = 0;
        let mut i: usize = 0;
        assert(self.results@.take(0) == Seq::<BatchTaskResult>::empty());
        while i < self.results.len()
            invariant
                succeeded <= i <= self.results@.len(),
                succeeded == successes(self.results@.take(i as int)),
            decreases self.results@.len() - i,
        {
            assert(self.results@.take(i + 1).drop_last() == self.results@.take(i as int));
            if self.results[i].ok {
                succeeded = succeeded + 1;
            }
            i = i + 1;
        }
        assert(self.results@.take(i as int) == self.results@);
        BatchReport {
            total: self.total,
            succeeded,
            failed: self.results.len() - succeeded,
            results: self.results,
        }
    }
}

proof fn lemma_all_succeeded(results: Seq<BatchTaskResult>)
    requires
        forall|i: int| 0 <= i < results.len() ==> (#[trigger] results[i]).ok,
    ensures
        successes(results) == results.len(),
    decreases results.len(),
{
    if results.len() > 0 {
        lemma_all_succeeded(results.drop_last());
    }
}

/// A batch that does not go on after errors stops at the first: when nothing is left to run, either
/// every task was run and succeeded, or exactly one failed, and it was the last that was run. A batch
/// that goes on after errors runs every task.
pub proof fn law_stops_at_first_failure(run: BatchRun)
    requires
        run.wf(),
        !run.going_on(),
    ensures
        run.continue_on_error ==> run.results@.len() == run.total,
        !run.continue_on_error ==> {
            ||| run.results@.len() == run.total && successes(run.results@) == run.total
            ||| run.results@.len() > 0 && !run.results@.last().ok && successes(run.results@)
                == run.results@.len() - 1
        },
{
    if !run.continue_on_error && run.results@.len() > 0 {
        lemma_all_succeeded(run.results@.drop_last());
    }
}

impl BatchReport {
    /// The line on the whole batch.
    pub fn line(&self) -> (result: String)
        ensures
            result@ == "batch complete: "@ + numeral(self.succeeded as nat) + " succeeded, "@
                + numeral(self.failed as nat) + " failed, "@ + numeral(self.total as nat)
                + " total"@,
    {
        let mut text = concat("batch complete: ", decimal(self.succeeded as u64).as_str());
        text.append(" succeeded, ");
        text.append(decimal(self.failed as u64).as_str());
        text.append(" failed, ");
        text.append(decimal(self.total as u64).as_str());
        text.append(" total");
        text
    }

    /// What the batch as a whole comes to: a failure where any task failed.
    pub fn verdict(&self) -> (result: Result<(), Error>)
        ensures
            outcome(result) == (if self.failed > 0 {
                Err(
                    ErrorView::Api(
                        "batch completed with "@ + numeral(self.failed as nat) + " failure(s)"@,
                    ),
                )
            } else {
                Ok(())
            }),
    {
        if self.failed > 0 {
            let mut text = concat("batch completed with ", decimal(self.failed as u64).as_str());
            text.append(" failure(s)");
            return Err(Error::Api(text));
        }
        Ok(())
    }
}

} // verus!
