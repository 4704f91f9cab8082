//! The download → verify → extract → install state machine. The caller
//! does the I/O a stage asks for and reports the outcome; the machine
//! decides the next stage and when the scratch directory is released.
use vstd::prelude::*;
use crate::archive::ArchiveExtractInfo;

verus! {

/// A scratch directory that is removed once released.
pub struct TmpDir {
    pub path: String,
    /// Set while removal should happen on a worker rather than inline.
    pub should_not_block: bool,
}

impl TmpDir {
    /// Whether removing it now is a blocking removal worth a warning: it
    /// should not block, and the process is not being cancelled.
    pub fn removal_warns(&self, cancelled: bool) -> (r: bool)
        ensures
            r == (self.should_not_block && !cancelled),
    {
        self.should_not_block && !cancelled
    }
}

/// Progress as shown to the user.
#[derive(Debug, PartialEq, Eq)]
pub enum Status {
    InProgress { name: String, progress_ratio: Option<(u64, u64)> },
    Stopped,
}

/// Where the machine stands.
#[derive(Clone, Copy, Debug, PartialEq, Eq, Structural)]
pub enum Stage {
    Downloading { downloaded: u64, total: Option<u64> },
    Extracting,
    Stopped,
}

/// What the caller observed while doing the work of the current stage.
#[derive(Clone, Copy, Debug, PartialEq, Eq, Structural)]
pub enum StepOutcome {
    /// A body chunk of this many bytes was written to the archive file.
    Chunk(u64),
    /// The body ended and the downloaded archive passed verification.
    Downloaded,
    /// The archive was extracted and moved into place.
    Extracted,
    /// The work of the stage failed.
    Failed,
}

/// What the caller should do next.
#[derive(Clone, Copy, Debug, PartialEq, Eq, Structural)]
pub enum Action {
    ReadChunk,
    Extract,
    /// Cancellation was observed: stop and release the scratch.
    Abort,
    Finish,
}

#[derive(Clone, Copy, Debug, PartialEq, Eq, Structural)]
pub enum PipelineError {
    AlreadyStopped,
    /// The outcome does not belong to the current stage.
    UnexpectedOutcome,
    Failed,
}

/// Work run when a stage's I/O is done: verifying the download, and
/// moving the extracted tree into place.
pub trait DownloadExtractCallback {
    fn on_downloaded(&mut self, info: &ArchiveExtractInfo) -> Result<(), String>;

    fn on_extracted(&mut self, info: &ArchiveExtractInfo) -> Result<(), String>;
}

pub struct DownloadExtractState {
    pub stage: Stage,
    pub info: ArchiveExtractInfo,
    pub scratch: Option<TmpDir>,
}

/// The stage after an outcome, or the error it ends in.
pub open spec fn next_stage(stage: Stage, outcome: StepOutcome) -> Result<Stage, PipelineError> {
    match stage {
        Stage::Stopped => Err(PipelineError::AlreadyStopped),
        Stage::Downloading { downloaded, total } => match outcome {
            StepOutcome::Chunk(n) => Ok(
                Stage::Downloading {
                    downloaded: if downloaded + n > u64::MAX {
                        u64::MAX
                    } else {
                        (downloaded + n) as u64
                    },
                    total,
                },
            ),
            StepOutcome::Downloaded => Ok(Stage::Extracting),
            StepOutcome::Failed => Err(PipelineError::Failed),
            StepOutcome::Extracted => Err(PipelineError::UnexpectedOutcome),
        },
        Stage::Extracting => match outcome {
            StepOutcome::Extracted => Ok(Stage::Stopped),
            StepOutcome::Failed => Err(PipelineError::Failed),
            _ => Err(PipelineError::UnexpectedOutcome),
        },
    }
}

/// The scratch is held exactly while work remains.
pub open spec fn holds_scratch(r: Result<Stage, PipelineError>) -> bool {
    r matches Ok(s) && !(s is Stopped)
}

impl DownloadExtractState {
    pub open spec fn well_formed(&self) -> bool {
        (self.stage is Stopped) == (self.scratch is None)
    }

    /// A machine that starts downloading into `scratch`.
    pub fn start(info: ArchiveExtractInfo, scratch: TmpDir, total: Option<u64>) -> (r: Self)
        ensures
            r.well_formed(),
            r.stage == (Stage::Downloading { downloaded: 0, total }),
            r.scratch == Some(scratch),
    {
        DownloadExtractState {
            stage: Stage::Downloading { downloaded: 0, total },
            info,
            scratch: Some(scratch),
        }
    }

    /// Progress of the most recent step.
    pub fn status(&self) -> (r: Status)
        ensures
            match self.stage {
                Stage::Downloading { downloaded, total } => r matches Status::InProgress {
                    name,
                    progress_ratio,
                } && name@ == "Downloading"@ && progress_ratio == match total {
                    Some(t) => Some((downloaded, t)),
                    None => None,
                },
                Stage::Extracting => r matches Status::InProgress { name, progress_ratio }
                    && name@ == "Extracting"@ && progress_ratio is None,
                Stage::Stopped => r is Stopped,
            },
    {
        match self.stage {
            Stage::Downloading { downloaded, total } => Status::InProgress {
                name: String::from_str("Downloading"),
                progress_ratio: match total {
                    Some(t) => Some((downloaded, t)),
                    None => None,
                },
            },
            Stage::Extracting => Status::InProgress {
                name: String::from_str("Extracting"),
                progress_ratio: None,
            },
            Stage::Stopped => Status::Stopped,
        }
    }

    /// What to do before the next step; cancellation stops any unfinished run.
    pub fn next_action(&self, cancelled: bool) -> (r: Action)
        ensures
            r == match self.stage {
                Stage::Stopped => Action::Finish,
                _ => if cancelled {
                    Action::Abort
                } else {
                    match self.stage {
                        Stage::Downloading { .. } => Action::ReadChunk,
                        _ => Action::Extract,
                    }
                },
            },
    {
        match self.stage {
            Stage::Stopped => Action::Finish,
            Stage::Downloading { .. } => if cancelled {
                Action::Abort
            } else {
                Action::ReadChunk
            },
            Stage::Extracting => if cancelled {
                Action::Abort
            } else {
                Action::Extract
            },
        }
    }

    /// Runs the callback that closes the current stage and reports how it
    /// went: after the last chunk the download is checked, after extraction
    /// the install is put in place. A stopped machine has nothing to close.
    pub fn finish_stage<C: DownloadExtractCallback>(&self, callback: &mut C) -> (r: StepOutcome)
        ensures
            match self.stage {
                Stage::Downloading { .. } => r == StepOutcome::Downloaded || r == StepOutcome::Failed,
                Stage::Extracting => r == StepOutcome::Extracted || r == StepOutcome::Failed,
                Stage::Stopped => r == StepOutcome::Failed,
            },
    {
        match self.stage {
            Stage::Downloading { .. } => match callback.on_downloaded(&self.info) {
                Ok(()) => StepOutcome::Downloaded,
                Err(_) => StepOutcome::Failed,
            },
            Stage::Extracting => match callback.on_extracted(&self.info) {
                Ok(()) => StepOutcome::Extracted,
                Err(_) => StepOutcome::Failed,
            },
            Stage::Stopped => StepOutcome::Failed,
        }
    }

    /// Applies an outcome. The scratch comes back for removal whenever the
    /// run ends: on completion, on failure, and on a misplaced outcome.
    pub fn advance(self, outcome: StepOutcome) -> (r: (Result<DownloadExtractState, PipelineError>, Option<TmpDir>))
        requires
            self.well_formed(),
        ensures
            match next_stage(self.stage, outcome) {
                Ok(s) => r.0 matches Ok(m) && m.stage == s && m.well_formed(),
                Err(e) => r.0 == Err::<DownloadExtractState, PipelineError>(e),
            },
            holds_scratch(next_stage(self.stage, outcome)) ==> r.1 is None,
            !holds_scratch(next_stage(self.stage, outcome)) ==> r.1 == self.scratch,
    {
        let DownloadExtractState { stage, info, scratch } = self;
        match stage {
            Stage::Stopped => (Err(PipelineError::AlreadyStopped), scratch),
            Stage::Downloading { downloaded, total } => match outcome {
                StepOutcome::Chunk(n) => {
                    let d = downloaded.saturating_add(n);
                    (Ok(DownloadExtractState { stage: Stage::Downloading { downloaded: d, total }, info, scratch }), None)
                },
                StepOutcome::Downloaded => (Ok(DownloadExtractState { stage: Stage::Extracting, info, scratch }), None),
                StepOutcome::Failed => (Err(PipelineError::Failed), scratch),
                StepOutcome::Extracted => (Err(PipelineError::UnexpectedOutcome), scratch),
            },
            Stage::Extracting => match outcome {
                StepOutcome::Extracted => (Ok(DownloadExtractState { stage: Stage::Stopped, info, scratch: None }), scratch),
                StepOutcome::Failed => (Err(PipelineError::Failed), scratch),
                _ => (Err(PipelineError::UnexpectedOutcome), scratch),
            },
        }
    }
}

/// Runs a list of outcomes from `stage`, stopping at the first error.
pub open spec fn run_outcomes(stage: Stage, outcomes: Seq<StepOutcome>) -> Result<Stage, PipelineError>
    decreases outcomes.len(),
{
    if outcomes.len() == 0 {
        Ok(stage)
    } else {
        match next_stage(stage, outcomes[0]) {
            Ok(s) => run_outcomes(s, outcomes.drop_first()),
            Err(e) => Err(e),
        }
    }
}

/// A run only completes through a successful extraction, which is the step
/// that moves the install into place; and a completed run no longer holds
/// its scratch.
pub proof fn lemma_completion_needs_extraction(stage: Stage, outcomes: Seq<StepOutcome>)
    requires
        !(stage is Stopped),
        run_outcomes(stage, outcomes) == Ok::<Stage, PipelineError>(Stage::Stopped),
    ensures
        outcomes.len() > 0,
        outcomes.last() == StepOutcome::Extracted,
        !holds_scratch(run_outcomes(stage, outcomes)),
    decreases outcomes.len(),
{
    let s = next_stage(stage, outcomes[0])->Ok_0;
    if s is Stopped {
        if outcomes.len() > 1 {
            assert(next_stage(s, outcomes.drop_first()[0]) is Err);
        }
    } else {
        lemma_completion_needs_extraction(s, outcomes.drop_first());
        assert(outcomes.drop_first().last() == outcomes.last());
    }
}

/// A run that fails, from any stage, no longer holds its scratch.
pub proof fn lemma_failure_releases_scratch(stage: Stage, outcome: StepOutcome)
    requires
        next_stage(stage, outcome) is Err,
    ensures
        !holds_scratch(next_stage(stage, outcome)),
{
}

} // verus!
