//! The steps of one packaging job and what each outcome leads to.
use vstd::prelude::*;
use vstd::string::*;
use crate::work::Work;

verus! {

/// Where a job stands among its steps.
#[derive(Clone, Copy, Debug, PartialEq, Eq, Structural)]
pub enum JobStage {
    /// Fetching the asset of this download index.
    Download(usize),
    InstallModel,
    InstallPano,
    WriteManifest,
    CopyStatic,
    Finished,
}

/// The outcome of the step just performed.
pub enum StepOutcome {
    Done,
    Failed(String),
}

/// What the runner of the job must do next.
pub enum JobAction {
    /// Fetch asset `i`, store it under `origin/` and its JSONP script under
    /// `preview/`, then report progress.
    Fetch(usize),
    /// Fetch and expand the model archive, then its texture zip.
    InstallModel,
    /// Fetch and expand the panorama archive.
    InstallPano,
    /// Write `preview/work.js` and `origin/work.json`.
    WriteManifest,
    /// Copy the viewer's static files into `preview/`.
    CopyStatic,
    /// Mark the job `success`.
    Succeed,
    /// Mark the job `failure` with this message.
    Fail(String),
}

/// The first step of a job with `count` downloads.
pub open spec fn spec_start(count: nat) -> (JobStage, JobAction) {
    if count == 0 {
        (JobStage::InstallModel, JobAction::InstallModel)
    } else {
        (JobStage::Download(0), JobAction::Fetch(0))
    }
}

/// The step after `stage` with the given outcome. A failed download, a failed
/// manifest write or a failed copy ends the job with that failure; the two
/// archive steps go on whatever their outcome.
pub open spec fn spec_advance(stage: JobStage, count: nat, outcome: StepOutcome) -> (
    JobStage,
    JobAction,
) {
    match (stage, outcome) {
        (JobStage::Download(_), StepOutcome::Failed(m)) => (JobStage::Finished, JobAction::Fail(m)),
        (JobStage::Download(i), StepOutcome::Done) => if i + 1 < count {
            (JobStage::Download((i + 1) as usize), JobAction::Fetch((i + 1) as usize))
        } else {
            (JobStage::InstallModel, JobAction::InstallModel)
        },
        (JobStage::InstallModel, _) => (JobStage::InstallPano, JobAction::InstallPano),
        (JobStage::InstallPano, _) => (JobStage::WriteManifest, JobAction::WriteManifest),
        (JobStage::WriteManifest, StepOutcome::Done) => (JobStage::CopyStatic, JobAction::CopyStatic),
        (JobStage::CopyStatic, StepOutcome::Done) => (JobStage::Finished, JobAction::Succeed),
        (_, StepOutcome::Failed(m)) => (JobStage::Finished, JobAction::Fail(m)),
        (_, StepOutcome::Done) => (JobStage::Finished, JobAction::Succeed),
    }
}

/// The first step of a job with `count` downloads.
pub fn start_job(count: usize) -> (r: (JobStage, JobAction))
    ensures
        r == spec_start(count as nat),
{
    if count == 0 {
        (JobStage::InstallModel, JobAction::InstallModel)
    } else {
        (JobStage::Download(0), JobAction::Fetch(0))
    }
}

/// The step that follows `stage`, given its outcome; `count` is the number
/// of downloads of the job.
pub fn advance(stage: JobStage, count: usize, outcome: StepOutcome) -> (r: (JobStage, JobAction))
    requires
        stage != JobStage::Finished,
        stage matches JobStage::Download(i) ==> i < count,
    ensures
        r == spec_advance(stage, count as nat, outcome),
{
    match stage {
        JobStage::Download(i) => match outcome {
            StepOutcome::Failed(m) => (JobStage::Finished, JobAction::Fail(m)),
            StepOutcome::Done => if i + 1 < count {
                (JobStage::Download(i + 1), JobAction::Fetch(i + 1))
            } else {
                (JobStage::InstallModel, JobAction::InstallModel)
            },
        },
        JobStage::InstallModel => (JobStage::InstallPano, JobAction::InstallPano),
        JobStage::InstallPano => (JobStage::WriteManifest, JobAction::WriteManifest),
        JobStage::WriteManifest => match outcome {
            StepOutcome::Done => (JobStage::CopyStatic, JobAction::CopyStatic),
            StepOutcome::Failed(m) => (JobStage::Finished, JobAction::Fail(m)),
        },
        JobStage::CopyStatic => match outcome {
            StepOutcome::Done => (JobStage::Finished, JobAction::Succeed),
            StepOutcome::Failed(m) => (JobStage::Finished, JobAction::Fail(m)),
        },
        JobStage::Finished => (JobStage::Finished, JobAction::Succeed),
    }
}

/// The number of progress steps of a job: its downloads and the two
/// archives.
pub fn progress_total(count: usize) -> (r: usize)
    requires
        count + 2 <= usize::MAX,
    ensures
        r == count + 2,
{
    count + 2
}

/// The content of `preview/work.js`: the manifest's JSON bound to `workJSON`.
pub fn manifest_script(work_json: &str) -> (r: String)
    ensures
        r@ == "var workJSON = "@ + work_json@,
{
    let mut r = "var workJSON = ".to_owned();
    r.append(work_json);
    r
}

impl Work {
    /// Where the model archive is fetched from.
    pub fn model_archive_url(&self) -> (r: String)
        ensures
            r@ == self.base_url@ + "src_model.tar"@,
    {
        self.with_base_url("src_model.tar")
    }

    /// Where the panorama archive is fetched from.
    pub fn pano_archive_url(&self) -> (r: String)
        ensures
            r@ == self.base_url@ + "src_pano.tar"@,
    {
        self.with_base_url("src_pano.tar")
    }
}

/// What to do with one entry of the texture zip.
pub enum ZipEntryAction {
    /// Create this directory, with its parents.
    CreateDir(String),
    /// Leave the file already there untouched.
    Skip,
    /// Create this file and write the entry's content into it.
    CreateFile(String),
}

/// Whether a character is kept in a directory name.
pub open spec fn kept_in_dir_name() -> spec_fn(char) -> bool {
    |c: char| c != '\\'
}

/// `s` without its backslashes.
pub open spec fn without_backslashes(s: Seq<char>) -> Seq<char> {
    s.filter(kept_in_dir_name())
}

/// `s` with every backslash removed.
pub fn remove_backslashes(s: &str) -> (r: String)
    ensures
        r@ == without_backslashes(s@),
{
    let n = s.unicode_len();
    let mut r = String::new();
    let mut i: usize = 0;
    assert(s@.subrange(0, 0).filter(kept_in_dir_name()) =~= Seq::<char>::empty()) by {
        reveal(Seq::filter);
    }
    while i < n
        invariant
            n == s@.len(),
            i <= n,
            r@ == without_backslashes(s@.subrange(0, i as int)),
        decreases n - i,
    {
        let c = s.get_char(i);
        proof {
            assert(s@.subrange(0, i + 1) =~= s@.subrange(0, i as int).push(c));
            s@.subrange(0, i as int).lemma_filter_push(c, kept_in_dir_name());
        }
        if c != '\\' {
            r.append(s.substring_char(i, i + 1));
            assert(s@.subrange(i as int, i + 1) =~= seq![c]);
        }
        i = i + 1;
    }
    assert(s@.subrange(0, n as int) =~= s@);
    r
}

/// The action for a zip entry named `name`, relative to the target
/// directory: a directory is created (backslashes dropped from its name); a
/// file is created only where none exists, and an existing one is kept as
/// it is.
pub fn zip_entry_action(name: &str, is_dir: bool, exists: bool) -> (r: ZipEntryAction)
    ensures
        is_dir ==> (r matches ZipEntryAction::CreateDir(d) && d@ == without_backslashes(name@)),
        !is_dir && exists ==> r matches ZipEntryAction::Skip,
        !is_dir && !exists ==> (r matches ZipEntryAction::CreateFile(f) && f@ == name@),
{
    if is_dir {
        ZipEntryAction::CreateDir(remove_backslashes(name))
    } else if exists {
        ZipEntryAction::Skip
    } else {
        ZipEntryAction::CreateFile(name.to_owned())
    }
}

} // verus!
