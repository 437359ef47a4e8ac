use work_packager::pipeline::{
    advance, manifest_script, progress_total, start_job, zip_entry_action, JobAction, JobStage,
    StepOutcome, ZipEntryAction,
};

#[test]
fn downloads_then_archives_then_outputs() {
    let (mut stage, action) = start_job(2);
    assert_eq!(stage, JobStage::Download(0));
    assert!(matches!(action, JobAction::Fetch(0)));
    let (s, a) = advance(stage, 2, StepOutcome::Done);
    assert!(matches!(a, JobAction::Fetch(1)));
    stage = s;
    let (s, a) = advance(stage, 2, StepOutcome::Done);
    assert_eq!(s, JobStage::InstallModel);
    assert!(matches!(a, JobAction::InstallModel));
    let (s, a) = advance(s, 2, StepOutcome::Failed("bad tar".to_string()));
    assert_eq!(s, JobStage::InstallPano);
    assert!(matches!(a, JobAction::InstallPano));
    let (s, a) = advance(s, 2, StepOutcome::Failed("no pano".to_string()));
    assert_eq!(s, JobStage::WriteManifest);
    assert!(matches!(a, JobAction::WriteManifest));
    let (s, a) = advance(s, 2, StepOutcome::Done);
    assert_eq!(s, JobStage::CopyStatic);
    assert!(matches!(a, JobAction::CopyStatic));
    let (s, a) = advance(s, 2, StepOutcome::Done);
    assert_eq!(s, JobStage::Finished);
    assert!(matches!(a, JobAction::Succeed));
}

#[test]
fn download_failure_ends_the_job() {
    let (s, a) = advance(JobStage::Download(3), 9, StepOutcome::Failed("timeout".to_string()));
    assert_eq!(s, JobStage::Finished);
    match a {
        JobAction::Fail(m) => assert_eq!(m, "timeout"),
        _ => panic!("expected a failure"),
    }
    let (_, a) = advance(JobStage::WriteManifest, 9, StepOutcome::Failed("disk".to_string()));
    assert!(matches!(a, JobAction::Fail(m) if m == "disk"));
    let (_, a) = advance(JobStage::CopyStatic, 9, StepOutcome::Failed("copy".to_string()));
    assert!(matches!(a, JobAction::Fail(m) if m == "copy"));
}

#[test]
fn no_downloads_starts_with_model() {
    let (s, a) = start_job(0);
    assert_eq!(s, JobStage::InstallModel);
    assert!(matches!(a, JobAction::InstallModel));
    assert_eq!(progress_total(9), 11);
}

#[test]
fn zip_entries() {
    assert!(matches!(zip_entry_action("a\\b/", true, false), ZipEntryAction::CreateDir(d) if d == "ab/"));
    assert!(matches!(zip_entry_action("a\\b/", true, true), ZipEntryAction::CreateDir(d) if d == "ab/"));
    assert!(matches!(zip_entry_action("x/t.png", false, true), ZipEntryAction::Skip));
    assert!(matches!(zip_entry_action("x/t.png", false, false), ZipEntryAction::CreateFile(f) if f == "x/t.png"));
}

#[test]
fn work_script() {
    assert_eq!(manifest_script("{\"a\":1}"), "var workJSON = {\"a\":1}");
}

#[test]
fn backslashes_are_removed() {
    use_remove("a\\b\\\\c/", "abc/");
    use_remove("", "");
    use_remove("\\", "");
    use_remove("d\u{e9}j\u{e0}\\x", "d\u{e9}j\u{e0}x");
}

fn use_remove(input: &str, want: &str) {
    assert_eq!(work_packager::pipeline::remove_backslashes(input), want);
}
