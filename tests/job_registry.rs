use work_packager::registry::{
    add_task, get_task, get_task_state, is_running, progress_percent, set_running, update_task,
    JobRegistry, TaskPhase, TaskState,
};

fn status_of(reg: &JobRegistry, dir: &str) -> Option<(TaskPhase, usize, String)> {
    get_task_state(reg)
        .into_iter()
        .rev()
        .find(|(k, _)| k == dir)
        .map(|(_, s)| (s.state, s.percent, s.message))
}

#[test]
fn jobs_leave_in_order() {
    let mut reg = JobRegistry::new();
    assert!(reg.enqueue_job("A".to_string()));
    assert!(!reg.enqueue_job("B".to_string()));
    assert_eq!(status_of(&reg, "A"), Some((TaskPhase::Waiting, 0, "waiting".to_string())));
    assert_eq!(status_of(&reg, "B"), Some((TaskPhase::Waiting, 0, "waiting".to_string())));
    assert_eq!(reg.next_job(), Some("A".to_string()));
    assert_eq!(status_of(&reg, "A"), Some((TaskPhase::Running, 0, String::new())));
    reg.finish_job("A".to_string(), Ok(()));
    assert_eq!(reg.next_job(), Some("B".to_string()));
    reg.finish_job("B".to_string(), Err("boom".to_string()));
    assert_eq!(reg.next_job(), None);
    assert!(!is_running(&reg));
    assert_eq!(status_of(&reg, "A"), Some((TaskPhase::Success, 100, String::new())));
    assert_eq!(status_of(&reg, "B"), Some((TaskPhase::Failure, 0, "boom".to_string())));
}

#[test]
fn only_one_worker_is_started() {
    let mut reg = JobRegistry::new();
    assert!(reg.enqueue_job("A".to_string()));
    assert!(!reg.enqueue_job("A".to_string()));
    assert!(!reg.enqueue_job("C".to_string()));
    assert_eq!(reg.next_job(), Some("A".to_string()));
    assert_eq!(reg.next_job(), Some("A".to_string()));
    assert_eq!(reg.next_job(), Some("C".to_string()));
    assert!(is_running(&reg));
    assert_eq!(reg.next_job(), None);
    assert!(!is_running(&reg));
    assert!(reg.enqueue_job("D".to_string()));
}

#[test]
fn failure_keeps_last_percent() {
    let mut reg = JobRegistry::new();
    reg.enqueue_job("J".to_string());
    reg.next_job();
    reg.report_progress("J".to_string(), 4, 11);
    assert_eq!(status_of(&reg, "J"), Some((TaskPhase::Running, 45, String::new())));
    reg.finish_job("J".to_string(), Err("net".to_string()));
    assert_eq!(status_of(&reg, "J"), Some((TaskPhase::Failure, 45, "net".to_string())));
    assert_eq!(reg.query_all_task_state().len(), 1);
}

#[test]
fn progress_is_rounded_down() {
    assert_eq!(progress_percent(0, 11), 9);
    assert_eq!(progress_percent(10, 11), 100);
    assert_eq!(progress_percent(0, 1), 100);
    assert_eq!(progress_percent(usize::MAX - 1, usize::MAX), 100);
    assert_eq!(progress_percent(usize::MAX / 2, usize::MAX), 50);
}

#[test]
fn plain_queue_operations() {
    let mut reg = JobRegistry::new();
    assert_eq!(get_task(&mut reg), None);
    add_task(&mut reg, "x".to_string());
    add_task(&mut reg, "y".to_string());
    assert_eq!(get_task(&mut reg), Some("x".to_string()));
    update_task(&mut reg, "x".to_string(), TaskState { state: TaskPhase::Running, percent: 3, message: "m".to_string() });
    update_task(&mut reg, "z".to_string(), TaskState { state: TaskPhase::Waiting, percent: 0, message: String::new() });
    update_task(&mut reg, "x".to_string(), TaskState { state: TaskPhase::Success, percent: 100, message: String::new() });
    let all = get_task_state(&reg);
    assert_eq!(all.len(), 2);
    assert_eq!(all[0].0, "x");
    assert_eq!(all[0].1.state, TaskPhase::Success);
    assert_eq!(all[1].0, "z");
    set_running(&mut reg, 1);
    assert!(is_running(&reg));
    set_running(&mut reg, 0);
    assert!(!is_running(&reg));
    assert_eq!(TaskPhase::Failure.as_str(), "failure");
}

#[test]
fn same_job_twice_keeps_one_record() {
    let mut reg = JobRegistry::new();
    assert!(reg.enqueue_job("d".to_string()));
    assert!(!reg.enqueue_job("d".to_string()));
    let all = reg.query_all_task_state();
    assert_eq!(all.len(), 1);
    assert_eq!(all[0].0, "d");
    assert_eq!(reg.next_job(), Some("d".to_string()));
    assert_eq!(reg.next_job(), Some("d".to_string()));
    assert_eq!(reg.next_job(), None);
    assert_eq!(reg.query_all_task_state().len(), 1);
}
