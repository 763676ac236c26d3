use pack::batch::BatchState;
use pack::error::Error;
use pack::task::{
    chunk_row, conclude_task, message_column, plan_chunks, rollback_targets, sync_banner, Fatal,
    Operation, Task, TaskManager, TaskType, TaskView,
};
use std::cell::RefCell;

fn task(name: &str) -> Task {
    Task::new(String::from(name), String::from("start"), false)
}

struct CountingOp {
    calls: RefCell<Vec<String>>,
}

impl Operation for CountingOp {
    fn outcome(&self, _task: TaskView, _r: (Result<(), Error>, bool)) -> bool {
        true
    }

    fn operation(&self, task: &Task) -> (Result<(), Error>, bool) {
        self.calls.borrow_mut().push(task.name.clone());
        (Ok(()), true)
    }
}

struct AlwaysFail {
    keep: bool,
}

impl Operation for AlwaysFail {
    fn outcome(&self, _task: TaskView, _r: (Result<(), Error>, bool)) -> bool {
        true
    }

    fn operation(&self, _task: &Task) -> (Result<(), Error>, bool) {
        (Err(Error::Git(String::from("remote failed"))), self.keep)
    }
}

#[test]
fn test_operation_called_once_per_task() {
    let mut m = TaskManager::new(TaskType::Update, 2);
    for n in ["a", "b", "c", "d", "e"] {
        m.add(task(n));
    }
    let op = CountingOp { calls: RefCell::new(Vec::new()) };
    let failed = m.run_with_height(&op, 24).unwrap();
    assert_eq!(failed.len(), 0);
    assert_eq!(*op.calls.borrow(), vec!["a", "b", "c", "d", "e"]);
}

#[test]
fn test_failure_list_is_subset_of_task_names() {
    let mut m = TaskManager::new(TaskType::Update, 3);
    for n in ["a", "b", "c"] {
        m.add(task(n));
    }
    let op = AlwaysFail { keep: true };
    let failed = m.run_with_height(&op, 24).unwrap();
    for f in &failed {
        assert!(["a", "b", "c"].contains(&f.as_str()));
    }
}

#[test]
fn test_chunk_sizes_bounded_by_height_and_workers() {
    let chunks = plan_chunks(5, 4, 2);
    assert_eq!(chunks, vec![2, 2, 1]);
    let chunks = plan_chunks(7, 30, 3);
    assert_eq!(chunks, vec![3, 3, 1]);
    let chunks = plan_chunks(4, 3, 8);
    assert_eq!(chunks, vec![1, 1, 1, 1]);
    let chunks = plan_chunks(0, 10, 2);
    assert_eq!(chunks, Vec::<usize>::new());
    for h in 3..10u16 {
        for c in 1..6usize {
            let cap = std::cmp::min((h - 2) as usize, c);
            let chunks = plan_chunks(11, h, c);
            assert_eq!(chunks.iter().sum::<usize>(), 11);
            for s in chunks {
                assert!(1 <= s && s <= cap);
            }
        }
    }
}

#[test]
fn test_chunk_rows_count_down_from_chunk_size() {
    assert_eq!(chunk_row(3, 0), 3);
    assert_eq!(chunk_row(3, 1), 2);
    assert_eq!(chunk_row(3, 2), 1);
}

#[test]
fn test_terminal_too_small_is_fatal_before_any_operation() {
    let mut m = TaskManager::new(TaskType::Update, 2);
    m.add(task("a"));
    let op = CountingOp { calls: RefCell::new(Vec::new()) };
    let r = m.run_with_height(&op, 2);
    assert_eq!(r, Err(Fatal::TerminalTooSmall));
    assert_eq!(op.calls.borrow().len(), 0);
}

#[test]
fn test_empty_batch_is_fatal() {
    let m = TaskManager::new(TaskType::Install, 2);
    let op = CountingOp { calls: RefCell::new(Vec::new()) };
    let r = m.run_with_height(&op, 24);
    assert_eq!(r, Err(Fatal::NoPlugins));
}

#[test]
fn test_empty_batch_reported_before_terminal_size() {
    let m = TaskManager::new(TaskType::Install, 2);
    let op = CountingOp { calls: RefCell::new(Vec::new()) };
    let r = m.run_with_height(&op, 2);
    assert_eq!(r, Err(Fatal::NoPlugins));
}

#[test]
fn test_three_failures_kept_all_reported() {
    let mut m = TaskManager::new(TaskType::Update, 2);
    for n in ["a", "b", "c"] {
        m.add(task(n));
    }
    let op = AlwaysFail { keep: true };
    let report = m.run_reports(&op, 24).unwrap();
    assert_eq!(report.state.failures, vec!["a", "b", "c"]);
    assert_eq!(report.state.pending.len(), 0);
    assert!(!report.state.cancelled);
    assert_eq!(report.chunks, vec![2, 1]);
    assert_eq!(report.reports.len(), 3);
    for rep in &report.reports {
        assert!(rep.failed);
        assert!(rep.keep);
    }
    // keep=true: applying the outcomes to the persisted set removes nothing
    let packs = vec![task("a"), task("b"), task("c")];
    let kept = pack::ops::apply_failures(packs, &report.reports);
    assert_eq!(kept.len(), 3);
}

#[test]
fn test_single_failure_not_kept_is_undone() {
    let mut m = TaskManager::new(TaskType::Install, 1);
    m.add(task("solo"));
    let op = AlwaysFail { keep: false };
    let report = m.run_reports(&op, 24).unwrap();
    assert_eq!(report.state.failures, vec!["solo"]);
    let packs = vec![task("solo")];
    let kept = pack::ops::apply_failures(packs, &report.reports);
    assert_eq!(kept.len(), 0);
}

#[test]
fn test_cancel_is_idempotent() {
    let mut s = BatchState::new();
    s.begin(String::from("a"));
    s.begin(String::from("b"));
    s.finish(&String::from("a"), true);
    s.cancel();
    let pending_once = s.pending.clone();
    let failures_once = s.failures.clone();
    assert!(s.cancelled);
    s.cancel();
    s.cancel();
    assert_eq!(s.pending, pending_once);
    assert_eq!(s.failures, failures_once);
    assert!(s.cancelled);
}

#[test]
fn test_pending_holds_begun_but_unfinished_tasks() {
    let mut s = BatchState::new();
    s.begin(String::from("x"));
    s.finish(&String::from("x"), false);
    assert_eq!(s.pending.len(), 0);
    s.begin(String::from("y"));
    assert_eq!(s.pending, vec!["y"]);
}

#[test]
fn test_rollback_removes_artifacts_of_pending_tasks() {
    // five tasks, two workers: the first two complete, cancellation fires
    // while the next two are in flight, the fifth is never begun
    let mut s = BatchState::new();
    let mut disk: Vec<String> = Vec::new();
    for n in ["t1", "t2"] {
        s.begin(String::from(n));
        disk.push(String::from(n));
        s.finish(&String::from(n), false);
    }
    for n in ["t3", "t4"] {
        s.begin(String::from(n));
        disk.push(String::from(n));
    }
    s.cancel();
    assert_eq!(s.pending, vec!["t3", "t4"]);
    let targets = rollback_targets(&s, &TaskType::Install);
    assert_eq!(targets, vec!["t3", "t4"]);
    disk.retain(|d| !targets.contains(d));
    for p in &s.pending {
        assert!(!disk.contains(p));
    }
    assert_eq!(disk, vec!["t1", "t2"]);
    // an update batch rolls nothing back
    let none = rollback_targets(&s, &TaskType::Update);
    assert_eq!(none.len(), 0);
}

#[test]
fn test_run_refuses_empty_batch_before_reading_the_terminal() {
    let m = TaskManager::new(TaskType::Update, 1);
    let op = CountingOp { calls: RefCell::new(Vec::new()) };
    assert_eq!(m.run(&op), Err(Fatal::NoPlugins));
}

#[test]
fn test_run_consults_the_real_terminal() {
    let mut m = TaskManager::new(TaskType::Update, 1);
    m.add(task("a"));
    let op = CountingOp { calls: RefCell::new(Vec::new()) };
    match m.run(&op) {
        Ok(failed) => {
            assert!(failed.is_empty());
            assert_eq!(op.calls.borrow().len(), 1);
        }
        Err(f) => {
            assert!(f == Fatal::TerminalSize || f == Fatal::TerminalTooSmall);
            assert_eq!(op.calls.borrow().len(), 0);
        }
    }
}

#[test]
fn test_conclude_task_follows_the_failure_taxonomy() {
    // sync failure: reported, keep flag as classified
    assert_eq!(conclude_task(&Err(Error::Git(String::from("x"))), false, &None), (true, false));
    assert_eq!(conclude_task(&Err(Error::SkipLocal), true, &None), (true, true));
    // build failure after a successful sync: reported, task kept
    assert_eq!(
        conclude_task(&Ok(()), false, &Some(Err(Error::Build(String::from("make"))))),
        (true, true)
    );
    // success, with and without a build step
    assert_eq!(conclude_task(&Ok(()), false, &Some(Ok(()))), (false, true));
    assert_eq!(conclude_task(&Ok(()), false, &None), (false, true));
}

#[test]
fn test_sync_banner_and_message_column() {
    assert_eq!(sync_banner("abc"), "     [abc] syncing");
    assert_eq!(message_column("abc"), 5 + 3 + 3);
    assert_eq!(message_column(""), 5 + 3);
}

#[test]
fn test_fatal_messages() {
    assert_eq!(Fatal::NoPlugins.message(), "No plugins to sync");
    assert_eq!(Fatal::TerminalSize.message(), "Fail to get terminal size.");
    assert_eq!(Fatal::TerminalTooSmall.message(), "Terminal size too small.");
    assert_eq!(Fatal::Signal.message(), "Fail to set up signal.");
}

#[test]
fn test_mixed_outcomes_collect_only_failures() {
    struct FailOdd {
        count: RefCell<usize>,
    }
    impl Operation for FailOdd {
        fn outcome(&self, _task: TaskView, _r: (Result<(), Error>, bool)) -> bool {
            true
        }

        fn operation(&self, _task: &Task) -> (Result<(), Error>, bool) {
            let mut c = self.count.borrow_mut();
            *c += 1;
            if *c % 2 == 0 {
                (Err(Error::PluginNotInstalled), false)
            } else {
                (Ok(()), true)
            }
        }
    }
    let mut m = TaskManager::new(TaskType::Update, 2);
    for n in ["a", "b", "c", "d"] {
        m.add(task(n));
    }
    let op = FailOdd { count: RefCell::new(0) };
    let failed = m.run_with_height(&op, 24).unwrap();
    assert_eq!(failed, vec!["b", "d"]);
}
