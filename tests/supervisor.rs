use analysis_ingest::supervisor::{
    worker_step, FromChildMsg, FromParentMsg, PidFate, ReapAction, Reaper, WorkerAction,
    WorkerPool, TERM_POLL_ATTEMPTS,
};

/// Drives the protocol; `exits_after(pid)` is the poll on which the worker
/// reports its exit, `None` for one that ignores the graceful signal.
fn run(pids: Vec<i32>, exits_after: impl Fn(i32) -> Option<u64>) -> (Vec<ReapAction>, Reaper) {
    let mut r = Reaper::new(pids);
    let mut log = Vec::new();
    let mut polls: std::collections::HashMap<i32, u64> = std::collections::HashMap::new();
    loop {
        let a = r.next_action();
        log.push(a);
        let exited = match a {
            ReapAction::Finished => break,
            ReapAction::Poll(pid) => {
                let n = polls.entry(pid).or_insert(0);
                let seen = exits_after(pid) == Some(*n);
                *n += 1;
                seen
            }
            _ => false,
        };
        r.advance(exited);
    }
    (log, r)
}

#[test]
fn shutdown_kills_worker_that_ignores_term() {
    let (log, r) = run(vec![11, 12, 13], |pid| if pid == 12 { None } else { Some(2) });
    assert!(r.is_finished());
    assert_eq!(r.fates, vec![PidFate::Exited, PidFate::Killed, PidFate::Exited]);
    assert!(log.contains(&ReapAction::Kill(12)));
    assert!(!log.contains(&ReapAction::Kill(11)));
    assert!(!log.contains(&ReapAction::Kill(13)));
    let polls_12 = log.iter().filter(|a| **a == ReapAction::Poll(12)).count();
    assert_eq!(polls_12 as u64, TERM_POLL_ATTEMPTS);
    assert_eq!(log.first(), Some(&ReapAction::Terminate(11)));
    assert_eq!(log.last(), Some(&ReapAction::Finished));
}

#[test]
fn shutdown_sequence_for_prompt_exit() {
    let (log, r) = run(vec![5], |_| Some(0));
    assert_eq!(log, vec![ReapAction::Terminate(5), ReapAction::Poll(5), ReapAction::Finished]);
    assert_eq!(r.fates, vec![PidFate::Exited]);
}

#[test]
fn shutdown_of_empty_pool_finishes() {
    let (log, r) = run(vec![], |_| None);
    assert_eq!(log, vec![ReapAction::Finished]);
    assert!(r.fates.is_empty());
}

#[test]
fn shutdown_runs_once() {
    let mut pool = WorkerPool::new();
    assert!(pool.register(1));
    assert!(pool.register(2));
    let reaper = pool.begin_shutdown().unwrap();
    assert_eq!(reaper.pids, vec![1, 2]);
    assert!(pool.begin_shutdown().is_none());
    assert!(!pool.register(3));
    assert_eq!(pool.dispatch(), None);
}

#[test]
fn dispatch_one_command_per_worker() {
    let mut pool = WorkerPool::new();
    pool.register(7);
    pool.register(8);
    assert_eq!(pool.dispatch(), Some(0));
    assert_eq!(pool.dispatch(), Some(1));
    assert_eq!(pool.dispatch(), None);
    assert!(pool.complete(1));
    assert!(!pool.complete(1));
    assert_eq!(pool.dispatch(), Some(1));
    assert_eq!(pool.slots[1].pid, 8);
}

#[test]
fn worker_loop_decisions() {
    let cmd = FromParentMsg::Transcribe { path: "/tmp/a.wav".to_string() };
    assert_eq!(worker_step(Some(cmd)), WorkerAction::Analyze { path: "/tmp/a.wav".to_string() });
    assert_eq!(worker_step(Some(FromParentMsg::Exit)), WorkerAction::Stop);
    assert_eq!(worker_step(None), WorkerAction::Stop);
    let reply = FromChildMsg::new("text".to_string());
    assert_eq!(reply.data(), "text");
}
