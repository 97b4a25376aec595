use vstd::prelude::*;

verus! {

/// How many times the termination protocol polls a signalled worker for its
/// exit before it kills the worker.
pub const TERM_POLL_ATTEMPTS: u64 = 10;

/// The delay between two polls of a signalled worker, in milliseconds.
pub const TERM_POLL_DELAY_MS: u64 = 100;

/// How a worker process ended under the termination protocol.
#[derive(Debug, Clone, Copy, PartialEq, Eq, Structural)]
pub enum PidFate {
    /// A poll saw it exit after the graceful signal.
    Exited,
    /// It outlived every poll and was sent the forceful kill signal.
    Killed,
}

/// What the supervisor must do next to tear the pool down.
#[derive(Debug, Clone, Copy, PartialEq, Eq, Structural)]
pub enum ReapAction {
    /// Send the graceful termination signal to the process.
    Terminate(i32),
    /// Check, without blocking, whether the process has exited; if it has not,
    /// wait `TERM_POLL_DELAY_MS` before reporting back.
    Poll(i32),
    /// Send the forceful kill signal to the process.
    Kill(i32),
    /// Every worker is gone.
    Finished,
}

/// The abstract state of the termination protocol over `n` workers: the
/// index of the worker being torn down, whether it has been signalled, how
/// many polls it has failed, and the fate of each worker before it.
pub struct ReapState {
    pub current: nat,
    pub signalled: bool,
    pub attempts: nat,
    pub fates: Seq<PidFate>,
}

pub open spec fn reap_start() -> ReapState {
    ReapState { current: 0, signalled: false, attempts: 0, fates: Seq::empty() }
}

pub open spec fn reap_wf(s: ReapState, n: nat) -> bool {
    &&& s.current <= n
    &&& s.fates.len() == s.current
    &&& s.attempts <= TERM_POLL_ATTEMPTS
    &&& !s.signalled ==> s.attempts == 0
}

/// The action that a state calls for.
pub open spec fn reap_action(s: ReapState, pids: Seq<i32>) -> ReapAction {
    if s.current >= pids.len() {
        ReapAction::Finished
    } else if !s.signalled {
        ReapAction::Terminate(pids[s.current as int])
    } else if s.attempts < TERM_POLL_ATTEMPTS {
        ReapAction::Poll(pids[s.current as int])
    } else {
        ReapAction::Kill(pids[s.current as int])
    }
}

/// The state after carrying out the action that `s` calls for; `exited` is
/// what a poll reported and is ignored after any other action.
pub open spec fn reap_step(s: ReapState, n: nat, exited: bool) -> ReapState {
    if s.current >= n {
        s
    } else if !s.signalled {
        ReapState { signalled: true, attempts: 0, ..s }
    } else if s.attempts < TERM_POLL_ATTEMPTS {
        if exited {
            ReapState {
                current: s.current + 1,
                signalled: false,
                attempts: 0,
                fates: s.fates.push(PidFate::Exited),
            }
        } else {
            ReapState { attempts: s.attempts + 1, ..s }
        }
    } else {
        ReapState {
            current: s.current + 1,
            signalled: false,
            attempts: 0,
            fates: s.fates.push(PidFate::Killed),
        }
    }
}

/// An upper bound on the steps left, which every step lowers.
pub open spec fn reap_measure(s: ReapState, n: nat) -> nat {
    if s.current >= n {
        0
    } else {
        let here: nat = if s.signalled {
            (TERM_POLL_ATTEMPTS - s.attempts) as nat
        } else {
            TERM_POLL_ATTEMPTS as nat + 1
        };
        ((n - s.current - 1) as nat) * (TERM_POLL_ATTEMPTS as nat + 2) + here + 1
    }
}

/// The protocol run to its end, where `answers(i, k)` is what the `k`-th poll
/// of worker `i` reports.
pub open spec fn reap_run(s: ReapState, n: nat, answers: spec_fn(nat, nat) -> bool) -> ReapState
    decreases reap_measure(s, n),
{
    if s.current >= n || !reap_wf(s, n) {
        s
    } else {
        proof {
            lemma_reap_step_decreases(s, n, answers(s.current, s.attempts));
        }
        reap_run(reap_step(s, n, answers(s.current, s.attempts)), n, answers)
    }
}

/// The fate of worker `i`: it exited if one of its polls saw it go.
pub open spec fn expected_fate(answers: spec_fn(nat, nat) -> bool, i: nat) -> PidFate {
    if exists|k: nat| k < TERM_POLL_ATTEMPTS && #[trigger] answers(i, k) {
        PidFate::Exited
    } else {
        PidFate::Killed
    }
}

/// Each step keeps the state well formed and lowers the measure.
pub proof fn lemma_reap_step_decreases(s: ReapState, n: nat, exited: bool)
    requires
        reap_wf(s, n),
        s.current < n,
    ensures
        reap_wf(reap_step(s, n, exited), n),
        reap_measure(reap_step(s, n, exited), n) < reap_measure(s, n),
{
    let t = reap_step(s, n, exited);
    let m = TERM_POLL_ATTEMPTS as nat + 2;
    if t.current > s.current && t.current < n {
        assert(((n - s.current - 1) as nat) * m == ((n - t.current - 1) as nat) * m + m)
            by (nonlinear_arith)
            requires
                t.current == s.current + 1,
                t.current < n,
        ;
    }
}

/// The fate of one worker, from its `k`-th poll on.
pub open spec fn fate_from(answers: spec_fn(nat, nat) -> bool, i: nat, k: nat) -> PidFate
    decreases TERM_POLL_ATTEMPTS - k,
{
    if k >= TERM_POLL_ATTEMPTS {
        PidFate::Killed
    } else if answers(i, k) {
        PidFate::Exited
    } else {
        fate_from(answers, i, k + 1)
    }
}

proof fn lemma_fate_from(answers: spec_fn(nat, nat) -> bool, i: nat, k: nat)
    requires
        k <= TERM_POLL_ATTEMPTS,
        forall|j: nat| j < k ==> !#[trigger] answers(i, j),
    ensures
        fate_from(answers, i, k) == expected_fate(answers, i),
    decreases TERM_POLL_ATTEMPTS - k,
{
    if k >= TERM_POLL_ATTEMPTS {
        if exists|j: nat| j < TERM_POLL_ATTEMPTS && #[trigger] answers(i, j) {
            let j = choose|j: nat| j < TERM_POLL_ATTEMPTS && #[trigger] answers(i, j);
            assert(!answers(i, j));
        }
    } else if answers(i, k) {
        assert(k < TERM_POLL_ATTEMPTS && answers(i, k));
    } else {
        assert forall|j: nat| j < k + 1 implies !#[trigger] answers(i, j) by {
            if j < k {
            }
        }
        lemma_fate_from(answers, i, k + 1);
    }
}

/// While worker `i` is being polled, the run goes on as if its fate were
/// already recorded.
proof fn lemma_reap_polling(s: ReapState, n: nat, answers: spec_fn(nat, nat) -> bool)
    requires
        reap_wf(s, n),
        s.current < n,
        s.signalled,
    ensures
        reap_run(s, n, answers) == reap_run(
            ReapState {
                current: s.current + 1,
                signalled: false,
                attempts: 0,
                fates: s.fates.push(fate_from(answers, s.current, s.attempts)),
            },
            n,
            answers,
        ),
    decreases TERM_POLL_ATTEMPTS - s.attempts,
{
    let t = reap_step(s, n, answers(s.current, s.attempts));
    lemma_reap_step_decreases(s, n, answers(s.current, s.attempts));
    assert(reap_run(s, n, answers) == reap_run(t, n, answers));
    if s.attempts < TERM_POLL_ATTEMPTS && !answers(s.current, s.attempts) {
        lemma_reap_polling(t, n, answers);
    }
}

/// From worker `s.current` on, the run records each worker's expected fate.
proof fn lemma_reap_rest(s: ReapState, n: nat, answers: spec_fn(nat, nat) -> bool)
    requires
        reap_wf(s, n),
        !s.signalled,
    ensures
        reap_run(s, n, answers).current == n,
        reap_run(s, n, answers).fates.len() == n,
        reap_run(s, n, answers).fates.subrange(0, s.current as int) == s.fates,
        forall|i: nat|
            s.current <= i < n ==> reap_run(s, n, answers).fates[i as int] == expected_fate(
                answers,
                i,
            ),
    decreases n - s.current,
{
    if s.current < n {
        let t = reap_step(s, n, answers(s.current, s.attempts));
        lemma_reap_step_decreases(s, n, answers(s.current, s.attempts));
        assert(reap_run(s, n, answers) == reap_run(t, n, answers));
        lemma_reap_polling(t, n, answers);
        lemma_fate_from(answers, s.current, 0);
        let u = ReapState {
            current: s.current + 1,
            signalled: false,
            attempts: 0,
            fates: s.fates.push(expected_fate(answers, s.current)),
        };
        lemma_reap_rest(u, n, answers);
        let f = reap_run(s, n, answers).fates;
        assert(f.subrange(0, s.current as int) =~= f.subrange(0, u.current as int).subrange(
            0,
            s.current as int,
        ));
        assert(f[s.current as int] == f.subrange(0, u.current as int)[s.current as int]);
    } else {
        assert(s.fates.subrange(0, s.current as int) =~= s.fates);
    }
}

/// The termination protocol leaves no worker behind: run to its end over `n`
/// workers, whatever their polls report, it has torn down every worker, each
/// either seen to exit after the graceful signal or sent the forceful kill;
/// a worker that ignores the graceful signal is always killed.
pub proof fn lemma_reap_leaves_no_worker(n: nat, answers: spec_fn(nat, nat) -> bool)
    ensures
        reap_run(reap_start(), n, answers).current == n,
        reap_run(reap_start(), n, answers).fates.len() == n,
        forall|i: nat|
            i < n ==> reap_run(reap_start(), n, answers).fates[i as int] == expected_fate(
                answers,
                i,
            ),
        forall|i: nat|
            i < n && (forall|k: nat| k < TERM_POLL_ATTEMPTS ==> !#[trigger] answers(i, k))
                ==> reap_run(reap_start(), n, answers).fates[i as int] == PidFate::Killed,
{
    lemma_reap_rest(reap_start(), n, answers);
    assert forall|i: nat|
        i < n && (forall|k: nat| k < TERM_POLL_ATTEMPTS ==> !#[trigger] answers(i, k)) implies reap_run(
        reap_start(),
        n,
        answers,
    ).fates[i as int] == PidFate::Killed by {
        if exists|k: nat| k < TERM_POLL_ATTEMPTS && #[trigger] answers(i, k) {
            let k = choose|k: nat| k < TERM_POLL_ATTEMPTS && #[trigger] answers(i, k);
            assert(!answers(i, k));
        }
        assert(expected_fate(answers, i) == PidFate::Killed);
        assert(reap_start().current <= i);
        assert(reap_run(reap_start(), n, answers).fates[i as int] == expected_fate(answers, i));
    }
}

/// The termination protocol over a fixed list of worker process ids: each
/// worker in turn is signalled, polled up to `TERM_POLL_ATTEMPTS` times, and
/// killed if it has not exited by then.
pub struct Reaper {
    pub pids: Vec<i32>,
    pub current: usize,
    pub signalled: bool,
    pub attempts: u64,
    pub fates: Vec<PidFate>,
}

impl View for Reaper {
    type V = ReapState;

    open spec fn view(&self) -> ReapState {
        ReapState {
            current: self.current as nat,
            signalled: self.signalled,
            attempts: self.attempts as nat,
            fates: self.fates@,
        }
    }
}

impl Reaper {
    pub open spec fn wf(&self) -> bool {
        reap_wf(self@, self.pids@.len())
    }

    /// The protocol before its first step.
    pub fn new(pids: Vec<i32>) -> (r: Reaper)
        ensures
            r.wf(),
            r@ == reap_start(),
            r.pids@ == pids@,
    {
        let r = Reaper { pids, current: 0, signalled: false, attempts: 0, fates: Vec::new() };
        assert(r.fates@ =~= Seq::<PidFate>::empty());
        r
    }

    /// What the supervisor must do next.
    pub fn next_action(&self) -> (r: ReapAction)
        requires
            self.wf(),
        ensures
            r == reap_action(self@, self.pids@),
    {
        if self.current >= self.pids.len() {
            ReapAction::Finished
        } else if !self.signalled {
            ReapAction::Terminate(self.pids[self.current])
        } else if self.attempts < TERM_POLL_ATTEMPTS {
            ReapAction::Poll(self.pids[self.current])
        } else {
            ReapAction::Kill(self.pids[self.current])
        }
    }

    /// Records that the action from `next_action` was carried out; `exited`
    /// is what a poll reported, and is ignored after any other action.
    pub fn advance(&mut self, exited: bool)
        requires
            old(self).wf(),
        ensures
            final(self).wf(),
            final(self).pids == old(self).pids,
            final(self)@ == reap_step(old(self)@, old(self).pids@.len(), exited),
    {
        if self.current >= self.pids.len() {
            return;
        }
        if !self.signalled {
            self.signalled = true;
            self.attempts = 0;
        } else if self.attempts < TERM_POLL_ATTEMPTS {
            if exited {
                self.fates.push(PidFate::Exited);
                self.current = self.current + 1;
                self.signalled = false;
                self.attempts = 0;
            } else {
                self.attempts = self.attempts + 1;
            }
        } else {
            self.fates.push(PidFate::Killed);
            self.current = self.current + 1;
            self.signalled = false;
            self.attempts = 0;
        }
    }

    /// Whether every worker has been torn down.
    pub fn is_finished(&self) -> (r: bool)
        requires
            self.wf(),
        ensures
            r == (self@.current >= self.pids@.len()),
    {
        self.current >= self.pids.len()
    }
}

/// A worker process of the pool and whether it has a command outstanding.
#[derive(Debug, Clone, Copy, PartialEq, Eq, Structural)]
pub struct WorkerSlot {
    pub pid: i32,
    pub busy: bool,
}

/// The registry of worker processes: it hands each worker at most one
/// command at a time, and tears the pool down exactly once.
pub struct WorkerPool {
    pub slots: Vec<WorkerSlot>,
    pub shut_down: bool,
}

pub open spec fn pids_of(slots: Seq<WorkerSlot>) -> Seq<i32> {
    slots.map_values(|w: WorkerSlot| w.pid)
}

impl WorkerPool {
    /// An empty pool.
    pub fn new() -> (r: WorkerPool)
        ensures
            r.slots@.len() == 0,
            !r.shut_down,
    {
        WorkerPool { slots: Vec::new(), shut_down: false }
    }

    /// Registers a spawned worker as idle; a pool that is shutting down
    /// takes no new worker. Returns whether the worker was registered.
    pub fn register(&mut self, pid: i32) -> (r: bool)
        ensures
            r == !old(self).shut_down,
            final(self).shut_down == old(self).shut_down,
            r ==> final(self).slots@ == old(self).slots@.push(WorkerSlot { pid, busy: false }),
            !r ==> final(self).slots@ == old(self).slots@,
    {
        if self.shut_down {
            return false;
        }
        self.slots.push(WorkerSlot { pid, busy: false });
        true
    }

    /// Picks the first idle worker, marks it busy and returns its index; none
    /// is picked when every worker is busy or the pool is shutting down.
    pub fn dispatch(&mut self) -> (r: Option<usize>)
        ensures
            final(self).shut_down == old(self).shut_down,
            match r {
                Some(i) => {
                    &&& !old(self).shut_down
                    &&& i < old(self).slots@.len()
                    &&& !old(self).slots@[i as int].busy
                    &&& forall|j: int| 0 <= j < i ==> old(self).slots@[j].busy
                    &&& final(self).slots@ == old(self).slots@.update(
                        i as int,
                        WorkerSlot { pid: old(self).slots@[i as int].pid, busy: true },
                    )
                },
                None => {
                    &&& final(self).slots@ == old(self).slots@
                    &&& (old(self).shut_down || forall|j: int|
                        0 <= j < old(self).slots@.len() ==> old(self).slots@[j].busy)
                },
            },
    {
        if self.shut_down {
            return None;
        }
        let mut i: usize = 0;
        while i < self.slots.len()
            invariant
                self.slots@ == old(self).slots@,
                self.shut_down == old(self).shut_down,
                !self.shut_down,
                i <= self.slots@.len(),
                forall|j: int| 0 <= j < i ==> self.slots@[j].busy,
            decreases self.slots@.len() - i,
        {
            if !self.slots[i].busy {
                let pid = self.slots[i].pid;
                self.slots.set(i, WorkerSlot { pid, busy: true });
                return Some(i);
            }
            i = i + 1;
        }
        None
    }

    /// Records that worker `i` replied or failed, so it may take the next
    /// command. Returns whether it had a command outstanding.
    pub fn complete(&mut self, i: usize) -> (r: bool)
        requires
            i < old(self).slots@.len(),
        ensures
            r == old(self).slots@[i as int].busy,
            final(self).shut_down == old(self).shut_down,
            final(self).slots@ == old(self).slots@.update(
                i as int,
                WorkerSlot { pid: old(self).slots@[i as int].pid, busy: false },
            ),
    {
        let w = self.slots[i];
        self.slots.set(i, WorkerSlot { pid: w.pid, busy: false });
        w.busy
    }

    /// Starts the termination protocol over every registered worker. Only
    /// the first call does so; any later call, however it is triggered,
    /// returns `None`, so the teardown runs exactly once.
    pub fn begin_shutdown(&mut self) -> (r: Option<Reaper>)
        ensures
            final(self).shut_down,
            final(self).slots@ == old(self).slots@,
            r.is_some() == !old(self).shut_down,
            r matches Some(reaper) ==> reaper.wf() && reaper@ == reap_start() && reaper.pids@
                == pids_of(old(self).slots@),
    {
        if self.shut_down {
            return None;
        }
        self.shut_down = true;
        let mut pids: Vec<i32> = Vec::new();
        let mut i: usize = 0;
        while i < self.slots.len()
            invariant
                self.slots@ == old(self).slots@,
                i <= self.slots@.len(),
                pids@ == pids_of(self.slots@.take(i as int)),
            decreases self.slots@.len() - i,
        {
            pids.push(self.slots[i].pid);
            assert(pids_of(self.slots@.take(i + 1)) =~= pids_of(self.slots@.take(i as int)).push(
                self.slots@[i as int].pid,
            ));
            i = i + 1;
        }
        assert(self.slots@.take(i as int) =~= self.slots@);
        Some(Reaper::new(pids))
    }
}

/// A command from the supervisor to a worker.
#[derive(Debug, Clone)]
pub enum FromParentMsg {
    Transcribe { path: String },
    Exit,
}

/// A worker's result for one command.
#[derive(Debug, Clone)]
pub struct FromChildMsg {
    data: String,
}

impl FromChildMsg {
    pub closed spec fn spec_data(&self) -> Seq<char> {
        self.data@
    }

    pub fn new(data: String) -> (r: FromChildMsg)
        ensures
            r.spec_data() == data@,
    {
        FromChildMsg { data }
    }

    pub fn data(&self) -> (r: &String)
        ensures
            r@ == self.spec_data(),
    {
        &self.data
    }
}

/// What a worker does with what it received.
#[derive(Debug, Clone, PartialEq)]
pub enum WorkerAction {
    /// Run the analysis of the file at `path` and send back the result.
    Analyze { path: String },
    /// Leave the loop and exit cleanly.
    Stop,
}

/// The worker loop's decision: a work command is analysed; an exit command,
/// or a receive that failed because the channel is closed or broken (`None`),
/// stops the worker.
pub fn worker_step(received: Option<FromParentMsg>) -> (r: WorkerAction)
    ensures
        match received {
            Some(FromParentMsg::Transcribe { path }) => r == (WorkerAction::Analyze { path }),
            _ => r == WorkerAction::Stop,
        },
{
    match received {
        Some(FromParentMsg::Transcribe { path }) => WorkerAction::Analyze { path },
        _ => WorkerAction::Stop,
    }
}

} // verus!
