//! The registry of packaging jobs: the pending queue, the status of every job
//! and the flag that keeps a single worker draining the queue.
use vstd::prelude::*;
use vstd::string::*;

verus! {

/// Where a job stands.
#[derive(Clone, Copy, Debug, PartialEq, Eq, Structural)]
pub enum TaskPhase {
    Waiting,
    Running,
    Success,
    Failure,
}

impl TaskPhase {
    /// The phase's name, as status queries report it.
    pub fn as_str(&self) -> (r: &'static str)
        ensures
            r@ == phase_name(*self),
    {
        match self {
            TaskPhase::Waiting => "waiting",
            TaskPhase::Running => "running",
            TaskPhase::Success => "success",
            TaskPhase::Failure => "failure",
        }
    }
}

pub open spec fn phase_name(p: TaskPhase) -> Seq<char> {
    match p {
        TaskPhase::Waiting => "waiting"@,
        TaskPhase::Running => "running"@,
        TaskPhase::Success => "success"@,
        TaskPhase::Failure => "failure"@,
    }
}

/// The status of one job.
pub struct TaskState {
    pub state: TaskPhase,
    pub percent: usize,
    pub message: String,
}

/// A status as a value: phase, percent and message.
pub type StatusView = (TaskPhase, usize, Seq<char>);

impl View for TaskState {
    type V = StatusView;

    open spec fn view(&self) -> StatusView {
        (self.state, self.percent, self.message@)
    }
}

impl TaskState {
    /// A copy of this status.
    pub fn copy(&self) -> (r: TaskState)
        ensures
            r@ == self@,
    {
        TaskState { state: self.state, percent: self.percent, message: self.message.clone() }
    }
}

/// The statuses as a sequence of (job, status) records.
pub type StatusTable = Seq<(Seq<char>, StatusView)>;

/// The registry as values.
pub struct RegistryView {
    pub pending: Seq<Seq<char>>,
    pub states: StatusTable,
    pub running: bool,
}

/// The registry of jobs. Its owner serialises every call on it (one lock
/// round the registry), so each call is one exclusive section.
pub struct JobRegistry {
    list: Vec<String>,
    states: Vec<(String, TaskState)>,
    running: bool,
}

pub open spec fn table_view(s: Seq<(String, TaskState)>) -> StatusTable {
    s.map_values(|e: (String, TaskState)| (e.0@, e.1@))
}

impl JobRegistry {
    /// Well-formed: one status record per job.
    pub open spec fn wf(&self) -> bool {
        keys_unique(self@.states)
    }
}

impl View for JobRegistry {
    type V = RegistryView;

    closed spec fn view(&self) -> RegistryView {
        RegistryView {
            pending: self.list@.map_values(|s: String| s@),
            states: table_view(self.states@),
            running: self.running,
        }
    }
}

/// The position of the last record of `key`.
pub open spec fn last_index_of(s: StatusTable, key: Seq<char>) -> Option<int>
    decreases s.len(),
{
    if s.len() == 0 {
        None
    } else if s.last().0 == key {
        Some(s.len() - 1)
    } else {
        last_index_of(s.drop_last(), key)
    }
}

/// Each job has at most one record.
pub open spec fn keys_unique(s: StatusTable) -> bool {
    forall|i: int, j: int| 0 <= i < j < s.len() ==> #[trigger] s[i].0 != #[trigger] s[j].0
}

proof fn lemma_last_index_none(s: StatusTable, key: Seq<char>)
    requires
        last_index_of(s, key) is None,
    ensures
        forall|j: int| 0 <= j < s.len() ==> #[trigger] s[j].0 != key,
    decreases s.len(),
{
    if s.len() > 0 {
        lemma_last_index_none(s.drop_last(), key);
        assert forall|j: int| 0 <= j < s.len() implies #[trigger] s[j].0 != key by {
            if j < s.len() - 1 {
                assert(s[j] == s.drop_last()[j]);
            }
        }
    }
}

/// Setting a job's status keeps one record per job.
pub proof fn lemma_updated_keeps_keys_unique(s: StatusTable, key: Seq<char>, v: StatusView)
    requires
        keys_unique(s),
    ensures
        keys_unique(updated(s, key, v)),
{
    lemma_last_index_in_range(s, key);
    match last_index_of(s, key) {
        Some(i) => {
            let t = s.update(i, (key, v));
            assert forall|a: int, b: int| 0 <= a < b < t.len() implies #[trigger] t[a].0
                != #[trigger] t[b].0 by {
                assert(t[a].0 == s[a].0);
                assert(t[b].0 == s[b].0);
            }
        },
        None => {
            lemma_last_index_none(s, key);
            let t = s.push((key, v));
            assert forall|a: int, b: int| 0 <= a < b < t.len() implies #[trigger] t[a].0
                != #[trigger] t[b].0 by {
                assert(t[a] == s[a]);
                if b < s.len() {
                    assert(t[b] == s[b]);
                }
            }
        },
    }
}

/// The status recorded for `key`, if any.
pub open spec fn state_of(s: StatusTable, key: Seq<char>) -> Option<StatusView> {
    match last_index_of(s, key) {
        Some(i) => Some(s[i].1),
        None => None,
    }
}

/// The table with the status of `key` set to `v`: its record is replaced,
/// or one is added at the end.
pub open spec fn updated(s: StatusTable, key: Seq<char>, v: StatusView) -> StatusTable {
    match last_index_of(s, key) {
        Some(i) => s.update(i, (key, v)),
        None => s.push((key, v)),
    }
}

proof fn lemma_last_index_in_range(s: StatusTable, key: Seq<char>)
    ensures
        match last_index_of(s, key) {
            Some(i) => 0 <= i < s.len() && s[i].0 == key,
            None => true,
        },
    decreases s.len(),
{
    if s.len() > 0 && s.last().0 != key {
        lemma_last_index_in_range(s.drop_last(), key);
    }
}

proof fn lemma_last_index_same_keys(s: StatusTable, t: StatusTable, key: Seq<char>)
    requires
        s.len() == t.len(),
        forall|i: int| 0 <= i < s.len() ==> #[trigger] s[i].0 == t[i].0,
    ensures
        last_index_of(s, key) == last_index_of(t, key),
    decreases s.len(),
{
    if s.len() > 0 {
        lemma_last_index_same_keys(s.drop_last(), t.drop_last(), key);
    }
}

proof fn lemma_last_index_suffix(s: StatusTable, key: Seq<char>, i: int)
    requires
        0 <= i <= s.len(),
        forall|j: int| i <= j < s.len() ==> #[trigger] s[j].0 != key,
    ensures
        last_index_of(s, key) == last_index_of(s.subrange(0, i), key),
    decreases s.len() - i,
{
    if i < s.len() {
        assert(s.drop_last().subrange(0, i) =~= s.subrange(0, i));
        lemma_last_index_suffix(s.drop_last(), key, i);
    } else {
        assert(s.subrange(0, i) =~= s);
    }
}

/// Setting one job's status leaves every other job's status as it was.
pub proof fn lemma_state_of_updated(s: StatusTable, key: Seq<char>, v: StatusView, q: Seq<char>)
    ensures
        state_of(updated(s, key, v), q) == if q == key {
            Some(v)
        } else {
            state_of(s, q)
        },
{
    lemma_last_index_in_range(s, key);
    lemma_last_index_in_range(s, q);
    match last_index_of(s, key) {
        Some(i) => {
            let t = s.update(i, (key, v));
            assert forall|j: int| 0 <= j < s.len() implies #[trigger] s[j].0 == t[j].0 by {}
            lemma_last_index_same_keys(s, t, q);
        },
        None => {
            let t = s.push((key, v));
            assert(t.drop_last() =~= s);
            if q != key {
                assert(last_index_of(t, q) == last_index_of(s, q));
            }
        },
    }
}

fn find_last(states: &Vec<(String, TaskState)>, key: &String) -> (r: Option<usize>)
    ensures
        match r {
            Some(i) => last_index_of(table_view(states@), key@) == Some(i as int) && i
                < states@.len(),
            None => last_index_of(table_view(states@), key@) is None,
        },
{
    proof {
        lemma_last_index_in_range(table_view(states@), key@);
    }
    let ghost t = table_view(states@);
    let mut i: usize = states.len();
    while i > 0
        invariant
            i <= states@.len(),
            t == table_view(states@),
            forall|j: int| i <= j < t.len() ==> #[trigger] t[j].0 != key@,
        decreases i,
    {
        if states[i - 1].0 == *key {
            proof {
                lemma_last_index_suffix(t, key@, i as int);
                assert(t.subrange(0, i as int).last().0 == key@);
            }
            return Some(i - 1);
        }
        i = i - 1;
    }
    proof {
        lemma_last_index_suffix(t, key@, 0);
    }
    None
}

/// What enqueueing `dir` does: it joins the end of the queue as `waiting`,
/// and a worker is started (the second component) exactly when none runs.
pub open spec fn spec_enqueue(v: RegistryView, dir: Seq<char>) -> (RegistryView, bool) {
    (
        RegistryView {
            pending: v.pending.push(dir),
            states: updated(v.states, dir, (TaskPhase::Waiting, 0, "waiting"@)),
            running: true,
        },
        !v.running,
    )
}

/// What a worker's request for its next job does: the front of the queue
/// leaves it and is marked `running`; on an empty queue the worker stops,
/// in the same exclusive section.
pub open spec fn spec_next_job(v: RegistryView) -> (RegistryView, Option<Seq<char>>) {
    if v.pending.len() == 0 {
        (RegistryView { running: false, ..v }, None)
    } else {
        (
            RegistryView {
                pending: v.pending.subrange(1, v.pending.len() as int),
                states: updated(v.states, v.pending[0], (TaskPhase::Running, 0, Seq::empty())),
                running: v.running,
            },
            Some(v.pending[0]),
        )
    }
}

pub open spec fn name_view(o: Option<String>) -> Option<Seq<char>> {
    match o {
        Some(s) => Some(s@),
        None => None,
    }
}

/// The share of a job that is done after `index + 1` of `total` steps, in
/// percent, rounded down.
pub open spec fn progress(index: int, total: int) -> int {
    (index + 1) * 100 / total
}

impl JobRegistry {
    /// An empty registry with no worker.
    pub fn new() -> (r: JobRegistry)
        ensures
            r@.pending.len() == 0,
            r@.states.len() == 0,
            !r@.running,
            r.wf(),
    {
        JobRegistry { list: Vec::new(), states: Vec::new(), running: false }
    }

    /// Enqueues the job of directory `dir`. Returns whether the caller must
    /// start a worker: the check of the flag and its setting are one step.
    pub fn enqueue_job(&mut self, dir: String) -> (spawn: bool)
        requires
            old(self).wf(),
        ensures
            (final(self)@, spawn) == spec_enqueue(old(self)@, dir@),
            final(self).wf(),
    {
        add_task(self, dir.clone());
        update_task(
            self,
            dir,
            TaskState { state: TaskPhase::Waiting, percent: 0, message: "waiting".to_owned() },
        );
        let spawn = !is_running(self);
        set_running(self, 1);
        spawn
    }

    /// The worker's next job, now marked `running`; `None` when the queue is
    /// empty, and then the worker flag is cleared.
    pub fn next_job(&mut self) -> (r: Option<String>)
        requires
            old(self).wf(),
        ensures
            (final(self)@, name_view(r)) == spec_next_job(old(self)@),
            final(self).wf(),
    {
        match get_task(self) {
            None => {
                set_running(self, 0);
                assert(self@ =~= spec_next_job(old(self)@).0);
                None
            },
            Some(dir) => {
                update_task(
                    self,
                    dir.clone(),
                    TaskState { state: TaskPhase::Running, percent: 0, message: String::new() },
                );
                Some(dir)
            },
        }
    }

    /// Records that step `index` of `total` of the job of `dir` is done.
    pub fn report_progress(&mut self, dir: String, index: usize, total: usize)
        requires
            old(self).wf(),
            index < total,
        ensures
            final(self).wf(),
            final(self)@ == (RegistryView {
                states: updated(
                    old(self)@.states,
                    dir@,
                    (TaskPhase::Running, progress(index as int, total as int) as usize, Seq::empty()),
                ),
                ..old(self)@
            }),
    {
        let percent = progress_percent(index, total);
        update_task(
            self,
            dir,
            TaskState { state: TaskPhase::Running, percent, message: String::new() },
        );
    }

    /// Records the outcome of the job of `dir`: `success` at 100 percent, or
    /// `failure` with the error's message at the last percent recorded (0 if
    /// none was).
    pub fn finish_job(&mut self, dir: String, outcome: Result<(), String>)
        requires
            old(self).wf(),
        ensures
            final(self).wf(),
            final(self)@ == (RegistryView {
                states: updated(old(self)@.states, dir@, finished_status(old(self)@.states, dir@, outcome)),
                ..old(self)@
            }),
    {
        let status = match outcome {
            Ok(()) => TaskState { state: TaskPhase::Success, percent: 100, message: String::new() },
            Err(message) => {
                let percent = match find_last(&self.states, &dir) {
                    Some(i) => self.states[i].1.percent,
                    None => 0,
                };
                TaskState { state: TaskPhase::Failure, percent, message }
            },
        };
        update_task(self, dir, status);
    }

    /// A snapshot of every job's status.
    pub fn query_all_task_state(&self) -> (r: Vec<(String, TaskState)>)
        requires
            self.wf(),
        ensures
            table_view(r@) == self@.states,
            keys_unique(table_view(r@)),
    {
        get_task_state(self)
    }
}

/// The status that `finish_job` records.
pub open spec fn finished_status(s: StatusTable, dir: Seq<char>, outcome: Result<(), String>) -> StatusView {
    match outcome {
        Ok(()) => (TaskPhase::Success, 100, Seq::empty()),
        Err(m) => (
            TaskPhase::Failure,
            match state_of(s, dir) {
                Some(st) => st.1,
                None => 0,
            },
            m@,
        ),
    }
}

/// Jobs come out of the queue in the order they went in: with no job
/// pending, enqueueing `a` and then `b` lists both, and the worker's next two
/// requests return `a`, then `b`.
pub proof fn lemma_enqueue_order_kept(v: RegistryView, a: Seq<char>, b: Seq<char>)
    requires
        v.pending.len() == 0,
    ensures
        ({
            let v1 = spec_enqueue(v, a).0;
            let v2 = spec_enqueue(v1, b).0;
            let (v3, first) = spec_next_job(v2);
            let (v4, second) = spec_next_job(v3);
            &&& state_of(v2.states, a) is Some
            &&& state_of(v2.states, b) is Some
            &&& first == Some(a)
            &&& second == Some(b)
            &&& v4.pending.len() == 0
        }),
{
    let v1 = spec_enqueue(v, a).0;
    let v2 = spec_enqueue(v1, b).0;
    lemma_state_of_updated(v.states, a, (TaskPhase::Waiting, 0, "waiting"@), a);
    lemma_state_of_updated(v1.states, b, (TaskPhase::Waiting, 0, "waiting"@), a);
    lemma_state_of_updated(v1.states, b, (TaskPhase::Waiting, 0, "waiting"@), b);
    assert(v2.pending =~= seq![a, b]);
    let v3 = spec_next_job(v2).0;
    assert(v3.pending =~= seq![b]);
}

/// A single worker at a time: of two enqueues in a row, from any state, at
/// most one starts a worker; after one does, the flag is set; and while a
/// worker runs, no enqueue starts another.
pub proof fn lemma_single_flight(v: RegistryView, a: Seq<char>, b: Seq<char>)
    ensures
        ({
            let (v1, s1) = spec_enqueue(v, a);
            let (v2, s2) = spec_enqueue(v1, b);
            &&& !(s1 && s2)
            &&& v1.running
            &&& v2.running
            &&& v.running ==> !s1
        }),
{
}

/// The worker flag is cleared only when the queue is empty: a request for
/// the next job that finds one leaves the flag as it was.
pub proof fn lemma_worker_stops_only_when_idle(v: RegistryView)
    ensures
        spec_next_job(v).1 is None <==> v.pending.len() == 0,
        !spec_next_job(v).0.running ==> v.pending.len() == 0 || !v.running,
{
}

/// `(index + 1) * 100 / total`, without overflow.
pub fn progress_percent(index: usize, total: usize) -> (r: usize)
    requires
        index < total,
    ensures
        r == progress(index as int, total as int),
        r <= 100,
{
    let p = (index as u128 + 1) * 100 / (total as u128);
    proof {
        let a = (index + 1) * 100;
        let b = total as int;
        assert(a <= b * 100) by (nonlinear_arith)
            requires
                a == (index + 1) * 100,
                index < b,
        ;
        assert(a / b <= 100) by (nonlinear_arith)
            requires
                a <= b * 100,
                b > 0,
                a >= 0,
        ;
    }
    p as usize
}

/// Takes the job at the front of the queue.
pub fn get_task(reg: &mut JobRegistry) -> (r: Option<String>)
    requires
        old(reg).wf(),
    ensures
        old(reg)@.pending.len() == 0 ==> r is None && final(reg)@ == old(reg)@,
        old(reg)@.pending.len() > 0 ==> r is Some && r.unwrap()@ == old(reg)@.pending[0]
            && final(reg)@ == (RegistryView {
            pending: old(reg)@.pending.subrange(1, old(reg)@.pending.len() as int),
            ..old(reg)@
        }),
        final(reg).wf(),
{
    if reg.list.len() < 1 {
        return None;
    }
    let dir = reg.list.remove(0);
    assert(reg@.pending =~= old(reg)@.pending.subrange(1, old(reg)@.pending.len() as int));
    Some(dir)
}

/// Puts the job of `dir` at the end of the queue.
pub fn add_task(reg: &mut JobRegistry, dir: String)
    requires
        old(reg).wf(),
    ensures
        final(reg)@ == (RegistryView { pending: old(reg)@.pending.push(dir@), ..old(reg)@ }),
        final(reg).wf(),
{
    reg.list.push(dir);
    assert(reg@.pending =~= old(reg)@.pending.push(dir@));
}

/// Sets the status of the job `task_name`.
pub fn update_task(reg: &mut JobRegistry, task_name: String, task_state: TaskState)
    requires
        old(reg).wf(),
    ensures
        final(reg)@ == (RegistryView {
            states: updated(old(reg)@.states, task_name@, task_state@),
            ..old(reg)@
        }),
        final(reg).wf(),
{
    let ghost key = task_name@;
    let ghost v = task_state@;
    proof {
        lemma_updated_keeps_keys_unique(old(reg)@.states, key, v);
    }
    match find_last(&reg.states, &task_name) {
        Some(i) => {
            reg.states[i] = (task_name, task_state);
            assert(reg@.states =~= updated(old(reg)@.states, key, v));
        },
        None => {
            reg.states.push((task_name, task_state));
            assert(reg@.states =~= updated(old(reg)@.states, key, v));
        },
    }
}

/// A copy of the status table.
pub fn get_task_state(reg: &JobRegistry) -> (r: Vec<(String, TaskState)>)
    ensures
        table_view(r@) == reg@.states,
{
    let mut out: Vec<(String, TaskState)> = Vec::new();
    let mut i: usize = 0;
    while i < reg.states.len()
        invariant
            i <= reg.states@.len(),
            out@.len() == i,
            forall|k: int|
                0 <= k < i ==> #[trigger] out@[k].0@ == reg.states@[k].0@ && out@[k].1@
                    == reg.states@[k].1@,
        decreases reg.states@.len() - i,
    {
        let e = &reg.states[i];
        let name = e.0.clone();
        let st = e.1.copy();
        out.push((name, st));
        i = i + 1;
    }
    assert(table_view(out@) =~= table_view(reg.states@));
    out
}

/// Whether a worker is draining the queue.
pub fn is_running(reg: &JobRegistry) -> (r: bool)
    ensures
        r == reg@.running,
{
    reg.running
}

/// Sets the worker flag: set for a non-zero `flag`, cleared for zero.
pub fn set_running(reg: &mut JobRegistry, flag: usize)
    requires
        old(reg).wf(),
    ensures
        final(reg)@ == (RegistryView { running: flag > 0, ..old(reg)@ }),
        final(reg).wf(),
{
    reg.running = flag > 0;
}

} // verus!
