use crate::batch::{names_view, without_name, BatchState};
use crate::echo::{Renderer, TermColor};
use crate::error::Error;
use vstd::prelude::*;
use vstd::string::{StrSliceExecFns, StringExecFns};

verus! {

/// Column of the status glyph on a task's line.
pub const SIGN_MARGIN: u16 = 3;

/// Column offset of the inline status word, counted from the end of the
/// task's name banner.
pub const MSG_MARGIN: u16 = 5;

/// What a finished batch should do about tasks aborted mid-flight: an install
/// batch rolls their partial artifacts back, an update batch leaves them.
pub enum TaskType {
    Install,
    Update,
}

/// One package's unit of work. The engine reads only the name; the remaining
/// attributes are carried for the operation function.
#[derive(Clone)]
pub struct Task {
    pub name: String,
    pub category: String,
    pub opt: bool,
    pub local: bool,
    pub load_command: Option<String>,
    pub build_command: Option<String>,
    pub for_types: Vec<String>,
    pub reference: Option<String>,
}

/// The abstract value of one task: every attribute as a plain mathematical
/// value.
pub ghost struct TaskView {
    pub name: Seq<char>,
    pub category: Seq<char>,
    pub opt: bool,
    pub local: bool,
    pub load_command: Option<Seq<char>>,
    pub build_command: Option<Seq<char>>,
    pub for_types: Seq<Seq<char>>,
    pub reference: Option<Seq<char>>,
}

/// The view of an optional string.
pub open spec fn opt_string_view(o: Option<String>) -> Option<Seq<char>> {
    match o {
        Some(s) => Some(s@),
        None => None,
    }
}

impl View for Task {
    type V = TaskView;

    open spec fn view(&self) -> TaskView {
        TaskView {
            name: self.name@,
            category: self.category@,
            opt: self.opt,
            local: self.local,
            load_command: opt_string_view(self.load_command),
            build_command: opt_string_view(self.build_command),
            for_types: names_view(self.for_types@),
            reference: opt_string_view(self.reference),
        }
    }
}

/// The views of a list of tasks.
pub open spec fn tasks_view(s: Seq<Task>) -> Seq<TaskView> {
    s.map_values(|t: Task| t@)
}

impl Task {
    pub fn new(name: String, category: String, opt: bool) -> (r: Task)
        ensures
            r.name == name,
            r.category == category,
            r.opt == opt,
            !r.local,
            r.load_command is None,
            r.build_command is None,
            r.for_types@.len() == 0,
            r.reference is None,
    {
        Task {
            name,
            category,
            opt,
            local: false,
            load_command: None,
            build_command: None,
            for_types: Vec::new(),
            reference: None,
        }
    }
}

/// A condition on which a batch run refuses to start.
#[derive(Debug, PartialEq, Eq)]
pub enum Fatal {
    NoPlugins,
    TerminalSize,
    TerminalTooSmall,
    Signal,
}

impl Fatal {
    /// The diagnostic line for this condition.
    pub open spec fn spec_message(self) -> Seq<char> {
        match self {
            Fatal::NoPlugins => "No plugins to sync"@,
            Fatal::TerminalSize => "Fail to get terminal size."@,
            Fatal::TerminalTooSmall => "Terminal size too small."@,
            Fatal::Signal => "Fail to set up signal."@,
        }
    }

    pub fn message(&self) -> (r: String)
        ensures
            r@ == self.spec_message(),
    {
        match self {
            Fatal::NoPlugins => String::from_str("No plugins to sync"),
            Fatal::TerminalSize => String::from_str("Fail to get terminal size."),
            Fatal::TerminalTooSmall => String::from_str("Terminal size too small."),
            Fatal::Signal => String::from_str("Fail to set up signal."),
        }
    }
}

/// The caller-supplied work of one task.
///
/// The engine calls `operation` exactly once per dispatched task; an
/// implementation must be safe to call from several workers at once on
/// distinct tasks. The first component of the result says whether the task
/// succeeded; the second says, for a failure, whether the task should be kept
/// in the caller's persisted set (`true`) or be treated as undone (`false`).
pub trait Operation {
    /// The input-output relation of this operation: which result pairs it
    /// may return for a task. Each implementation fixes it, and the engine's
    /// contracts promise that every recorded outcome satisfies it.
    spec fn outcome(&self, task: TaskView, r: (Result<(), Error>, bool)) -> bool;

    fn operation(&self, task: &Task) -> (r: (Result<(), Error>, bool))
        ensures
            self.outcome(task@, r),
    ;
}

/// The outcome of one dispatched task.
pub struct TaskReport {
    pub name: String,
    pub failed: bool,
    pub keep: bool,
}

/// Whether an optional build step ran and failed.
pub open spec fn build_failed(build: Option<Result<(), Error>>) -> bool {
    build matches Some(b) && b is Err
}

/// The conclusion of one task's lifecycle as a value: whether the task is
/// reported failed, and whether it is kept in the caller's persisted set.
pub open spec fn spec_conclude(
    res: Result<(), Error>,
    keep_on_failure: bool,
    build: Option<Result<(), Error>>,
) -> (bool, bool) {
    if res is Err {
        (true, keep_on_failure)
    } else if build_failed(build) {
        (true, true)
    } else {
        (false, true)
    }
}

/// The conclusion of one task's lifecycle, from the operation's outcome and
/// the outcome of its optional build step: a sync failure is reported with
/// the operation's keep flag; a build failure after a successful sync is
/// reported, but the task stays in the caller's persisted set, since it was
/// installed; otherwise the task succeeded and stays. Returns whether the
/// task goes to the failure list, and whether it is kept.
pub fn conclude_task(
    res: &Result<(), Error>,
    keep_on_failure: bool,
    build: &Option<Result<(), Error>>,
) -> (r: (bool, bool))
    ensures
        r == spec_conclude(*res, keep_on_failure, *build),
{
    match res {
        Err(_) => (true, keep_on_failure),
        Ok(_) => match build {
            Some(Err(_)) => (true, true),
            _ => (false, true),
        },
    }
}

/// The banner a task's line starts with while its operation runs.
pub fn sync_banner(name: &str) -> (r: String)
    ensures
        r@ == "    "@ + " ["@ + name@ + "]"@ + " syncing"@,
{
    let bracket = String::from_str(" [").concat(name).concat("]");
    let banner = String::from_str("    ").concat(bracket.as_str()).concat(" syncing");
    proof {
        assert(banner@ =~= "    "@ + " ["@ + name@ + "]"@ + " syncing"@);
    }
    banner
}

/// The column at which a task's inline status word is written: the status
/// margin past the bracketed name, saturated at the widest column a terminal
/// coordinate can name.
pub fn message_column(name: &str) -> (r: u16)
    ensures
        ({
            let l = name@.len() as int + 3;
            let cap = (u16::MAX - MSG_MARGIN) as int;
            r as int == MSG_MARGIN + (if l < cap {
                l
            } else {
                cap
            })
        }),
{
    let l = name.unicode_len();
    let cap = (u16::MAX - MSG_MARGIN) as usize;
    let pos: u16 = if l < cap - 3 {
        (l + 3) as u16
    } else {
        u16::MAX - MSG_MARGIN
    };
    MSG_MARGIN + pos
}

/// The names of the failed tasks among `reports`, in dispatch order.
pub open spec fn failed_names(reports: Seq<TaskReport>) -> Seq<Seq<char>>
    decreases reports.len(),
{
    if reports.len() == 0 {
        Seq::empty()
    } else {
        let rest = failed_names(reports.drop_last());
        if reports.last().failed {
            rest.push(reports.last().name@)
        } else {
            rest
        }
    }
}

/// Every failed name comes from some report that failed: the failure list of
/// a run is a subset of the names of the dispatched tasks.
pub proof fn lemma_failed_names_subset(reports: Seq<TaskReport>, n: Seq<char>)
    requires
        failed_names(reports).contains(n),
    ensures
        exists|i: int|
            0 <= i < reports.len() && (#[trigger] reports[i]).name@ == n && reports[i].failed,
    decreases reports.len(),
{
    if reports.len() > 0 {
        let rest = failed_names(reports.drop_last());
        let w = reports.len() - 1;
        if reports.last().failed && reports.last().name@ == n {
            assert(reports[w].name@ == n && reports[w].failed);
        } else {
            assert(rest.contains(n)) by {
                if reports.last().failed {
                    let k = choose|k: int|
                        0 <= k < failed_names(reports).len() && failed_names(reports)[k] == n;
                    assert(failed_names(reports) == rest.push(reports.last().name@));
                    assert(rest[k] == n);
                }
            }
            lemma_failed_names_subset(reports.drop_last(), n);
            let i = choose|i: int|
                0 <= i < reports.drop_last().len() && (#[trigger] reports.drop_last()[i]).name@
                    == n && reports.drop_last()[i].failed;
            assert(reports[i] == reports.drop_last()[i]);
            assert(reports[i].name@ == n && reports[i].failed);
        }
    }
}

/// Whether `reports` is an honest account of running `op` over `packs`:
/// one report per task, in order, each bearing its task's name, and each
/// report's flags the conclusion of an outcome (`outs`) that the operation
/// allows for that task.
pub open spec fn reports_explain<O: Operation>(
    op: &O,
    packs: Seq<Task>,
    reports: Seq<TaskReport>,
    outs: Seq<(Result<(), Error>, bool)>,
) -> bool {
    reports.len() == packs.len() && outs.len() == reports.len() && (forall|i: int|
        0 <= i < reports.len() ==> (#[trigger] reports[i]).name@ == packs[i].name@) && (forall|
        i: int,
    |
        #![trigger reports[i]]
        0 <= i < reports.len() ==> op.outcome(packs[i]@, outs[i]) && ((reports[i].failed,
        reports[i].keep) == spec_conclude(outs[i].0, outs[i].1, None)))
}

proof fn lemma_failed_names_all_failed(reports: Seq<TaskReport>)
    requires
        forall|i: int| 0 <= i < reports.len() ==> (#[trigger] reports[i]).failed,
    ensures
        failed_names(reports).len() == reports.len(),
        forall|i: int|
            0 <= i < reports.len() ==> failed_names(reports)[i] == (#[trigger] reports[i]).name@,
    decreases reports.len(),
{
    if reports.len() > 0 {
        let prefix = reports.drop_last();
        let w = reports.len() - 1;
        assert forall|i: int| 0 <= i < prefix.len() implies (#[trigger] prefix[i]).failed by {
            assert(prefix[i] == reports[i]);
        }
        lemma_failed_names_all_failed(prefix);
        assert(reports.last().failed);
        assert(failed_names(reports) == failed_names(prefix).push(reports.last().name@));
        assert forall|i: int| 0 <= i < reports.len() implies failed_names(reports)[i] == (
        #[trigger] reports[i]).name@ by {
            if i < w {
                assert(failed_names(reports)[i] == failed_names(prefix)[i]);
                assert(prefix[i] == reports[i]);
            } else {
                assert(failed_names(reports)[w] == reports.last().name@);
            }
        }
    }
}

/// When every outcome the operation allows for a task of the batch is a
/// failure, an honest run reports every task: the failure list holds each
/// dispatched task's name, in dispatch order — so a batch of three tasks
/// whose operation can only fail comes back as a failure list of three.
pub proof fn lemma_all_failures_reported<O: Operation>(
    op: &O,
    packs: Seq<Task>,
    reports: Seq<TaskReport>,
    outs: Seq<(Result<(), Error>, bool)>,
)
    requires
        reports_explain(op, packs, reports, outs),
        forall|i: int, out: (Result<(), Error>, bool)|
            0 <= i < packs.len() && #[trigger] op.outcome(packs[i]@, out) ==> out.0 is Err,
    ensures
        failed_names(reports).len() == packs.len(),
        forall|i: int|
            0 <= i < packs.len() ==> failed_names(reports)[i] == (#[trigger] packs[i]).name@,
{
    assert forall|i: int| 0 <= i < reports.len() implies (#[trigger] reports[i]).failed by {
        let ri = reports[i];
        assert(op.outcome(packs[i]@, outs[i]) && ((reports[i].failed, reports[i].keep)
            == spec_conclude(outs[i].0, outs[i].1, None)));
        assert(outs[i].0 is Err);
    }
    lemma_failed_names_all_failed(reports);
    assert forall|i: int| 0 <= i < packs.len() implies failed_names(reports)[i] == (
    #[trigger] packs[i]).name@ by {
        assert(failed_names(reports)[i] == reports[i].name@);
    }
}

/// Whatever the operation returned, a failure list built from one report
/// per dispatched task names only dispatched tasks: the list a run hands
/// back is a subset of the batch's task names.
pub proof fn lemma_failure_list_subset(
    reports: Seq<TaskReport>,
    tasks: Seq<Task>,
    n: Seq<char>,
)
    requires
        reports.len() == tasks.len(),
        forall|i: int|
            0 <= i < reports.len() ==> (#[trigger] reports[i]).name@ == tasks[i].name@,
        failed_names(reports).contains(n),
    ensures
        exists|i: int| 0 <= i < tasks.len() && (#[trigger] tasks[i]).name@ == n,
{
    lemma_failed_names_subset(reports, n);
    let i = choose|i: int|
        0 <= i < reports.len() && (#[trigger] reports[i]).name@ == n && reports[i].failed;
    assert(tasks[i].name@ == n);
}

/// The total of a sequence of chunk sizes.
pub open spec fn chunk_sum(s: Seq<usize>) -> int
    decreases s.len(),
{
    if s.len() == 0 {
        0
    } else {
        chunk_sum(s.drop_last()) + s.last()
    }
}

/// The largest chunk a run may dispatch at once: the visible rows that remain
/// after the two framing lines, but never more than the worker count.
pub open spec fn chunk_cap(rows: u16, workers: usize) -> int {
    if rows - 2 < workers {
        rows - 2
    } else {
        workers as int
    }
}

proof fn lemma_chunk_sum_take_succ(s: Seq<usize>, k: int)
    requires
        0 <= k < s.len(),
    ensures
        chunk_sum(s.take(k + 1)) == chunk_sum(s.take(k)) + s[k],
{
    assert(s.take(k + 1).drop_last() =~= s.take(k));
    assert(s.take(k + 1).last() == s[k]);
}

/// Splits `n` tasks into chunks: every chunk is as large as the cap allows,
/// no chunk is empty, and together they cover the batch exactly once.
pub fn plan_chunks(n: usize, rows: u16, workers: usize) -> (r: Vec<usize>)
    requires
        rows > 2,
        workers >= 1,
    ensures
        chunk_sum(r@) == n,
        forall|i: int| 0 <= i < r@.len() ==> 1 <= #[trigger] r@[i],
        forall|i: int| 0 <= i < r@.len() ==> #[trigger] r@[i] <= chunk_cap(rows, workers),
{
    let h = (rows - 2) as usize;
    let cap = if h < workers {
        h
    } else {
        workers
    };
    assert(cap == chunk_cap(rows, workers));
    let mut out: Vec<usize> = Vec::new();
    let mut remaining: usize = n;
    while remaining > 0
        invariant
            1 <= cap,
            cap == chunk_cap(rows, workers),
            remaining <= n,
            chunk_sum(out@) == n - remaining,
            forall|i: int| 0 <= i < out@.len() ==> 1 <= #[trigger] out@[i],
            forall|i: int| 0 <= i < out@.len() ==> #[trigger] out@[i] <= chunk_cap(rows, workers),
        decreases remaining,
    {
        let c = if remaining < cap {
            remaining
        } else {
            cap
        };
        let ghost prev = out@;
        out.push(c);
        proof {
            assert(out@.drop_last() =~= prev);
            assert(out@.last() == c);
        }
        remaining = remaining - c;
    }
    out
}

/// The terminal row, counted upward from the bottom of a chunk's block, at
/// which the task at `index` within a chunk of `len` tasks is displayed.
pub fn chunk_row(len: usize, index: usize) -> (r: usize)
    requires
        index < len,
    ensures
        r == len - index,
{
    len - index
}

proof fn lemma_chunk_sum_prefix_le(s: Seq<usize>, k: int)
    requires
        0 <= k <= s.len(),
    ensures
        chunk_sum(s.take(k)) <= chunk_sum(s),
    decreases s.len() - k,
{
    if k == s.len() {
        assert(s.take(k) =~= s);
    } else {
        lemma_chunk_sum_take_succ(s, k);
        lemma_chunk_sum_prefix_le(s, k + 1);
    }
}

/// What one whole run produced: one report per dispatched task, in dispatch
/// order, the final shared batch state, the chunk sizes the batch was
/// dispatched in, and — as a ghost witness — the operation outcome each
/// report concluded from.
pub struct BatchReport {
    pub reports: Vec<TaskReport>,
    pub state: BatchState,
    pub chunks: Vec<usize>,
    pub outcomes: Ghost<Seq<(Result<(), Error>, bool)>>,
}

/// Orchestrator of one batch of tasks: collects the tasks, then drives them
/// through the display lifecycle and the shared batch state.
pub struct TaskManager {
    task_type: TaskType,
    packs: Vec<Task>,
    thread_num: usize,
}

impl TaskManager {
    pub closed spec fn spec_task_type(self) -> TaskType {
        self.task_type
    }

    pub closed spec fn spec_packs(self) -> Seq<Task> {
        self.packs@
    }

    pub closed spec fn spec_thread_num(self) -> usize {
        self.thread_num
    }

    pub fn new(task_type: TaskType, thread_num: usize) -> (r: TaskManager)
        requires
            thread_num >= 1,
        ensures
            r.spec_task_type() == task_type,
            r.spec_packs().len() == 0,
            r.spec_thread_num() == thread_num,
    {
        TaskManager { task_type, packs: Vec::new(), thread_num }
    }

    /// Appends one task to the batch. Uniqueness of names is the caller's
    /// responsibility.
    pub fn add(&mut self, pack: Task)
        ensures
            final(self).spec_packs() == old(self).spec_packs().push(pack),
            final(self).spec_task_type() == old(self).spec_task_type(),
            final(self).spec_thread_num() == old(self).spec_thread_num(),
    {
        self.packs.push(pack);
    }

    /// Writes the terminal state of one finished task: the status glyph at
    /// the sign column and either `done` or the failure's description at
    /// `col`. Returns whether the outcome was a failure.
    fn report_outcome(renderer: &Renderer, line: u16, col: u16, res: &Result<(), Error>) -> (failed:
        bool)
        requires
            line < renderer.spec_lines(),
        ensures
            failed == (res is Err),
    {
        match res {
            Ok(_) => {
                renderer.character(line, SIGN_MARGIN, '✓', TermColor::Green);
                renderer.inline_message(line, col, "done");
                false
            },
            Err(e) => {
                renderer.character(line, SIGN_MARGIN, '✗', TermColor::Red);
                let m = e.description();
                renderer.inline_message(line, col, m.as_str());
                true
            },
        }
    }

    /// Drives one task through its display lifecycle on the given virtual
    /// line: prints the name banner with `syncing`, runs the operation once,
    /// and reports the outcome. Returns whether the task failed, whether a
    /// failed task is to be kept in the caller's persisted set, and the
    /// operation's outcome itself as a ghost witness: the returned flags are
    /// exactly the conclusion of an outcome the operation allows.
    fn update<O: Operation>(pack: &Task, renderer: &Renderer, line: u16, op: &O) -> (r: (
        bool,
        bool,
        Ghost<(Result<(), Error>, bool)>,
    ))
        requires
            line < renderer.spec_lines(),
        ensures
            op.outcome(pack@, r.2@),
            (r.0, r.1) == spec_conclude(r.2@.0, r.2@.1, None),
    {
        let banner = sync_banner(pack.name.as_str());
        renderer.message(line, 0, banner.as_str());
        let col = message_column(pack.name.as_str());
        let (res, keep_on_failure) = op.operation(pack);
        let ghost out = (res, keep_on_failure);
        let failed = Self::report_outcome(renderer, line, col, &res);
        let (_, keep) = conclude_task(&res, keep_on_failure, &None);
        (failed, keep, Ghost(out))
    }

    /// Runs the whole batch in dispatch order and returns one report per
    /// task together with the final batch state: no task stays pending, the
    /// failure collector holds exactly the failed names, every report's
    /// flags are the conclusion of an outcome the operation allows for that
    /// task, cancellation never fires on a run that completes, and every
    /// dispatched chunk is bounded by the terminal height and the worker
    /// count.
    pub fn run_reports<O: Operation>(self, op: &O, height: u16) -> (r: Result<BatchReport, Fatal>)
        requires
            self.spec_thread_num() >= 1,
            self.spec_packs().len() + 2 <= u16::MAX,
        ensures
            (r == Err::<BatchReport, Fatal>(Fatal::NoPlugins)) <==> self.spec_packs().len() == 0,
            (r == Err::<BatchReport, Fatal>(Fatal::TerminalTooSmall)) <==> (self.spec_packs().len()
                > 0 && height <= 2),
            r is Ok <==> (self.spec_packs().len() > 0 && height > 2),
            r matches Ok(b) ==> reports_explain(op, self.spec_packs(), b.reports@, b.outcomes@)
                && b.state@.pending == Seq::<Seq<char>>::empty() && b.state@.failures
                == failed_names(b.reports@) && !b.state@.cancelled,
            r matches Ok(b) ==> chunk_sum(b.chunks@) == self.spec_packs().len() && (forall|i: int|
                0 <= i < b.chunks@.len() ==> 1 <= #[trigger] b.chunks@[i] && b.chunks@[i]
                    <= chunk_cap(height, self.spec_thread_num())),
    {
        let n = self.packs.len();
        if n == 0 {
            return Err(Fatal::NoPlugins);
        }
        if height <= 2 {
            return Err(Fatal::TerminalTooSmall);
        }
        let mut renderer = Renderer::new();
        let mut state = BatchState::new();
        let mut reports: Vec<TaskReport> = Vec::new();
        let ghost mut outs: Seq<(Result<(), Error>, bool)> = Seq::empty();
        renderer.line();
        let sizes = plan_chunks(n, height, self.thread_num);
        let mut idx: usize = 0;
        let mut ci: usize = 0;
        proof {
            assert(names_view(Seq::<String>::empty()) =~= Seq::<Seq<char>>::empty());
            assert(sizes@.take(0) =~= Seq::<usize>::empty());
        }
        while ci < sizes.len()
            invariant
                ci <= sizes@.len(),
                idx == chunk_sum(sizes@.take(ci as int)),
                chunk_sum(sizes@) == n,
                n == self.spec_packs().len(),
                self.packs@ == self.spec_packs(),
                n + 2 <= u16::MAX,
                forall|i: int| 0 <= i < sizes@.len() ==> 1 <= #[trigger] sizes@[i],
                idx <= n,
                reports@.len() == idx,
                forall|k: int|
                    0 <= k < idx ==> (#[trigger] reports@[k]).name@ == self.spec_packs()[k].name@,
                outs.len() == idx,
                forall|k: int|
                    #![trigger outs[k]]
                    0 <= k < idx ==> op.outcome(self.spec_packs()[k]@, outs[k]) && ((
                    reports@[k].failed, reports@[k].keep) == spec_conclude(
                        outs[k].0,
                        outs[k].1,
                        None,
                    )),
                state@.pending == Seq::<Seq<char>>::empty(),
                state@.failures == failed_names(reports@),
                !state@.cancelled,
                renderer.spec_lines() == 1 + idx,
            decreases sizes@.len() - ci,
        {
            let size = sizes[ci];
            let ghost base = idx as int;
            proof {
                lemma_chunk_sum_take_succ(sizes@, ci as int);
                lemma_chunk_sum_prefix_le(sizes@, ci as int + 1);
            }
            let mut j: usize = 0;
            while j < size
                invariant
                    j <= size,
                    idx == base + j,
                    base + size <= n,
                    n == self.spec_packs().len(),
                    self.packs@ == self.spec_packs(),
                    n + 2 <= u16::MAX,
                    idx <= n,
                    reports@.len() == idx,
                    forall|k: int|
                        0 <= k < idx ==> (#[trigger] reports@[k]).name@
                            == self.spec_packs()[k].name@,
                    outs.len() == idx,
                    forall|k: int|
                        #![trigger outs[k]]
                        0 <= k < idx ==> op.outcome(self.spec_packs()[k]@, outs[k]) && ((
                        reports@[k].failed, reports@[k].keep) == spec_conclude(
                            outs[k].0,
                            outs[k].1,
                            None,
                        )),
                    state@.pending == Seq::<Seq<char>>::empty(),
                    state@.failures == failed_names(reports@),
                    !state@.cancelled,
                    renderer.spec_lines() == 1 + idx,
                decreases size - j,
            {
                let line = renderer.line();
                let name = self.packs[idx].name.clone();
                let ghost nv = name@;
                state.begin(name);
                let (failed, keep, out) = Self::update(&self.packs[idx], &renderer, line, op);
                state.finish(&self.packs[idx].name, failed);
                proof {
                    let s0 = Seq::<Seq<char>>::empty();
                    assert(without_name(s0, nv) =~= s0);
                    let s1 = s0.push(nv);
                    assert(s1.drop_last() =~= s0);
                    assert(s1.last() == nv);
                    assert(without_name(s1, nv) =~= s0);
                }
                let rep_name = self.packs[idx].name.clone();
                let ghost prev_reports = reports@;
                reports.push(TaskReport { name: rep_name, failed, keep });
                proof {
                    assert(reports@.drop_last() =~= prev_reports);
                    assert(reports@.last().name@ == nv);
                    outs = outs.push(out@);
                    assert(outs[idx as int] == out@);
                    assert(op.outcome(self.spec_packs()[idx as int]@, outs[idx as int]));
                }
                idx = idx + 1;
                j = j + 1;
            }
            ci = ci + 1;
        }
        renderer.line();
        let ghost reps = reports@;
        let result = BatchReport { reports, state, chunks: sizes, outcomes: Ghost(outs) };
        proof {
            assert(sizes@.take(sizes@.len() as int) =~= sizes@);
            assert(result.reports@ == reps);
            assert(result.outcomes@ == outs);
            assert(reports_explain(op, self.spec_packs(), result.reports@, result.outcomes@)) by {
                assert forall|i: int| 0 <= i < reps.len() implies (#[trigger] reps[i]).name@
                    == self.spec_packs()[i].name@ by {}
                assert forall|i: int| #![trigger reps[i]] 0 <= i < reps.len() implies op.outcome(
                    self.spec_packs()[i]@,
                    outs[i],
                ) && ((reps[i].failed, reps[i].keep) == spec_conclude(
                    outs[i].0,
                    outs[i].1,
                    None,
                )) by {
                    assert(op.outcome(self.spec_packs()[i]@, outs[i]));
                }
            }
        }
        Ok(result)
    }

    /// Runs the batch against a terminal of the given height and returns the
    /// names of the failed tasks, in dispatch order. The failure list always
    /// comes from one report per dispatched task, and every report's flags
    /// are the conclusion of an outcome the operation allows for that task.
    pub fn run_with_height<O: Operation>(self, op: &O, height: u16) -> (r: Result<
        Vec<String>,
        Fatal,
    >)
        requires
            self.spec_thread_num() >= 1,
            self.spec_packs().len() + 2 <= u16::MAX,
        ensures
            (r == Err::<Vec<String>, Fatal>(Fatal::NoPlugins)) <==> self.spec_packs().len() == 0,
            (r == Err::<Vec<String>, Fatal>(Fatal::TerminalTooSmall)) <==> (
            self.spec_packs().len() > 0 && height <= 2),
            r is Ok <==> (self.spec_packs().len() > 0 && height > 2),
            r matches Ok(names) ==> exists|
                reports: Seq<TaskReport>,
                outs: Seq<(Result<(), Error>, bool)>,
            |
                (#[trigger] reports_explain(op, self.spec_packs(), reports, outs)) && names_view(
                    names@,
                ) == failed_names(reports),
    {
        match self.run_reports(op, height) {
            Ok(b) => {
                let ghost witness = b.reports@;
                let ghost wouts = b.outcomes@;
                let names = b.state.failures;
                proof {
                    assert(names_view(names@) == failed_names(witness));
                    assert(reports_explain(op, self.spec_packs(), witness, wouts));
                }
                Ok(names)
            },
            Err(f) => Err(f),
        }
    }

    /// Consumes the manager and drives the full batch: refuses an empty
    /// batch, reads the terminal size, and returns the names of the failed
    /// tasks.
    pub fn run<O: Operation>(self, op: &O) -> (r: Result<Vec<String>, Fatal>)
        requires
            self.spec_thread_num() >= 1,
            self.spec_packs().len() + 2 <= u16::MAX,
        ensures
            (r == Err::<Vec<String>, Fatal>(Fatal::NoPlugins)) <==> self.spec_packs().len() == 0,
            r is Err ==> (r == Err::<Vec<String>, Fatal>(Fatal::NoPlugins) || r == Err::<
                Vec<String>,
                Fatal,
            >(Fatal::TerminalSize) || r == Err::<Vec<String>, Fatal>(Fatal::TerminalTooSmall)),
            r matches Ok(names) ==> exists|
                reports: Seq<TaskReport>,
                outs: Seq<(Result<(), Error>, bool)>,
            |
                (#[trigger] reports_explain(op, self.spec_packs(), reports, outs)) && names_view(
                    names@,
                ) == failed_names(reports),
    {
        if self.packs.len() == 0 {
            return Err(Fatal::NoPlugins);
        }
        match crate::echo::terminal_height() {
            None => Err(Fatal::TerminalSize),
            Some(h) => self.run_with_height(op, h),
        }
    }
}

/// The names an install batch must physically roll back after the pool has
/// drained: exactly the pending registry for an install batch, nothing for an
/// update batch.
pub fn rollback_targets(state: &BatchState, task_type: &TaskType) -> (r: Vec<String>)
    ensures
        task_type is Install ==> names_view(r@) == state@.pending,
        !(task_type is Install) ==> r@.len() == 0,
{
    match task_type {
        TaskType::Install => {
            let mut out: Vec<String> = Vec::new();
            let mut i: usize = 0;
            proof {
                assert(names_view(Seq::<String>::empty()) =~= Seq::<Seq<char>>::empty());
                assert(names_view(state.pending@.take(0)) =~= Seq::<Seq<char>>::empty());
            }
            while i < state.pending.len()
                invariant
                    i <= state.pending@.len(),
                    names_view(out@) == names_view(state.pending@.take(i as int)),
                decreases state.pending@.len() - i,
            {
                let ghost prev = out@;
                let item = state.pending[i].clone();
                out.push(item);
                proof {
                    assert(names_view(out@) =~= names_view(prev).push(state.pending@[i as int]@));
                    assert(names_view(state.pending@.take(i + 1 as int)) =~= names_view(
                        state.pending@.take(i as int),
                    ).push(state.pending@[i as int]@));
                }
                i = i + 1;
            }
            proof {
                assert(state.pending@.take(state.pending@.len() as int) =~= state.pending@);
            }
            out
        },
        TaskType::Update => Vec::new(),
    }
}

} // verus!
