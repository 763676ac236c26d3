use vstd::prelude::*;

verus! {

/// The views of a list of task names.
pub open spec fn names_view(v: Seq<String>) -> Seq<Seq<char>> {
    v.map_values(|s: String| s@)
}

/// Abstract state of one batch run: which tasks are being executed, which
/// failed, and whether cancellation has fired.
pub ghost struct BatchView {
    pub pending: Seq<Seq<char>>,
    pub failures: Seq<Seq<char>>,
    pub cancelled: bool,
}

/// The batch state before any task has been dispatched.
pub open spec fn init_view() -> BatchView {
    BatchView { pending: Seq::empty(), failures: Seq::empty(), cancelled: false }
}

/// One observable event of a batch run: a worker begins a task, a worker
/// finishes a task (recording whether it failed), or cancellation fires.
pub ghost enum BatchStep {
    Begin { name: Seq<char> },
    Finish { name: Seq<char>, failed: bool },
    Cancel,
}

/// `s` with every occurrence of `name` removed, keeping the order of the rest.
pub open spec fn without_name(s: Seq<Seq<char>>, name: Seq<char>) -> Seq<Seq<char>>
    decreases s.len(),
{
    if s.len() == 0 {
        Seq::empty()
    } else {
        let rest = without_name(s.drop_last(), name);
        if s.last() == name {
            rest
        } else {
            rest.push(s.last())
        }
    }
}

/// The transition relation of the batch state machine.
pub open spec fn batch_step(s: BatchView, e: BatchStep) -> BatchView {
    match e {
        BatchStep::Begin { name } => BatchView { pending: s.pending.push(name), ..s },
        BatchStep::Finish { name, failed } => BatchView {
            pending: without_name(s.pending, name),
            failures: if failed {
                s.failures.push(name)
            } else {
                s.failures
            },
            cancelled: s.cancelled,
        },
        BatchStep::Cancel => BatchView { cancelled: true, ..s },
    }
}

/// The state after running `steps` from `s`, in order.
pub open spec fn batch_run(s: BatchView, steps: Seq<BatchStep>) -> BatchView
    decreases steps.len(),
{
    if steps.len() == 0 {
        s
    } else {
        batch_step(batch_run(s, steps.drop_last()), steps.last())
    }
}

/// Firing cancellation twice leaves the state exactly as firing it once does.
pub proof fn lemma_cancel_idempotent(s: BatchView)
    ensures
        batch_step(batch_step(s, BatchStep::Cancel), BatchStep::Cancel) == batch_step(
            s,
            BatchStep::Cancel,
        ),
{
}

/// Once cancellation has fired it stays fired: no later step resets it.
pub proof fn lemma_cancelled_stays(s: BatchView, steps: Seq<BatchStep>)
    requires
        s.cancelled,
    ensures
        batch_run(s, steps).cancelled,
    decreases steps.len(),
{
    if steps.len() > 0 {
        lemma_cancelled_stays(s, steps.drop_last());
    }
}

/// Firing cancellation on a state where it has already fired changes
/// nothing, however many steps came in between.
pub proof fn lemma_cancel_absorbed(s: BatchView)
    requires
        s.cancelled,
    ensures
        batch_step(s, BatchStep::Cancel) == s,
{
}

/// A name survives `without_name` exactly when it differs from the removed
/// name and was there before.
pub proof fn lemma_without_name_contains(s: Seq<Seq<char>>, name: Seq<char>, n: Seq<char>)
    ensures
        without_name(s, name).contains(n) <==> (n != name && s.contains(n)),
    decreases s.len(),
{
    if s.len() > 0 {
        let rest = without_name(s.drop_last(), name);
        lemma_without_name_contains(s.drop_last(), name, n);
        assert(s.contains(n) <==> (s.drop_last().contains(n) || s.last() == n)) by {
            if s.contains(n) {
                let i = choose|i: int| 0 <= i < s.len() && s[i] == n;
                if i < s.len() - 1 {
                    assert(s.drop_last()[i] == n);
                }
            }
            if s.drop_last().contains(n) {
                let i = choose|i: int| 0 <= i < s.drop_last().len() && s.drop_last()[i] == n;
                assert(s[i] == n);
            }
        }
        if s.last() != name {
            assert(rest.push(s.last()).contains(n) <==> (rest.contains(n) || s.last() == n)) by {
                if rest.contains(n) {
                    let i = choose|i: int| 0 <= i < rest.len() && rest[i] == n;
                    assert(rest.push(s.last())[i] == n);
                }
                if s.last() == n {
                    assert(rest.push(s.last())[rest.len() as int] == n);
                }
                if rest.push(s.last()).contains(n) {
                    let i = choose|i: int|
                        0 <= i < rest.push(s.last()).len() && rest.push(s.last())[i] == n;
                    if i < rest.len() {
                        assert(rest[i] == n);
                    }
                }
            }
        }
    }
}

/// Whether `e` begins the task named `n`.
pub open spec fn is_begin_of(e: BatchStep, n: Seq<char>) -> bool {
    e matches BatchStep::Begin { name } && name == n
}

/// Whether `e` finishes the task named `n`.
pub open spec fn is_finish_of(e: BatchStep, n: Seq<char>) -> bool {
    e matches BatchStep::Finish { name, .. } && name == n
}

/// No step after position `i` finishes the task named `n`.
pub open spec fn no_finish_after(steps: Seq<BatchStep>, i: int, n: Seq<char>) -> bool {
    forall|j: int| i < j < steps.len() ==> !is_finish_of(#[trigger] steps[j], n)
}

/// Some begin of the task named `n` was not followed by a finish of it.
pub open spec fn begun_not_finished(steps: Seq<BatchStep>, n: Seq<char>) -> bool {
    exists|i: int|
        0 <= i < steps.len() && is_begin_of(#[trigger] steps[i], n) && no_finish_after(steps, i, n)
}

/// The pending registry after any run holds a name exactly when some begin of
/// that name was not followed by a finish of it. In particular, after a
/// cancelled run the registry holds exactly the tasks whose operation had not
/// yet returned when their worker stopped.
pub proof fn lemma_pending_begun_not_finished(steps: Seq<BatchStep>, n: Seq<char>)
    ensures
        batch_run(init_view(), steps).pending.contains(n) <==> begun_not_finished(steps, n),
    decreases steps.len(),
{
    if steps.len() == 0 {
        assert(!batch_run(init_view(), steps).pending.contains(n));
    } else {
        let prefix = steps.drop_last();
        let prev = batch_run(init_view(), prefix);
        let cur = batch_run(init_view(), steps);
        let last = steps.last();
        let w = steps.len() - 1;
        lemma_pending_begun_not_finished(prefix, n);
        assert(forall|i: int| 0 <= i < prefix.len() ==> #[trigger] prefix[i] == steps[i]);
        // Lift a prefix witness to the whole run whenever the last step does
        // not finish `n`; drop a witness below the last position back to the
        // prefix the same way.
        if !is_finish_of(last, n) {
            if begun_not_finished(prefix, n) {
                let i = choose|i: int|
                    0 <= i < prefix.len() && is_begin_of(#[trigger] prefix[i], n)
                        && no_finish_after(prefix, i, n);
                assert(is_begin_of(steps[i], n));
                assert forall|j: int| i < j < steps.len() implies !is_finish_of(
                    #[trigger] steps[j],
                    n,
                ) by {
                    if j < w {
                        assert(steps[j] == prefix[j]);
                        assert(!is_finish_of(prefix[j], n));
                    } else {
                        assert(steps[j] == last);
                    }
                }
                assert(no_finish_after(steps, i, n));
                assert(begun_not_finished(steps, n));
            }
        }
        if begun_not_finished(steps, n) {
            let i = choose|i: int|
                0 <= i < steps.len() && is_begin_of(#[trigger] steps[i], n) && no_finish_after(
                    steps,
                    i,
                    n,
                );
            if i < w {
                assert(is_begin_of(prefix[i], n));
                assert forall|j: int| i < j < prefix.len() implies !is_finish_of(
                    #[trigger] prefix[j],
                    n,
                ) by {
                    assert(prefix[j] == steps[j]);
                    assert(!is_finish_of(steps[j], n));
                }
                assert(no_finish_after(prefix, i, n));
                assert(begun_not_finished(prefix, n));
            }
        }
        match last {
            BatchStep::Begin { name } => {
                assert(cur.pending == prev.pending.push(name));
                assert(cur.pending.contains(n) <==> (prev.pending.contains(n) || name == n)) by {
                    if prev.pending.contains(n) {
                        let i = choose|i: int| 0 <= i < prev.pending.len() && prev.pending[i] == n;
                        assert(prev.pending.push(name)[i] == n);
                    }
                    if name == n {
                        assert(prev.pending.push(name)[prev.pending.len() as int] == n);
                    }
                    if prev.pending.push(name).contains(n) {
                        let i = choose|i: int|
                            0 <= i < prev.pending.push(name).len() && prev.pending.push(name)[i]
                                == n;
                        if i < prev.pending.len() {
                            assert(prev.pending[i] == n);
                        }
                    }
                }
                if name == n {
                    assert(is_begin_of(steps[w], n));
                    assert(no_finish_after(steps, w, n));
                    assert(begun_not_finished(steps, n));
                } else {
                    if begun_not_finished(steps, n) {
                        let i = choose|i: int|
                            0 <= i < steps.len() && is_begin_of(#[trigger] steps[i], n)
                                && no_finish_after(steps, i, n);
                        assert(i < w);
                    }
                }
            },
            BatchStep::Finish { name, failed } => {
                assert(cur.pending == without_name(prev.pending, name));
                lemma_without_name_contains(prev.pending, name, n);
                if name == n {
                    assert(!cur.pending.contains(n));
                    assert(!begun_not_finished(steps, n)) by {
                        if begun_not_finished(steps, n) {
                            let i = choose|i: int|
                                0 <= i < steps.len() && is_begin_of(#[trigger] steps[i], n)
                                    && no_finish_after(steps, i, n);
                            assert(is_begin_of(steps[i], n));
                            assert(i < w);
                            assert(is_finish_of(steps[w], n));
                            assert(false);
                        }
                    }
                } else {
                    if begun_not_finished(steps, n) {
                        let i = choose|i: int|
                            0 <= i < steps.len() && is_begin_of(#[trigger] steps[i], n)
                                && no_finish_after(steps, i, n);
                        assert(i < w);
                    }
                }
            },
            BatchStep::Cancel => {
                assert(cur.pending == prev.pending);
                if begun_not_finished(steps, n) {
                    let i = choose|i: int|
                        0 <= i < steps.len() && is_begin_of(#[trigger] steps[i], n)
                            && no_finish_after(steps, i, n);
                    assert(i < w);
                }
            },
        }
    }
}

/// Shared bookkeeping of one batch run: the pending registry, the failure
/// collector, and the cancellation flag. Workers that share one value put it
/// behind a lock and hold the lock only for one call.
pub struct BatchState {
    pub pending: Vec<String>,
    pub failures: Vec<String>,
    pub cancelled: bool,
}

impl View for BatchState {
    type V = BatchView;

    open spec fn view(&self) -> BatchView {
        BatchView {
            pending: names_view(self.pending@),
            failures: names_view(self.failures@),
            cancelled: self.cancelled,
        }
    }
}

impl BatchState {
    pub fn new() -> (r: BatchState)
        ensures
            r@ == init_view(),
    {
        let r = BatchState { pending: Vec::new(), failures: Vec::new(), cancelled: false };
        proof {
            assert(names_view(Seq::<String>::empty()) =~= Seq::<Seq<char>>::empty());
        }
        r
    }

    /// A worker starts executing the task: its name enters the pending
    /// registry.
    pub fn begin(&mut self, name: String)
        ensures
            final(self)@ == batch_step(old(self)@, BatchStep::Begin { name: name@ }),
    {
        let ghost before = self.pending@;
        let ghost nv = name@;
        self.pending.push(name);
        proof {
            assert(names_view(self.pending@) =~= names_view(before).push(nv));
        }
    }

    /// A worker finished the task: its name leaves the pending registry, and
    /// enters the failure collector when the outcome was a failure.
    pub fn finish(&mut self, name: &String, failed: bool)
        ensures
            final(self)@ == batch_step(
                old(self)@,
                BatchStep::Finish { name: name@, failed },
            ),
    {
        let ghost before = self.pending@;
        let ghost old_failures = self.failures@;
        if failed {
            self.failures.push(name.clone());
            proof {
                assert(names_view(self.failures@) =~= names_view(old_failures).push(name@));
            }
        }
        let mut kept: Vec<String> = Vec::new();
        let mut i: usize = 0;
        while i < self.pending.len()
            invariant
                i <= self.pending.len(),
                self.pending@ == before,
                names_view(kept@) == without_name(names_view(before.take(i as int)), name@),
            decreases self.pending.len() - i,
        {
            let ghost prev_kept = kept@;
            let keep_it = !string_eq(&self.pending[i], name);
            if keep_it {
                let item = self.pending[i].clone();
                kept.push(item);
            }
            proof {
                let t1 = names_view(before.take(i as int));
                let t2 = names_view(before.take(i + 1 as int));
                assert(t2 =~= t1.push(before[i as int]@));
                assert(t2.len() > 0);
                assert(t2.drop_last() =~= t1);
                assert(t2.last() == before[i as int]@);
                if keep_it {
                    assert(names_view(kept@) =~= names_view(prev_kept).push(before[i as int]@));
                } else {
                    assert(names_view(kept@) =~= names_view(prev_kept));
                }
            }
            i = i + 1;
        }
        proof {
            assert(before.take(self.pending@.len() as int) =~= before);
        }
        self.pending = kept;
    }

    /// Cancellation fired: no new task will be begun. Calling this again
    /// changes nothing (`lemma_cancel_idempotent`).
    pub fn cancel(&mut self)
        ensures
            final(self)@ == batch_step(old(self)@, BatchStep::Cancel),
    {
        self.cancelled = true;
    }
}

/// Whether two strings hold the same characters.
pub fn string_eq(a: &String, b: &String) -> (r: bool)
    ensures
        r == (a@ == b@),
{
    a.eq(b)
}

} // verus!
