use crate::batch::string_eq;
use crate::error::Error;
use crate::task::{tasks_view, Task, TaskReport, TaskView};
use vstd::prelude::*;
use vstd::string::StrSliceExecFns;

verus! {

/// Classification of one update outcome, as the update command hands it to
/// the engine: a success keeps the task, and so does a local skip, which
/// only means the task took no part in the sync; any real failure, the
/// transient remote one included, marks the task as removed from the
/// persisted result set.
pub fn classify_update(res: Result<(), Error>) -> (r: (Result<(), Error>, bool))
    ensures
        r.0 == res,
        r.1 == (res is Ok || res matches Err(Error::SkipLocal)),
{
    let keep = match &res {
        Ok(_) => true,
        Err(Error::SkipLocal) => true,
        Err(_) => false,
    };
    (res, keep)
}

/// Whether some entry of `names` spells `name`.
pub open spec fn spec_contains_name(names: Seq<String>, name: Seq<char>) -> bool {
    exists|i: int| 0 <= i < names.len() && (#[trigger] names[i])@ == name
}

pub fn contains_name(names: &Vec<String>, name: &String) -> (r: bool)
    ensures
        r == spec_contains_name(names@, name@),
{
    let mut i: usize = 0;
    while i < names.len()
        invariant
            i <= names@.len(),
            forall|k: int| 0 <= k < i ==> (#[trigger] names@[k])@ != name@,
        decreases names@.len() - i,
    {
        if string_eq(&names[i], name) {
            assert(spec_contains_name(names@, name@));
            return true;
        }
        i = i + 1;
    }
    false
}

/// Whether some task of `packs` bears `name`.
pub open spec fn spec_has_task_named(packs: Seq<Task>, name: Seq<char>) -> bool {
    exists|i: int| 0 <= i < packs.len() && (#[trigger] packs[i]).name@ == name
}

/// The first position of a task with the given name.
pub fn find_by_name(packs: &Vec<Task>, name: &String) -> (r: Option<usize>)
    ensures
        r matches Some(i) ==> i < packs@.len() && packs@[i as int].name@ == name@ && (forall|k: int|
            0 <= k < i ==> (#[trigger] packs@[k]).name@ != name@),
        r is Some <==> spec_has_task_named(packs@, name@),
{
    let mut i: usize = 0;
    while i < packs.len()
        invariant
            i <= packs@.len(),
            forall|k: int| 0 <= k < i ==> (#[trigger] packs@[k]).name@ != name@,
        decreases packs@.len() - i,
    {
        if string_eq(&packs[i].name, name) {
            assert(spec_has_task_named(packs@, name@));
            return Some(i);
        }
        i = i + 1;
    }
    None
}

/// Whether the list command shows this pack: it has to sit in the category
/// asked for, and the start and opt switches keep only ordinary or only
/// optional packs.
pub fn list_filter(pack: &Task, category: &Option<String>, start: bool, opt: bool) -> (r: bool)
    ensures
        r == ((match *category {
            Some(c) => pack.category@ == c@,
            None => true,
        }) && (start ==> !pack.opt) && (opt ==> pack.opt)),
{
    let mut status = true;
    match category {
        Some(c) => {
            status = string_eq(&pack.category, c);
        },
        None => {},
    }
    if start {
        status = status && !pack.opt;
    }
    if opt {
        status = status && pack.opt;
    }
    status
}

/// Whether `needle` occurs in `hay` starting at position `i`.
pub open spec fn spec_matches_at(hay: Seq<char>, needle: Seq<char>, i: int) -> bool {
    0 <= i && i + needle.len() <= hay.len() && hay.subrange(i, i + needle.len()) == needle
}

/// Whether `needle` occurs anywhere in `hay`.
pub open spec fn spec_contains_sub(hay: Seq<char>, needle: Seq<char>) -> bool {
    exists|i: int| spec_matches_at(hay, needle, i)
}

fn matches_at(hay: &str, needle: &str, s: usize, hl: usize, nl: usize) -> (r: bool)
    requires
        hl == hay@.len(),
        nl == needle@.len(),
        s + nl <= hl,
    ensures
        r == spec_matches_at(hay@, needle@, s as int),
{
    let mut j: usize = 0;
    while j < nl
        invariant
            j <= nl,
            s + nl <= hl,
            hl == hay@.len(),
            nl == needle@.len(),
            forall|k: int| 0 <= k < j ==> hay@[s + k] == needle@[k],
        decreases nl - j,
    {
        let hc = hay.get_char(s + j);
        let nc = needle.get_char(j);
        if hc != nc {
            proof {
                if spec_matches_at(hay@, needle@, s as int) {
                    assert(hay@.subrange(s as int, s + nl as int)[j as int] == hay@[s + j]);
                    assert(false);
                }
            }
            return false;
        }
        j = j + 1;
    }
    proof {
        assert(hay@.subrange(s as int, s + nl as int) =~= needle@);
    }
    true
}

/// Whether the needle occurs inside the hay, compared by characters.
pub fn str_contains_sub(hay: &str, needle: &str) -> (r: bool)
    ensures
        r == spec_contains_sub(hay@, needle@),
{
    let hl = hay.unicode_len();
    let nl = needle.unicode_len();
    if nl == 0 {
        proof {
            assert(hay@.subrange(0, 0) =~= needle@);
            assert(spec_matches_at(hay@, needle@, 0));
        }
        return true;
    }
    if nl > hl {
        proof {
            if spec_contains_sub(hay@, needle@) {
                let i = choose|i: int| spec_matches_at(hay@, needle@, i);
                assert(false);
            }
        }
        return false;
    }
    let mut s: usize = 0;
    while s <= hl - nl
        invariant
            0 < nl <= hl,
            hl == hay@.len(),
            nl == needle@.len(),
            s <= hl - nl + 1,
            forall|k: int| 0 <= k < s ==> !spec_matches_at(hay@, needle@, k),
        decreases hl - nl + 1 - s,
    {
        if matches_at(hay, needle, s, hl, nl) {
            return true;
        }
        s = s + 1;
    }
    proof {
        if spec_contains_sub(hay@, needle@) {
            let i = choose|i: int| spec_matches_at(hay@, needle@, i);
            assert(0 <= i < s);
            assert(false);
        }
    }
    false
}

/// Whether some entry of the skip list occurs inside the name.
pub open spec fn spec_skip_matches(skip: Seq<String>, name: Seq<char>) -> bool {
    exists|i: int| 0 <= i < skip.len() && spec_contains_sub(name, (#[trigger] skip[i])@)
}

pub fn skip_matches(skip: &Vec<String>, name: &String) -> (r: bool)
    ensures
        r == spec_skip_matches(skip@, name@),
{
    let mut i: usize = 0;
    while i < skip.len()
        invariant
            i <= skip@.len(),
            forall|k: int| 0 <= k < i ==> !spec_contains_sub(name@, (#[trigger] skip@[k])@),
        decreases skip@.len() - i,
    {
        if str_contains_sub(name.as_str(), skip[i].as_str()) {
            assert(spec_skip_matches(skip@, name@));
            return true;
        }
        i = i + 1;
    }
    false
}

/// The tasks an update run takes on, in order: tasks whose name contains a
/// skip-list entry are left out; when an explicit plugin list is given, only
/// tasks named in it stay.
pub open spec fn spec_selected(
    packs: Seq<TaskView>,
    plugins: Seq<String>,
    skip: Seq<String>,
) -> Seq<TaskView>
    decreases packs.len(),
{
    if packs.len() == 0 {
        Seq::empty()
    } else {
        let rest = spec_selected(packs.drop_last(), plugins, skip);
        let t = packs.last();
        if !spec_skip_matches(skip, t.name) && (plugins.len() == 0 || spec_contains_name(
            plugins,
            t.name,
        )) {
            rest.push(t)
        } else {
            rest
        }
    }
}

/// Picks the batch of an update run out of the known packages.
pub fn select_for_update(packs: &Vec<Task>, plugins: &Vec<String>, skip: &Vec<String>) -> (r: Vec<
    Task,
>)
    ensures
        tasks_view(r@) == spec_selected(tasks_view(packs@), plugins@, skip@),
{
    let mut out: Vec<Task> = Vec::new();
    let mut i: usize = 0;
    proof {
        assert(tasks_view(packs@.take(0)) =~= Seq::<TaskView>::empty());
        assert(tasks_view(Seq::<Task>::empty()) =~= Seq::<TaskView>::empty());
    }
    while i < packs.len()
        invariant
            i <= packs@.len(),
            tasks_view(out@) == spec_selected(tasks_view(packs@.take(i as int)), plugins@, skip@),
        decreases packs@.len() - i,
    {
        let skipped = skip_matches(skip, &packs[i].name);
        let wanted = plugins.len() == 0 || contains_name(plugins, &packs[i].name);
        let ghost prev = out@;
        if !skipped && wanted {
            let item = clone_task(&packs[i]);
            out.push(item);
            proof {
                assert(tasks_view(out@) =~= tasks_view(prev).push(packs@[i as int]@));
            }
        }
        proof {
            let t1 = tasks_view(packs@.take(i as int));
            let t2 = tasks_view(packs@.take(i + 1 as int));
            assert(t2.drop_last() =~= t1);
            assert(t2.last() == packs@[i as int]@);
        }
        i = i + 1;
    }
    proof {
        assert(packs@.take(packs@.len() as int) =~= packs@);
    }
    out
}

/// What the config command does with the config file after the editor
/// closes.
pub enum ConfigAction {
    RemoveOnly,
    RemoveAndRegenerate,
    Regenerate,
    Nothing,
}

/// The decision after editing a package's config file: an empty file is
/// removed, and the combined load script is rebuilt when a file that
/// existed before was removed, when a file is new, or when it was touched
/// by the editor.
pub fn config_outcome(existed_before: bool, len_is_zero: bool, modified_later: bool) -> (r:
    ConfigAction)
    ensures
        r is RemoveOnly <==> (len_is_zero && !existed_before),
        r is RemoveAndRegenerate <==> (len_is_zero && existed_before),
        r is Regenerate <==> (!len_is_zero && (!existed_before || modified_later)),
        r is Nothing <==> (!len_is_zero && existed_before && !modified_later),
{
    if len_is_zero {
        if existed_before {
            ConfigAction::RemoveAndRegenerate
        } else {
            ConfigAction::RemoveOnly
        }
    } else if !existed_before || modified_later {
        ConfigAction::Regenerate
    } else {
        ConfigAction::Nothing
    }
}

/// What the help-index step does next.
pub enum HelpIndexAction {
    Done,
    TryAlternate,
    Fatal,
}

/// The decision of the best-effort help-index step: a successful spawn of
/// the primary tool ends it; a failed primary with the alternate not yet
/// tried asks for the alternate; only both tools failing is fatal to the
/// process, since the help would be unusable.
pub fn help_index_action(primary_ok: bool, alternate_ok: Option<bool>) -> (r: HelpIndexAction)
    ensures
        r is Done <==> (primary_ok || alternate_ok matches Some(true)),
        r is TryAlternate <==> (!primary_ok && alternate_ok is None),
        r is Fatal <==> (!primary_ok && alternate_ok matches Some(false)),
{
    if primary_ok {
        HelpIndexAction::Done
    } else {
        match alternate_ok {
            None => HelpIndexAction::TryAlternate,
            Some(true) => HelpIndexAction::Done,
            Some(false) => HelpIndexAction::Fatal,
        }
    }
}

fn clone_opt_string(o: &Option<String>) -> (r: Option<String>)
    ensures
        r == *o,
{
    match o {
        Some(s) => Some(s.clone()),
        None => None,
    }
}

fn clone_string_vec(v: &Vec<String>) -> (r: Vec<String>)
    ensures
        r@ == v@,
{
    let mut out: Vec<String> = Vec::new();
    let mut i: usize = 0;
    while i < v.len()
        invariant
            i <= v@.len(),
            out@ =~= v@.take(i as int),
        decreases v@.len() - i,
    {
        out.push(v[i].clone());
        proof {
            assert(out@ =~= v@.take(i + 1 as int));
        }
        i = i + 1;
    }
    proof {
        assert(v@.take(v@.len() as int) =~= v@);
    }
    out
}

/// A deep copy of one task.
pub fn clone_task(t: &Task) -> (r: Task)
    ensures
        r@ == t@,
{
    Task {
        name: t.name.clone(),
        category: t.category.clone(),
        opt: t.opt,
        local: t.local,
        load_command: clone_opt_string(&t.load_command),
        build_command: clone_opt_string(&t.build_command),
        for_types: clone_string_vec(&t.for_types),
        reference: clone_opt_string(&t.reference),
    }
}

/// Whether the reports mark the named task as undone: some report of that
/// name failed with `keep` false.
pub open spec fn spec_undone(reports: Seq<TaskReport>, name: Seq<char>) -> bool {
    exists|i: int|
        0 <= i < reports.len() && (#[trigger] reports[i]).name@ == name && reports[i].failed
            && !reports[i].keep
}

pub fn is_undone(reports: &Vec<TaskReport>, name: &String) -> (r: bool)
    ensures
        r == spec_undone(reports@, name@),
{
    let mut i: usize = 0;
    while i < reports.len()
        invariant
            i <= reports@.len(),
            forall|k: int|
                0 <= k < i ==> !((#[trigger] reports@[k]).name@ == name@ && reports@[k].failed
                    && !reports@[k].keep),
        decreases reports@.len() - i,
    {
        let rep = &reports[i];
        if rep.failed && !rep.keep && string_eq(&rep.name, name) {
            assert(spec_undone(reports@, name@));
            return true;
        }
        i = i + 1;
    }
    false
}

/// `packs` without the tasks that `reports` marks undone, in order.
pub open spec fn spec_retained(packs: Seq<TaskView>, reports: Seq<TaskReport>) -> Seq<TaskView>
    decreases packs.len(),
{
    if packs.len() == 0 {
        Seq::empty()
    } else {
        let rest = spec_retained(packs.drop_last(), reports);
        if spec_undone(reports, packs.last().name) {
            rest
        } else {
            rest.push(packs.last())
        }
    }
}

/// The caller's persisted set after one run: every task whose outcome said
/// "undone" (failed, not kept) leaves the set; every other task stays, in
/// order.
pub fn apply_failures(packs: Vec<Task>, reports: &Vec<TaskReport>) -> (r: Vec<Task>)
    ensures
        tasks_view(r@) == spec_retained(tasks_view(packs@), reports@),
{
    let mut out: Vec<Task> = Vec::new();
    let mut i: usize = 0;
    proof {
        assert(tasks_view(packs@.take(0)) =~= Seq::<TaskView>::empty());
        assert(tasks_view(Seq::<Task>::empty()) =~= Seq::<TaskView>::empty());
    }
    while i < packs.len()
        invariant
            i <= packs@.len(),
            tasks_view(out@) == spec_retained(tasks_view(packs@.take(i as int)), reports@),
        decreases packs@.len() - i,
    {
        let undone = is_undone(reports, &packs[i].name);
        let ghost prev = out@;
        if !undone {
            let item = clone_task(&packs[i]);
            out.push(item);
            proof {
                assert(tasks_view(out@) =~= tasks_view(prev).push(packs@[i as int]@));
            }
        }
        proof {
            let t1 = tasks_view(packs@.take(i as int));
            let t2 = tasks_view(packs@.take(i + 1 as int));
            assert(t2.drop_last() =~= t1);
            assert(t2.last() == packs@[i as int]@);
        }
        i = i + 1;
    }
    proof {
        assert(packs@.take(packs@.len() as int) =~= packs@);
    }
    out
}

/// A task survives `apply_failures` exactly when it was there and its name
/// is not marked undone.
pub proof fn lemma_retained_contains(packs: Seq<TaskView>, reports: Seq<TaskReport>, t: TaskView)
    ensures
        spec_retained(packs, reports).contains(t) <==> (packs.contains(t) && !spec_undone(
            reports,
            t.name,
        )),
    decreases packs.len(),
{
    if packs.len() > 0 {
        let rest = spec_retained(packs.drop_last(), reports);
        lemma_retained_contains(packs.drop_last(), reports, t);
        assert(packs.contains(t) <==> (packs.drop_last().contains(t) || packs.last() == t)) by {
            if packs.contains(t) {
                let i = choose|i: int| 0 <= i < packs.len() && packs[i] == t;
                if i < packs.len() - 1 {
                    assert(packs.drop_last()[i] == t);
                }
            }
            if packs.drop_last().contains(t) {
                let i = choose|i: int|
                    0 <= i < packs.drop_last().len() && packs.drop_last()[i] == t;
                assert(packs[i] == t);
            }
        }
        if !spec_undone(reports, packs.last().name) {
            assert(rest.push(packs.last()).contains(t) <==> (rest.contains(t) || packs.last()
                == t)) by {
                if rest.contains(t) {
                    let i = choose|i: int| 0 <= i < rest.len() && rest[i] == t;
                    assert(rest.push(packs.last())[i] == t);
                }
                if packs.last() == t {
                    assert(rest.push(packs.last())[rest.len() as int] == t);
                }
                if rest.push(packs.last()).contains(t) {
                    let i = choose|i: int|
                        0 <= i < rest.push(packs.last()).len() && rest.push(packs.last())[i] == t;
                    if i < rest.len() {
                        assert(rest[i] == t);
                    }
                }
            }
        }
    }
}

/// `packs` without every task named in `names`, in order.
pub open spec fn spec_without_names(packs: Seq<TaskView>, names: Seq<String>) -> Seq<TaskView>
    decreases packs.len(),
{
    if packs.len() == 0 {
        Seq::empty()
    } else {
        let rest = spec_without_names(packs.drop_last(), names);
        if spec_contains_name(names, packs.last().name) {
            rest
        } else {
            rest.push(packs.last())
        }
    }
}

/// The persisted set after an uninstall: every task whose name was requested
/// leaves the set; the rest stay, in order.
pub fn remove_names(packs: Vec<Task>, names: &Vec<String>) -> (r: Vec<Task>)
    ensures
        tasks_view(r@) == spec_without_names(tasks_view(packs@), names@),
{
    let mut out: Vec<Task> = Vec::new();
    let mut i: usize = 0;
    proof {
        assert(tasks_view(packs@.take(0)) =~= Seq::<TaskView>::empty());
        assert(tasks_view(Seq::<Task>::empty()) =~= Seq::<TaskView>::empty());
    }
    while i < packs.len()
        invariant
            i <= packs@.len(),
            tasks_view(out@) == spec_without_names(tasks_view(packs@.take(i as int)), names@),
        decreases packs@.len() - i,
    {
        let listed = contains_name(names, &packs[i].name);
        let ghost prev = out@;
        if !listed {
            let item = clone_task(&packs[i]);
            out.push(item);
            proof {
                assert(tasks_view(out@) =~= tasks_view(prev).push(packs@[i as int]@));
            }
        }
        proof {
            let t1 = tasks_view(packs@.take(i as int));
            let t2 = tasks_view(packs@.take(i + 1 as int));
            assert(t2.drop_last() =~= t1);
            assert(t2.last() == packs@[i as int]@);
        }
        i = i + 1;
    }
    proof {
        assert(packs@.take(packs@.len() as int) =~= packs@);
    }
    out
}

/// The tasks an uninstall works on: one per requested name, in request
/// order; a name with no installed task refuses the whole request.
pub fn select_to_uninstall(packs: &Vec<Task>, names: &Vec<String>) -> (r: Result<Vec<Task>, Error>)
    ensures
        r is Ok <==> (forall|k: int|
            0 <= k < names@.len() ==> spec_has_task_named(packs@, (#[trigger] names@[k])@)),
        r matches Ok(v) ==> v@.len() == names@.len() && (forall|k: int|
            0 <= k < v@.len() ==> (#[trigger] v@[k]).name@ == names@[k]@ && tasks_view(
                packs@,
            ).contains(v@[k]@)),
        r matches Err(e) ==> e == Error::PluginNotInstalled,
{
    let mut out: Vec<Task> = Vec::new();
    let mut k: usize = 0;
    while k < names.len()
        invariant
            k <= names@.len(),
            out@.len() == k,
            forall|j: int|
                0 <= j < k ==> (#[trigger] out@[j]).name@ == names@[j]@ && tasks_view(
                    packs@,
                ).contains(out@[j]@),
            forall|j: int| 0 <= j < k ==> spec_has_task_named(packs@, (#[trigger] names@[j])@),
        decreases names@.len() - k,
    {
        match find_by_name(packs, &names[k]) {
            Some(i) => {
                let item = clone_task(&packs[i]);
                proof {
                    assert(tasks_view(packs@)[i as int] == item@);
                    assert(tasks_view(packs@).contains(item@));
                }
                out.push(item);
            },
            None => {
                return Err(Error::PluginNotInstalled);
            },
        }
        k = k + 1;
    }
    Ok(out)
}

/// Moves one known package to another category and optional flag, leaving
/// every other attribute and every other package as it stands; the move
/// command applies this once the artifact directory has been copied.
pub fn recategorize_at(packs: &mut Vec<Task>, at: usize, category: String, opt: bool)
    requires
        at < old(packs)@.len(),
    ensures
        tasks_view(final(packs)@) == tasks_view(old(packs)@).update(
            at as int,
            (TaskView {
                name: old(packs)@[at as int]@.name,
                local: old(packs)@[at as int]@.local,
                reference: old(packs)@[at as int]@.reference,
                load_command: old(packs)@[at as int]@.load_command,
                build_command: old(packs)@[at as int]@.build_command,
                for_types: old(packs)@[at as int]@.for_types,
                category: category@,
                opt: opt,
            }),
        ),
{
    let newx = Task {
        name: packs[at].name.clone(),
        local: packs[at].local,
        reference: clone_opt_string(&packs[at].reference),
        load_command: clone_opt_string(&packs[at].load_command),
        build_command: clone_opt_string(&packs[at].build_command),
        for_types: clone_string_vec(&packs[at].for_types),
        category,
        opt,
    };
    let ghost before = packs@;
    let ghost nv = newx@;
    let _ = packs.remove(at);
    packs.insert(at, newx);
    proof {
        assert(tasks_view(packs@) =~= tasks_view(before).update(at as int, nv));
    }
}

/// Merges one install target into the known package list, as the install
/// command does before dispatch. `at` is where a package of the same name
/// already sits (`find_by_name`), `installed` whether that package's artifact
/// is on disk. A new name is appended as it stands; a known name that is not
/// installed adopts the target's settings; a known installed name instead
/// lends its category and opt flag to the dispatched task. Returns the task
/// to dispatch.
pub fn merge_at(packs: &mut Vec<Task>, at: Option<usize>, installed: bool, pack: Task) -> (r: Task)
    requires
        at matches Some(i) ==> i < old(packs)@.len(),
    ensures
        at is None ==> tasks_view(final(packs)@) == tasks_view(old(packs)@).push(pack@) && r@
            == pack@,
        at matches Some(i) ==> ((!installed ==> tasks_view(final(packs)@) == tasks_view(
            old(packs)@,
        ).update(
            i as int,
            (TaskView {
                name: old(packs)@[i as int]@.name,
                local: old(packs)@[i as int]@.local,
                reference: old(packs)@[i as int]@.reference,
                category: pack@.category,
                opt: pack@.opt,
                load_command: pack@.load_command,
                build_command: pack@.build_command,
                for_types: pack@.for_types,
            }),
        ) && r@ == pack@) && (installed ==> tasks_view(final(packs)@) == tasks_view(old(packs)@)
            && r@ == (TaskView {
            name: pack@.name,
            local: pack@.local,
            reference: pack@.reference,
            category: old(packs)@[i as int]@.category,
            opt: old(packs)@[i as int]@.opt,
            load_command: pack@.load_command,
            build_command: pack@.build_command,
            for_types: pack@.for_types,
        }))),
{
    match at {
        None => {
            let ghost before = packs@;
            let r = clone_task(&pack);
            packs.push(pack);
            proof {
                assert(tasks_view(packs@) =~= tasks_view(before).push(r@));
            }
            r
        },
        Some(i) => {
            if !installed {
                let newx = Task {
                    name: packs[i].name.clone(),
                    local: packs[i].local,
                    reference: clone_opt_string(&packs[i].reference),
                    category: pack.category.clone(),
                    opt: pack.opt,
                    load_command: clone_opt_string(&pack.load_command),
                    build_command: clone_opt_string(&pack.build_command),
                    for_types: clone_string_vec(&pack.for_types),
                };
                let ghost before = packs@;
                let ghost nv = newx@;
                let _ = packs.remove(i);
                packs.insert(i, newx);
                proof {
                    assert(tasks_view(packs@) =~= tasks_view(before).update(i as int, nv));
                    assert(nv == (TaskView {
                        name: before[i as int]@.name,
                        local: before[i as int]@.local,
                        reference: before[i as int]@.reference,
                        category: pack@.category,
                        opt: pack@.opt,
                        load_command: pack@.load_command,
                        build_command: pack@.build_command,
                        for_types: pack@.for_types,
                    }));
                }
                pack
            } else {
                let category = packs[i].category.clone();
                let opt = packs[i].opt;
                Task {
                    name: pack.name,
                    local: pack.local,
                    reference: pack.reference,
                    category,
                    opt,
                    load_command: pack.load_command,
                    build_command: pack.build_command,
                    for_types: pack.for_types,
                }
            }
        },
    }
}

} // verus!
