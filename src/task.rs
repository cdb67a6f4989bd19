use vstd::prelude::*;
use crate::context::{
    after_emit, child_of, current_view, deliver, entered, opened, record_at, DispatchTarget, ExecPath,
    OverrideHandle, PathView, Registry, SpanHandle, TargetView,
};
use crate::filter::{first_party_view, lemma_first_party_policy, FilterPolicy};
use crate::record::{append_bytes, copy_bytes, RecordView, Severity};
use crate::sink::{Sink, SinkKind, SinkView};

verus! {

/// The decimal digits of `n`, most significant first.
pub open spec fn decimal(n: nat) -> Seq<u8>
    decreases n,
{
    if n < 10 {
        seq![(48 + n) as u8]
    } else {
        decimal(n / 10).push((48 + n % 10) as u8)
    }
}

/// The span label of task `id`: `task ` and its decimal number.
pub open spec fn task_label(id: nat) -> Seq<u8> {
    seq![116u8, 97, 115, 107, 32] + decimal(id)
}

/// The decimal digits of `n`.
pub fn decimal_of(n: u64) -> (r: Vec<u8>)
    ensures
        r@ == decimal(n as nat),
    decreases n,
{
    if n < 10 {
        let r: Vec<u8> = vec![(48 + n) as u8];
        assert(r@ =~= decimal(n as nat));
        r
    } else {
        let mut r = decimal_of(n / 10);
        r.push((48 + n % 10) as u8);
        r
    }
}

/// The span label of task `id`.
pub fn label_of(id: u64) -> (r: Vec<u8>)
    ensures
        r@ == task_label(id as nat),
{
    let mut r: Vec<u8> = vec![116u8, 97, 115, 107, 32];
    let d = decimal_of(id);
    append_bytes(&mut r, &d);
    r
}

proof fn lemma_decimal_shape(n: nat)
    ensures
        decimal(n).len() >= 1,
        n >= 10 ==> decimal(n).len() >= 2,
        decimal(n).last() == (48 + n % 10) as u8,
    decreases n,
{
    if n >= 10 {
        lemma_decimal_shape(n / 10);
    }
}

/// Different numbers have different decimal forms.
pub proof fn lemma_decimal_injective(a: nat, b: nat)
    requires
        decimal(a) == decimal(b),
    ensures
        a == b,
    decreases a,
{
    lemma_decimal_shape(a);
    lemma_decimal_shape(b);
    if a < 10 && b < 10 {
        assert(decimal(a)[0] == decimal(b)[0]);
    } else if a >= 10 && b >= 10 {
        assert(decimal(a / 10) == decimal(a).drop_last());
        assert(decimal(b / 10) == decimal(b).drop_last());
        lemma_decimal_injective(a / 10, b / 10);
        assert(a % 10 == b % 10);
    }
}

/// Different tasks have different labels.
pub proof fn lemma_task_label_injective(a: nat, b: nat)
    requires
        a != b,
    ensures
        task_label(a) != task_label(b),
{
    if task_label(a) == task_label(b) {
        assert(decimal(a) =~= task_label(a).subrange(5, task_label(a).len() as int));
        assert(decimal(b) =~= task_label(b).subrange(5, task_label(b).len() as int));
        lemma_decimal_injective(a, b);
    }
}

/// The message that reports the start of the work of the task labelled
/// `label`: `Doing some work in ` and the label.
pub open spec fn msg_started(label: Seq<u8>) -> Seq<u8> {
    seq![68u8, 111, 105, 110, 103, 32, 115, 111, 109, 101, 32, 119, 111, 114, 107, 32, 105, 110, 32] + label
}

pub fn message_started(label: &Vec<u8>) -> (m: Vec<u8>)
    ensures
        m@ == msg_started(label@),
{
    let mut m: Vec<u8> = vec![68u8, 111, 105, 110, 103, 32, 115, 111, 109, 101, 32, 119, 111, 114, 107, 32, 105, 110, 32];
    append_bytes(&mut m, label);
    m
}

/// The message `lookup succeeded`.
pub open spec fn msg_resolved() -> Seq<u8> {
    seq![108u8, 111, 111, 107, 117, 112, 32, 115, 117, 99, 99, 101, 101, 100, 101, 100]
}

pub fn message_resolved() -> (m: Vec<u8>)
    ensures
        m@ == msg_resolved(),
{
    let m: Vec<u8> = vec![108u8, 111, 111, 107, 117, 112, 32, 115, 117, 99, 99, 101, 101, 100, 101, 100];
    assert(m@ =~= msg_resolved());
    m
}

/// The message `lookup failed`.
pub open spec fn msg_failed() -> Seq<u8> {
    seq![108u8, 111, 111, 107, 117, 112, 32, 102, 97, 105, 108, 101, 100]
}

pub fn message_failed() -> (m: Vec<u8>)
    ensures
        m@ == msg_failed(),
{
    let m: Vec<u8> = vec![108u8, 111, 111, 107, 117, 112, 32, 102, 97, 105, 108, 101, 100];
    assert(m@ =~= msg_failed());
    m
}

/// The message `work_finished`.
pub open spec fn msg_finished() -> Seq<u8> {
    seq![119u8, 111, 114, 107, 95, 102, 105, 110, 105, 115, 104, 101, 100]
}

pub fn message_finished() -> (m: Vec<u8>)
    ensures
        m@ == msg_finished(),
{
    let m: Vec<u8> = vec![119u8, 111, 114, 107, 95, 102, 105, 110, 105, 115, 104, 101, 100];
    assert(m@ =~= msg_finished());
    m
}

/// How the task's unit of work ended.
#[derive(Clone, Copy, Debug, PartialEq, Eq, Structural)]
pub enum WorkOutcome {
    Resolved,
    Failed,
}

/// The severity that reports an outcome: INFO on success, ERROR on failure.
pub open spec fn outcome_severity(o: WorkOutcome) -> Severity {
    match o {
        WorkOutcome::Resolved => Severity::Info,
        WorkOutcome::Failed => Severity::Error,
    }
}

pub open spec fn outcome_message(o: WorkOutcome) -> Seq<u8> {
    match o {
        WorkOutcome::Resolved => msg_resolved(),
        WorkOutcome::Failed => msg_failed(),
    }
}

/// The target a task is given: a private buffer, uncoloured, under the
/// first-party policy of component `own`.
pub open spec fn fresh_target(own: Seq<u8>) -> TargetView {
    TargetView {
        sink: SinkView { kind: SinkKind::Private, ansi: false, records: Seq::empty() },
        filter: first_party_view(own),
    }
}

/// A task as the orchestrator creates it.
#[derive(Debug)]
pub struct TaskDescriptor {
    pub id: u64,
    pub label: Vec<u8>,
    pub target: DispatchTarget,
}

impl TaskDescriptor {
    /// Task `id` of component `own`, with a fresh private target.
    pub fn new(id: u64, own: &Vec<u8>) -> (d: TaskDescriptor)
        ensures
            d.id == id,
            d.label@ == task_label(id as nat),
            d.target@ == fresh_target(own@),
    {
        let filter = FilterPolicy::first_party(copy_bytes(own));
        let sink = Sink::private(false);
        let d = TaskDescriptor { id, label: label_of(id), target: DispatchTarget::new(sink, filter) };
        assert(d.target@.sink.records =~= Seq::<RecordView>::empty());
        d
    }
}

/// Descriptors for tasks `0 .. n` of component `own`.
pub fn spawn_many(n: u64, own: &Vec<u8>) -> (ds: Vec<TaskDescriptor>)
    ensures
        ds@.len() == n,
        forall|i: int| 0 <= i < n ==> (#[trigger] ds@[i]).id == i && ds@[i].label@ == task_label(i as nat)
            && ds@[i].target@ == fresh_target(own@),
{
    let mut ds: Vec<TaskDescriptor> = Vec::new();
    let mut i: u64 = 0;
    while i < n
        invariant
            i <= n,
            ds@.len() == i,
            forall|k: int| 0 <= k < i ==> (#[trigger] ds@[k]).id == k && ds@[k].label@ == task_label(k as nat)
                && ds@[k].target@ == fresh_target(own@),
        decreases n - i,
    {
        ds.push(TaskDescriptor::new(i, own));
        i = i + 1;
    }
    ds
}

/// A task in progress: its path with its span open and its override
/// entered, and the task's label.
#[derive(Debug)]
pub struct TaskRun {
    path: ExecPath,
    span: SpanHandle,
    guard: OverrideHandle,
    label: Vec<u8>,
}

impl TaskRun {
    /// The label of the task.
    pub closed spec fn label(&self) -> Seq<u8> {
        self.label@
    }

    /// The path of the task.
    pub closed spec fn path(&self) -> PathView {
        self.path@
    }

    /// The span and the override of the task are the innermost ones.
    pub closed spec fn wf(&self) -> bool {
        self.guard.depth() + 1 == self.path@.overrides.len() && self.span.depth() + 1
            == self.path@.lineage.len()
    }
}

/// Starts task `d` as a sub-task of `parent`: its span opens, then its
/// target becomes active.
pub fn begin_task(parent: &ExecPath, d: TaskDescriptor) -> (run: TaskRun)
    ensures
        run.wf(),
        run.path() == entered(opened(child_of(parent@), d.label@), d.target@),
        run.label() == d.label@,
{
    let label = copy_bytes(&d.label);
    let mut path = parent.spawn_child();
    let span = path.open(d.label);
    let guard = path.enter(d.target);
    TaskRun { path, span, guard, label }
}

/// The path of the sub-task that performs the unit of work of a task whose
/// path is `p` and label `label`: the lineage snapshot, none of the
/// overrides, and a span of its own under the task's label.
pub open spec fn work_path(p: PathView, label: Seq<u8>) -> PathView {
    opened(child_of(p), label)
}

/// Spawns the sub-task that performs the unit of work: it carries the
/// task's lineage, opens its own span labelled like the task, and takes
/// none of the task's overrides, so its report that work started goes to
/// the default target. Its span is the innermost one of the path returned.
pub fn do_some_work(run: &TaskRun, reg: &mut Registry, own: &Vec<u8>) -> (sub: ExecPath)
    ensures
        sub@ == work_path(run.path(), run.label()),
        final(reg)@ == after_emit(work_path(run.path(), run.label()), old(reg)@,
            record_at(work_path(run.path(), run.label()), own@, Severity::Info, msg_started(run.label()))).1,
{
    let mut sub = run.path.spawn_child();
    let _span = sub.open(copy_bytes(&run.label));
    let m = message_started(&run.label);
    let _ = sub.emit(reg, own, Severity::Info, &m);
    sub
}

/// The target of a finished task, after the outcome and then the finish were
/// reported on path `p` from `own`.
pub open spec fn finished_target(p: PathView, own: Seq<u8>, o: WorkOutcome) -> TargetView {
    deliver(
        deliver(p.overrides.last(), record_at(p, own, outcome_severity(o), outcome_message(o))),
        record_at(p, own, Severity::Info, msg_finished()),
    )
}

/// Ends a task: reports the outcome (INFO on success, ERROR on failure)
/// and that work finished, releases the override and closes the span. The
/// task's target, with what it captured, is handed back.
pub fn finish_task(run: TaskRun, reg: &mut Registry, own: &Vec<u8>, o: WorkOutcome) -> (t: DispatchTarget)
    requires
        run.wf(),
    ensures
        t@ == finished_target(run.path(), own@, o),
        final(reg)@ == old(reg)@,
{
    let TaskRun { mut path, span, guard, label: _ } = run;
    let (sev, m) = match o {
        WorkOutcome::Resolved => (Severity::Info, message_resolved()),
        WorkOutcome::Failed => (Severity::Error, message_failed()),
    };
    let _ = path.emit(reg, own, sev, &m);
    let fin = message_finished();
    let _ = path.emit(reg, own, Severity::Info, &fin);
    let t = path.release(guard).unwrap();
    let _ = path.close(span);
    t
}

/// The records that task `id` of component `own` captures when started from a
/// path whose lineage is `pl`.
pub open spec fn task_records(pl: Seq<Seq<u8>>, id: nat, own: Seq<u8>, o: WorkOutcome) -> Seq<RecordView> {
    let lineage = pl.push(task_label(id));
    seq![
        RecordView { severity: outcome_severity(o), origin: own, message: outcome_message(o), lineage },
        RecordView { severity: Severity::Info, origin: own, message: msg_finished(), lineage },
    ]
}

/// A task given a fresh target keeps exactly two records in its buffer:
/// the outcome, at INFO or ERROR, and the finish, both under the task's
/// label.
pub proof fn lemma_task_buffer(parent: PathView, id: nat, own: Seq<u8>, o: WorkOutcome)
    ensures
        finished_target(entered(opened(child_of(parent), task_label(id)), fresh_target(own)), own, o)
            == (TargetView {
            sink: SinkView { records: task_records(parent.lineage, id, own, o), ..fresh_target(own).sink },
            ..fresh_target(own)
        }),
{
    lemma_first_party_policy(own, own);
    assert(own.subrange(0, own.len() as int) =~= own);
    let p = entered(opened(child_of(parent), task_label(id)), fresh_target(own));
    assert(p.overrides.last() == fresh_target(own));
    assert(task_records(parent.lineage, id, own, o) =~= Seq::<RecordView>::empty().push(
        record_at(p, own, outcome_severity(o), outcome_message(o)),
    ).push(record_at(p, own, Severity::Info, msg_finished())));
}

/// Runs a task whose unit of work ended with `o`, from the path `parent`.
pub fn run_task(parent: &ExecPath, reg: &mut Registry, d: TaskDescriptor, own: &Vec<u8>, o: WorkOutcome) -> (t: DispatchTarget)
    ensures
        t@ == finished_target(entered(opened(child_of(parent@), d.label@), d.target@), own@, o),
        final(reg)@ == after_emit(
            work_path(entered(opened(child_of(parent@), d.label@), d.target@), d.label@),
            old(reg)@,
            record_at(
                work_path(entered(opened(child_of(parent@), d.label@), d.target@), d.label@),
                own@,
                Severity::Info,
                msg_started(d.label@),
            ),
        ).1,
{
    let run = begin_task(parent, d);
    let _sub = do_some_work(&run, reg, own);
    finish_task(run, reg, own, o)
}

/// Hands each of `rs` in turn to `t`.
pub open spec fn deliver_all(t: TargetView, rs: Seq<RecordView>) -> TargetView
    decreases rs.len(),
{
    if rs.len() == 0 {
        t
    } else {
        deliver(deliver_all(t, rs.drop_last()), rs.last())
    }
}

/// The reports that work started, from tasks `0 .. n` run from root paths;
/// each carries the task's span and the sub-task's span, both under the
/// task's label.
pub open spec fn started_records(own: Seq<u8>, n: nat) -> Seq<RecordView> {
    Seq::new(n, |i: int| RecordView {
        severity: Severity::Info,
        origin: own,
        message: msg_started(task_label(i as nat)),
        lineage: seq![task_label(i as nat), task_label(i as nat)],
    })
}

/// The default target after it was handed `rs`, if one is installed.
pub open spec fn default_after(d: Option<TargetView>, rs: Seq<RecordView>) -> Option<TargetView> {
    match d {
        Some(t) => Some(deliver_all(t, rs)),
        None => None,
    }
}

/// Runs one task per outcome, task `i` with `outcomes[i]`, each from a root
/// path, and hands back their targets in order.
pub fn run_all(reg: &mut Registry, own: &Vec<u8>, outcomes: &Vec<WorkOutcome>) -> (ts: Vec<DispatchTarget>)
    requires
        outcomes@.len() <= u64::MAX,
    ensures
        ts@.len() == outcomes@.len(),
        forall|i: int| 0 <= i < ts@.len() ==> (#[trigger] ts@[i])@ == (TargetView {
            sink: SinkView { records: task_records(Seq::empty(), i as nat, own@, outcomes@[i]), ..fresh_target(own@).sink },
            ..fresh_target(own@)
        }),
        final(reg)@ == default_after(old(reg)@, started_records(own@, outcomes@.len())),
{
    let nu = outcomes.len();
    let n = nu as u64;
    let mut ds = spawn_many(n, own);
    let root = ExecPath::root();
    let mut ts: Vec<DispatchTarget> = Vec::new();
    let mut i: usize = 0;
    let ghost ds0 = ds@;
    while ds.len() > 0
        invariant
            ds0.len() == outcomes@.len(),
            outcomes@.len() == nu,
            i + ds@.len() == ds0.len(),
            ds@ == ds0.subrange(i as int, ds0.len() as int),
            root@.lineage.len() == 0,
            root@.overrides.len() == 0,
            ts@.len() == i,
            reg@ == default_after(old(reg)@, started_records(own@, i as nat)),
            forall|k: int| 0 <= k < ds0.len() ==> (#[trigger] ds0[k]).id == k && ds0[k].label@ == task_label(k as nat)
                && ds0[k].target@ == fresh_target(own@),
            forall|k: int| 0 <= k < i ==> (#[trigger] ts@[k])@ == (TargetView {
                sink: SinkView { records: task_records(Seq::empty(), k as nat, own@, outcomes@[k]), ..fresh_target(own@).sink },
                ..fresh_target(own@)
            }),
        decreases ds@.len(),
    {
        let d = ds.remove(0);
        assert(d == ds0[i as int]);
        let o = outcomes[i];
        let t = run_task(&root, reg, d, own, o);
        proof {
            let sub = work_path(entered(opened(child_of(root@), d.label@), d.target@), d.label@);
            assert(sub.overrides =~= Seq::<TargetView>::empty());
            assert(sub.lineage =~= seq![task_label(i as nat), task_label(i as nat)]);
            let next = started_records(own@, i as nat + 1);
            assert(next.drop_last() =~= started_records(own@, i as nat));
            assert(next.last() == record_at(sub, own@, Severity::Info, msg_started(task_label(i as nat))));
            lemma_task_buffer(root@, i as nat, own@, o);
            assert(root@.lineage =~= Seq::<Seq<u8>>::empty());
            assert(child_of(root@).overrides =~= root@.overrides);
            assert(child_of(root@) == root@);
        }
        ts.push(t);
        assert(ts@[i as int]@ == (TargetView {
            sink: SinkView { records: task_records(Seq::empty(), i as nat, own@, outcomes@[i as int]), ..fresh_target(own@).sink },
            ..fresh_target(own@)
        }));
        i = i + 1;
        assert(ds@ =~= ds0.subrange(i as int, ds0.len() as int));
    }
    ts
}

/// Tasks are isolated: no record that task `i` captures carries the label of
/// another task `j`, in its lineage or in its message, and every one carries
/// the label of `i` itself.
pub proof fn lemma_task_isolation(i: nat, j: nat, own: Seq<u8>, oi: WorkOutcome)
    requires
        i != j,
    ensures
        forall|k: int| 0 <= k < task_records(Seq::empty(), i, own, oi).len() ==>
            (#[trigger] task_records(Seq::empty(), i, own, oi)[k]).lineage == seq![task_label(i)]
            && !task_records(Seq::empty(), i, own, oi)[k].lineage.contains(task_label(j))
            && !mentions(task_records(Seq::empty(), i, own, oi)[k].message, task_label(j)),
{
    lemma_messages_name_no_task(j);
    lemma_task_label_injective(i, j);
    assert(Seq::<Seq<u8>>::empty().push(task_label(i)) =~= seq![task_label(i)]);
    assert(!seq![task_label(i)].contains(task_label(j)));
}

/// The sub-task that performs a task's work carries the lineage the task had
/// when it spawned it, then its own label; it takes none of the task's
/// overrides, so the default target receives its records.
pub proof fn lemma_work_path(p: PathView, label: Seq<u8>, d: Option<TargetView>, own: Seq<u8>, sev: Severity, m: Seq<u8>)
    ensures
        record_at(work_path(p, label), own, sev, m).lineage == p.lineage.push(label),
        current_view(work_path(p, label), d) == d,
{
}

/// `w` occurs in `s` as a contiguous run.
pub open spec fn mentions(s: Seq<u8>, w: Seq<u8>) -> bool {
    exists|k: int| 0 <= k && k + w.len() <= s.len() && #[trigger] s.subrange(k, k + w.len()) == w
}

proof fn lemma_no_task_word(s: Seq<u8>, j: nat)
    requires
        forall|k: int| 0 <= k && k + 4 < s.len() ==> !(#[trigger] s[k] == 116u8 && s[k + 1] == 97u8
            && s[k + 2] == 115u8 && s[k + 3] == 107u8 && s[k + 4] == 32u8),
    ensures
        !mentions(s, task_label(j)),
{
    lemma_decimal_shape(j);
    if mentions(s, task_label(j)) {
        let w = task_label(j);
        let k = choose|k: int| 0 <= k && k + w.len() <= s.len() && #[trigger] s.subrange(k, k + w.len()) == w;
        assert(s.subrange(k, k + w.len())[0] == s[k]);
        assert(s.subrange(k, k + w.len())[1] == s[k + 1]);
        assert(s.subrange(k, k + w.len())[2] == s[k + 2]);
        assert(s.subrange(k, k + w.len())[3] == s[k + 3]);
        assert(s.subrange(k, k + w.len())[4] == s[k + 4]);
    }
}

/// No message that lands in a task's own buffer mentions the label of any
/// task.
pub proof fn lemma_messages_name_no_task(j: nat)
    ensures
        !mentions(msg_resolved(), task_label(j)),
        !mentions(msg_failed(), task_label(j)),
        !mentions(msg_finished(), task_label(j)),
{
    lemma_no_task_word(msg_resolved(), j);
    lemma_no_task_word(msg_failed(), j);
    lemma_no_task_word(msg_finished(), j);
}

} // verus!
