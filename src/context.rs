use vstd::prelude::*;
use crate::filter::{emits, FilterPolicy, PolicyView};
use crate::record::{copy_labels, labels_view, DiagnosticRecord, RecordView, Severity};
use crate::sink::{render_all, Sink, SinkView};

verus! {

pub struct TargetView {
    pub sink: SinkView,
    pub filter: PolicyView,
}

/// A sink and the policy that guards it.
#[derive(Debug)]
pub struct DispatchTarget {
    pub sink: Sink,
    pub filter: FilterPolicy,
}

impl View for DispatchTarget {
    type V = TargetView;

    open spec fn view(&self) -> TargetView {
        TargetView { sink: self.sink@, filter: self.filter@ }
    }
}

/// What handing `r` to `t` leaves: the record appended when the policy lets
/// it through, `t` unchanged otherwise.
pub open spec fn deliver(t: TargetView, r: RecordView) -> TargetView {
    if emits(t.filter, r.origin, r.severity) {
        TargetView { sink: SinkView { records: t.sink.records.push(r), ..t.sink }, ..t }
    } else {
        t
    }
}

impl DispatchTarget {
    pub fn new(sink: Sink, filter: FilterPolicy) -> (t: DispatchTarget)
        ensures
            t@ == (TargetView { sink: sink@, filter: filter@ }),
    {
        DispatchTarget { sink, filter }
    }

    /// Filters `r` and, if it passes, writes it to the sink.
    pub fn dispatch(&mut self, r: DiagnosticRecord) -> (written: bool)
        ensures
            written == emits(old(self)@.filter, r@.origin, r@.severity),
            final(self)@ == deliver(old(self)@, r@),
    {
        if self.filter.should_emit(&r.origin, r.severity) {
            self.sink.write(r);
            true
        } else {
            false
        }
    }
}

/// Misuse of the context.
#[derive(Clone, Copy, Debug, PartialEq, Eq, Structural)]
pub enum ContextError {
    /// A default target was installed a second time.
    AlreadyInitialized,
    /// A handle was released out of stack order.
    InvalidRelease,
}

/// The process-wide default target: empty until installed, installed once.
#[derive(Debug)]
pub struct Registry {
    default: Option<DispatchTarget>,
}

/// The view of an optional target.
pub open spec fn opt_view(o: Option<DispatchTarget>) -> Option<TargetView> {
    match o {
        Some(t) => Some(t@),
        None => None,
    }
}

impl View for Registry {
    type V = Option<TargetView>;

    closed spec fn view(&self) -> Option<TargetView> {
        opt_view(self.default)
    }
}

impl Registry {
    /// A registry with no default yet.
    pub fn new() -> (r: Registry)
        ensures
            r@ is None,
    {
        Registry { default: None }
    }

    /// Installs the default target; refused once one is installed.
    pub fn install_default(&mut self, t: DispatchTarget) -> (r: Result<(), ContextError>)
        ensures
            old(self)@ is None ==> r is Ok && final(self)@ == Some(t@),
            old(self)@ is Some ==> r == Err::<(), ContextError>(ContextError::AlreadyInitialized)
                && final(self)@ == old(self)@,
    {
        if self.default.is_some() {
            Err(ContextError::AlreadyInitialized)
        } else {
            self.default = Some(t);
            Ok(())
        }
    }

    pub fn is_initialized(&self) -> (r: bool)
        ensures
            r == self@ is Some,
    {
        self.default.is_some()
    }

    /// The default target, if installed.
    pub fn default_target(&self) -> (r: Option<&DispatchTarget>)
        ensures
            opt_ref_view(r) == self@,
    {
        self.default.as_ref()
    }

    /// The rendered lines that the default target holds, which leave it.
    pub fn drain_default(&mut self) -> (lines: Vec<Vec<u8>>)
        ensures
            match old(self)@ {
                Some(t) => labels_view(lines@) == render_all(t.sink.records, t.sink.ansi)
                    && final(self)@ == Some(TargetView { sink: SinkView { records: Seq::empty(), ..t.sink }, ..t }),
                None => lines@.len() == 0 && final(self)@ is None,
            },
    {
        match self.default.take() {
            Some(mut t) => {
                let lines = t.sink.drain();
                self.default = Some(t);
                lines
            },
            None => Vec::new(),
        }
    }
}

/// The view of an optional borrowed target.
pub open spec fn opt_ref_view(o: Option<&DispatchTarget>) -> Option<TargetView> {
    match o {
        Some(t) => Some(t@),
        None => None,
    }
}

pub struct PathView {
    pub overrides: Seq<TargetView>,
    pub lineage: Seq<Seq<u8>>,
}

/// The context of one logical execution path: its stack of overrides and
/// the labels of its open spans.
#[derive(Debug)]
pub struct ExecPath {
    overrides: Vec<DispatchTarget>,
    lineage: Vec<Vec<u8>>,
}

impl View for ExecPath {
    type V = PathView;

    closed spec fn view(&self) -> PathView {
        PathView {
            overrides: self.overrides@.map_values(|t: DispatchTarget| t@),
            lineage: labels_view(self.lineage@),
        }
    }
}

/// Proof that an override was entered; releasing it pops the target.
#[derive(Debug)]
pub struct OverrideHandle {
    depth: usize,
}

/// Proof that a span was opened; closing it pops the label.
#[derive(Debug)]
pub struct SpanHandle {
    depth: usize,
}

impl OverrideHandle {
    pub closed spec fn depth(&self) -> nat {
        self.depth as nat
    }
}

impl SpanHandle {
    pub closed spec fn depth(&self) -> nat {
        self.depth as nat
    }
}

/// What an emission did.
#[derive(Clone, Copy, Debug, PartialEq, Eq, Structural)]
pub enum Emission {
    /// The active target's sink took the record.
    Written,
    /// The active target's policy dropped it.
    Filtered,
    /// No target was active: nothing happened.
    NoTarget,
}

/// The target that records of `p` go to: its innermost override, else the
/// default.
pub open spec fn current_view(p: PathView, default: Option<TargetView>) -> Option<TargetView> {
    if p.overrides.len() > 0 {
        Some(p.overrides.last())
    } else {
        default
    }
}

pub open spec fn entered(p: PathView, t: TargetView) -> PathView {
    PathView { overrides: p.overrides.push(t), ..p }
}

pub open spec fn released(p: PathView) -> PathView {
    PathView { overrides: p.overrides.drop_last(), ..p }
}

pub open spec fn opened(p: PathView, label: Seq<u8>) -> PathView {
    PathView { lineage: p.lineage.push(label), ..p }
}

pub open spec fn closed(p: PathView) -> PathView {
    PathView { lineage: p.lineage.drop_last(), ..p }
}

/// The context a sub-task spawned from `p` starts with: the lineage
/// snapshot, and no override.
pub open spec fn child_of(p: PathView) -> PathView {
    PathView { overrides: Seq::empty(), lineage: p.lineage }
}

/// The record that an emission on `p` carries.
pub open spec fn record_at(p: PathView, origin: Seq<u8>, sev: Severity, message: Seq<u8>) -> RecordView {
    RecordView { severity: sev, origin, message, lineage: p.lineage }
}

/// What an emission reports, given the target it met.
pub open spec fn emission_of(t: Option<TargetView>, r: RecordView) -> Emission {
    match t {
        Some(t) => if emits(t.filter, r.origin, r.severity) {
            Emission::Written
        } else {
            Emission::Filtered
        },
        None => Emission::NoTarget,
    }
}

/// The path and the default after an emission of `r` on `p`.
pub open spec fn after_emit(p: PathView, d: Option<TargetView>, r: RecordView) -> (PathView, Option<TargetView>) {
    if p.overrides.len() > 0 {
        (
            PathView {
                overrides: p.overrides.update(p.overrides.len() - 1, deliver(p.overrides.last(), r)),
                ..p
            },
            d,
        )
    } else {
        match d {
            Some(t) => (p, Some(deliver(t, r))),
            None => (p, d),
        }
    }
}

impl ExecPath {
    /// The context of a path with no override and no open span.
    pub fn root() -> (p: ExecPath)
        ensures
            p@.overrides.len() == 0,
            p@.lineage.len() == 0,
    {
        ExecPath { overrides: Vec::new(), lineage: Vec::new() }
    }

    /// The context of a sub-task spawned from this path: the lineage as it
    /// stands now, and none of this path's overrides.
    pub fn spawn_child(&self) -> (c: ExecPath)
        ensures
            c@ == child_of(self@),
    {
        let c = ExecPath { overrides: Vec::new(), lineage: copy_labels(&self.lineage) };
        assert(c@.overrides =~= Seq::<TargetView>::empty());
        c
    }

    pub fn depth(&self) -> (r: usize)
        ensures
            r == self@.overrides.len(),
    {
        self.overrides.len()
    }

    /// The labels of the open spans, outer first.
    pub fn lineage(&self) -> (r: Vec<Vec<u8>>)
        ensures
            labels_view(r@) == self@.lineage,
    {
        copy_labels(&self.lineage)
    }

    /// The target active on this path.
    pub fn current<'a>(&'a self, reg: &'a Registry) -> (r: Option<&'a DispatchTarget>)
        ensures
            opt_ref_view(r) == current_view(self@, reg@),
    {
        let n = self.overrides.len();
        if n > 0 {
            Some(&self.overrides[n - 1])
        } else {
            reg.default_target()
        }
    }

    /// Makes `t` the active target of this path until the handle is released.
    pub fn enter(&mut self, t: DispatchTarget) -> (h: OverrideHandle)
        ensures
            final(self)@ == entered(old(self)@, t@),
            h.depth() == old(self)@.overrides.len(),
    {
        let depth = self.overrides.len();
        self.overrides.push(t);
        assert(self@.overrides =~= old(self)@.overrides.push(t@));
        OverrideHandle { depth }
    }

    /// Ends the override of `h`, handing back its target; refused unless
    /// `h` is the innermost override.
    pub fn release(&mut self, h: OverrideHandle) -> (r: Result<DispatchTarget, ContextError>)
        ensures
            h.depth() + 1 == old(self)@.overrides.len() ==> r is Ok && r->Ok_0@ == old(self)@.overrides.last()
                && final(self)@ == released(old(self)@),
            h.depth() + 1 != old(self)@.overrides.len() ==> r is Err && r->Err_0 == ContextError::InvalidRelease
                && final(self)@ == old(self)@,
    {
        if self.overrides.len() == 0 || h.depth != self.overrides.len() - 1 {
            return Err(ContextError::InvalidRelease);
        }
        let t = self.overrides.pop().unwrap();
        assert(self@.overrides =~= old(self)@.overrides.drop_last());
        Ok(t)
    }

    /// Opens a span labelled `label` on this path.
    pub fn open(&mut self, label: Vec<u8>) -> (h: SpanHandle)
        ensures
            final(self)@ == opened(old(self)@, label@),
            h.depth() == old(self)@.lineage.len(),
    {
        let depth = self.lineage.len();
        self.lineage.push(label);
        assert(self@.lineage =~= old(self)@.lineage.push(label@));
        SpanHandle { depth }
    }

    /// Closes the span of `h`; refused unless it is the innermost open span.
    pub fn close(&mut self, h: SpanHandle) -> (r: Result<(), ContextError>)
        ensures
            h.depth() + 1 == old(self)@.lineage.len() ==> r is Ok && final(self)@ == closed(old(self)@),
            h.depth() + 1 != old(self)@.lineage.len() ==> r == Err::<(), ContextError>(ContextError::InvalidRelease)
                && final(self)@ == old(self)@,
    {
        if self.lineage.len() == 0 || h.depth != self.lineage.len() - 1 {
            return Err(ContextError::InvalidRelease);
        }
        let _ = self.lineage.pop();
        assert(self@.lineage =~= old(self)@.lineage.drop_last());
        Ok(())
    }

    /// Emits a record from `origin` on this path: it carries the open spans,
    /// and goes to the active target, which filters it.
    pub fn emit(&mut self, reg: &mut Registry, origin: &Vec<u8>, sev: Severity, message: &Vec<u8>) -> (e: Emission)
        ensures
            e == emission_of(current_view(old(self)@, old(reg)@), record_at(old(self)@, origin@, sev, message@)),
            (final(self)@, final(reg)@) == after_emit(old(self)@, old(reg)@, record_at(old(self)@, origin@, sev, message@)),
    {
        let r = DiagnosticRecord::new(sev, origin, message, &self.lineage);
        let n = self.overrides.len();
        if n > 0 {
            let mut t = self.overrides.pop().unwrap();
            let w = t.dispatch(r);
            self.overrides.push(t);
            assert(self@.overrides =~= old(self)@.overrides.update(n - 1, deliver(old(self)@.overrides.last(), r@)));
            if w { Emission::Written } else { Emission::Filtered }
        } else {
            match reg.default.take() {
                Some(mut t) => {
                    let w = t.dispatch(r);
                    reg.default = Some(t);
                    if w { Emission::Written } else { Emission::Filtered }
                },
                None => Emission::NoTarget,
            }
        }
    }
}

/// A span nested in another on the same path: while the inner one is open,
/// records carry the outer label then the inner one, after what was open
/// before; once the inner one closes, they carry the lineage ending in the
/// outer label.
pub proof fn lemma_nested_spans(p: PathView, a: Seq<u8>, b: Seq<u8>, origin: Seq<u8>, sev: Severity, message: Seq<u8>)
    ensures
        record_at(opened(opened(p, a), b), origin, sev, message).lineage == p.lineage + seq![a, b],
        record_at(closed(opened(opened(p, a), b)), origin, sev, message).lineage == p.lineage.push(a),
        closed(opened(opened(p, a), b)) == opened(p, a),
{
    assert(opened(opened(p, a), b).lineage =~= p.lineage + seq![a, b]);
    assert(closed(opened(opened(p, a), b)).lineage =~= p.lineage.push(a));
}

/// The path after entering each of `ts` in turn.
pub open spec fn enter_all(p: PathView, ts: Seq<TargetView>) -> PathView
    decreases ts.len(),
{
    if ts.len() == 0 {
        p
    } else {
        entered(enter_all(p, ts.drop_last()), ts.last())
    }
}

/// Releasing an override restores the path exactly as it was before it was
/// entered, and so the target that was active then.
pub proof fn lemma_release_restores(p: PathView, t: TargetView, d: Option<TargetView>)
    ensures
        released(entered(p, t)) == p,
        current_view(entered(p, t), d) == Some(t),
{
    assert(released(entered(p, t)).overrides =~= p.overrides);
}

/// Overrides nest as a stack: after entering `ts` in turn and releasing
/// down to the first `m` of them, the active target is `ts[m - 1]`, or the
/// one active before any was entered when `m` is zero; releasing one more
/// leaves the path as it was with `m - 1` entered.
pub proof fn lemma_override_stack(p: PathView, ts: Seq<TargetView>, d: Option<TargetView>, m: nat)
    requires
        m <= ts.len(),
    ensures
        current_view(enter_all(p, ts.take(m as int)), d) == (if m > 0 {
            Some(ts[m - 1])
        } else {
            current_view(p, d)
        }),
        m > 0 ==> released(enter_all(p, ts.take(m as int))) == enter_all(p, ts.take(m - 1)),
{
    if m == 0 {
        assert(ts.take(0) =~= Seq::<TargetView>::empty());
    } else {
        assert(ts.take(m as int).drop_last() =~= ts.take(m - 1));
        lemma_release_restores(enter_all(p, ts.take(m - 1)), ts[m - 1], d);
    }
}

/// A sub-task's context has the lineage of its parent at spawn time and none
/// of its overrides: its records carry that lineage and go to the default
/// target, whatever the parent had entered.
pub proof fn lemma_spawn_boundary(p: PathView, d: Option<TargetView>, origin: Seq<u8>, sev: Severity, message: Seq<u8>)
    ensures
        child_of(p).lineage == p.lineage,
        current_view(child_of(p), d) == d,
        record_at(child_of(p), origin, sev, message).lineage == p.lineage,
        after_emit(child_of(p), d, record_at(p, origin, sev, message)) == (child_of(p), match d {
            Some(t) => Some(deliver(t, record_at(p, origin, sev, message))),
            None => d,
        }),
{
}

} // verus!
