use diag_scope::context::{ContextError, DispatchTarget, Emission, ExecPath, Registry};
use diag_scope::filter::FilterPolicy;
use diag_scope::record::Severity;
use diag_scope::sink::Sink;

fn b(s: &str) -> Vec<u8> {
    s.as_bytes().to_vec()
}

fn target(min: Severity) -> DispatchTarget {
    DispatchTarget::new(Sink::private(false), FilterPolicy::new(min))
}

fn current_min(p: &ExecPath, reg: &Registry) -> Option<Severity> {
    p.current(reg).map(|t| t.filter.default_min)
}

#[test]
fn install_default_once() {
    let mut reg = Registry::new();
    assert!(!reg.is_initialized());
    assert_eq!(reg.install_default(target(Severity::Info)), Ok(()));
    assert!(reg.is_initialized());
    assert_eq!(reg.install_default(target(Severity::Trace)), Err(ContextError::AlreadyInitialized));
    assert_eq!(reg.default_target().unwrap().filter.default_min, Severity::Info);
}

#[test]
fn override_stack_depth_three() {
    let mut reg = Registry::new();
    reg.install_default(target(Severity::Error)).unwrap();
    let mut p = ExecPath::root();
    assert_eq!(current_min(&p, &reg), Some(Severity::Error));
    let h1 = p.enter(target(Severity::Trace));
    let h2 = p.enter(target(Severity::Debug));
    let h3 = p.enter(target(Severity::Info));
    assert_eq!(p.depth(), 3);
    assert_eq!(current_min(&p, &reg), Some(Severity::Info));
    assert_eq!(p.release(h3).unwrap().filter.default_min, Severity::Info);
    assert_eq!(current_min(&p, &reg), Some(Severity::Debug));
    assert_eq!(p.release(h2).unwrap().filter.default_min, Severity::Debug);
    assert_eq!(current_min(&p, &reg), Some(Severity::Trace));
    assert_eq!(p.release(h1).unwrap().filter.default_min, Severity::Trace);
    assert_eq!(current_min(&p, &reg), Some(Severity::Error));
}

#[test]
fn release_out_of_order_is_refused() {
    let reg = Registry::new();
    let mut p = ExecPath::root();
    let h1 = p.enter(target(Severity::Trace));
    let _h2 = p.enter(target(Severity::Warn));
    assert_eq!(p.release(h1).unwrap_err(), ContextError::InvalidRelease);
    assert_eq!(p.depth(), 2);
    assert_eq!(current_min(&p, &reg), Some(Severity::Warn));
}

#[test]
fn close_out_of_order_is_refused() {
    let mut p = ExecPath::root();
    let a = p.open(b("a"));
    let _b = p.open(b("b"));
    assert_eq!(p.close(a), Err(ContextError::InvalidRelease));
    assert_eq!(p.lineage(), vec![b("a"), b("b")]);
}

#[test]
fn nested_spans_tag_records() {
    let mut reg = Registry::new();
    let mut p = ExecPath::root();
    let h = p.enter(target(Severity::Trace));
    let a = p.open(b("A"));
    let inner = p.open(b("B"));
    assert_eq!(p.emit(&mut reg, &b("app"), Severity::Info, &b("in b")), Emission::Written);
    p.close(inner).unwrap();
    assert_eq!(p.emit(&mut reg, &b("app"), Severity::Info, &b("in a")), Emission::Written);
    p.close(a).unwrap();
    let t = p.release(h).unwrap();
    assert_eq!(t.sink.records[0].lineage, vec![b("A"), b("B")]);
    assert_eq!(t.sink.records[1].lineage, vec![b("A")]);
    assert_eq!(t.sink.records[1].message, b("in a"));
}

#[test]
fn no_target_means_nothing_happens() {
    let mut reg = Registry::new();
    let mut p = ExecPath::root();
    assert_eq!(p.emit(&mut reg, &b("app"), Severity::Error, &b("x")), Emission::NoTarget);
    assert!(p.current(&reg).is_none());
}

#[test]
fn filtered_record_is_not_written() {
    let mut reg = Registry::new();
    reg.install_default(DispatchTarget::new(Sink::shared(false), FilterPolicy::first_party(b("app")))).unwrap();
    let mut p = ExecPath::root();
    assert_eq!(p.emit(&mut reg, &b("dep"), Severity::Info, &b("noise")), Emission::Filtered);
    assert_eq!(p.emit(&mut reg, &b("app"), Severity::Info, &b("kept")), Emission::Written);
    assert_eq!(reg.drain_default(), vec![b(" INFO app: kept")]);
    assert!(reg.drain_default().is_empty());
}

#[test]
fn sub_task_gets_lineage_not_override() {
    let mut reg = Registry::new();
    reg.install_default(DispatchTarget::new(Sink::shared(false), FilterPolicy::new(Severity::Trace))).unwrap();
    let mut parent = ExecPath::root();
    let _s = parent.open(b("parent"));
    let h = parent.enter(target(Severity::Trace));
    let mut child = parent.spawn_child();
    assert_eq!(child.depth(), 0);
    assert_eq!(child.lineage(), vec![b("parent")]);
    assert_eq!(child.emit(&mut reg, &b("app"), Severity::Info, &b("from child")), Emission::Written);
    let t = parent.release(h).unwrap();
    assert!(t.sink.records.is_empty());
    assert_eq!(reg.drain_default(), vec![b(" INFO parent: app: from child")]);
}

#[test]
fn spawn_snapshot_does_not_follow_parent() {
    let mut parent = ExecPath::root();
    let s = parent.open(b("outer"));
    let child = parent.spawn_child();
    parent.close(s).unwrap();
    assert!(parent.lineage().is_empty());
    assert_eq!(child.lineage(), vec![b("outer")]);
}
