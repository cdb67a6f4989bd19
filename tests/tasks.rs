use diag_scope::context::{DispatchTarget, ExecPath, Registry};
use diag_scope::filter::FilterPolicy;
use diag_scope::record::Severity;
use diag_scope::sink::Sink;
use diag_scope::task::{
    begin_task, do_some_work, decimal_of, finish_task, label_of, run_all, run_task, spawn_many,
    TaskDescriptor, WorkOutcome,
};

fn b(s: &str) -> Vec<u8> {
    s.as_bytes().to_vec()
}

fn shared_registry() -> Registry {
    let mut reg = Registry::new();
    reg.install_default(DispatchTarget::new(Sink::shared(false), FilterPolicy::first_party(b("diag_scope"))))
        .unwrap();
    reg
}

fn text(lines: &[Vec<u8>]) -> Vec<String> {
    lines.iter().map(|l| String::from_utf8(l.clone()).unwrap()).collect()
}

#[test]
fn decimal_digits() {
    assert_eq!(decimal_of(0), b("0"));
    assert_eq!(decimal_of(7), b("7"));
    assert_eq!(decimal_of(10), b("10"));
    assert_eq!(decimal_of(18446744073709551615), b("18446744073709551615"));
    assert_eq!(label_of(42), b("task 42"));
}

#[test]
fn descriptors_are_fresh() {
    let ds = spawn_many(3, &b("diag_scope"));
    assert_eq!(ds.len(), 3);
    for (i, d) in ds.iter().enumerate() {
        assert_eq!(d.id, i as u64);
        assert_eq!(d.label, label_of(i as u64));
        assert!(d.target.sink.records.is_empty());
    }
    assert!(spawn_many(0, &b("x")).is_empty());
}

#[test]
fn task_steps_route_records() {
    let mut reg = shared_registry();
    let root = ExecPath::root();
    let own = b("diag_scope");
    let run = begin_task(&root, TaskDescriptor::new(5, &own));
    let sub = do_some_work(&run, &mut reg, &own);
    assert_eq!(sub.lineage(), vec![b("task 5"), b("task 5")]);
    assert_eq!(sub.depth(), 0);
    let t = finish_task(run, &mut reg, &own, WorkOutcome::Failed);
    assert_eq!(
        text(&t.sink.rendered()),
        vec!["ERROR task 5: diag_scope: lookup failed", " INFO task 5: diag_scope: work_finished"]
    );
    assert_eq!(text(&reg.drain_default()), vec![" INFO task 5:task 5: diag_scope: Doing some work in task 5"]);
}

#[test]
fn two_tasks_are_isolated() {
    let mut reg = shared_registry();
    let own = b("diag_scope");
    let ts = run_all(&mut reg, &own, &vec![WorkOutcome::Resolved, WorkOutcome::Failed]);
    let l0 = text(&ts[0].sink.rendered());
    let l1 = text(&ts[1].sink.rendered());
    assert_eq!(l0, vec![" INFO task 0: diag_scope: lookup succeeded", " INFO task 0: diag_scope: work_finished"]);
    assert_eq!(l1, vec!["ERROR task 1: diag_scope: lookup failed", " INFO task 1: diag_scope: work_finished"]);
    assert!(l0.iter().all(|l| !l.contains("task 1:")));
    assert!(l1.iter().all(|l| !l.contains("task 0:")));
}

#[test]
fn hundred_tasks_end_to_end() {
    let mut reg = shared_registry();
    let own = b("diag_scope");
    let outcomes: Vec<WorkOutcome> =
        (0..100).map(|i| if i % 3 == 0 { WorkOutcome::Failed } else { WorkOutcome::Resolved }).collect();
    let ts = run_all(&mut reg, &own, &outcomes);
    assert_eq!(ts.len(), 100);
    for (i, t) in ts.iter().enumerate() {
        let recs = &t.sink.records;
        assert_eq!(recs.len(), 2);
        let expected = if i % 3 == 0 { Severity::Error } else { Severity::Info };
        assert_eq!(recs[0].severity, expected);
        assert_eq!(recs[1].message, b("work_finished"));
        let lines = text(&t.sink.rendered());
        let own_tag = format!("task {}:", i);
        assert!(lines.iter().all(|l| l.contains(&own_tag)));
        for j in 0..100 {
            if j != i {
                let other = format!("task {}:", j);
                assert!(lines.iter().all(|l| !l.contains(&other)));
            }
        }
    }
    let shared = text(&reg.drain_default());
    assert_eq!(shared.len(), 100);
    assert_eq!(shared[0], " INFO task 0:task 0: diag_scope: Doing some work in task 0");
    assert_eq!(shared[99], " INFO task 99:task 99: diag_scope: Doing some work in task 99");
}

#[test]
fn run_task_under_parent_span() {
    let mut reg = shared_registry();
    let own = b("diag_scope");
    let mut parent = ExecPath::root();
    let _s = parent.open(b("tasks"));
    let t = run_task(&parent, &mut reg, TaskDescriptor::new(9, &own), &own, WorkOutcome::Resolved);
    assert_eq!(t.sink.records[0].lineage, vec![b("tasks"), b("task 9")]);
    assert_eq!(parent.lineage(), vec![b("tasks")]);
}

#[test]
fn work_sub_task_has_own_span_and_keeps_snapshot() {
    let mut reg = shared_registry();
    let own = b("diag_scope");
    let mut parent = ExecPath::root();
    let outer = parent.open(b("tasks"));
    let run = begin_task(&parent, TaskDescriptor::new(9, &own));
    let sub = do_some_work(&run, &mut reg, &own);
    assert_eq!(sub.lineage(), vec![b("tasks"), b("task 9"), b("task 9")]);
    assert_eq!(sub.depth(), 0);
    let t = finish_task(run, &mut reg, &own, WorkOutcome::Resolved);
    parent.close(outer).unwrap();
    assert!(parent.lineage().is_empty());
    assert_eq!(sub.lineage(), vec![b("tasks"), b("task 9"), b("task 9")]);
    assert_eq!(t.sink.records[0].lineage, vec![b("tasks"), b("task 9")]);
    assert_eq!(text(&reg.drain_default()), vec![" INFO tasks:task 9:task 9: diag_scope: Doing some work in task 9"]);
}
