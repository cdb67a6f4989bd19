use diag_scope::record::{DiagnosticRecord, Severity};
use diag_scope::sink::{render, Sink, SinkKind};

fn b(s: &str) -> Vec<u8> {
    s.as_bytes().to_vec()
}

fn rec(sev: Severity, lineage: &[&str], msg: &str) -> DiagnosticRecord {
    let l: Vec<Vec<u8>> = lineage.iter().map(|x| b(x)).collect();
    DiagnosticRecord::new(sev, &b("diag_scope"), &b(msg), &l)
}

#[test]
fn plain_line_layout() {
    let r = rec(Severity::Info, &["task 3", "lookup"], "hello");
    assert_eq!(render(&r, false), b(" INFO task 3:lookup: diag_scope: hello"));
}

#[test]
fn plain_line_without_spans() {
    let r = rec(Severity::Error, &[], "bad");
    assert_eq!(render(&r, false), b("ERROR diag_scope: bad"));
}

#[test]
fn ansi_line_layout() {
    let r = rec(Severity::Warn, &["a"], "m");
    assert_eq!(render(&r, true), b("\x1b[33m WARN\x1b[0m a: diag_scope: m"));
}

#[test]
fn sink_write_and_drain() {
    let mut s = Sink::private(false);
    assert_eq!(s.kind, SinkKind::Private);
    s.write(rec(Severity::Debug, &[], "one"));
    s.write(rec(Severity::Trace, &["x"], "two"));
    assert_eq!(s.records.len(), 2);
    let lines = s.rendered();
    assert_eq!(lines, vec![b("DEBUG diag_scope: one"), b("TRACE x: diag_scope: two")]);
    let drained = s.drain();
    assert_eq!(drained, lines);
    assert!(s.records.is_empty());
    assert_eq!(Sink::shared(true).kind, SinkKind::Shared);
}
