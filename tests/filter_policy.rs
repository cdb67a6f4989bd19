use diag_scope::filter::{starts_with, FilterPolicy};
use diag_scope::record::Severity;

fn b(s: &str) -> Vec<u8> {
    s.as_bytes().to_vec()
}

#[test]
fn first_party_info_passes() {
    let p = FilterPolicy::first_party(b("diag_scope"));
    assert!(p.should_emit(&b("diag_scope"), Severity::Info));
    assert!(p.should_emit(&b("diag_scope::task"), Severity::Info));
    assert!(!p.should_emit(&b("diag_scope"), Severity::Debug));
}

#[test]
fn dependency_info_dropped_warn_passes() {
    let p = FilterPolicy::first_party(b("diag_scope"));
    assert!(!p.should_emit(&b("hickory_resolver::lookup"), Severity::Info));
    assert!(p.should_emit(&b("hickory_resolver::lookup"), Severity::Warn));
    assert!(p.should_emit(&b("hickory_resolver::lookup"), Severity::Error));
    assert!(!p.should_emit(&b("diag"), Severity::Info));
}

#[test]
fn longest_prefix_decides() {
    let p = FilterPolicy::new(Severity::Error)
        .with_rule(b("app"), Severity::Warn)
        .with_rule(b("app::net"), Severity::Trace)
        .with_rule(b("app"), Severity::Debug);
    assert_eq!(p.deciding_rule(&b("app::net::dns")), Some(1));
    assert_eq!(p.deciding_rule(&b("app::db")), Some(2));
    assert_eq!(p.deciding_rule(&b("other")), None);
    assert!(p.should_emit(&b("app::net::dns"), Severity::Trace));
    assert!(p.should_emit(&b("app::db"), Severity::Debug));
    assert!(!p.should_emit(&b("app::db"), Severity::Trace));
    assert!(!p.should_emit(&b("other"), Severity::Warn));
    assert!(p.should_emit(&b("other"), Severity::Error));
}

#[test]
fn empty_prefix_covers_everything() {
    let p = FilterPolicy::new(Severity::Error).with_rule(Vec::new(), Severity::Trace);
    assert!(p.should_emit(&Vec::new(), Severity::Trace));
    assert!(p.should_emit(&b("x"), Severity::Trace));
}

#[test]
fn prefix_check() {
    assert!(starts_with(&b("abc"), &b("ab")));
    assert!(starts_with(&b("abc"), &b("")));
    assert!(!starts_with(&b("ab"), &b("abc")));
    assert!(!starts_with(&b("abc"), &b("ac")));
}

#[test]
fn severity_order() {
    assert!(Severity::Error.at_least(&Severity::Warn));
    assert!(Severity::Info.at_least(&Severity::Info));
    assert!(!Severity::Trace.at_least(&Severity::Debug));
    assert_eq!(Severity::Warn.rank(), 3);
}
