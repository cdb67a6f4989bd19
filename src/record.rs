use vstd::prelude::*;

verus! {

/// Severity of a diagnostic record, from the most verbose to the most severe.
#[derive(Clone, Copy, Debug, PartialEq, Eq, Structural)]
pub enum Severity {
    Trace,
    Debug,
    Info,
    Warn,
    Error,
}

impl Severity {
    /// Position in the order TRACE < DEBUG < INFO < WARN < ERROR.
    pub open spec fn level(self) -> nat {
        match self {
            Severity::Trace => 0,
            Severity::Debug => 1,
            Severity::Info => 2,
            Severity::Warn => 3,
            Severity::Error => 4,
        }
    }

    pub fn rank(&self) -> (r: u8)
        ensures
            r as nat == self.level(),
    {
        match self {
            Severity::Trace => 0,
            Severity::Debug => 1,
            Severity::Info => 2,
            Severity::Warn => 3,
            Severity::Error => 4,
        }
    }

    /// Whether this severity reaches the threshold `min`.
    pub fn at_least(&self, min: &Severity) -> (r: bool)
        ensures
            r == (self.level() >= min.level()),
    {
        self.rank() >= min.rank()
    }
}

/// What a record is, as mathematical values.
pub struct RecordView {
    pub severity: Severity,
    pub origin: Seq<u8>,
    pub message: Seq<u8>,
    pub lineage: Seq<Seq<u8>>,
}

/// One diagnostic event: severity, the component it came from, its text, and
/// the labels of the spans open when it was emitted, innermost last.
#[derive(Debug)]
pub struct DiagnosticRecord {
    pub severity: Severity,
    pub origin: Vec<u8>,
    pub message: Vec<u8>,
    pub lineage: Vec<Vec<u8>>,
}

impl View for DiagnosticRecord {
    type V = RecordView;

    open spec fn view(&self) -> RecordView {
        RecordView {
            severity: self.severity,
            origin: self.origin@,
            message: self.message@,
            lineage: labels_view(self.lineage@),
        }
    }
}

/// The views of a sequence of labels.
pub open spec fn labels_view(s: Seq<Vec<u8>>) -> Seq<Seq<u8>> {
    s.map_values(|l: Vec<u8>| l@)
}

/// The views of a sequence of records.
pub open spec fn records_view(s: Seq<DiagnosticRecord>) -> Seq<RecordView> {
    s.map_values(|r: DiagnosticRecord| r@)
}

/// A copy of a byte string.
pub fn copy_bytes(v: &Vec<u8>) -> (r: Vec<u8>)
    ensures
        r@ == v@,
{
    let mut r: Vec<u8> = Vec::new();
    let mut i: usize = 0;
    while i < v.len()
        invariant
            i <= v@.len(),
            r@ == v@.subrange(0, i as int),
        decreases v@.len() - i,
    {
        r.push(v[i]);
        i = i + 1;
    }
    assert(r@ =~= v@);
    r
}

/// Appends the bytes of `s` to `out`.
pub fn append_bytes(out: &mut Vec<u8>, s: &Vec<u8>)
    ensures
        final(out)@ == old(out)@ + s@,
{
    let mut i: usize = 0;
    while i < s.len()
        invariant
            i <= s@.len(),
            out@ == old(out)@ + s@.subrange(0, i as int),
        decreases s@.len() - i,
    {
        out.push(s[i]);
        i = i + 1;
        assert(out@ =~= old(out)@ + s@.subrange(0, i as int));
    }
    assert(s@.subrange(0, s@.len() as int) =~= s@);
}

/// A copy of a sequence of labels.
pub fn copy_labels(v: &Vec<Vec<u8>>) -> (r: Vec<Vec<u8>>)
    ensures
        labels_view(r@) == labels_view(v@),
{
    let mut r: Vec<Vec<u8>> = Vec::new();
    let mut i: usize = 0;
    while i < v.len()
        invariant
            i <= v@.len(),
            r@.len() == i,
            forall|k: int| 0 <= k < i ==> (#[trigger] r@[k])@ == v@[k]@,
        decreases v@.len() - i,
    {
        let c = copy_bytes(&v[i]);
        r.push(c);
        i = i + 1;
    }
    assert(labels_view(r@) =~= labels_view(v@));
    r
}

impl DiagnosticRecord {
    pub fn new(severity: Severity, origin: &Vec<u8>, message: &Vec<u8>, lineage: &Vec<Vec<u8>>) -> (r: DiagnosticRecord)
        ensures
            r@ == (RecordView {
                severity,
                origin: origin@,
                message: message@,
                lineage: labels_view(lineage@),
            }),
    {
        DiagnosticRecord {
            severity,
            origin: copy_bytes(origin),
            message: copy_bytes(message),
            lineage: copy_labels(lineage),
        }
    }
}

} // verus!
