use vstd::prelude::*;
use crate::record::{append_bytes, labels_view, records_view, DiagnosticRecord, RecordView, Severity};

verus! {

/// Where a sink's lines end up: the stream that every path shares, or a
/// buffer that one task owns.
#[derive(Clone, Copy, Debug, PartialEq, Eq, Structural)]
pub enum SinkKind {
    Shared,
    Private,
}

pub struct SinkView {
    pub kind: SinkKind,
    pub ansi: bool,
    pub records: Seq<RecordView>,
}

/// A destination for records. It keeps what was written, in order; its
/// rendered lines are produced from those records.
#[derive(Debug)]
pub struct Sink {
    pub kind: SinkKind,
    pub ansi: bool,
    pub records: Vec<DiagnosticRecord>,
}

impl View for Sink {
    type V = SinkView;

    open spec fn view(&self) -> SinkView {
        SinkView { kind: self.kind, ansi: self.ansi, records: records_view(self.records@) }
    }
}

/// The name of a severity, padded to five columns.
pub open spec fn severity_name(sev: Severity) -> Seq<u8> {
    match sev {
        Severity::Trace => seq![84u8, 82, 65, 67, 69],
        Severity::Debug => seq![68u8, 69, 66, 85, 71],
        Severity::Info => seq![32u8, 73, 78, 70, 79],
        Severity::Warn => seq![32u8, 87, 65, 82, 78],
        Severity::Error => seq![69u8, 82, 82, 79, 82],
    }
}

/// The terminal colour code of a severity.
pub open spec fn colour_code(sev: Severity) -> u8 {
    match sev {
        Severity::Trace => 53u8,
        Severity::Debug => 52u8,
        Severity::Info => 50u8,
        Severity::Warn => 51u8,
        Severity::Error => 49u8,
    }
}

/// The severity column: plain, or wrapped in a colour escape and a reset.
pub open spec fn severity_text(sev: Severity, ansi: bool) -> Seq<u8> {
    if ansi {
        seq![27u8, 91, 51, colour_code(sev), 109] + severity_name(sev) + seq![27u8, 91, 48, 109]
    } else {
        severity_name(sev)
    }
}

/// Labels joined by `:`, outer first.
pub open spec fn join_labels(l: Seq<Seq<u8>>) -> Seq<u8>
    decreases l.len(),
{
    if l.len() == 0 {
        Seq::empty()
    } else if l.len() == 1 {
        l[0]
    } else {
        join_labels(l.drop_last()) + seq![58u8] + l.last()
    }
}

/// The lineage column: nothing when no span is open.
pub open spec fn lineage_text(l: Seq<Seq<u8>>) -> Seq<u8> {
    if l.len() == 0 {
        Seq::empty()
    } else {
        join_labels(l) + seq![58u8, 32]
    }
}

/// One rendered line: severity, lineage, origin, message.
pub open spec fn render_line(r: RecordView, ansi: bool) -> Seq<u8> {
    severity_text(r.severity, ansi) + seq![32u8] + lineage_text(r.lineage) + r.origin + seq![58u8, 32]
        + r.message
}

fn push_severity(out: &mut Vec<u8>, sev: Severity, ansi: bool)
    ensures
        final(out)@ == old(out)@ + severity_text(sev, ansi),
{
    let code: u8 = match sev {
        Severity::Trace => 53,
        Severity::Debug => 52,
        Severity::Info => 50,
        Severity::Warn => 51,
        Severity::Error => 49,
    };
    let name: Vec<u8> = match sev {
        Severity::Trace => vec![84u8, 82, 65, 67, 69],
        Severity::Debug => vec![68u8, 69, 66, 85, 71],
        Severity::Info => vec![32u8, 73, 78, 70, 79],
        Severity::Warn => vec![32u8, 87, 65, 82, 78],
        Severity::Error => vec![69u8, 82, 82, 79, 82],
    };
    assert(name@ =~= severity_name(sev));
    if ansi {
        let head: Vec<u8> = vec![27u8, 91, 51, code, 109];
        let tail: Vec<u8> = vec![27u8, 91, 48, 109];
        append_bytes(out, &head);
        append_bytes(out, &name);
        append_bytes(out, &tail);
        assert(head@ =~= seq![27u8, 91, 51, colour_code(sev), 109]);
        assert(tail@ =~= seq![27u8, 91, 48, 109]);
        assert(final(out)@ =~= old(out)@ + severity_text(sev, ansi));
    } else {
        append_bytes(out, &name);
    }
}

fn push_lineage(out: &mut Vec<u8>, l: &Vec<Vec<u8>>)
    ensures
        final(out)@ == old(out)@ + lineage_text(labels_view(l@)),
{
    let ghost lv = labels_view(l@);
    if l.len() == 0 {
        assert(lv.len() == 0);
        assert(final(out)@ =~= old(out)@ + lineage_text(lv));
        return;
    }
    let mut i: usize = 0;
    while i < l.len()
        invariant
            i <= l@.len(),
            lv == labels_view(l@),
            out@ == old(out)@ + join_labels(lv.subrange(0, i as int)),
        decreases l@.len() - i,
    {
        if i > 0 {
            out.push(58u8);
        }
        append_bytes(out, &l[i]);
        proof {
            let s = lv.subrange(0, i as int + 1);
            assert(s.drop_last() =~= lv.subrange(0, i as int));
            assert(s.last() == l@[i as int]@);
            assert(out@ =~= old(out)@ + join_labels(s));
        }
        i = i + 1;
    }
    assert(lv.subrange(0, l@.len() as int) =~= lv);
    out.push(58u8);
    out.push(32u8);
    assert(final(out)@ =~= old(out)@ + lineage_text(lv));
}

/// The line that represents `r`, with or without terminal colours.
pub fn render(r: &DiagnosticRecord, ansi: bool) -> (out: Vec<u8>)
    ensures
        out@ == render_line(r@, ansi),
{
    let mut out: Vec<u8> = Vec::new();
    push_severity(&mut out, r.severity, ansi);
    out.push(32u8);
    push_lineage(&mut out, &r.lineage);
    append_bytes(&mut out, &r.origin);
    out.push(58u8);
    out.push(32u8);
    append_bytes(&mut out, &r.message);
    assert(out@ =~= render_line(r@, ansi));
    out
}

/// The rendered lines of a sequence of records.
pub open spec fn render_all(rs: Seq<RecordView>, ansi: bool) -> Seq<Seq<u8>> {
    rs.map_values(|r: RecordView| render_line(r, ansi))
}

impl Sink {
    /// A sink of the shared stream, holding nothing yet.
    pub fn shared(ansi: bool) -> (s: Sink)
        ensures
            s@.kind == SinkKind::Shared,
            s@.ansi == ansi,
            s@.records.len() == 0,
    {
        Sink { kind: SinkKind::Shared, ansi, records: Vec::new() }
    }

    /// A private buffer, holding nothing yet.
    pub fn private(ansi: bool) -> (s: Sink)
        ensures
            s@.kind == SinkKind::Private,
            s@.ansi == ansi,
            s@.records.len() == 0,
    {
        Sink { kind: SinkKind::Private, ansi, records: Vec::new() }
    }

    /// Appends one record.
    pub fn write(&mut self, r: DiagnosticRecord)
        ensures
            final(self)@ == (SinkView { records: old(self)@.records.push(r@), ..old(self)@ }),
    {
        self.records.push(r);
        assert(records_view(self.records@) =~= old(self)@.records.push(r@));
    }

    /// The rendered lines of everything written so far, in order.
    pub fn rendered(&self) -> (lines: Vec<Vec<u8>>)
        ensures
            labels_view(lines@) == render_all(self@.records, self@.ansi),
    {
        let mut lines: Vec<Vec<u8>> = Vec::new();
        let mut i: usize = 0;
        while i < self.records.len()
            invariant
                i <= self.records@.len(),
                lines@.len() == i,
                forall|k: int| 0 <= k < i ==> (#[trigger] lines@[k])@ == render_line(self.records@[k]@, self.ansi),
            decreases self.records@.len() - i,
        {
            let line = render(&self.records[i], self.ansi);
            lines.push(line);
            i = i + 1;
        }
        assert(labels_view(lines@) =~= render_all(self@.records, self@.ansi));
        lines
    }

    /// Hands out the rendered lines of everything written so far and empties
    /// the sink.
    pub fn drain(&mut self) -> (lines: Vec<Vec<u8>>)
        ensures
            labels_view(lines@) == render_all(old(self)@.records, old(self)@.ansi),
            final(self)@ == (SinkView { records: Seq::empty(), ..old(self)@ }),
    {
        let lines = self.rendered();
        self.records = Vec::new();
        assert(records_view(self.records@) =~= Seq::<RecordView>::empty());
        lines
    }
}

} // verus!
