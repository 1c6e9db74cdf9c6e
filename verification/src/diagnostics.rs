//! Translation of wire diagnostics into internal text positions. Wire
//! positions are line/character pairs in the server's offset units; internal
//! positions are absolute character offsets. Translation of a position is
//! fallible; a batch keeps every diagnostic whose positions translate and
//! drops the rest.

use vstd::prelude::*;

verus! {

/// A position as the wire carries it: a line and a character offset in it.
pub struct WirePosition {
    pub line: u32,
    pub character: u32,
}

/// A wire range: start and end positions.
pub struct WireRange {
    pub start: WirePosition,
    pub end: WirePosition,
}

/// Diagnostic severity as the wire carries it.
pub enum WireSeverity {
    Error,
    Warning,
    Information,
    Hint,
}

/// Internal diagnostic severity.
#[derive(PartialEq, Eq, Structural, Debug)]
pub enum Severity {
    Error,
    Warning,
    Info,
    Hint,
}

/// One diagnostic as the wire carries it.
pub struct WireDiagnostic {
    pub range: WireRange,
    pub message: String,
    pub severity: Option<WireSeverity>,
}

/// One diagnostic in internal units: absolute character offsets, the wire
/// line it started on, its message and its mapped severity.
pub struct DiagnosticRecord {
    pub start: u64,
    pub end: u64,
    pub line: u32,
    pub message: String,
    pub severity: Option<Severity>,
}

/// The lengths, in offset units, of a document's lines. The newline that
/// separates two lines counts as one unit of the line it ends.
pub struct DocumentText {
    pub line_lengths: Vec<u32>,
}

impl DocumentText {
    /// Bounded so that every absolute offset fits comfortably in a `u64`.
    pub open spec fn wf(&self) -> bool {
        self.line_lengths@.len() < 0x8000_0000
    }
}

/// The absolute offset of the first character of line `k`.
pub open spec fn spec_line_start(lines: Seq<u32>, k: int) -> int
    decreases k,
{
    if k <= 0 {
        0
    } else {
        spec_line_start(lines, k - 1) + lines[k - 1] + 1
    }
}

/// Line starts grow by at most one line length plus its newline for each
/// line, so they stay far below the `u64` range.
proof fn lemma_line_start_bound(lines: Seq<u32>, k: int)
    requires
        0 <= k <= lines.len(),
    ensures
        0 <= spec_line_start(lines, k) <= k * 0x1_0000_0000,
    decreases k,
{
    if k > 0 {
        lemma_line_start_bound(lines, k - 1);
        assert((k - 1) * 0x1_0000_0000 + 0x1_0000_0000 == k * 0x1_0000_0000) by (nonlinear_arith);
    }
}

/// The translation of one wire position: meaningful only when the line
/// exists and the character offset lies within it (one past its last unit,
/// the newline position, included).
pub open spec fn spec_translate_position(lines: Seq<u32>, p: WirePosition) -> Option<int> {
    if p.line < lines.len() && p.character <= lines[p.line as int] {
        Some(spec_line_start(lines, p.line as int) + p.character)
    } else {
        None
    }
}

/// Translates one wire position into an absolute character offset, or
/// nothing when the position lies out of bounds.
pub fn translate_position(text: &DocumentText, p: &WirePosition) -> (r: Option<u64>)
    requires
        text.wf(),
    ensures
        match r {
            Some(o) => spec_translate_position(text.line_lengths@, *p) == Some(o as int),
            None => spec_translate_position(text.line_lengths@, *p) is None,
        },
{
    let nlines = text.line_lengths.len();
    if (p.line as usize) >= nlines {
        return None;
    }
    let len_here = text.line_lengths[p.line as usize];
    if p.character > len_here {
        return None;
    }
    let mut start: u64 = 0;
    let mut k: usize = 0;
    proof {
        lemma_line_start_bound(text.line_lengths@, p.line as int);
    }
    while k < p.line as usize
        invariant
            k <= p.line as usize,
            (p.line as usize) < text.line_lengths@.len(),
            text.wf(),
            start == spec_line_start(text.line_lengths@, k as int),
            start <= (k as int) * 0x1_0000_0000,
        decreases p.line as usize - k,
    {
        proof {
            lemma_line_start_bound(text.line_lengths@, k as int + 1);
        }
        start = start + text.line_lengths[k] as u64 + 1;
        k = k + 1;
    }
    Some(start + p.character as u64)
}

/// The internal severity for a wire severity.
pub open spec fn spec_map_severity(w: WireSeverity) -> Severity {
    match w {
        WireSeverity::Error => Severity::Error,
        WireSeverity::Warning => Severity::Warning,
        WireSeverity::Information => Severity::Info,
        WireSeverity::Hint => Severity::Hint,
    }
}

/// Maps a wire severity to the internal one.
pub fn map_severity(w: &WireSeverity) -> (r: Severity)
    ensures
        r == spec_map_severity(*w),
{
    match w {
        WireSeverity::Error => Severity::Error,
        WireSeverity::Warning => Severity::Warning,
        WireSeverity::Information => Severity::Info,
        WireSeverity::Hint => Severity::Hint,
    }
}

/// The translation of one wire diagnostic: its record when both positions
/// translate, nothing otherwise.
pub open spec fn spec_translate_diagnostic(lines: Seq<u32>, d: WireDiagnostic) -> Option<
    DiagnosticRecord,
> {
    match (
        spec_translate_position(lines, d.range.start),
        spec_translate_position(lines, d.range.end),
    ) {
        (Some(s), Some(e)) => Some(
            DiagnosticRecord {
                start: s as u64,
                end: e as u64,
                line: d.range.start.line,
                message: d.message,
                severity: match d.severity {
                    Some(w) => Some(spec_map_severity(w)),
                    None => None,
                },
            },
        ),
        _ => None,
    }
}

/// Translates one wire diagnostic, or drops it when either of its positions
/// lies out of bounds.
pub fn translate_diagnostic(text: &DocumentText, d: &WireDiagnostic) -> (r: Option<
    DiagnosticRecord,
>)
    requires
        text.wf(),
    ensures
        r == spec_translate_diagnostic(text.line_lengths@, *d),
{
    let start = match translate_position(text, &d.range.start) {
        Some(s) => s,
        None => {
            return None;
        },
    };
    let end = match translate_position(text, &d.range.end) {
        Some(e) => e,
        None => {
            return None;
        },
    };
    Some(
        DiagnosticRecord {
            start,
            end,
            line: d.range.start.line,
            message: d.message.clone(),
            severity: match &d.severity {
                Some(w) => Some(map_severity(w)),
                None => None,
            },
        },
    )
}

/// The translation of a whole batch: the records of the diagnostics that
/// translate, in their order of arrival; the rest are dropped one by one.
pub open spec fn spec_translate_batch(lines: Seq<u32>, batch: Seq<WireDiagnostic>) -> Seq<
    DiagnosticRecord,
>
    decreases batch.len(),
{
    if batch.len() == 0 {
        Seq::empty()
    } else {
        let rest = spec_translate_batch(lines, batch.drop_last());
        match spec_translate_diagnostic(lines, batch.last()) {
            Some(rec) => rest.push(rec),
            None => rest,
        }
    }
}

/// Translates a batch of wire diagnostics. A diagnostic whose positions lie
/// out of bounds is dropped; all others are kept, in order.
pub fn translate_batch(text: &DocumentText, batch: &Vec<WireDiagnostic>) -> (r: Vec<
    DiagnosticRecord,
>)
    requires
        text.wf(),
    ensures
        r@ == spec_translate_batch(text.line_lengths@, batch@),
{
    let mut out: Vec<DiagnosticRecord> = Vec::new();
    let mut i: usize = 0;
    while i < batch.len()
        invariant
            i <= batch@.len(),
            text.wf(),
            out@ == spec_translate_batch(text.line_lengths@, batch@.subrange(0, i as int)),
        decreases batch@.len() - i,
    {
        let ghost prefix = batch@.subrange(0, i as int);
        match translate_diagnostic(text, &batch[i]) {
            Some(rec) => out.push(rec),
            None => {},
        }
        proof {
            let prefix2 = batch@.subrange(0, i as int + 1);
            assert(prefix2.drop_last() =~= prefix);
            assert(prefix2.last() == batch@[i as int]);
        }
        i = i + 1;
    }
    proof {
        assert(batch@.subrange(0, batch@.len() as int) =~= batch@);
    }
    out
}

} // verus!
