//! The diagnostic boundary: spans to line/column positions, severities, and
//! the diagnostic values a host serializes for its editor protocol.
//!
//! Positions are computed from the module's source bytes: a line is counted
//! per newline byte, and the character is the byte offset within the line
//! (equal to the display column for plain text without tabs). The two
//! byte-position helpers mirror how a diagnostic range is widened to the end
//! of the first line and narrowed to the first non-blank character of the
//! last line of a span.

use crate::call_finder::{CallToThrowMap, CallToThrowMapV};
use crate::span::Span;
use crate::text::{has_prefix, str_eq, str_has_prefix};
use crate::throw_finder::{IdentifierUsage, IdentifierUsageV, ThrowMap, ThrowMapV};
use vstd::prelude::*;

verus! {

/// The number of newline bytes in `s`.
pub open spec fn newline_count(s: Seq<u8>) -> int
    decreases s,
{
    if s.len() == 0 {
        0
    } else {
        newline_count(s.drop_last()) + if s.last() == 10 {
            1int
        } else {
            0int
        }
    }
}

/// The zero-based line number of byte offset `pos`.
pub open spec fn spec_line_number(src: Seq<u8>, pos: int) -> int {
    newline_count(src.subrange(0, pos))
}

/// The offset of the first byte of the line containing `pos`.
pub open spec fn spec_line_begin(src: Seq<u8>, pos: int) -> int
    decreases pos,
{
    if pos <= 0 {
        0
    } else if src[pos - 1] == 10 {
        pos
    } else {
        spec_line_begin(src, pos - 1)
    }
}

/// The zero-based character (byte column) of `pos` within its line.
pub open spec fn spec_character(src: Seq<u8>, pos: int) -> int {
    pos - spec_line_begin(src, pos)
}

/// The zero-based line and character of byte offset `pos`.
pub fn lookup_line_col(src: &Vec<u8>, pos: usize) -> (r: (usize, usize))
    requires
        pos <= src@.len(),
    ensures
        r.0 == spec_line_number(src@, pos as int),
        r.1 == spec_character(src@, pos as int),
{
    let mut line: usize = 0;
    let mut begin: usize = 0;
    let mut i: usize = 0;
    while i < pos
        invariant
            i <= pos <= src@.len(),
            line == spec_line_number(src@, i as int),
            begin == spec_line_begin(src@, i as int),
            begin <= i,
            line <= i,
        decreases pos - i,
    {
        proof {
            assert(src@.subrange(0, i + 1).drop_last() =~= src@.subrange(0, i as int));
            assert(src@.subrange(0, i + 1).last() == src@[i as int]);
        }
        if src[i] == 10 {
            line = line + 1;
            begin = i + 1;
        }
        i = i + 1;
    }
    (line, pos - begin)
}

/// The index of the first newline byte of `s`, if any.
pub open spec fn first_newline(s: Seq<u8>) -> Option<int>
    decreases s,
{
    if s.len() == 0 {
        None
    } else if s[0] == 10 {
        Some(0)
    } else {
        match first_newline(s.drop_first()) {
            Some(k) => Some(k + 1),
            None => None,
        }
    }
}

/// The index of the last newline byte of `s`, if any.
pub open spec fn last_newline(s: Seq<u8>) -> Option<int>
    decreases s,
{
    if s.len() == 0 {
        None
    } else if s.last() == 10 {
        Some(s.len() - 1)
    } else {
        last_newline(s.drop_last())
    }
}

/// The bytes of `src` between the two offsets, in either order; empty when
/// the range does not lie within `src`.
pub open spec fn spec_snippet(src: Seq<u8>, a: int, b: int) -> Seq<u8> {
    let lo = if a <= b {
        a
    } else {
        b
    };
    let hi = if a <= b {
        b
    } else {
        a
    };
    if 0 <= lo && hi <= src.len() {
        src.subrange(lo, hi)
    } else {
        Seq::empty()
    }
}

/// Where the line that starts a span ends: the first newline inside the
/// span, else the span's upper offset.
pub open spec fn spec_line_end_pos(src: Seq<u8>, lo: int, hi: int) -> int {
    match first_newline(spec_snippet(src, lo, hi)) {
        Some(k) => lo + k,
        None => hi,
    }
}

/// The last line of a snippet, with one trailing newline stripped.
pub open spec fn spec_last_line(s: Seq<u8>) -> Seq<u8> {
    let body = if s.len() > 0 && s.last() == 10 {
        s.drop_last()
    } else {
        s
    };
    match last_newline(body) {
        Some(k) => body.subrange(k + 1, body.len() as int),
        None => body,
    }
}

/// The index of the first byte of `s` that is neither a space nor a tab.
pub open spec fn first_content(s: Seq<u8>) -> Option<int>
    decreases s,
{
    if s.len() == 0 {
        None
    } else if s[0] != 32 && s[0] != 9 {
        Some(0)
    } else {
        match first_content(s.drop_first()) {
            Some(k) => Some(k + 1),
            None => None,
        }
    }
}

/// Where the content of the last line of a span starts, counted back from
/// the span's upper offset: the first non-blank byte of the last line, or
/// the line's own start when it is all blank; zero for an empty snippet.
pub open spec fn spec_line_start_pos(src: Seq<u8>, lo: int, hi: int) -> int {
    let snip = spec_snippet(src, lo, hi);
    if snip.len() == 0 {
        0
    } else {
        let last = spec_last_line(snip);
        match first_content(last) {
            Some(p) => hi - (last.len() - p),
            None => hi - last.len(),
        }
    }
}

/// Scans a byte slice for its first newline.
fn find_first_newline(src: &Vec<u8>, lo: usize, hi: usize) -> (r: Option<usize>)
    requires
        lo <= hi <= src@.len(),
    ensures
        ({
            let s = src@.subrange(lo as int, hi as int);
            match r {
                Some(k) => lo <= k < hi && first_newline(s) == Some(k - lo),
                None => first_newline(s) is None,
            }
        }),
{
    let ghost s = src@.subrange(lo as int, hi as int);
    proof {
        assert(s.subrange(0, s.len() as int) =~= s);
    }
    let mut i: usize = lo;
    while i < hi
        invariant
            lo <= i <= hi <= src@.len(),
            s == src@.subrange(lo as int, hi as int),
            first_newline(s) == match first_newline(s.subrange(i - lo, s.len() as int)) {
                Some(k) => Some(k + (i - lo)),
                None => None::<int>,
            },
        decreases hi - i,
    {
        proof {
            assert(s.subrange(i - lo, s.len() as int)[0] == s[i - lo]);
            assert(s[i - lo] == src@[i as int]);
        }
        if src[i] == 10 {
            return Some(i);
        }
        proof {
            assert(s.subrange(i - lo, s.len() as int).drop_first() =~= s.subrange(
                i + 1 - lo,
                s.len() as int,
            ));
        }
        i = i + 1;
    }
    proof {
        assert(s.subrange(hi - lo, s.len() as int).len() == 0);
    }
    None
}

/// The end-of-line lookup for a diagnostic range: the position of the first
/// newline inside the span, else the upper offset. An out-of-range span
/// behaves as an empty snippet.
pub fn get_line_end_byte_pos(src: &Vec<u8>, lo: u32, hi: u32) -> (r: u32)
    requires
        src@.len() <= u32::MAX,
        spec_line_end_pos(src@, lo as int, hi as int) <= u32::MAX,
    ensures
        r == spec_line_end_pos(src@, lo as int, hi as int),
{
    let a: u32 = if lo <= hi {
        lo
    } else {
        hi
    };
    let b: u32 = if lo <= hi {
        hi
    } else {
        lo
    };
    if (b as usize) <= src.len() {
        match find_first_newline(src, a as usize, b as usize) {
            Some(k) => {
                proof {
                    assert(spec_snippet(src@, lo as int, hi as int) == src@.subrange(
                        a as int,
                        b as int,
                    ));
                    assert(spec_line_end_pos(src@, lo as int, hi as int) == lo + (k - a));
                }
                lo + (k as u32 - a)
            },
            None => hi,
        }
    } else {
        proof {
            assert(spec_snippet(src@, lo as int, hi as int) =~= Seq::<u8>::empty());
        }
        hi
    }
}

/// Scans a byte slice backwards for its last newline.
fn find_last_newline(src: &Vec<u8>, lo: usize, hi: usize) -> (r: Option<usize>)
    requires
        lo <= hi <= src@.len(),
    ensures
        ({
            let s = src@.subrange(lo as int, hi as int);
            match r {
                Some(k) => lo <= k < hi && last_newline(s) == Some(k - lo),
                None => last_newline(s) is None,
            }
        }),
{
    let ghost s = src@.subrange(lo as int, hi as int);
    proof {
        assert(s.subrange(0, s.len() as int) =~= s);
    }
    let mut i: usize = hi;
    while i > lo
        invariant
            lo <= i <= hi <= src@.len(),
            s == src@.subrange(lo as int, hi as int),
            last_newline(s) == last_newline(s.subrange(0, i - lo)),
        decreases i - lo,
    {
        proof {
            assert(s.subrange(0, i - lo).last() == s[i - 1 - lo]);
            assert(s[i - 1 - lo] == src@[i - 1]);
        }
        if src[i - 1] == 10 {
            return Some(i - 1);
        }
        proof {
            assert(s.subrange(0, i - lo).drop_last() =~= s.subrange(0, i - 1 - lo));
        }
        i = i - 1;
    }
    proof {
        assert(s.subrange(0, 0).len() == 0);
    }
    None
}

/// Scans a byte slice for its first byte that is neither space nor tab.
fn find_first_content(src: &Vec<u8>, lo: usize, hi: usize) -> (r: Option<usize>)
    requires
        lo <= hi <= src@.len(),
    ensures
        ({
            let s = src@.subrange(lo as int, hi as int);
            match r {
                Some(k) => lo <= k < hi && first_content(s) == Some(k - lo),
                None => first_content(s) is None,
            }
        }),
{
    let ghost s = src@.subrange(lo as int, hi as int);
    proof {
        assert(s.subrange(0, s.len() as int) =~= s);
    }
    let mut i: usize = lo;
    while i < hi
        invariant
            lo <= i <= hi <= src@.len(),
            s == src@.subrange(lo as int, hi as int),
            first_content(s) == match first_content(s.subrange(i - lo, s.len() as int)) {
                Some(k) => Some(k + (i - lo)),
                None => None::<int>,
            },
        decreases hi - i,
    {
        proof {
            assert(s.subrange(i - lo, s.len() as int)[0] == s[i - lo]);
            assert(s[i - lo] == src@[i as int]);
        }
        if src[i] != 32 && src[i] != 9 {
            return Some(i);
        }
        proof {
            assert(s.subrange(i - lo, s.len() as int).drop_first() =~= s.subrange(
                i + 1 - lo,
                s.len() as int,
            ));
        }
        i = i + 1;
    }
    proof {
        assert(s.subrange(hi - lo, s.len() as int).len() == 0);
    }
    None
}

/// The start-of-line lookup for a diagnostic range: counts back from the
/// span's upper offset to the first non-blank byte of the snippet's last
/// line.
pub fn get_line_start_byte_pos(src: &Vec<u8>, lo: u32, hi: u32) -> (r: u32)
    requires
        src@.len() <= u32::MAX,
        0 <= spec_line_start_pos(src@, lo as int, hi as int),
    ensures
        r == spec_line_start_pos(src@, lo as int, hi as int),
{
    let a: u32 = if lo <= hi {
        lo
    } else {
        hi
    };
    let b: u32 = if lo <= hi {
        hi
    } else {
        lo
    };
    if (b as usize) <= src.len() && a < b {
        proof {
            assert(spec_snippet(src@, lo as int, hi as int) == src@.subrange(a as int, b as int));
        }
        let ghost snip = spec_snippet(src@, lo as int, hi as int);
        // strip one trailing newline, as text lines do
        let body_end: u32 = if src[(b - 1) as usize] == 10 {
            b - 1
        } else {
            b
        };
        proof {
            if src@[b - 1] == 10 {
                assert(snip.last() == src@[b - 1]);
                assert(snip.drop_last() =~= src@.subrange(a as int, b - 1));
            } else {
                assert(snip.last() == src@[b - 1]);
            }
            let body = if snip.len() > 0 && snip.last() == 10 {
                snip.drop_last()
            } else {
                snip
            };
            assert(body == src@.subrange(a as int, body_end as int));
        }
        let line_begin: u32 = match find_last_newline(src, a as usize, body_end as usize) {
            Some(k) => k as u32 + 1,
            None => a,
        };
        proof {
            let body = src@.subrange(a as int, body_end as int);
            if last_newline(body) is Some {
                assert(spec_last_line(snip) =~= src@.subrange(line_begin as int, body_end as int));
            } else {
                assert(spec_last_line(snip) =~= src@.subrange(line_begin as int, body_end as int));
            }
        }
        let ghost last = spec_last_line(snip);
        match find_first_content(src, line_begin as usize, body_end as usize) {
            Some(p) => {
                proof {
                    assert(first_content(last) == Some(p - line_begin));
                    assert(last.len() == body_end - line_begin);
                }
                hi - (body_end - p as u32)
            },
            None => {
                proof {
                    assert(first_content(last) is None);
                    assert(last.len() == body_end - line_begin);
                }
                hi - (body_end - line_begin)
            },
        }
    } else {
        proof {
            if (b as int) > src@.len() || a == b {
                assert(spec_snippet(src@, lo as int, hi as int) =~= Seq::<u8>::empty());
            }
        }
        0
    }
}

/// The subset of module specifiers that point at relative paths: exactly
/// those that start with `./` or `../`, in their original order.
pub open spec fn spec_relative_imports(ss: Seq<Seq<char>>) -> Seq<Seq<char>>
    decreases ss,
{
    if ss.len() == 0 {
        Seq::empty()
    } else {
        spec_relative_imports(ss.drop_last()) + if has_prefix(ss.last(), "./"@) || has_prefix(
            ss.last(),
            "../"@,
        ) {
            seq![ss.last()]
        } else {
            Seq::empty()
        }
    }
}

/// Keeps exactly the import sources that are relative paths (`./` or `../`
/// prefix), in order.
pub fn get_relative_imports(import_sources: &Vec<String>) -> (r: Vec<String>)
    ensures
        r.deep_view() == spec_relative_imports(import_sources.deep_view()),
{
    let mut r: Vec<String> = Vec::new();
    let ghost full = import_sources.deep_view();
    let mut i: usize = 0;
    while i < import_sources.len()
        invariant
            i <= import_sources.len(),
            full == import_sources.deep_view(),
            r.deep_view() == spec_relative_imports(full.subrange(0, i as int)),
        decreases import_sources.len() - i,
    {
        proof {
            assert(full.subrange(0, i + 1).drop_last() =~= full.subrange(0, i as int));
            assert(full.subrange(0, i + 1).last() == full[i as int]);
            assert(full[i as int] == import_sources@[i as int]@);
        }
        let s = import_sources[i].as_str();
        if str_has_prefix(s, "./") || str_has_prefix(s, "../") {
            let ghost before = r.deep_view();
            r.push(import_sources[i].clone());
            proof {
                assert(r.deep_view() =~= before.push(full[i as int]));
                assert(r.deep_view() =~= spec_relative_imports(full.subrange(0, i + 1)));
            }
        } else {
            proof {
                assert(r.deep_view() =~= spec_relative_imports(full.subrange(0, i + 1)));
            }
        }
        i = i + 1;
    }
    proof {
        assert(full.subrange(0, full.len() as int) =~= full);
    }
    r
}

/// A diagnostic severity level of the editor protocol.
#[derive(Clone, Copy, PartialEq, Eq, Structural, Debug)]
pub enum DiagnosticSeverity {
    Error,
    Warning,
    Information,
    Hint,
}

/// The wire integer of a severity.
pub open spec fn spec_severity_int(s: DiagnosticSeverity) -> int {
    match s {
        DiagnosticSeverity::Error => 0,
        DiagnosticSeverity::Warning => 1,
        DiagnosticSeverity::Information => 2,
        DiagnosticSeverity::Hint => 3,
    }
}

impl DiagnosticSeverity {
    pub fn to_int(&self) -> (r: i32)
        ensures
            r == spec_severity_int(*self),
    {
        match *self {
            DiagnosticSeverity::Error => 0,
            DiagnosticSeverity::Warning => 1,
            DiagnosticSeverity::Information => 2,
            DiagnosticSeverity::Hint => 3,
        }
    }

    /// Parses a severity name; exactly the four level names are accepted.
    pub fn from_str(s: &str) -> (r: Result<DiagnosticSeverity, ()>)
        ensures
            s@ == "Error"@ ==> r == Result::<DiagnosticSeverity, ()>::Ok(DiagnosticSeverity::Error),
            s@ == "Warning"@ ==> r == Result::<DiagnosticSeverity, ()>::Ok(
                DiagnosticSeverity::Warning,
            ),
            s@ == "Information"@ ==> r == Result::<DiagnosticSeverity, ()>::Ok(
                DiagnosticSeverity::Information,
            ),
            s@ == "Hint"@ ==> r == Result::<DiagnosticSeverity, ()>::Ok(DiagnosticSeverity::Hint),
            s@ != "Error"@ && s@ != "Warning"@ && s@ != "Information"@ && s@ != "Hint"@ ==> r
                is Err,
    {
        proof {
            reveal_strlit("Error");
            reveal_strlit("Warning");
            reveal_strlit("Information");
            reveal_strlit("Hint");
            assert("Error"@.len() == 5);
            assert("Warning"@.len() == 7);
            assert("Information"@.len() == 11);
            assert("Hint"@.len() == 4);
        }
        if str_eq(s, "Error") {
            Ok(DiagnosticSeverity::Error)
        } else if str_eq(s, "Warning") {
            Ok(DiagnosticSeverity::Warning)
        } else if str_eq(s, "Information") {
            Ok(DiagnosticSeverity::Information)
        } else if str_eq(s, "Hint") {
            Ok(DiagnosticSeverity::Hint)
        } else {
            Err(())
        }
    }
}


/// The mathematical content of a [`Diagnostic`].
pub ghost struct DiagnosticV {
    pub severity: int,
    pub start_line: int,
    pub start_character: int,
    pub end_line: int,
    pub end_character: int,
    pub message: Seq<char>,
    pub source: Seq<char>,
}

#[derive(Clone, Copy, PartialEq, Eq, Structural, Debug)]
pub struct DiagnosticPosition {
    pub line: usize,
    pub character: usize,
}

#[derive(Clone, Copy, PartialEq, Eq, Structural, Debug)]
pub struct DiagnosticRange {
    pub start: DiagnosticPosition,
    pub end: DiagnosticPosition,
}

/// One diagnostic for the host's wire format: a severity, a line/character
/// range, a message, and the fixed source label.
pub struct Diagnostic {
    pub severity: i32,
    pub range: DiagnosticRange,
    pub message: String,
    pub source: String,
}

impl View for Diagnostic {
    type V = DiagnosticV;

    open spec fn view(&self) -> DiagnosticV {
        DiagnosticV {
            severity: self.severity as int,
            start_line: self.range.start.line as int,
            start_character: self.range.start.character as int,
            end_line: self.range.end.line as int,
            end_character: self.range.end.character as int,
            message: self.message@,
            source: self.source@,
        }
    }
}

impl DeepView for Diagnostic {
    type V = DiagnosticV;

    open spec fn deep_view(&self) -> DiagnosticV {
        self.view()
    }
}

proof fn lemma_first_newline_bounds(s: Seq<u8>)
    ensures
        first_newline(s) is Some ==> 0 <= first_newline(s)->0 < s.len(),
    decreases s,
{
    if s.len() > 0 && s[0] != 10 {
        lemma_first_newline_bounds(s.drop_first());
    }
}

proof fn lemma_first_content_bounds(s: Seq<u8>)
    ensures
        first_content(s) is Some ==> 0 <= first_content(s)->0 < s.len(),
    decreases s,
{
    if s.len() > 0 && !(s[0] != 32 && s[0] != 9) {
        lemma_first_content_bounds(s.drop_first());
    }
}

proof fn lemma_last_newline_bounds(s: Seq<u8>)
    ensures
        last_newline(s) is Some ==> 0 <= last_newline(s)->0 < s.len(),
    decreases s,
{
    if s.len() > 0 && s.last() != 10 {
        lemma_last_newline_bounds(s.drop_last());
    }
}

/// For a span inside the source, the end-of-line position stays inside the
/// span.
pub proof fn lemma_line_end_bounds(src: Seq<u8>, lo: int, hi: int)
    requires
        0 <= lo <= hi <= src.len(),
    ensures
        lo <= spec_line_end_pos(src, lo, hi) <= hi,
{
    lemma_first_newline_bounds(spec_snippet(src, lo, hi));
}

/// For a span inside the source, the start-of-content position stays inside
/// the span.
pub proof fn lemma_line_start_bounds(src: Seq<u8>, lo: int, hi: int)
    requires
        0 <= lo <= hi <= src.len(),
    ensures
        0 <= spec_line_start_pos(src, lo, hi) <= hi,
{
    let snip = spec_snippet(src, lo, hi);
    if snip.len() > 0 {
        let body = if snip.last() == 10 {
            snip.drop_last()
        } else {
            snip
        };
        lemma_last_newline_bounds(body);
        let last = spec_last_line(snip);
        assert(last.len() <= snip.len());
        lemma_first_content_bounds(last);
    }
}

/// The spans of a throw record lie inside the source, and its enclosing span
/// does not end a line at offset zero (so the range arithmetic stays in
/// bounds).
pub open spec fn throw_map_spans_ok(src: Seq<u8>, t: ThrowMapV) -> bool {
    &&& t.throw_statement.lo <= t.throw_statement.hi
    &&& t.throw_statement.hi as int <= src.len()
    &&& 1 <= spec_line_end_pos(src, t.throw_statement.lo as int, t.throw_statement.hi as int)
    &&& forall|j: int|
        0 <= j < t.throw_spans.len() ==> ((#[trigger] t.throw_spans[j]).lo <= t.throw_spans[j].hi
            && t.throw_spans[j].hi as int <= src.len())
}

/// The "function may throw" diagnostic of one throw record: it starts at the
/// first non-blank character of the record's last spanned line and ends at
/// the end of the line where the record starts.
pub open spec fn function_throw_diag(src: Seq<u8>, t: ThrowMapV, sev: DiagnosticSeverity) -> DiagnosticV {
    let lo = t.throw_statement.lo as int;
    let hi = t.throw_statement.hi as int;
    let le = spec_line_end_pos(src, lo, hi);
    let sc = spec_line_start_pos(src, lo, hi);
    DiagnosticV {
        severity: spec_severity_int(sev),
        start_line: spec_line_number(src, lo),
        start_character: spec_character(src, sc),
        end_line: spec_line_number(src, le - 1),
        end_character: spec_character(src, le - 1),
        message: "Function that may throw."@,
        source: "Does it Throw?"@,
    }
}

/// The diagnostic of one throw statement: exactly its own span.
pub open spec fn throw_span_diag(src: Seq<u8>, sp: Span, sev: DiagnosticSeverity) -> DiagnosticV {
    DiagnosticV {
        severity: spec_severity_int(sev),
        start_line: spec_line_number(src, sp.lo as int),
        start_character: spec_character(src, sp.lo as int),
        end_line: spec_line_number(src, sp.hi as int),
        end_character: spec_character(src, sp.hi as int),
        message: "Throw statement."@,
        source: "Does it Throw?"@,
    }
}

pub open spec fn throw_span_diags(src: Seq<u8>, sps: Seq<Span>, sev: DiagnosticSeverity) -> Seq<DiagnosticV>
    decreases sps,
{
    if sps.len() == 0 {
        Seq::empty()
    } else {
        throw_span_diags(src, sps.drop_last(), sev) + seq![throw_span_diag(src, sps.last(), sev)]
    }
}

/// All diagnostics of one throw record: the function diagnostic, then one
/// per throw statement.
pub open spec fn one_function_diags(
    src: Seq<u8>,
    t: ThrowMapV,
    tss: DiagnosticSeverity,
    fts: DiagnosticSeverity,
) -> Seq<DiagnosticV> {
    seq![function_throw_diag(src, t, fts)] + throw_span_diags(src, t.throw_spans, tss)
}

pub open spec fn function_diags(
    src: Seq<u8>,
    ts: Seq<ThrowMapV>,
    tss: DiagnosticSeverity,
    fts: DiagnosticSeverity,
) -> Seq<DiagnosticV>
    decreases ts,
{
    if ts.len() == 0 {
        Seq::empty()
    } else {
        function_diags(src, ts.drop_last(), tss, fts) + one_function_diags(src, ts.last(), tss, fts)
    }
}

/// Builds one exec diagnostic from positions and a message.
fn make_diagnostic(
    severity: i32,
    start: (usize, usize),
    end: (usize, usize),
    message: &str,
    Ghost(model): Ghost<DiagnosticV>,
) -> (r: Diagnostic)
    requires
        model.severity == severity as int,
        model.start_line == start.0 as int,
        model.start_character == start.1 as int,
        model.end_line == end.0 as int,
        model.end_character == end.1 as int,
        model.message == message@,
        model.source == "Does it Throw?"@,
    ensures
        r@ == model,
{
    Diagnostic {
        severity,
        range: DiagnosticRange {
            start: DiagnosticPosition { line: start.0, character: start.1 },
            end: DiagnosticPosition { line: end.0, character: end.1 },
        },
        message: String::from_str(message),
        source: String::from_str("Does it Throw?"),
    }
}

/// Appends, for every throw record, one "function may throw" diagnostic and
/// one "throw statement" diagnostic per recorded throw span.
pub fn add_diagnostics_for_functions_that_throw(
    diagnostics: &mut Vec<Diagnostic>,
    functions_with_throws: &Vec<ThrowMap>,
    src: &Vec<u8>,
    throw_statement_severity: DiagnosticSeverity,
    function_throw_severity: DiagnosticSeverity,
)
    requires
        src@.len() <= u32::MAX,
        forall|i: int|
            0 <= i < functions_with_throws.deep_view().len() ==> throw_map_spans_ok(
                src@,
                #[trigger] functions_with_throws.deep_view()[i],
            ),
    ensures
        final(diagnostics).deep_view() == old(diagnostics).deep_view() + function_diags(
            src@,
            functions_with_throws.deep_view(),
            throw_statement_severity,
            function_throw_severity,
        ),
{
    let ghost full = functions_with_throws.deep_view();
    let ghost pre = diagnostics.deep_view();
    let mut i: usize = 0;
    while i < functions_with_throws.len()
        invariant
            i <= functions_with_throws.len(),
            full == functions_with_throws.deep_view(),
            src@.len() <= u32::MAX,
            forall|k: int| 0 <= k < full.len() ==> throw_map_spans_ok(src@, #[trigger] full[k]),
            diagnostics.deep_view() == pre + function_diags(
                src@,
                full.subrange(0, i as int),
                throw_statement_severity,
                function_throw_severity,
            ),
        decreases functions_with_throws.len() - i,
    {
        proof {
            assert(full.subrange(0, i + 1).drop_last() =~= full.subrange(0, i as int));
            assert(full.subrange(0, i + 1).last() == full[i as int]);
            assert(full[i as int] == functions_with_throws@[i as int]@);
            assert(throw_map_spans_ok(src@, full[i as int]));
        }
        let fun = &functions_with_throws[i];
        let lo = fun.throw_statement.lo;
        let hi = fun.throw_statement.hi;
        proof {
            lemma_line_end_bounds(src@, lo as int, hi as int);
            lemma_line_start_bounds(src@, lo as int, hi as int);
        }
        let function_start = lookup_line_col(src, lo as usize);
        let line_end = get_line_end_byte_pos(src, lo, hi);
        let function_end = lookup_line_col(src, (line_end - 1) as usize);
        let start_character_pos = get_line_start_byte_pos(src, lo, hi);
        let start_character = lookup_line_col(src, start_character_pos as usize);
        let d = make_diagnostic(
            function_throw_severity.to_int(),
            (function_start.0, start_character.1),
            function_end,
            "Function that may throw.",
            Ghost(function_throw_diag(src@, full[i as int], function_throw_severity)),
        );
        let ghost before_fn = diagnostics.deep_view();
        diagnostics.push(d);
        proof {
            assert(diagnostics.deep_view() =~= before_fn.push(
                function_throw_diag(src@, full[i as int], function_throw_severity),
            ));
        }
        let ghost spans = full[i as int].throw_spans;
        let ghost mid = diagnostics.deep_view();
        let mut j: usize = 0;
        while j < fun.throw_spans.len()
            invariant
                j <= fun.throw_spans.len(),
                spans == fun.throw_spans@,
                src@.len() <= u32::MAX,
                forall|k: int|
                    0 <= k < spans.len() ==> ((#[trigger] spans[k]).lo <= spans[k].hi
                        && spans[k].hi as int <= src@.len()),
                diagnostics.deep_view() == mid + throw_span_diags(
                    src@,
                    spans.subrange(0, j as int),
                    throw_statement_severity,
                ),
            decreases fun.throw_spans.len() - j,
        {
            proof {
                assert(spans.subrange(0, j + 1).drop_last() =~= spans.subrange(0, j as int));
                assert(spans.subrange(0, j + 1).last() == spans[j as int]);
            }
            let sp = fun.throw_spans[j];
            let start = lookup_line_col(src, sp.lo as usize);
            let end = lookup_line_col(src, sp.hi as usize);
            let d2 = make_diagnostic(
                throw_statement_severity.to_int(),
                start,
                end,
                "Throw statement.",
                Ghost(throw_span_diag(src@, spans[j as int], throw_statement_severity)),
            );
            let ghost before2 = diagnostics.deep_view();
            diagnostics.push(d2);
            proof {
                assert(diagnostics.deep_view() =~= before2.push(
                    throw_span_diag(src@, spans[j as int], throw_statement_severity),
                ));
                assert(diagnostics.deep_view() =~= mid + throw_span_diags(
                    src@,
                    spans.subrange(0, j + 1),
                    throw_statement_severity,
                ));
            }
            j = j + 1;
        }
        proof {
            assert(spans.subrange(0, spans.len() as int) =~= spans);
            assert(diagnostics.deep_view() =~= pre + function_diags(
                src@,
                full.subrange(0, i + 1),
                throw_statement_severity,
                function_throw_severity,
            ));
        }
        i = i + 1;
    }
    proof {
        assert(full.subrange(0, full.len() as int) =~= full);
        assert(pre + function_diags(
            src@,
            Seq::empty(),
            throw_statement_severity,
            function_throw_severity,
        ) =~= pre);
    }
}

/// The spans of a call record lie inside the source, with a non-zero
/// end-of-line position.
pub open spec fn call_map_spans_ok(src: Seq<u8>, c: CallToThrowMapV) -> bool {
    &&& c.call_span.lo <= c.call_span.hi
    &&& c.call_span.hi as int <= src.len()
    &&& 1 <= spec_line_end_pos(src, c.call_span.lo as int, c.call_span.hi as int)
}

/// The diagnostic of one matched call site.
pub open spec fn call_diag(src: Seq<u8>, c: CallToThrowMapV, sev: DiagnosticSeverity) -> DiagnosticV {
    let lo = c.call_span.lo as int;
    let hi = c.call_span.hi as int;
    let le = spec_line_end_pos(src, lo, hi);
    DiagnosticV {
        severity: spec_severity_int(sev),
        start_line: spec_line_number(src, lo),
        start_character: spec_character(src, lo),
        end_line: spec_line_number(src, le - 1),
        end_character: spec_character(src, le - 1),
        message: "Function call that may throw."@,
        source: "Does it Throw?"@,
    }
}

pub open spec fn call_diags(src: Seq<u8>, cs: Seq<CallToThrowMapV>, sev: DiagnosticSeverity) -> Seq<DiagnosticV>
    decreases cs,
{
    if cs.len() == 0 {
        Seq::empty()
    } else {
        call_diags(src, cs.drop_last(), sev) + seq![call_diag(src, cs.last(), sev)]
    }
}

/// Appends one "function call may throw" diagnostic per call record.
pub fn add_diagnostics_for_calls_to_throws(
    diagnostics: &mut Vec<Diagnostic>,
    calls_to_throws: &Vec<CallToThrowMap>,
    src: &Vec<u8>,
    call_to_throw_severity: DiagnosticSeverity,
)
    requires
        src@.len() <= u32::MAX,
        forall|i: int|
            0 <= i < calls_to_throws.deep_view().len() ==> call_map_spans_ok(
                src@,
                #[trigger] calls_to_throws.deep_view()[i],
            ),
    ensures
        final(diagnostics).deep_view() == old(diagnostics).deep_view() + call_diags(
            src@,
            calls_to_throws.deep_view(),
            call_to_throw_severity,
        ),
{
    let ghost full = calls_to_throws.deep_view();
    let ghost pre = diagnostics.deep_view();
    let mut i: usize = 0;
    while i < calls_to_throws.len()
        invariant
            i <= calls_to_throws.len(),
            full == calls_to_throws.deep_view(),
            src@.len() <= u32::MAX,
            forall|k: int| 0 <= k < full.len() ==> call_map_spans_ok(src@, #[trigger] full[k]),
            diagnostics.deep_view() == pre + call_diags(
                src@,
                full.subrange(0, i as int),
                call_to_throw_severity,
            ),
        decreases calls_to_throws.len() - i,
    {
        proof {
            assert(full.subrange(0, i + 1).drop_last() =~= full.subrange(0, i as int));
            assert(full.subrange(0, i + 1).last() == full[i as int]);
            assert(full[i as int] == calls_to_throws@[i as int]@);
            assert(call_map_spans_ok(src@, full[i as int]));
        }
        let call = &calls_to_throws[i];
        let lo = call.call_span.lo;
        let hi = call.call_span.hi;
        proof {
            lemma_line_end_bounds(src@, lo as int, hi as int);
        }
        let call_start = lookup_line_col(src, lo as usize);
        let line_end = get_line_end_byte_pos(src, lo, hi);
        let call_end = lookup_line_col(src, (line_end - 1) as usize);
        let d = make_diagnostic(
            call_to_throw_severity.to_int(),
            call_start,
            call_end,
            "Function call that may throw.",
            Ghost(call_diag(src@, full[i as int], call_to_throw_severity)),
        );
        let ghost before = diagnostics.deep_view();
        diagnostics.push(d);
        proof {
            assert(diagnostics.deep_view() =~= before.push(
                call_diag(src@, full[i as int], call_to_throw_severity),
            ));
            assert(diagnostics.deep_view() =~= pre + call_diags(
                src@,
                full.subrange(0, i + 1),
                call_to_throw_severity,
            ));
        }
        i = i + 1;
    }
    proof {
        assert(full.subrange(0, full.len() as int) =~= full);
        assert(pre + call_diags(src@, Seq::empty(), call_to_throw_severity) =~= pre);
    }
}


/// The mathematical content of an [`ImportedIdentifiers`] group.
pub ghost struct ImportedIdentifiersV {
    pub diagnostics: Seq<DiagnosticV>,
    pub id: Seq<char>,
}

/// All diagnostics of the usages sharing one qualified ID.
pub struct ImportedIdentifiers {
    pub diagnostics: Vec<Diagnostic>,
    pub id: String,
}

impl View for ImportedIdentifiers {
    type V = ImportedIdentifiersV;

    open spec fn view(&self) -> ImportedIdentifiersV {
        ImportedIdentifiersV { diagnostics: self.diagnostics.deep_view(), id: self.id@ }
    }
}

impl DeepView for ImportedIdentifiers {
    type V = ImportedIdentifiersV;

    open spec fn deep_view(&self) -> ImportedIdentifiersV {
        self.view()
    }
}

/// The usage span lies inside the source.
pub open spec fn usage_spans_ok(src: Seq<u8>, u: IdentifierUsageV) -> bool {
    u.usage_span.lo <= u.usage_span.hi && u.usage_span.hi as int <= src.len()
}

/// The diagnostic of one call into an imported symbol.
pub open spec fn usage_diag(src: Seq<u8>, u: IdentifierUsageV, sev: DiagnosticSeverity) -> DiagnosticV {
    DiagnosticV {
        severity: spec_severity_int(sev),
        start_line: spec_line_number(src, u.usage_span.lo as int),
        start_character: spec_character(src, u.usage_span.lo as int),
        end_line: spec_line_number(src, u.usage_span.hi as int),
        end_character: spec_character(src, u.usage_span.hi as int),
        message: "Function imported that may throw."@,
        source: "Does it Throw?"@,
    }
}

/// The index of the group carrying `id`, if one exists.
pub open spec fn find_group(entries: Seq<ImportedIdentifiersV>, id: Seq<char>) -> Option<int>
    decreases entries,
{
    if entries.len() == 0 {
        None
    } else if entries[0].id == id {
        Some(0int)
    } else {
        match find_group(entries.drop_first(), id) {
            Some(k) => Some(k + 1),
            None => None,
        }
    }
}

/// Adds one usage's diagnostic to the group with its ID, creating the group
/// if none exists yet.
pub open spec fn add_usage_to_groups(
    entries: Seq<ImportedIdentifiersV>,
    u: IdentifierUsageV,
    src: Seq<u8>,
    sev: DiagnosticSeverity,
) -> Seq<ImportedIdentifiersV> {
    let d = usage_diag(src, u, sev);
    match find_group(entries, u.id) {
        Some(k) => entries.update(
            k,
            ImportedIdentifiersV { diagnostics: entries[k].diagnostics.push(d), id: entries[k].id },
        ),
        None => entries.push(ImportedIdentifiersV { diagnostics: seq![d], id: u.id }),
    }
}

/// The usages grouped by their qualified ID, in first-seen order, each group
/// holding its usages' diagnostics in order.
pub open spec fn combined_usage_groups(
    us: Seq<IdentifierUsageV>,
    src: Seq<u8>,
    sev: DiagnosticSeverity,
) -> Seq<ImportedIdentifiersV>
    decreases us,
{
    if us.len() == 0 {
        Seq::empty()
    } else {
        add_usage_to_groups(combined_usage_groups(us.drop_last(), src, sev), us.last(), src, sev)
    }
}

proof fn lemma_find_group_bounds(entries: Seq<ImportedIdentifiersV>, id: Seq<char>)
    ensures
        find_group(entries, id) is Some ==> 0 <= find_group(entries, id)->0 < entries.len(),
    decreases entries,
{
    if entries.len() > 0 && entries[0].id != id {
        lemma_find_group_bounds(entries.drop_first(), id);
    }
}

/// Scans the groups for one with the given ID.
fn find_group_index(entries: &Vec<ImportedIdentifiers>, id: &String) -> (r: Option<usize>)
    ensures
        match r {
            Some(k) => k < entries.len() && find_group(entries.deep_view(), id@) == Some(k as int),
            None => find_group(entries.deep_view(), id@) is None,
        },
{
    let ghost full = entries.deep_view();
    proof {
        assert(full.subrange(0, full.len() as int) =~= full);
    }
    let mut i: usize = 0;
    while i < entries.len()
        invariant
            i <= entries.len(),
            full == entries.deep_view(),
            find_group(full, id@) == match find_group(full.subrange(i as int, full.len() as int), id@) {
                Some(k) => Some(k + i),
                None => None::<int>,
            },
        decreases entries.len() - i,
    {
        proof {
            assert(full.subrange(i as int, full.len() as int)[0] == full[i as int]);
            assert(full[i as int] == entries@[i as int]@);
        }
        if str_eq(entries[i].id.as_str(), id.as_str()) {
            return Some(i);
        }
        proof {
            assert(full.subrange(i as int, full.len() as int).drop_first() =~= full.subrange(
                i + 1,
                full.len() as int,
            ));
        }
        i = i + 1;
    }
    proof {
        assert(full.subrange(full.len() as int, full.len() as int).len() == 0);
    }
    None
}

/// Groups the usages by qualified ID: one group per distinct ID in
/// first-seen order, each holding one diagnostic per usage.
pub fn identifier_usages_vec_to_combined_map(
    identifier_usages: &Vec<IdentifierUsage>,
    src: &Vec<u8>,
    call_to_imported_throw_severity: DiagnosticSeverity,
) -> (r: Vec<ImportedIdentifiers>)
    requires
        src@.len() <= u32::MAX,
        forall|i: int|
            0 <= i < identifier_usages.deep_view().len() ==> usage_spans_ok(
                src@,
                #[trigger] identifier_usages.deep_view()[i],
            ),
    ensures
        r.deep_view() == combined_usage_groups(
            identifier_usages.deep_view(),
            src@,
            call_to_imported_throw_severity,
        ),
{
    let ghost full = identifier_usages.deep_view();
    let mut entries: Vec<ImportedIdentifiers> = Vec::new();
    proof {
        assert(entries.deep_view() =~= Seq::<ImportedIdentifiersV>::empty());
    }
    let mut i: usize = 0;
    while i < identifier_usages.len()
        invariant
            i <= identifier_usages.len(),
            full == identifier_usages.deep_view(),
            src@.len() <= u32::MAX,
            forall|k: int| 0 <= k < full.len() ==> usage_spans_ok(src@, #[trigger] full[k]),
            entries.deep_view() == combined_usage_groups(
                full.subrange(0, i as int),
                src@,
                call_to_imported_throw_severity,
            ),
        decreases identifier_usages.len() - i,
    {
        proof {
            assert(full.subrange(0, i + 1).drop_last() =~= full.subrange(0, i as int));
            assert(full.subrange(0, i + 1).last() == full[i as int]);
            assert(full[i as int] == identifier_usages@[i as int]@);
            assert(usage_spans_ok(src@, full[i as int]));
        }
        let u = &identifier_usages[i];
        let start = lookup_line_col(src, u.usage_span.lo as usize);
        let end = lookup_line_col(src, u.usage_span.hi as usize);
        let d = make_diagnostic(
            call_to_imported_throw_severity.to_int(),
            start,
            end,
            "Function imported that may throw.",
            Ghost(usage_diag(src@, full[i as int], call_to_imported_throw_severity)),
        );
        let ghost before = entries.deep_view();
        proof {
            lemma_find_group_bounds(before, full[i as int].id);
        }
        match find_group_index(&entries, &u.id) {
            Some(k) => {
                let mut e = entries.remove(k);
                let ghost e_before = e.deep_view();
                e.diagnostics.push(d);
                proof {
                    assert(e.deep_view().diagnostics =~= e_before.diagnostics.push(
                        usage_diag(src@, full[i as int], call_to_imported_throw_severity),
                    ));
                }
                entries.insert(k, e);
                proof {
                    assert(entries.deep_view() =~= add_usage_to_groups(
                        before,
                        full[i as int],
                        src@,
                        call_to_imported_throw_severity,
                    ));
                }
            },
            None => {
                let mut group_diags: Vec<Diagnostic> = Vec::new();
                group_diags.push(d);
                let e = ImportedIdentifiers { diagnostics: group_diags, id: u.id.clone() };
                proof {
                    assert(e.deep_view().diagnostics =~= seq![
                        usage_diag(src@, full[i as int], call_to_imported_throw_severity),
                    ]);
                }
                entries.push(e);
                proof {
                    assert(entries.deep_view() =~= add_usage_to_groups(
                        before,
                        full[i as int],
                        src@,
                        call_to_imported_throw_severity,
                    ));
                }
            },
        }
        proof {
            assert(entries.deep_view() =~= combined_usage_groups(
                full.subrange(0, i + 1),
                src@,
                call_to_imported_throw_severity,
            ));
        }
        i = i + 1;
    }
    proof {
        assert(full.subrange(0, full.len() as int) =~= full);
    }
    entries
}


/// A severity name as it arrives on the wire.
pub struct DiagnosticSeverityInput(pub String);

/// The per-document TypeScript options a host may hand along; the analysis
/// itself does not read them.
pub struct TypeScriptSettings {
    pub decorators: Option<bool>,
}

/// One full analysis request: the document text plus the optional severity
/// and policy choices.
pub struct InputData {
    pub file_content: String,
    pub debug: Option<bool>,
    pub throw_statement_severity: Option<DiagnosticSeverityInput>,
    pub function_throw_severity: Option<DiagnosticSeverityInput>,
    pub call_to_throw_severity: Option<DiagnosticSeverityInput>,
    pub call_to_imported_throw_severity: Option<DiagnosticSeverityInput>,
    pub include_try_statement_throws: Option<bool>,
}

/// The severity a name denotes, if it is one of the four level names.
pub open spec fn spec_parse_severity(s: Seq<char>) -> Option<DiagnosticSeverity> {
    if s == "Error"@ {
        Some(DiagnosticSeverity::Error)
    } else if s == "Warning"@ {
        Some(DiagnosticSeverity::Warning)
    } else if s == "Information"@ {
        Some(DiagnosticSeverity::Information)
    } else if s == "Hint"@ {
        Some(DiagnosticSeverity::Hint)
    } else {
        None
    }
}

/// The view of an optional severity input.
pub open spec fn severity_input_view(o: Option<DiagnosticSeverityInput>) -> Option<Seq<char>> {
    match o {
        Some(i) => Some(i.0@),
        None => None,
    }
}

/// An absent input, or one holding a recognized level name.
pub open spec fn valid_severity_option(o: Option<Seq<char>>) -> bool {
    match o {
        Some(s) => spec_parse_severity(s) is Some,
        None => true,
    }
}

/// The severity an optional input selects, with `Hint` as the default.
pub open spec fn spec_severity_or_hint(o: Option<Seq<char>>) -> DiagnosticSeverity {
    match o {
        Some(s) => match spec_parse_severity(s) {
            Some(v) => v,
            None => DiagnosticSeverity::Hint,
        },
        None => DiagnosticSeverity::Hint,
    }
}

/// Resolves an optional severity input, defaulting to `Hint`.
pub fn severity_or_hint(o: &Option<DiagnosticSeverityInput>) -> (r: DiagnosticSeverity)
    requires
        valid_severity_option(severity_input_view(*o)),
    ensures
        r == spec_severity_or_hint(severity_input_view(*o)),
{
    match o {
        None => DiagnosticSeverity::Hint,
        Some(input) => match DiagnosticSeverity::from_str(input.0.as_str()) {
            Ok(v) => v,
            Err(_) => {
                proof {
                    assert(false);
                }
                DiagnosticSeverity::Hint
            },
        },
    }
}

/// The qualified IDs of the throw records, in order.
pub open spec fn throw_ids_of(ts: Seq<ThrowMapV>) -> Seq<Seq<char>>
    decreases ts,
{
    if ts.len() == 0 {
        Seq::empty()
    } else {
        throw_ids_of(ts.drop_last()) + seq![ts.last().id]
    }
}

fn collect_throw_ids(ts: &Vec<ThrowMap>) -> (r: Vec<String>)
    ensures
        r.deep_view() == throw_ids_of(ts.deep_view()),
{
    let ghost full = ts.deep_view();
    let mut r: Vec<String> = Vec::new();
    proof {
        assert(r.deep_view() =~= Seq::<Seq<char>>::empty());
    }
    let mut i: usize = 0;
    while i < ts.len()
        invariant
            i <= ts.len(),
            full == ts.deep_view(),
            r.deep_view() == throw_ids_of(full.subrange(0, i as int)),
        decreases ts.len() - i,
    {
        proof {
            assert(full.subrange(0, i + 1).drop_last() =~= full.subrange(0, i as int));
            assert(full.subrange(0, i + 1).last() == full[i as int]);
            assert(full[i as int] == ts@[i as int]@);
        }
        let ghost before = r.deep_view();
        r.push(ts[i].id.clone());
        proof {
            assert(r.deep_view() =~= before.push(full[i as int].id));
            assert(r.deep_view() =~= throw_ids_of(full.subrange(0, i + 1)));
        }
        i = i + 1;
    }
    proof {
        assert(full.subrange(0, full.len() as int) =~= full);
    }
    r
}

/// The mathematical content of a [`ParseResult`].
pub ghost struct ParseResultV {
    pub diagnostics: Seq<DiagnosticV>,
    pub relative_imports: Seq<Seq<char>>,
    pub throw_ids: Seq<Seq<char>>,
    pub imported_identifiers_diagnostics: Seq<ImportedIdentifiersV>,
}

/// Everything a host publishes for one document version: the flat
/// diagnostic list, the relative imports, the IDs of the throwing units, and
/// the grouped import-usage diagnostics.
pub struct ParseResult {
    pub diagnostics: Vec<Diagnostic>,
    pub relative_imports: Vec<String>,
    pub throw_ids: Vec<String>,
    pub imported_identifiers_diagnostics: Vec<ImportedIdentifiers>,
}

impl View for ParseResult {
    type V = ParseResultV;

    open spec fn view(&self) -> ParseResultV {
        ParseResultV {
            diagnostics: self.diagnostics.deep_view(),
            relative_imports: self.relative_imports.deep_view(),
            throw_ids: self.throw_ids.deep_view(),
            imported_identifiers_diagnostics: self.imported_identifiers_diagnostics.deep_view(),
        }
    }
}

/// What the translation of one analysis result looks like, given the four
/// resolved severities.
pub open spec fn spec_parse_result(
    rv: crate::AnalysisResultV,
    src: Seq<u8>,
    throw_statement_severity: Option<Seq<char>>,
    function_throw_severity: Option<Seq<char>>,
    call_to_throw_severity: Option<Seq<char>>,
    call_to_imported_throw_severity: Option<Seq<char>>,
) -> ParseResultV {
    ParseResultV {
        diagnostics: function_diags(
            src,
            rv.functions_with_throws,
            spec_severity_or_hint(throw_statement_severity),
            spec_severity_or_hint(function_throw_severity),
        ) + call_diags(src, rv.calls_to_throws, spec_severity_or_hint(call_to_throw_severity)),
        relative_imports: spec_relative_imports(rv.import_sources),
        throw_ids: throw_ids_of(rv.functions_with_throws),
        imported_identifiers_diagnostics: combined_usage_groups(
            rv.imported_identifier_usages,
            src,
            spec_severity_or_hint(call_to_imported_throw_severity),
        ),
    }
}

impl ParseResult {
    /// Translates one analysis result into the wire shape, resolving each
    /// optional severity input with `Hint` as the default.
    pub fn into(results: &crate::AnalysisResult, src: &Vec<u8>, input_data: &InputData) -> (r:
        ParseResult)
        requires
            src@.len() <= u32::MAX,
            forall|i: int|
                0 <= i < results.functions_with_throws.deep_view().len() ==> throw_map_spans_ok(
                    src@,
                    #[trigger] results.functions_with_throws.deep_view()[i],
                ),
            forall|i: int|
                0 <= i < results.calls_to_throws.deep_view().len() ==> call_map_spans_ok(
                    src@,
                    #[trigger] results.calls_to_throws.deep_view()[i],
                ),
            forall|i: int|
                0 <= i < results.imported_identifier_usages.deep_view().len() ==> usage_spans_ok(
                    src@,
                    #[trigger] results.imported_identifier_usages.deep_view()[i],
                ),
            valid_severity_option(severity_input_view(input_data.throw_statement_severity)),
            valid_severity_option(severity_input_view(input_data.function_throw_severity)),
            valid_severity_option(severity_input_view(input_data.call_to_throw_severity)),
            valid_severity_option(severity_input_view(input_data.call_to_imported_throw_severity)),
        ensures
            r@ == spec_parse_result(
                results@,
                src@,
                severity_input_view(input_data.throw_statement_severity),
                severity_input_view(input_data.function_throw_severity),
                severity_input_view(input_data.call_to_throw_severity),
                severity_input_view(input_data.call_to_imported_throw_severity),
            ),
    {
        let mut diagnostics: Vec<Diagnostic> = Vec::new();
        proof {
            assert(diagnostics.deep_view() =~= Seq::<DiagnosticV>::empty());
        }
        add_diagnostics_for_functions_that_throw(
            &mut diagnostics,
            &results.functions_with_throws,
            src,
            severity_or_hint(&input_data.throw_statement_severity),
            severity_or_hint(&input_data.function_throw_severity),
        );
        add_diagnostics_for_calls_to_throws(
            &mut diagnostics,
            &results.calls_to_throws,
            src,
            severity_or_hint(&input_data.call_to_throw_severity),
        );
        let r = ParseResult {
            diagnostics,
            relative_imports: get_relative_imports(&results.import_sources),
            throw_ids: collect_throw_ids(&results.functions_with_throws),
            imported_identifiers_diagnostics: identifier_usages_vec_to_combined_map(
                &results.imported_identifier_usages,
                src,
                severity_or_hint(&input_data.call_to_imported_throw_severity),
            ),
        };
        proof {
            assert(r@.diagnostics =~= spec_parse_result(
                results@,
                src@,
                severity_input_view(input_data.throw_statement_severity),
                severity_input_view(input_data.function_throw_severity),
                severity_input_view(input_data.call_to_throw_severity),
                severity_input_view(input_data.call_to_imported_throw_severity),
            ).diagnostics);
        }
        r
    }
}

} // verus!