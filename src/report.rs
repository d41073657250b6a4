//! Messages for the user: what a compile failure says, the report line of a
//! formula that failed, and the markers that stand in a document or a page
//! where a formula could not be rendered.

use vstd::prelude::*;

use crate::pipeline::{FormulaError, RenderError};
use crate::render::abridged;
use crate::text::{decimal, escape_html_attribute, escape_html_text, html_attribute_escaped,
    html_text_escaped, push_decimal};
use crate::render::shorten;

verus! {

/// The texts `parts`, one after the other.
pub open spec fn concat(parts: Seq<Seq<char>>) -> Seq<char>
    decreases parts.len(),
{
    if parts.len() == 0 {
        Seq::empty()
    } else {
        concat(parts.drop_last()) + parts.last()
    }
}

pub proof fn lemma_concat_step(parts: Seq<Seq<char>>, i: int)
    requires
        0 <= i < parts.len(),
    ensures
        concat(parts.subrange(0, i + 1)) == concat(parts.subrange(0, i)) + parts[i],
{
    assert(parts.subrange(0, i + 1).drop_last() =~= parts.subrange(0, i));
}

/// One step of the trace that led to a diagnostic.
pub struct TracePoint {
    /// What happened at this step.
    pub description: String,
    /// The file it happened in, if it is known.
    pub location: Option<String>,
}

/// One message of the typesetting engine about a formula's source.
pub struct Diagnostic {
    /// `Error` or `Warning`.
    pub severity: String,
    pub message: String,
    /// The file the message is about, if it is known.
    pub location: Option<String>,
    pub trace: Vec<TracePoint>,
    pub hints: Vec<String>,
}

/// Why the typesetting engine could not compile a formula.
pub enum CompileError {
    /// The formula's source has errors.
    Diagnostics(Vec<Diagnostic>),
    /// A file could not be read.
    FileError(String),
    /// The main source file is missing: the file id as debug text, and its
    /// path.
    MainSourceMissing(String, String),
    /// A message with hints.
    Hinted(String, Vec<String>),
    /// Any other failure.
    Unspecified(String),
}

pub open spec fn hint_line(h: Seq<char>) -> Seq<char> {
    "    - "@ + h + "\n"@
}

/// The hints block: empty without hints.
pub open spec fn hints_text(hints: Seq<Seq<char>>) -> Seq<char> {
    if hints.len() == 0 {
        Seq::empty()
    } else {
        "  Hints:\n"@ + concat(hints.map_values(|h: Seq<char>| hint_line(h)))
    }
}

pub open spec fn trace_line(p: TracePoint) -> Seq<char> {
    "    - "@ + p.description@ + ": "@ + match p.location {
        Some(l) => "at "@ + l@,
        None => "at detached span or nil FileId"@,
    } + "\n"@
}

/// The trace block: empty without trace.
pub open spec fn trace_text(trace: Seq<TracePoint>) -> Seq<char> {
    if trace.len() == 0 {
        Seq::empty()
    } else {
        "  Trace:\n"@ + concat(trace.map_values(|p: TracePoint| trace_line(p)))
    }
}

pub open spec fn location_text(location: Option<String>) -> Seq<char> {
    match location {
        Some(l) => "  Location: "@ + l@ + "\n"@,
        None => "  Location: No specific source file associated (detached span or nil FileId).\n"@,
    }
}

/// The text of diagnostic number `i`, from 0.
pub open spec fn diagnostic_text(i: nat, d: Diagnostic) -> Seq<char> {
    "\n"@ + d.severity@ + " #"@ + decimal(i + 1) + ": "@ + d.message@ + "\n"@ + location_text(
        d.location,
    ) + trace_text(d.trace@) + hints_text(d.hints.deep_view())
}

/// What a compile failure of `formula` says, with every trace step and hint.
pub open spec fn compile_error_text(e: CompileError, formula: Seq<char>) -> Seq<char> {
    match e {
        CompileError::Diagnostics(ds) => "Failed to compile the formula\n"@ + if ds@.len() == 0 {
            "Compilation failed with unspecified diagnostics.\n"@
        } else {
            concat(Seq::new(ds@.len(), |i: int| diagnostic_text(i as nat, ds@[i])))
        },
        CompileError::FileError(m) => "File Error while processing formula '"@ + formula + "': "@
            + m@ + "\n"@,
        CompileError::MainSourceMissing(id, path) => "Main source file not found for formula '"@
            + formula + "': "@ + id@ + ".\n  Path (vpath): "@ + path@ + "\n"@,
        CompileError::Hinted(m, hints) => "Error processing formula '"@ + formula + "': "@ + m@
            + "\n"@ + hints_text(hints.deep_view()),
        CompileError::Unspecified(m) => "Unspecified error for formula '"@ + formula + "': "@ + m@
            + "\n"@,
    }
}

fn push_hints(out: &mut String, hints: &Vec<String>)
    ensures
        final(out)@ == old(out)@ + hints_text(hints.deep_view()),
{
    if hints.len() == 0 {
        assert(hints.deep_view().len() == 0);
        assert(old(out)@ + Seq::<char>::empty() =~= old(out)@);
        return;
    }
    out.append("  Hints:\n");
    let ghost start = out@;
    let ghost parts = hints.deep_view().map_values(|h: Seq<char>| hint_line(h));
    let mut i: usize = 0;
    proof {
        assert(parts.subrange(0, 0) =~= Seq::<Seq<char>>::empty());
        assert(start + concat(parts.subrange(0, 0)) =~= start);
    }
    while i < hints.len()
        invariant
            i <= hints@.len(),
            parts == hints.deep_view().map_values(|h: Seq<char>| hint_line(h)),
            parts.len() == hints@.len(),
            out@ == start + concat(parts.subrange(0, i as int)),
        decreases hints.len() - i,
    {
        proof {
            lemma_concat_step(parts, i as int);
            assert(hints.deep_view()[i as int] == hints@[i as int]@);
        }
        out.append("    - ");
        out.append(hints[i].as_str());
        out.append("\n");
        proof {
            assert(out@ =~= start + concat(parts.subrange(0, i + 1)));
        }
        i = i + 1;
    }
    proof {
        assert(parts.subrange(0, parts.len() as int) =~= parts);
    }
}

fn push_trace(out: &mut String, trace: &Vec<TracePoint>)
    ensures
        final(out)@ == old(out)@ + trace_text(trace@),
{
    if trace.len() == 0 {
        assert(old(out)@ + Seq::<char>::empty() =~= old(out)@);
        return;
    }
    out.append("  Trace:\n");
    let ghost start = out@;
    let ghost parts = trace@.map_values(|p: TracePoint| trace_line(p));
    let mut i: usize = 0;
    proof {
        assert(parts.subrange(0, 0) =~= Seq::<Seq<char>>::empty());
        assert(start + concat(parts.subrange(0, 0)) =~= start);
    }
    while i < trace.len()
        invariant
            i <= trace@.len(),
            parts == trace@.map_values(|p: TracePoint| trace_line(p)),
            out@ == start + concat(parts.subrange(0, i as int)),
        decreases trace.len() - i,
    {
        proof {
            lemma_concat_step(parts, i as int);
        }
        let point = &trace[i];
        out.append("    - ");
        out.append(point.description.as_str());
        out.append(": ");
        match &point.location {
            Some(l) => {
                out.append("at ");
                out.append(l.as_str());
            },
            None => {
                out.append("at detached span or nil FileId");
            },
        }
        out.append("\n");
        proof {
            assert(out@ =~= start + concat(parts.subrange(0, i + 1)));
        }
        i = i + 1;
    }
    proof {
        assert(parts.subrange(0, parts.len() as int) =~= parts);
    }
}

fn push_diagnostic(out: &mut String, i: usize, d: &Diagnostic)
    requires
        i < usize::MAX,
    ensures
        final(out)@ == old(out)@ + diagnostic_text(i as nat, *d),
{
    out.append("\n");
    out.append(d.severity.as_str());
    out.append(" #");
    push_decimal(out, (i + 1) as u64);
    out.append(": ");
    out.append(d.message.as_str());
    out.append("\n");
    match &d.location {
        Some(l) => {
            out.append("  Location: ");
            out.append(l.as_str());
            out.append("\n");
        },
        None => {
            out.append(
                "  Location: No specific source file associated (detached span or nil FileId).\n",
            );
        },
    }
    let ghost mid = out@;
    push_trace(out, &d.trace);
    push_hints(out, &d.hints);
    proof {
        assert(final(out)@ =~= old(out)@ + diagnostic_text(i as nat, *d));
    }
}

impl CompileError {
    /// What the failure to compile `formula` says, as one text.
    pub fn describe(&self, formula: &str) -> (r: String)
        ensures
            r@ == compile_error_text(*self, formula@),
    {
        match self {
            CompileError::Diagnostics(ds) => {
                let mut out = String::from_str("Failed to compile the formula\n");
                if ds.len() == 0 {
                    out.append("Compilation failed with unspecified diagnostics.\n");
                    return out;
                }
                let ghost start = out@;
                let ghost parts = Seq::new(ds@.len(), |i: int| diagnostic_text(i as nat, ds@[i]));
                let mut i: usize = 0;
                proof {
                    assert(parts.subrange(0, 0) =~= Seq::<Seq<char>>::empty());
                    assert(start + concat(parts.subrange(0, 0)) =~= start);
                }
                while i < ds.len()
                    invariant
                        i <= ds@.len(),
                        parts == Seq::new(ds@.len(), |i: int| diagnostic_text(i as nat, ds@[i])),
                        out@ == start + concat(parts.subrange(0, i as int)),
                    decreases ds.len() - i,
                {
                    proof {
                        lemma_concat_step(parts, i as int);
                    }
                    push_diagnostic(&mut out, i, &ds[i]);
                    proof {
                        assert(out@ =~= start + concat(parts.subrange(0, i + 1)));
                    }
                    i = i + 1;
                }
                proof {
                    assert(parts.subrange(0, parts.len() as int) =~= parts);
                    assert(out@ =~= compile_error_text(*self, formula@));
                }
                out
            },
            CompileError::FileError(m) => {
                let mut out = String::from_str("File Error while processing formula '");
                out.append(formula);
                out.append("': ");
                out.append(m.as_str());
                out.append("\n");
                out
            },
            CompileError::MainSourceMissing(id, path) => {
                let mut out = String::from_str("Main source file not found for formula '");
                out.append(formula);
                out.append("': ");
                out.append(id.as_str());
                out.append(".\n  Path (vpath): ");
                out.append(path.as_str());
                out.append("\n");
                out
            },
            CompileError::Hinted(m, hints) => {
                let mut out = String::from_str("Error processing formula '");
                out.append(formula);
                out.append("': ");
                out.append(m.as_str());
                out.append("\n");
                push_hints(&mut out, hints);
                out
            },
            CompileError::Unspecified(m) => {
                let mut out = String::from_str("Unspecified error for formula '");
                out.append(formula);
                out.append("': ");
                out.append(m.as_str());
                out.append("\n");
                out
            },
        }
    }
}

/// The position of the first line feed in `s` at or after `from`, or the
/// length of `s` when there is none.
pub open spec fn newline_at(s: Seq<char>, from: int) -> int
    decreases s.len() - from,
{
    if from >= s.len() {
        s.len() as int
    } else if s[from] == '\n' {
        from
    } else {
        newline_at(s, from + 1)
    }
}

/// Each line of `s` with `prefix` before it and a line feed after it. Lines
/// end at a line feed, which a carriage return before it joins; a last line
/// without a line feed counts when it is not empty.
pub open spec fn indented_lines(s: Seq<char>, prefix: Seq<char>) -> Seq<char>
    decreases s.len(),
{
    if s.len() == 0 {
        Seq::empty()
    } else {
        let k = newline_at(s, 0);
        let line = if k < s.len() && k > 0 && s[k - 1] == '\r' {
            s.subrange(0, k - 1)
        } else {
            s.subrange(0, k)
        };
        prefix + line + "\n"@ + if 0 <= k < s.len() {
            indented_lines(s.subrange(k + 1, s.len() as int), prefix)
        } else {
            Seq::empty()
        }
    }
}

proof fn lemma_newline_at(t: Seq<char>, j: int, k: int)
    requires
        0 <= j <= k <= t.len(),
        forall|m: int| j <= m < k ==> t[m] != '\n',
        k == t.len() || t[k] == '\n',
    ensures
        newline_at(t, j) == k,
    decreases k - j,
{
    if j < k {
        lemma_newline_at(t, j + 1, k);
    }
}

/// Appends each line of `s`, with `prefix` before it and a line feed after.
pub fn push_indented(out: &mut String, s: &str, prefix: &str)
    ensures
        final(out)@ == old(out)@ + indented_lines(s@, prefix@),
{
    let cs = crate::text::chars_of(s);
    let n = cs.len();
    let mut start: usize = 0;
    proof {
        assert(s@.subrange(0, n as int) =~= s@);
    }
    while start < n
        invariant
            cs@ == s@,
            n == s@.len(),
            start <= n,
            old(out)@ + indented_lines(s@, prefix@) == out@ + indented_lines(
                s@.subrange(start as int, n as int),
                prefix@,
            ),
        decreases n - start,
    {
        let mut k: usize = start;
        while k < n && cs[k] != '\n'
            invariant
                cs@ == s@,
                n == s@.len(),
                start <= k <= n,
                forall|m: int| start <= m < k ==> s@[m] != '\n',
            decreases n - k,
        {
            k = k + 1;
        }
        let ghost t = s@.subrange(start as int, n as int);
        proof {
            lemma_newline_at(t, 0, k - start);
        }
        let end = if k < n && k > start && cs[k - 1] == '\r' {
            k - 1
        } else {
            k
        };
        out.append(prefix);
        out.append(s.substring_char(start, end));
        out.append("\n");
        proof {
            assert(s@.subrange(start as int, end as int) =~= t.subrange(0, end - start));
            if k < n {
                assert(t.subrange(k - start + 1, t.len() as int) =~= s@.subrange(k + 1, n as int));
            }
        }
        if k < n {
            start = k + 1;
        } else {
            start = n;
            proof {
                assert(s@.subrange(n as int, n as int) =~= Seq::<char>::empty());
            }
        }
    }
    proof {
        assert(s@.subrange(start as int, n as int) =~= Seq::<char>::empty());
        assert(out@ + Seq::<char>::empty() =~= out@);
    }
}

pub open spec fn cause_line(i: nat, cause: Seq<char>) -> Seq<char> {
    "\n  Cause "@ + decimal(i + 1) + ": "@ + cause
}

/// A failure with every cause beneath it, one line each.
pub open spec fn detailed_error_text(e: RenderError) -> Seq<char> {
    "Main error: "@ + e.message@ + concat(
        Seq::new(e.causes@.len(), |i: int| cause_line(i as nat, e.causes@[i]@)),
    )
}

/// The failure `error` with every cause beneath it.
pub fn extract_detailed_error(error: &RenderError) -> (r: String)
    ensures
        r@ == detailed_error_text(*error),
{
    let mut out = String::from_str("Main error: ");
    out.append(error.message.as_str());
    let ghost start = out@;
    let ghost parts = Seq::new(error.causes@.len(), |i: int| cause_line(i as nat, error.causes@[i]@));
    let mut i: usize = 0;
    proof {
        assert(parts.subrange(0, 0) =~= Seq::<Seq<char>>::empty());
        assert(start + concat(parts.subrange(0, 0)) =~= start);
    }
    while i < error.causes.len()
        invariant
            i <= error.causes@.len(),
            parts == Seq::new(error.causes@.len(), |i: int| cause_line(i as nat, error.causes@[i]@)),
            out@ == start + concat(parts.subrange(0, i as int)),
        decreases error.causes.len() - i,
    {
        proof {
            lemma_concat_step(parts, i as int);
        }
        out.append("\n  Cause ");
        push_decimal(&mut out, (i + 1) as u64);
        out.append(": ");
        out.append(error.causes[i].as_str());
        proof {
            assert(out@ =~= start + concat(parts.subrange(0, i + 1)));
        }
        i = i + 1;
    }
    proof {
        assert(parts.subrange(0, parts.len() as int) =~= parts);
    }
    out
}

/// The report of a formula that failed: its number (from 1), its text cut
/// to 100 characters, and the error; in verbose mode every cause too.
pub open spec fn formula_error_text(e: FormulaError, verbose: bool) -> Seq<char> {
    "❌ Formula #"@ + decimal((e.formula_index + 1) as nat) + " failed to render:\n"@ + "   Formula: "@
        + abridged(e.formula@, 100, 97) + "\n"@ + if verbose {
        "   Error details:\n"@ + indented_lines(detailed_error_text(e.error), "     "@)
    } else {
        "   Error: "@ + e.error.message@ + "\n"@
    }
}

/// The report of a formula that failed.
pub fn format_formula_error(formula_error: &FormulaError, verbose: bool) -> (r: String)
    requires
        formula_error.formula_index < usize::MAX,
    ensures
        r@ == formula_error_text(*formula_error, verbose),
{
    let mut out = String::from_str("❌ Formula #");
    push_decimal(&mut out, (formula_error.formula_index + 1) as u64);
    out.append(" failed to render:\n");
    out.append("   Formula: ");
    out.append(shorten(formula_error.formula.as_str(), 100, 97).as_str());
    out.append("\n");
    if verbose {
        out.append("   Error details:\n");
        let details = extract_detailed_error(&formula_error.error);
        push_indented(&mut out, details.as_str(), "     ");
    } else {
        out.append("   Error: ");
        out.append(formula_error.error.message.as_str());
        out.append("\n");
    }
    proof {
        assert(out@ =~= formula_error_text(*formula_error, verbose));
    }
    out
}

/// The marker returned in place of a formula that the scripting binding
/// could not render.
pub open spec fn render_error_span_text(formula: Seq<char>, message: Seq<char>) -> Seq<char> {
    "<span class=\"gladst-error\" title=\""@ + html_attribute_escaped(message)
        + "\">Gladst Error: Failed to render formula. Check console. Formula: "@
        + html_text_escaped(formula) + "</span>"@
}

/// The marker for `formula` that failed to render with `message`.
pub fn render_error_span(formula: &str, message: &str) -> (r: String)
    ensures
        r@ == render_error_span_text(formula@, message@),
{
    let mut out = String::from_str("<span class=\"gladst-error\" title=\"");
    out.append(escape_html_attribute(message).as_str());
    out.append("\">Gladst Error: Failed to render formula. Check console. Formula: ");
    out.append(escape_html_text(formula).as_str());
    out.append("</span>");
    out
}

} // verus!
