use vstd::prelude::*;
use vstd::string::StringExecFns;
use crate::errors::FileError;
use crate::file_id::FileId;
use crate::file_id::IdView;
use crate::numfmt::dec_str;
use crate::numfmt::spec_dec;
use crate::sources::UnitView;
use crate::sources::spec_find;
use crate::world::World;

verus! {

/// Where a diagnostic points: the source it belongs to — nothing for a
/// detached span — and the text-offset range the span resolved to, when one
/// is known.
pub struct SpanInfo {
    /// The identity of the source the span lives in, if the span names one.
    pub file: Option<FileId>,
    /// The resolved `(start, end)` text offsets, if the span maps to any.
    pub range: Option<(usize, usize)>,
}

/// The mathematical shape of a span.
#[verifier::ext_equal]
pub struct SpanView {
    pub file: Option<IdView>,
    pub range: Option<(usize, usize)>,
}

impl View for SpanInfo {
    type V = SpanView;

    open spec fn view(&self) -> SpanView {
        SpanView {
            file: (match self.file {
                Some(ref id) => Some(id@),
                None => None,
            }),
            range: self.range,
        }
    }
}

impl DeepView for SpanInfo {
    type V = SpanView;

    open spec fn deep_view(&self) -> SpanView {
        self.view()
    }
}

/// One step of a diagnostic's causal trace.
pub struct TracePoint {
    /// The span the step points at.
    pub span: SpanInfo,
    /// The step's message.
    pub message: String,
}

/// The mathematical shape of a trace step.
#[verifier::ext_equal]
pub struct PointView {
    pub span: SpanView,
    pub message: Seq<char>,
}

impl View for TracePoint {
    type V = PointView;

    open spec fn view(&self) -> PointView {
        PointView { span: self.span@, message: self.message@ }
    }
}

impl DeepView for TracePoint {
    type V = PointView;

    open spec fn deep_view(&self) -> PointView {
        self.view()
    }
}

/// One structured compiler diagnostic: its primary span and message, and the
/// causal trace of secondary spans behind it, in order.
pub struct Diagnostic {
    /// The primary span.
    pub span: SpanInfo,
    /// The primary message.
    pub message: String,
    /// The causal trace, possibly empty.
    pub trace: Vec<TracePoint>,
}

/// The mathematical shape of a diagnostic.
#[verifier::ext_equal]
pub struct DiagView {
    pub span: SpanView,
    pub message: Seq<char>,
    pub trace: Seq<PointView>,
}

impl View for Diagnostic {
    type V = DiagView;

    open spec fn view(&self) -> DiagView {
        DiagView { span: self.span@, message: self.message@, trace: self.trace.deep_view() }
    }
}

impl DeepView for Diagnostic {
    type V = DiagView;

    open spec fn deep_view(&self) -> DiagView {
        self.view()
    }
}

/// A span checked against the registry: a span with no source is detached —
/// a reportable error of its own — an identity no source was registered
/// under is `NotSource`, and a span with no resolved range is detached too.
pub open spec fn spec_resolve_span(units: Seq<UnitView>, s: SpanView) -> Result<
    (usize, usize),
    FileError,
> {
    match s.file {
        None => Err(FileError::Detached),
        Some(id) => (match spec_find(units, id) {
            None => Err(FileError::NotSource),
            Some(u) => (match s.range {
                None => Err(FileError::Detached),
                Some(r) => Ok(r),
            }),
        }),
    }
}

/// The text a resolved range and message format to: start, colon, end, one
/// space, then the message.
pub open spec fn spec_line(start: usize, end: usize, msg: Seq<char>) -> Seq<char> {
    spec_dec(start as nat) + seq![':'] + spec_dec(end as nat) + seq![' '] + msg
}

/// The message text after the causal trace of one diagnostic, each step an
/// indented line, stopping at the first step that does not resolve.
pub open spec fn spec_format_points(
    units: Seq<UnitView>,
    pts: Seq<PointView>,
    acc: Seq<char>,
) -> Result<Seq<char>, FileError>
    decreases pts.len(),
{
    if pts.len() == 0 {
        Ok(acc)
    } else {
        match spec_resolve_span(units, pts.first().span) {
            Err(e) => Err(e),
            Ok(r) => spec_format_points(
                units,
                pts.drop_first(),
                acc + "  "@ + spec_line(r.0, r.1, pts.first().message),
            ),
        }
    }
}

/// The message text after a list of diagnostics: per diagnostic its primary
/// line, a trace header when a trace exists, then the trace, stopping at the
/// first span that does not resolve.
pub open spec fn spec_format_diags(
    units: Seq<UnitView>,
    ds: Seq<DiagView>,
    acc: Seq<char>,
) -> Result<Seq<char>, FileError>
    decreases ds.len(),
{
    if ds.len() == 0 {
        Ok(acc)
    } else {
        match spec_resolve_span(units, ds.first().span) {
            Err(e) => Err(e),
            Ok(r) => {
                let acc1 = acc + spec_line(r.0, r.1, ds.first().message) + (if ds.first().trace.len()
                    > 0 {
                    "stacktrace:\n"@
                } else {
                    Seq::<char>::empty()
                });
                match spec_format_points(units, ds.first().trace, acc1) {
                    Err(e) => Err(e),
                    Ok(a) => spec_format_diags(units, ds.drop_first(), a),
                }
            },
        }
    }
}

/// The whole error message of a failed compile: the fixed header, then every
/// diagnostic in order.
pub open spec fn spec_format(units: Seq<UnitView>, ds: Seq<DiagView>) -> Result<
    Seq<char>,
    FileError,
> {
    spec_format_diags(units, ds, "compile error:\n"@)
}

/// Appends one formatted line for a resolved range and message.
fn append_line(msg: &mut String, start: usize, end: usize, m: &String)
    ensures
        final(msg)@ == old(msg)@ + spec_line(start, end, m@),
{
    let s = dec_str(start);
    msg.append(s.as_str());
    msg.append(":");
    let e = dec_str(end);
    msg.append(e.as_str());
    msg.append(" ");
    msg.append(m.as_str());
    proof {
        reveal_strlit(":");
        reveal_strlit(" ");
        assert(":"@ =~= seq![':']);
        assert(" "@ =~= seq![' ']);
        assert(msg@ =~= old(msg)@ + spec_line(start, end, m@));
    }
}

impl World {
    /// Resolves one diagnostic span against this run's registry, as
    /// `spec_resolve_span` says.
    fn resolve_span(&self, span: &SpanInfo) -> (r: Result<(usize, usize), FileError>)
        ensures
            r == spec_resolve_span(self.sources.deep_view(), span@),
    {
        match &span.file {
            None => Err(FileError::Detached),
            Some(id) => match self.source(id) {
                Err(e) => Err(e),
                Ok(_) => match span.range {
                    None => Err(FileError::Detached),
                    Some(r) => Ok(r),
                },
            },
        }
    }

    /// Assembles the diagnostics of a failed compile into the one multi-line
    /// error message the caller sees: the fixed header, then per diagnostic
    /// its range and message, and its causal trace indented under a trace
    /// header.  A span that does not resolve to a registered source range is
    /// itself the reported error, never a silent drop.
    pub fn format_diagnostics(&self, diags: &Vec<Diagnostic>) -> (r: Result<String, FileError>)
        ensures
            (match spec_format(self.sources.deep_view(), diags.deep_view()) {
                Ok(t) => r matches Ok(s) && s@ == t,
                Err(e) => r == Result::<String, FileError>::Err(e),
            }),
    {
        let ghost units = self.sources.deep_view();
        let ghost dv = diags.deep_view();
        let mut msg = String::new();
        msg.append("compile error:\n");
        let n = diags.len();
        let mut i: usize = 0;
        proof {
            assert(dv.skip(0) =~= dv);
            assert(msg@ =~= "compile error:\n"@);
        }
        while i < n
            invariant
                n == diags@.len(),
                dv == diags.deep_view(),
                units == self.sources.deep_view(),
                i <= n,
                spec_format_diags(units, dv.skip(i as int), msg@) == spec_format(units, dv),
            decreases n - i,
        {
            let ghost acc0 = msg@;
            proof {
                assert(dv.skip(i as int).first() == dv[i as int]);
                assert(dv.skip(i as int).drop_first() =~= dv.skip(i + 1));
                assert(dv[i as int] == diags@[i as int].deep_view());
            }
            let d = &diags[i];
            let range = match self.resolve_span(&d.span) {
                Ok(rg) => rg,
                Err(e) => {
                    return Err(e);
                },
            };
            append_line(&mut msg, range.0, range.1, &d.message);
            if d.trace.len() > 0 {
                msg.append("stacktrace:\n");
            }
            let ghost pv = d.trace.deep_view();
            proof {
                assert(pv == dv[i as int].trace);
                assert(msg@ =~= acc0 + spec_line(range.0, range.1, dv[i as int].message) + (
                if pv.len() > 0 {
                    "stacktrace:\n"@
                } else {
                    Seq::<char>::empty()
                }));
            }
            let ghost target = spec_format_points(units, pv, msg@);
            proof {
                assert(spec_format_diags(units, dv.skip(i as int), acc0) == (
                match target {
                    Err(e) => Err::<Seq<char>, FileError>(e),
                    Ok(a) => spec_format_diags(units, dv.skip(i + 1), a),
                }));
                assert(pv.skip(0) =~= pv);
            }
            let m = d.trace.len();
            let mut j: usize = 0;
            while j < m
                invariant
                    m == d.trace@.len(),
                    pv == d.trace.deep_view(),
                    dv == diags.deep_view(),
                    units == self.sources.deep_view(),
                    j <= m,
                    spec_format_points(units, pv.skip(j as int), msg@) == target,
                    (match target {
                        Err(e) => spec_format(units, dv) == Err::<Seq<char>, FileError>(e),
                        Ok(a) => spec_format_diags(units, dv.skip(i + 1), a) == spec_format(
                            units,
                            dv,
                        ),
                    }),
                decreases m - j,
            {
                proof {
                    assert(pv.skip(j as int).first() == pv[j as int]);
                    assert(pv.skip(j as int).drop_first() =~= pv.skip(j + 1));
                    assert(pv[j as int] == d.trace@[j as int].deep_view());
                }
                let p = &d.trace[j];
                let prange = match self.resolve_span(&p.span) {
                    Ok(rg) => rg,
                    Err(e) => {
                        return Err(e);
                    },
                };
                msg.append("  ");
                append_line(&mut msg, prange.0, prange.1, &p.message);
                j += 1;
            }
            proof {
                assert(pv.skip(m as int) =~= Seq::<PointView>::empty());
            }
            i += 1;
        }
        proof {
            assert(dv.skip(n as int) =~= Seq::<DiagView>::empty());
        }
        Ok(msg)
    }
}

} // verus!
