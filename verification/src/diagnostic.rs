//! Diagnostics produced by validation and continuity analysis.
use vstd::prelude::*;

use crate::text::owned;

verus! {

#[derive(Debug, Clone, Copy, PartialEq, Eq, Structural)]
pub enum Severity {
    Error,
    Warning,
}

/// One finding: a stable machine-readable `code`, the document `path` it
/// concerns, a human-readable `message`, and an optional `hint`.
#[derive(Debug, Clone)]
pub struct Diagnostic {
    pub severity: Severity,
    pub code: String,
    pub path: String,
    pub message: String,
    pub hint: Option<String>,
}

/// A diagnostic as text.
pub struct DiagnosticView {
    pub severity: Severity,
    pub code: Seq<char>,
    pub path: Seq<char>,
    pub message: Seq<char>,
    pub hint: Option<Seq<char>>,
}

impl View for Diagnostic {
    type V = DiagnosticView;

    open spec fn view(&self) -> DiagnosticView {
        DiagnosticView {
            severity: self.severity,
            code: self.code@,
            path: self.path@,
            message: self.message@,
            hint: match self.hint {
                Some(h) => Some(h@),
                None => None,
            },
        }
    }
}

/// An error finding without a hint.
pub open spec fn error_at(code: Seq<char>, path: Seq<char>, message: Seq<char>) -> DiagnosticView {
    DiagnosticView { severity: Severity::Error, code, path, message, hint: None }
}

/// A warning finding without a hint.
pub open spec fn warning_at(code: Seq<char>, path: Seq<char>, message: Seq<char>) -> DiagnosticView {
    DiagnosticView { severity: Severity::Warning, code, path, message, hint: None }
}

/// `d` with `hint` attached.
pub open spec fn hinted(d: DiagnosticView, hint: Seq<char>) -> DiagnosticView {
    DiagnosticView { hint: Some(hint), ..d }
}

impl Diagnostic {
    pub fn error(code: &str, path: String, message: String) -> (d: Diagnostic)
        ensures
            d@ == error_at(code@, path@, message@),
    {
        Diagnostic { severity: Severity::Error, code: owned(code), path, message, hint: None }
    }

    pub fn warning(code: &str, path: String, message: String) -> (d: Diagnostic)
        ensures
            d@ == warning_at(code@, path@, message@),
    {
        Diagnostic { severity: Severity::Warning, code: owned(code), path, message, hint: None }
    }

    pub fn with_hint(self, hint: &str) -> (d: Diagnostic)
        ensures
            d@ == hinted(self@, hint@),
    {
        Diagnostic { hint: Some(owned(hint)), ..self }
    }
}

/// The concatenation of a sequence of sequences, in order.
pub open spec fn flatten<T>(parts: Seq<Seq<T>>) -> Seq<T>
    decreases parts.len(),
{
    if parts.len() == 0 {
        Seq::empty()
    } else {
        flatten(parts.drop_last()) + parts.last()
    }
}

pub proof fn lemma_flatten_push<T>(parts: Seq<Seq<T>>, last: Seq<T>)
    ensures
        flatten(parts.push(last)) == flatten(parts) + last,
{
    assert(parts.push(last).drop_last() =~= parts);
}

pub proof fn lemma_flatten_new_step<T>(n: nat, f: spec_fn(int) -> Seq<T>)
    ensures
        flatten(Seq::new(n + 1, f)) == flatten(Seq::new(n, f)) + f(n as int),
{
    assert(Seq::new(n + 1, f).drop_last() =~= Seq::new(n, f));
}

pub proof fn lemma_flatten_empty<T>(f: spec_fn(int) -> Seq<T>)
    ensures
        flatten(Seq::new(0, f)) == Seq::<T>::empty(),
{
}

/// Every element of a concatenation comes from one of its parts: when every
/// element of every part satisfies `p`, so does every element of the whole.
pub proof fn lemma_flatten_all<T>(parts: Seq<Seq<T>>, p: spec_fn(T) -> bool)
    requires
        forall|i: int, j: int| 0 <= i < parts.len() && 0 <= j < parts[i].len() ==> p(#[trigger] parts[i][j]),
    ensures
        forall|k: int| 0 <= k < flatten(parts).len() ==> p(#[trigger] flatten(parts)[k]),
    decreases parts.len(),
{
    if parts.len() > 0 {
        let init = parts.drop_last();
        assert forall|i: int, j: int| 0 <= i < init.len() && 0 <= j < init[i].len() implies p(#[trigger] init[i][j]) by {
            assert(init[i] == parts[i]);
        }
        lemma_flatten_all(init, p);
        let whole = flatten(parts);
        assert forall|k: int| 0 <= k < whole.len() implies p(#[trigger] whole[k]) by {
            let head = flatten(init);
            if k < head.len() {
                assert(whole[k] == head[k]);
            } else {
                assert(whole[k] == parts.last()[k - head.len()]);
                assert(p(parts[parts.len() - 1][k - head.len()]));
            }
        }
    }
}

/// A concatenation of empty parts is empty.
pub proof fn lemma_flatten_empty_parts<T>(parts: Seq<Seq<T>>)
    requires
        forall|i: int| 0 <= i < parts.len() ==> (#[trigger] parts[i]).len() == 0,
    ensures
        flatten(parts).len() == 0,
    decreases parts.len(),
{
    if parts.len() > 0 {
        let init = parts.drop_last();
        assert forall|i: int| 0 <= i < init.len() implies (#[trigger] init[i]).len() == 0 by {
            assert(init[i] == parts[i]);
        }
        lemma_flatten_empty_parts(init);
        assert(parts[parts.len() - 1].len() == 0);
    }
}

/// A concatenation is empty exactly when every part is.
pub proof fn lemma_flatten_empty_iff<T>(parts: Seq<Seq<T>>)
    ensures
        flatten(parts).len() == 0 <==> forall|i: int| 0 <= i < parts.len() ==> (#[trigger] parts[i]).len() == 0,
    decreases parts.len(),
{
    if parts.len() > 0 {
        let init = parts.drop_last();
        lemma_flatten_empty_iff(init);
        if flatten(parts).len() == 0 {
            assert forall|i: int| 0 <= i < parts.len() implies (#[trigger] parts[i]).len() == 0 by {
                if i < init.len() {
                    assert(init[i] == parts[i]);
                }
            }
        } else {
            lemma_flatten_empty_parts_contra(parts);
        }
    }
}

proof fn lemma_flatten_empty_parts_contra<T>(parts: Seq<Seq<T>>)
    requires
        flatten(parts).len() > 0,
    ensures
        exists|i: int| 0 <= i < parts.len() && (#[trigger] parts[i]).len() > 0,
{
    if forall|i: int| 0 <= i < parts.len() ==> (#[trigger] parts[i]).len() == 0 {
        lemma_flatten_empty_parts(parts);
    }
}

/// Concatenation regroups to the left.
pub broadcast proof fn lemma_concat_regroup<T>(a: Seq<T>, b: Seq<T>, c: Seq<T>)
    ensures
        #[trigger] (a + (b + c)) == (a + b) + c,
{
    assert(a + (b + c) =~= (a + b) + c);
}

/// Number of diagnostics of `severity` in `ds`.
pub open spec fn count_severity(ds: Seq<DiagnosticView>, severity: Severity) -> nat
    decreases ds.len(),
{
    if ds.len() == 0 {
        0
    } else {
        count_severity(ds.drop_last(), severity) + if ds.last().severity == severity { 1nat } else { 0nat }
    }
}

/// Every diagnostic is an error or a warning: the two counts add up to the
/// number of diagnostics.
pub proof fn lemma_counts_partition(ds: Seq<DiagnosticView>)
    ensures
        count_severity(ds, Severity::Error) + count_severity(ds, Severity::Warning) == ds.len(),
    decreases ds.len(),
{
    if ds.len() > 0 {
        lemma_counts_partition(ds.drop_last());
    }
}

/// Counting distributes over concatenation: a merged report counts what
/// its parts count.
pub proof fn lemma_count_concat(a: Seq<DiagnosticView>, b: Seq<DiagnosticView>, severity: Severity)
    ensures
        count_severity(a + b, severity) == count_severity(a, severity) + count_severity(b, severity),
    decreases b.len(),
{
    if b.len() > 0 {
        lemma_count_concat(a, b.drop_last(), severity);
        assert((a + b).drop_last() =~= a + b.drop_last());
    } else {
        assert(a + b =~= a);
    }
}

/// Everything validation or analysis found, in the order it was found.
#[derive(Debug, Clone)]
pub struct ValidationReport {
    pub diagnostics: Vec<Diagnostic>,
}

impl View for ValidationReport {
    type V = Seq<DiagnosticView>;

    open spec fn view(&self) -> Seq<DiagnosticView> {
        self.diagnostics@.map_values(|d: Diagnostic| d@)
    }
}

impl ValidationReport {
    pub fn new() -> (r: ValidationReport)
        ensures
            r@ == Seq::<DiagnosticView>::empty(),
    {
        let r = ValidationReport { diagnostics: Vec::new() };
        assert(r@ =~= Seq::<DiagnosticView>::empty());
        r
    }

    pub fn push(&mut self, diagnostic: Diagnostic)
        ensures
            final(self)@ == old(self)@.push(diagnostic@),
    {
        self.diagnostics.push(diagnostic);
        assert(self@ =~= old(self)@.push(diagnostic@));
    }

    /// Appends every diagnostic of `other`, in order.
    pub fn extend(&mut self, other: ValidationReport)
        ensures
            final(self)@ == old(self)@ + other@,
    {
        let mut i: usize = 0;
        while i < other.diagnostics.len()
            invariant
                i <= other.diagnostics.len(),
                self@ == old(self)@ + other@.take(i as int),
            decreases other.diagnostics.len() - i,
        {
            self.push(other.diagnostics[i].clone_diagnostic());
            assert(other@.take(i + 1) =~= other@.take(i as int).push(other@[i as int]));
            i = i + 1;
        }
        assert(other@.take(other@.len() as int) =~= other@);
    }

    pub fn error_count(&self) -> (n: usize)
        ensures
            n == count_severity(self@, Severity::Error),
    {
        self.count(Severity::Error)
    }

    pub fn warning_count(&self) -> (n: usize)
        ensures
            n == count_severity(self@, Severity::Warning),
    {
        self.count(Severity::Warning)
    }

    pub fn has_errors(&self) -> (b: bool)
        ensures
            b == (count_severity(self@, Severity::Error) > 0),
    {
        self.error_count() > 0
    }

    pub fn has_warnings(&self) -> (b: bool)
        ensures
            b == (count_severity(self@, Severity::Warning) > 0),
    {
        self.warning_count() > 0
    }

    fn count(&self, severity: Severity) -> (n: usize)
        ensures
            n == count_severity(self@, severity),
    {
        let mut n: usize = 0;
        let mut i: usize = 0;
        while i < self.diagnostics.len()
            invariant
                i <= self.diagnostics.len(),
                n == count_severity(self@.take(i as int), severity),
                n <= i,
            decreases self.diagnostics.len() - i,
        {
            assert(self@.take(i + 1).drop_last() =~= self@.take(i as int));
            if self.diagnostics[i].severity == severity {
                n = n + 1;
            }
            i = i + 1;
        }
        assert(self@.take(self@.len() as int) =~= self@);
        n
    }
}

impl Diagnostic {
    /// A copy with equal text.
    pub fn clone_diagnostic(&self) -> (d: Diagnostic)
        ensures
            d@ == self@,
    {
        let hint = match &self.hint {
            Some(h) => Some(h.clone()),
            None => None,
        };
        Diagnostic {
            severity: self.severity,
            code: self.code.clone(),
            path: self.path.clone(),
            message: self.message.clone(),
            hint,
        }
    }
}

} // verus!
