//! One iteration of a stress test, judged from the outputs of the reference
//! and of the candidate, and the session that runs the iterations.
use vstd::prelude::*;
use vstd::utf8::{decode_utf8, valid_utf8};
use crate::diff::{diff, line_diff, lines_view, DiffLine, LineTag};
use crate::stats::{Stats, StatsView};

verus! {

/// What one run of a program gave: elapsed milliseconds and its output.
pub struct Out {
    pub took: u64,
    pub res: Vec<u8>,
}

/// The verdict of one iteration.
pub enum Verdict {
    /// The two outputs are the same bytes.
    Match,
    /// The outputs differ: their line diff and the generated input.
    Mismatch { ds: Vec<DiffLine>, gen: Vec<u8> },
}

/// The verdict of one iteration with the times of the two runs.
pub struct Test {
    pub res: Verdict,
    pub tbrute: u64,
    pub tsolve: u64,
}

/// The text diffed in place of a reference output that is not UTF-8.
pub open spec fn reference_placeholder() -> Seq<char> {
    "NO BRUTE RES"@
}

/// The text diffed in place of a candidate output that is not UTF-8.
pub open spec fn candidate_placeholder() -> Seq<char> {
    "NO SOLVE RES"@
}

/// The text that `bytes` encode, or `placeholder` when they are not UTF-8.
pub open spec fn text_or(bytes: Seq<u8>, placeholder: Seq<char>) -> Seq<char> {
    if valid_utf8(bytes) {
        decode_utf8(bytes)
    } else {
        placeholder
    }
}

/// Relies on std::str::from_utf8: the text that valid UTF-8 bytes encode, and
/// an error for any other bytes.
#[verifier::external_body]
fn utf8_text(b: &[u8]) -> (r: Option<String>)
    ensures
        r is Some <==> valid_utf8(b@),
        r matches Some(s) ==> s@ == decode_utf8(b@),
{
    std::str::from_utf8(b).ok().map(|s| s.to_string())
}

/// The text that `bytes` encode, or `placeholder` when they are not UTF-8.
pub fn decode_or(bytes: &[u8], placeholder: &str) -> (r: String)
    ensures
        r@ == text_or(bytes@, placeholder@),
{
    match utf8_text(bytes) {
        Some(s) => s,
        None => placeholder.to_string(),
    }
}

/// Whether two outputs are the same bytes.
pub fn outputs_match(a: &[u8], b: &[u8]) -> (r: bool)
    ensures
        r == (a@ == b@),
{
    if a.len() != b.len() {
        return false;
    }
    let mut i: usize = 0;
    while i < a.len()
        invariant
            i <= a@.len(),
            a@.len() == b@.len(),
            forall|k: int| 0 <= k < i ==> a@[k] == b@[k],
        decreases a@.len() - i,
    {
        if a[i] != b[i] {
            return false;
        }
        i += 1;
    }
    assert(a@ =~= b@);
    true
}

/// Judges one iteration from the generated input and the two runs: a
/// mismatch exactly when the outputs differ as bytes, and then the line diff
/// of the outputs read as text.
pub fn judge(gen: Vec<u8>, brute: Out, solve: Out) -> (r: Test)
    ensures
        r.tbrute == brute.took,
        r.tsolve == solve.took,
        r.res is Match <==> brute.res@ == solve.res@,
        r.res matches Verdict::Mismatch { ds, gen: g } ==> g@ == gen@ && lines_view(ds@) == line_diff(
            text_or(brute.res@, reference_placeholder()),
            text_or(solve.res@, candidate_placeholder()),
        ),
{
    if outputs_match(brute.res.as_slice(), solve.res.as_slice()) {
        return Test { res: Verdict::Match, tbrute: brute.took, tsolve: solve.took };
    }
    let reference = decode_or(brute.res.as_slice(), "NO BRUTE RES");
    let candidate = decode_or(solve.res.as_slice(), "NO SOLVE RES");
    let ds = diff(reference.as_str(), candidate.as_str());
    Test { res: Verdict::Mismatch { ds, gen }, tbrute: brute.took, tsolve: solve.took }
}

/// One line of the written diff: common lines as they are, lines only in the
/// candidate after `b: `, lines only in the reference after `s: `.
pub open spec fn report_line(l: (LineTag, Seq<char>)) -> Seq<char> {
    match l.0 {
        LineTag::Unchanged => l.1 + "\n"@,
        LineTag::OnlyInCandidate => "b: "@ + l.1 + "\n"@,
        LineTag::OnlyInReference => "s: "@ + l.1 + "\n"@,
    }
}

/// The written form of a diff, line after line.
pub open spec fn report_text(ls: Seq<(LineTag, Seq<char>)>) -> Seq<char>
    decreases ls.len(),
{
    if ls.len() == 0 {
        Seq::empty()
    } else {
        report_text(ls.drop_last()) + report_line(ls.last())
    }
}

/// The written form of a diff, as kept beside the other artifacts of a
/// mismatch.
pub fn diff_report(ds: &Vec<DiffLine>) -> (r: String)
    ensures
        r@ == report_text(lines_view(ds@)),
{
    let mut out = String::new();
    let mut i: usize = 0;
    while i < ds.len()
        invariant
            i <= ds@.len(),
            out@ == report_text(lines_view(ds@).take(i as int)),
        decreases ds@.len() - i,
    {
        let ghost before = out@;
        match ds[i].tag {
            LineTag::Unchanged => {},
            LineTag::OnlyInCandidate => out.append("b: "),
            LineTag::OnlyInReference => out.append("s: "),
        }
        out.append(ds[i].text.as_str());
        out.append("\n");
        assert(lines_view(ds@).take(i + 1).drop_last() == lines_view(ds@).take(i as int));
        assert(out@ =~= before + report_line(ds@[i as int]@));
        i += 1;
    }
    assert(lines_view(ds@).take(i as int) == lines_view(ds@));
    out
}

/// Why an iteration could not be completed.
#[derive(Clone, Copy, Debug, PartialEq, Eq, Structural)]
pub enum RunError {
    /// A program could not be started.
    Spawn,
    /// Feeding a program its input, or collecting its output, failed.
    Transfer,
}

/// What the session asks of its driver after an iteration.
#[derive(Clone, Copy, Debug, PartialEq, Eq, Structural)]
pub enum Action {
    /// Go on with the next iteration.
    Continue,
    /// Present the mismatch, then go on.
    ShowMismatch,
    /// Stop the whole session on this error.
    Abort(RunError),
}

/// A session: the number of iterations asked for and what has been counted.
pub struct SessionView {
    pub total: nat,
    pub stats: StatsView,
}

/// The state of a session of stress-test iterations.
pub struct Session {
    total: u64,
    stats: Stats,
}

impl View for Session {
    type V = SessionView;

    closed spec fn view(&self) -> SessionView {
        SessionView { total: self.total as nat, stats: self.stats@ }
    }
}

impl Session {
    /// The statistics of the session are well formed.
    pub closed spec fn wf(&self) -> bool {
        self.stats.wf()
    }

    /// A session of `total` iterations, none run yet.
    pub fn new(total: u64) -> (r: Session)
        ensures
            r.wf(),
            r@ == (SessionView { total: total as nat, stats: StatsView::empty() }),
    {
        Session { total, stats: Stats::raw() }
    }

    /// Whether every iteration asked for has been counted.
    pub fn finished(&self) -> (r: bool)
        requires
            self.wf(),
        ensures
            r == (self@.stats.brute.len() >= self@.total),
    {
        self.stats.samples() >= self.total
    }

    /// Whether the timings of `test` can still be counted.
    pub fn can_record(&self, test: &Test) -> (r: bool)
        requires
            self.wf(),
        ensures
            r == self@.stats.fits(test.tbrute, test.tsolve),
    {
        self.stats.can_report(test.tbrute, test.tsolve)
    }

    /// Takes the outcome of one iteration. A completed iteration is counted,
    /// as a failure when its outputs differ; an error aborts the session and
    /// counts nothing.
    pub fn step(&mut self, outcome: &Result<Test, RunError>) -> (a: Action)
        requires
            old(self).wf(),
            outcome matches Ok(t) ==> old(self)@.stats.fits(t.tbrute, t.tsolve),
        ensures
            final(self).wf(),
            outcome matches Err(e) ==> a == Action::Abort(*e) && final(self)@ == old(self)@,
            outcome matches Ok(t) ==> final(self)@ == (SessionView {
                total: old(self)@.total,
                stats: old(self)@.stats.reported(t.res is Mismatch, t.tbrute, t.tsolve),
            }) && a == if t.res is Mismatch {
                Action::ShowMismatch
            } else {
                Action::Continue
            },
    {
        match outcome {
            Err(e) => Action::Abort(*e),
            Ok(t) => {
                let failed = match t.res {
                    Verdict::Match => false,
                    Verdict::Mismatch { .. } => true,
                };
                self.stats.report(failed, t.tbrute, t.tsolve);
                if failed {
                    Action::ShowMismatch
                } else {
                    Action::Continue
                }
            },
        }
    }

    /// The statistics counted so far.
    pub fn stats(&self) -> (r: &Stats)
        requires
            self.wf(),
        ensures
            r.wf(),
            r@ == self@.stats,
    {
        &self.stats
    }
}

} // verus!
