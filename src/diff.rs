//! Line-oriented difference between the reference's and the candidate's output.
use vstd::prelude::*;

verus! {

/// Which side a line of a diff belongs to.
#[derive(Clone, Copy, Debug, PartialEq, Eq, Structural)]
pub enum LineTag {
    Unchanged,
    OnlyInReference,
    OnlyInCandidate,
}

/// One entry of a diff: its side and its text.
#[derive(Debug)]
pub struct DiffLine {
    pub tag: LineTag,
    pub text: String,
}

impl View for DiffLine {
    type V = (LineTag, Seq<char>);

    open spec fn view(&self) -> (LineTag, Seq<char>) {
        (self.tag, self.text@)
    }
}

/// The views of a sequence of diff entries.
pub open spec fn lines_view(s: Seq<DiffLine>) -> Seq<(LineTag, Seq<char>)> {
    s.map_values(|l: DiffLine| l@)
}

/// The runs of the line diff of `reference` against `candidate`: each run is
/// one or more consecutive lines of one side, joined by newlines.
pub uninterp spec fn line_changes(reference: Seq<char>, candidate: Seq<char>) -> Seq<
    (LineTag, Seq<char>),
>;

/// The pieces of `s` between newlines, in order; an empty text is one empty
/// piece.
pub open spec fn split_lines(s: Seq<char>) -> Seq<Seq<char>>
    decreases s.len(),
{
    if s.len() == 0 {
        seq![Seq::empty()]
    } else {
        let init = split_lines(s.drop_last());
        if s.last() == '\n' {
            init.push(Seq::empty())
        } else {
            init.update(init.len() - 1, init.last().push(s.last()))
        }
    }
}

/// Each piece of a run, tagged with the run's side.
pub open spec fn run_lines(run: (LineTag, Seq<char>)) -> Seq<(LineTag, Seq<char>)> {
    split_lines(run.1).map_values(|l: Seq<char>| (run.0, l))
}

/// The runs of a diff broken into single lines, in order.
pub open spec fn tagged_lines(runs: Seq<(LineTag, Seq<char>)>) -> Seq<(LineTag, Seq<char>)>
    decreases runs.len(),
{
    if runs.len() == 0 {
        Seq::empty()
    } else {
        tagged_lines(runs.drop_last()) + run_lines(runs.last())
    }
}

/// The line diff of two texts: one entry per line.
pub open spec fn line_diff(reference: Seq<char>, candidate: Seq<char>) -> Seq<
    (LineTag, Seq<char>),
> {
    tagged_lines(line_changes(reference, candidate))
}

/// Runs that are one common run of `x`, or none for an empty `x`, break
/// into the lines of `x`, each common.
proof fn lemma_diff_of_same_text(x: Seq<char>)
    requires
        x.len() == 0 ==> line_changes(x, x).len() == 0,
        x.len() > 0 ==> line_changes(x, x) == seq![(LineTag::Unchanged, x)],
    ensures
        x.len() == 0 ==> line_diff(x, x).len() == 0,
        x.len() > 0 ==> line_diff(x, x) == split_lines(x).map_values(
            |l: Seq<char>| (LineTag::Unchanged, l),
        ),
{
    let runs = line_changes(x, x);
    if x.len() > 0 {
        assert(runs.drop_last() =~= Seq::<(LineTag, Seq<char>)>::empty());
        assert(tagged_lines(runs.drop_last()) =~= Seq::<(LineTag, Seq<char>)>::empty());
        assert(tagged_lines(runs) =~= run_lines(runs.last()));
    }
}

/// Relies on difference::Changeset::new with a newline split: the runs of
/// the line diff depend on the two texts alone, and two equal texts give one
/// common run (none when they are empty).
#[verifier::external_body]
fn changeset(reference: &str, candidate: &str) -> (r: Vec<DiffLine>)
    ensures
        lines_view(r@) == line_changes(reference@, candidate@),
        reference@ == candidate@ && reference@.len() == 0 ==> r@.len() == 0,
        reference@ == candidate@ && reference@.len() > 0 ==> lines_view(r@) == seq![
            (LineTag::Unchanged, reference@),
        ],
{
    difference::Changeset::new(reference, candidate, "\n").diffs.into_iter().map(
        |d| match d {
            difference::Difference::Same(text) => DiffLine { tag: LineTag::Unchanged, text },
            difference::Difference::Rem(text) => DiffLine { tag: LineTag::OnlyInReference, text },
            difference::Difference::Add(text) => DiffLine { tag: LineTag::OnlyInCandidate, text },
        },
    ).collect()
}

/// Relies on str::split with a newline pattern: the pieces between newlines,
/// in order.
#[verifier::external_body]
fn split_newlines(s: &str) -> (r: Vec<String>)
    ensures
        r@.map_values(|p: String| p@) == split_lines(s@),
{
    s.split('\n').map(|p| p.to_string()).collect()
}

/// The line diff of `reference` against `candidate`: lines common to both
/// are `Unchanged`, the others are tagged with the side they come from. A
/// text diffed against itself gives each of its lines, in order, as common.
pub fn diff(reference: &str, candidate: &str) -> (r: Vec<DiffLine>)
    ensures
        lines_view(r@) == line_diff(reference@, candidate@),
        reference@ == candidate@ && reference@.len() == 0 ==> r@.len() == 0,
        reference@ == candidate@ && reference@.len() > 0 ==> lines_view(r@) == split_lines(
            reference@,
        ).map_values(|l: Seq<char>| (LineTag::Unchanged, l)),
{
    let runs = changeset(reference, candidate);
    proof {
        if reference@ == candidate@ {
            lemma_diff_of_same_text(reference@);
        }
    }
    let ghost runs_v = lines_view(runs@);
    let mut out: Vec<DiffLine> = Vec::new();
    let mut i: usize = 0;
    while i < runs.len()
        invariant
            i <= runs@.len(),
            runs_v == lines_view(runs@),
            lines_view(out@) == tagged_lines(runs_v.take(i as int)),
        decreases runs@.len() - i,
    {
        let tag = runs[i].tag;
        let pieces = split_newlines(runs[i].text.as_str());
        let ghost start = out@;
        let ghost pv = pieces@.map_values(|p: String| p@);
        let mut j: usize = 0;
        while j < pieces.len()
            invariant
                i < runs@.len(),
                j <= pieces@.len(),
                tag == runs@[i as int].tag,
                pv == pieces@.map_values(|p: String| p@),
                pv == split_lines(runs@[i as int].text@),
                lines_view(out@) == lines_view(start) + pv.take(j as int).map_values(
                    |l: Seq<char>| (tag, l),
                ),
            decreases pieces@.len() - j,
        {
            let text = pieces[j].clone();
            let ghost before = out@;
            out.push(DiffLine { tag, text });
            assert(pv[j as int] == pieces@[j as int]@);
            assert(lines_view(out@) =~= lines_view(before).push((tag, pv[j as int])));
            assert(pv.take(j + 1) == pv.take(j as int).push(pv[j as int]));
            assert(lines_view(out@) =~= lines_view(start) + pv.take(j + 1).map_values(
                |l: Seq<char>| (tag, l),
            ));
            j += 1;
        }
        assert(pv.take(j as int) == pv);
        assert(runs_v.take(i + 1).drop_last() == runs_v.take(i as int));
        assert(runs_v[i as int] == runs@[i as int]@);
        assert(lines_view(out@) =~= tagged_lines(runs_v.take(i + 1)));
        i += 1;
    }
    assert(runs_v.take(i as int) == runs_v);
    out
}

} // verus!
