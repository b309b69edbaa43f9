use stress_check::check::{
    decode_or, diff_report, judge, outputs_match, Action, Out, RunError, Session, Test, Verdict,
};
use stress_check::diff::{diff, DiffLine, LineTag};

fn view(ds: &[DiffLine]) -> Vec<(LineTag, String)> {
    ds.iter().map(|l| (l.tag, l.text.clone())).collect()
}

fn out(took: u64, res: &[u8]) -> Out {
    Out { took, res: res.to_vec() }
}

fn matched(tbrute: u64, tsolve: u64) -> Test {
    Test { res: Verdict::Match, tbrute, tsolve }
}

#[test]
fn identical_outputs_match() {
    assert!(outputs_match(b"", b""));
    assert!(outputs_match(b"5\n", b"5\n"));
    assert!(outputs_match(&[0, 255, 10], &[0, 255, 10]));
}

#[test]
fn distinct_outputs_do_not_match() {
    assert!(!outputs_match(b"5\n", b"5"));
    assert!(!outputs_match(b"5\n", b"6\n"));
    assert!(!outputs_match(b"", b"\n"));
}

#[test]
fn decoding_falls_back_to_placeholder() {
    assert_eq!(decode_or(b"hi\n", "X"), "hi\n");
    assert_eq!(decode_or(&[0xff, 0x41], "X"), "X");
    assert_eq!(decode_or("é".as_bytes(), "X"), "é");
}

#[test]
fn diff_of_text_with_itself_is_all_unchanged() {
    let ds = diff("a\nb\n", "a\nb\n");
    assert_eq!(
        view(&ds),
        vec![
            (LineTag::Unchanged, "a".to_string()),
            (LineTag::Unchanged, "b".to_string()),
            (LineTag::Unchanged, "".to_string()),
        ]
    );
    assert!(diff("", "").is_empty());
}

#[test]
fn diff_against_empty_text() {
    let ds = diff("", "x\ny");
    assert_eq!(
        view(&ds),
        vec![
            (LineTag::OnlyInCandidate, "x".to_string()),
            (LineTag::OnlyInCandidate, "y".to_string()),
        ]
    );
    let ds = diff("x", "");
    assert_eq!(view(&ds), vec![(LineTag::OnlyInReference, "x".to_string())]);
}

#[test]
fn diff_keeps_common_lines_in_order() {
    let ds = diff("a\nb\nc", "a\nx\nc");
    assert_eq!(
        view(&ds),
        vec![
            (LineTag::Unchanged, "a".to_string()),
            (LineTag::OnlyInReference, "b".to_string()),
            (LineTag::OnlyInCandidate, "x".to_string()),
            (LineTag::Unchanged, "c".to_string()),
        ]
    );
}

#[test]
fn diff_swapped_sides_swaps_tags() {
    let swap = |t: LineTag| match t {
        LineTag::OnlyInReference => LineTag::OnlyInCandidate,
        LineTag::OnlyInCandidate => LineTag::OnlyInReference,
        LineTag::Unchanged => LineTag::Unchanged,
    };
    for (a, b) in [("6\n", "7\n"), ("a\nb\nc", "a\nx\nc"), ("", "q")] {
        let mut ab: Vec<(u8, String)> = view(&diff(a, b))
            .into_iter()
            .map(|(t, s)| (swap(t) as u8, s))
            .collect();
        let mut ba: Vec<(u8, String)> =
            view(&diff(b, a)).into_iter().map(|(t, s)| (t as u8, s)).collect();
        ab.sort();
        ba.sort();
        assert_eq!(ab, ba);
    }
}

#[test]
fn diff_report_marks_each_side() {
    let ds = diff("a\nb\nc", "a\nx\nc");
    assert_eq!(diff_report(&ds), "a\ns: b\nb: x\nc\n");
    assert_eq!(diff_report(&Vec::new()), "");
}

#[test]
fn scenario_echoing_programs_match() {
    let gen = b"5\n".to_vec();
    let t = judge(gen.clone(), out(3, &gen), out(1, &gen));
    assert!(matches!(t.res, Verdict::Match));
    assert_eq!(t.tbrute, 3);
    assert_eq!(t.tsolve, 1);
}

#[test]
fn scenario_different_answers_mismatch() {
    let t = judge(b"3\n".to_vec(), out(8, b"6\n"), out(2, b"7\n"));
    assert_eq!(t.tbrute, 8);
    assert_eq!(t.tsolve, 2);
    match t.res {
        Verdict::Mismatch { ds, gen } => {
            assert_eq!(gen, b"3\n".to_vec());
            let v = view(&ds);
            assert_eq!(
                v.iter().filter(|(t, s)| *t == LineTag::OnlyInReference && s == "6").count(),
                1
            );
            assert_eq!(
                v.iter().filter(|(t, s)| *t == LineTag::OnlyInCandidate && s == "7").count(),
                1
            );
            assert!(v.iter().all(|(t, _)| *t != LineTag::Unchanged));
            assert_eq!(diff_report(&ds), "s: 6\ns: \nb: 7\nb: \n");
        }
        Verdict::Match => panic!("outputs differ"),
    }
}

#[test]
fn mismatch_with_undecodable_output_diffs_placeholder() {
    let t = judge(Vec::new(), out(0, &[0xff]), out(0, b"ok"));
    match t.res {
        Verdict::Mismatch { ds, .. } => {
            assert_eq!(
                view(&ds),
                vec![
                    (LineTag::OnlyInReference, "NO BRUTE RES".to_string()),
                    (LineTag::OnlyInCandidate, "ok".to_string()),
                ]
            );
        }
        Verdict::Match => panic!("outputs differ"),
    }
}

#[test]
fn scenario_missing_executable_aborts_without_counting() {
    let mut s = Session::new(5);
    assert!(!s.finished());
    assert_eq!(s.step(&Err(RunError::Spawn)), Action::Abort(RunError::Spawn));
    assert_eq!(s.stats().samples(), 0);
    assert_eq!(s.stats().mismatches(), 0);
    assert_eq!(s.step(&Err(RunError::Transfer)), Action::Abort(RunError::Transfer));
    assert_eq!(s.stats().samples(), 0);
}

#[test]
fn scenario_three_iterations_second_fails() {
    let mut s = Session::new(3);
    assert_eq!(s.step(&Ok(matched(4, 2))), Action::Continue);
    let bad = judge(b"1\n".to_vec(), out(6, b"1\n"), out(2, b"2\n"));
    assert!(s.can_record(&bad));
    assert_eq!(s.step(&Ok(bad)), Action::ShowMismatch);
    assert!(!s.finished());
    assert_eq!(s.step(&Ok(matched(5, 2))), Action::Continue);
    assert!(s.finished());
    assert_eq!(s.stats().mismatches(), 1);
    assert_eq!(s.stats().samples(), 3);
    assert_eq!(s.stats().averages(), Some((500, 200)));
}
