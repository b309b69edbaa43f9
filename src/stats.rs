//! Running statistics over the iterations of a session: how many failed, and
//! the average times of the reference and of the candidate.
use vstd::prelude::*;

verus! {

/// The sum of a sequence of timings.
pub open spec fn total(s: Seq<u64>) -> nat
    decreases s.len(),
{
    if s.len() == 0 {
        0
    } else {
        total(s.drop_last()) + s.last() as nat
    }
}

/// `num / den` in hundredths, rounded half up.
pub open spec fn centi_ratio(num: nat, den: nat) -> nat {
    ((200 * num + den) / (2 * den)) as nat
}

/// The average of a non-empty sequence of timings, in hundredths.
pub open spec fn mean_centi(s: Seq<u64>) -> nat {
    centi_ratio(total(s), s.len())
}

/// The text of one decimal digit.
pub open spec fn digit_text(d: nat) -> Seq<char> {
    if d == 0 {
        "0"@
    } else if d == 1 {
        "1"@
    } else if d == 2 {
        "2"@
    } else if d == 3 {
        "3"@
    } else if d == 4 {
        "4"@
    } else if d == 5 {
        "5"@
    } else if d == 6 {
        "6"@
    } else if d == 7 {
        "7"@
    } else if d == 8 {
        "8"@
    } else {
        "9"@
    }
}

/// The decimal text of `v`, without leading zeros.
pub open spec fn decimal_text(v: nat) -> Seq<char>
    decreases v,
{
    if v < 10 {
        digit_text(v)
    } else {
        decimal_text(v / 10) + digit_text(v % 10)
    }
}

/// A value given in hundredths, written with two decimal places.
pub open spec fn centi_text(v: nat) -> Seq<char> {
    decimal_text(v / 100) + "."@ + digit_text((v / 10) % 10) + digit_text(v % 10)
}

/// What a set of statistics records: the number of failed iterations and the
/// timings of each side, one per iteration, in order.
pub struct StatsView {
    pub mismatches: nat,
    pub brute: Seq<u64>,
    pub solve: Seq<u64>,
}

impl StatsView {
    /// Nothing recorded yet.
    pub open spec fn empty() -> StatsView {
        StatsView { mismatches: 0, brute: Seq::empty(), solve: Seq::empty() }
    }

    /// The record after one more iteration.
    pub open spec fn reported(self, failed: bool, tbrute: u64, tsolve: u64) -> StatsView {
        StatsView {
            mismatches: if failed {
                self.mismatches + 1
            } else {
                self.mismatches
            },
            brute: self.brute.push(tbrute),
            solve: self.solve.push(tsolve),
        }
    }

    /// Whether one more iteration with these timings can be counted without
    /// the sums or the count leaving `u64`.
    pub open spec fn fits(self, tbrute: u64, tsolve: u64) -> bool {
        &&& total(self.brute) + tbrute <= u64::MAX
        &&& total(self.solve) + tsolve <= u64::MAX
        &&& self.brute.len() < u64::MAX
    }
}

/// The headline of the summary.
pub open spec fn headline(mismatches: nat) -> Seq<char> {
    if mismatches == 0 {
        "ALL test passed!"@
    } else {
        decimal_text(mismatches) + " tests failed!"@
    }
}

/// The line that compares the two averages: brute-force over candidate.
pub open spec fn speed_text(v: StatsView) -> Seq<char> {
    if total(v.solve) == 0 {
        "  -> speed ratio undefined"@
    } else {
        "  -> "@ + centi_text(centi_ratio(total(v.brute), total(v.solve))) + " times faster"@
    }
}

/// The rendered summary of a record.
pub open spec fn summary_text(v: StatsView) -> Seq<char> {
    if v.brute.len() == 0 {
        headline(v.mismatches) + "\nno timings recorded"@
    } else {
        headline(v.mismatches) + "\nAvg time brute: "@ + centi_text(mean_centi(v.brute))
            + " ms, solve: "@ + centi_text(mean_centi(v.solve)) + " ms"@ + speed_text(v)
    }
}

/// The record after a sequence of iterations, each given as its failure flag
/// and its two timings.
pub open spec fn after_reports(v: StatsView, calls: Seq<(bool, u64, u64)>) -> StatsView
    decreases calls.len(),
{
    if calls.len() == 0 {
        v
    } else {
        after_reports(v, calls.drop_last()).reported(
            calls.last().0,
            calls.last().1,
            calls.last().2,
        )
    }
}

/// How many of the iterations failed.
pub open spec fn failures(calls: Seq<(bool, u64, u64)>) -> nat
    decreases calls.len(),
{
    if calls.len() == 0 {
        0
    } else {
        failures(calls.drop_last()) + if calls.last().0 {
            1nat
        } else {
            0nat
        }
    }
}

/// Over any sequence of reports the failure count never decreases, and it
/// grows by exactly the number of reports that were failures.
pub proof fn lemma_mismatches_monotone(v: StatsView, calls: Seq<(bool, u64, u64)>)
    ensures
        after_reports(v, calls).mismatches == v.mismatches + failures(calls),
        after_reports(v, calls).mismatches >= v.mismatches,
    decreases calls.len(),
{
    if calls.len() > 0 {
        lemma_mismatches_monotone(v, calls.drop_last());
    }
}

/// The average of a non-empty sequence of timings, in hundredths, is within
/// half a hundredth of their exact mean.
pub proof fn lemma_mean_centi_close(s: Seq<u64>)
    requires
        s.len() > 0,
    ensures
        2 * s.len() * mean_centi(s) <= 200 * total(s) + s.len(),
        200 * total(s) < 2 * s.len() * mean_centi(s) + s.len(),
{
    let n = s.len() as int;
    let a = 200 * total(s) + n;
    let q = a / (2 * n);
    vstd::arithmetic::div_mod::lemma_fundamental_div_mod(a, 2 * n);
    assert(0 <= a % (2 * n) < 2 * n);
    assert(q >= 0) by {
        vstd::arithmetic::div_mod::lemma_div_pos_is_pos(a, 2 * n);
    }
    assert(mean_centi(s) == q);
}

/// After the iterations `calls`, counted from nothing, the record holds their
/// timings in order, and each rendered average is within half a hundredth of
/// the exact mean of its timings.
pub proof fn lemma_reported_averages(calls: Seq<(bool, u64, u64)>)
    requires
        calls.len() > 0,
    ensures
        after_reports(StatsView::empty(), calls).brute == calls.map_values(
            |c: (bool, u64, u64)| c.1,
        ),
        after_reports(StatsView::empty(), calls).solve == calls.map_values(
            |c: (bool, u64, u64)| c.2,
        ),
        ({
            let b = calls.map_values(|c: (bool, u64, u64)| c.1);
            &&& 2 * b.len() * mean_centi(b) <= 200 * total(b) + b.len()
            &&& 200 * total(b) < 2 * b.len() * mean_centi(b) + b.len()
        }),
        ({
            let t = calls.map_values(|c: (bool, u64, u64)| c.2);
            &&& 2 * t.len() * mean_centi(t) <= 200 * total(t) + t.len()
            &&& 200 * total(t) < 2 * t.len() * mean_centi(t) + t.len()
        }),
{
    lemma_reports_record_timings(calls);
    lemma_mean_centi_close(calls.map_values(|c: (bool, u64, u64)| c.1));
    lemma_mean_centi_close(calls.map_values(|c: (bool, u64, u64)| c.2));
}

proof fn lemma_reports_record_timings(calls: Seq<(bool, u64, u64)>)
    ensures
        after_reports(StatsView::empty(), calls).brute == calls.map_values(
            |c: (bool, u64, u64)| c.1,
        ),
        after_reports(StatsView::empty(), calls).solve == calls.map_values(
            |c: (bool, u64, u64)| c.2,
        ),
    decreases calls.len(),
{
    if calls.len() > 0 {
        let init = calls.drop_last();
        lemma_reports_record_timings(init);
        assert(calls.map_values(|c: (bool, u64, u64)| c.1) =~= init.map_values(
            |c: (bool, u64, u64)| c.1,
        ).push(calls.last().1));
        assert(calls.map_values(|c: (bool, u64, u64)| c.2) =~= init.map_values(
            |c: (bool, u64, u64)| c.2,
        ).push(calls.last().2));
    } else {
        assert(calls.map_values(|c: (bool, u64, u64)| c.1) =~= Seq::<u64>::empty());
        assert(calls.map_values(|c: (bool, u64, u64)| c.2) =~= Seq::<u64>::empty());
    }
}

/// The text of the digit `d`.
fn digit_str(d: u128) -> (r: &'static str)
    requires
        d < 10,
    ensures
        r@ == digit_text(d as nat),
{
    if d == 0 {
        "0"
    } else if d == 1 {
        "1"
    } else if d == 2 {
        "2"
    } else if d == 3 {
        "3"
    } else if d == 4 {
        "4"
    } else if d == 5 {
        "5"
    } else if d == 6 {
        "6"
    } else if d == 7 {
        "7"
    } else if d == 8 {
        "8"
    } else {
        "9"
    }
}

/// Appends the decimal text of `v` to `s`.
fn push_decimal(s: &mut String, v: u128)
    ensures
        final(s)@ == old(s)@ + decimal_text(v as nat),
    decreases v,
{
    if v < 10 {
        s.append(digit_str(v));
    } else {
        let ghost prev = s@;
        push_decimal(s, v / 10);
        s.append(digit_str(v % 10));
        assert(s@ =~= prev + (decimal_text((v / 10) as nat) + digit_text((v % 10) as nat)));
    }
}

/// Appends `v`, given in hundredths, with two decimal places.
fn push_centi(s: &mut String, v: u128)
    ensures
        final(s)@ == old(s)@ + centi_text(v as nat),
{
    let ghost prev = s@;
    push_decimal(s, v / 100);
    s.append(".");
    s.append(digit_str((v / 10) % 10));
    s.append(digit_str(v % 10));
    assert(s@ =~= prev + centi_text(v as nat));
}

/// A running average, kept as a sum and a count.
struct AvgCounter {
    sum: u64,
    n: u64,
    samples: Ghost<Seq<u64>>,
}

impl AvgCounter {
    spec fn wf(&self) -> bool {
        &&& self.sum == total(self.samples@)
        &&& self.n == self.samples@.len()
    }

    fn supply(&mut self, val: u64)
        requires
            old(self).wf(),
            old(self).sum + val <= u64::MAX,
            old(self).n < u64::MAX,
        ensures
            final(self).wf(),
            final(self).samples@ == old(self).samples@.push(val),
    {
        let ghost prev = self.samples@;
        self.sum += val;
        self.n += 1;
        self.samples = Ghost(prev.push(val));
        assert(self.samples@.drop_last() == prev);
    }

    /// The average in hundredths, or `None` before the first sample.
    fn centi_mean(&self) -> (r: Option<u128>)
        requires
            self.wf(),
        ensures
            self.n == 0 ==> r is None,
            self.n > 0 ==> r == Some(mean_centi(self.samples@) as u128),
    {
        if self.n == 0 {
            None
        } else {
            let n = self.n as u128;
            Some((200 * (self.sum as u128) + n) / (2 * n))
        }
    }
}

/// Failure count and timing averages over the iterations of a session.
pub struct Stats {
    diffc: u64,
    bavg: AvgCounter,
    savg: AvgCounter,
}

impl View for Stats {
    type V = StatsView;

    closed spec fn view(&self) -> StatsView {
        StatsView { mismatches: self.diffc as nat, brute: self.bavg.samples@, solve: self.savg.samples@ }
    }
}

impl Stats {
    /// The statistics are consistent with what they record.
    pub closed spec fn wf(&self) -> bool {
        &&& self.bavg.wf()
        &&& self.savg.wf()
        &&& self.bavg.n == self.savg.n
        &&& self.diffc <= self.bavg.n
    }

    /// Statistics with nothing recorded.
    pub fn raw() -> (r: Self)
        ensures
            r.wf(),
            r@ == StatsView::empty(),
    {
        Stats {
            diffc: 0,
            bavg: AvgCounter { sum: 0, n: 0, samples: Ghost(Seq::empty()) },
            savg: AvgCounter { sum: 0, n: 0, samples: Ghost(Seq::empty()) },
        }
    }

    /// Whether `report` may be called with these timings.
    pub fn can_report(&self, tbrute: u64, tsolve: u64) -> (r: bool)
        requires
            self.wf(),
        ensures
            r == self@.fits(tbrute, tsolve),
    {
        self.bavg.sum <= u64::MAX - tbrute && self.savg.sum <= u64::MAX - tsolve && self.bavg.n
            < u64::MAX
    }

    /// Counts one iteration: a failure if `failed`, and its two timings.
    pub fn report(&mut self, failed: bool, tbrute: u64, tsolve: u64)
        requires
            old(self).wf(),
            old(self)@.fits(tbrute, tsolve),
        ensures
            final(self).wf(),
            final(self)@ == old(self)@.reported(failed, tbrute, tsolve),
    {
        self.diffc += if failed {
            1
        } else {
            0
        };
        self.bavg.supply(tbrute);
        self.savg.supply(tsolve);
    }

    /// The number of failed iterations.
    pub fn mismatches(&self) -> (r: u64)
        ensures
            r == self@.mismatches,
    {
        self.diffc
    }

    /// The number of iterations counted.
    pub fn samples(&self) -> (r: u64)
        requires
            self.wf(),
        ensures
            r == self@.brute.len(),
            r == self@.solve.len(),
    {
        self.bavg.n
    }

    /// The average times of the reference and of the candidate, in
    /// hundredths, or `None` before the first iteration.
    pub fn averages(&self) -> (r: Option<(u128, u128)>)
        requires
            self.wf(),
        ensures
            self@.brute.len() == 0 ==> r is None,
            self@.brute.len() > 0 ==> r == Some(
                (mean_centi(self@.brute) as u128, mean_centi(self@.solve) as u128),
            ),
    {
        match (self.bavg.centi_mean(), self.savg.centi_mean()) {
            (Some(b), Some(s)) => Some((b, s)),
            _ => None,
        }
    }

    /// The summary: a headline with the failure count, the two average
    /// times, and how many times faster the candidate is than the reference.
    pub fn render(&self) -> (r: String)
        requires
            self.wf(),
        ensures
            r@ == summary_text(self@),
    {
        let mut s = String::new();
        if self.diffc == 0 {
            s.append("ALL test passed!");
        } else {
            push_decimal(&mut s, self.diffc as u128);
            s.append(" tests failed!");
        }
        assert(s@ =~= headline(self@.mismatches));
        match (self.bavg.centi_mean(), self.savg.centi_mean()) {
            (Some(b), Some(t)) => {
                s.append("\nAvg time brute: ");
                push_centi(&mut s, b);
                s.append(" ms, solve: ");
                push_centi(&mut s, t);
                s.append(" ms");
                let ghost before = s@;
                if self.savg.sum == 0 {
                    s.append("  -> speed ratio undefined");
                } else {
                    let ratio = (200 * (self.bavg.sum as u128) + (self.savg.sum as u128)) / (2
                        * (self.savg.sum as u128));
                    s.append("  -> ");
                    push_centi(&mut s, ratio);
                    s.append(" times faster");
                }
                assert(s@ =~= before + speed_text(self@));
            },
            _ => {
                s.append("\nno timings recorded");
            },
        }
        assert(s@ =~= summary_text(self@));
        s
    }
}

} // verus!
