//! Reports of the timing histograms.

use vstd::prelude::*;

verus! {

/// What a histogram of inter-event times holds, for one pair of a span name and
/// an event message. Times are in nanoseconds; the mean is held by the bits of a
/// double.
#[derive(Debug, PartialEq, Eq)]
pub struct TimingSnapshot {
    pub span: String,
    pub event: String,
    pub count: u64,
    pub mean_ns: u64,
    pub p50_ns: u64,
    pub p90_ns: u64,
    pub p99_ns: u64,
    pub max_ns: u64,
}

/// Category of every timing event, and message of every timing report.
pub const TIMING_CAT: &'static str = "timing";

/// The snapshots that hold a sample, in order.
pub open spec fn with_samples(snapshots: Seq<TimingSnapshot>) -> Seq<TimingSnapshot> {
    snapshots.filter(|s: TimingSnapshot| s.count != 0)
}

/// Picks what is reported: the snapshots that hold at least one sample go to
/// `reports`, in order, and their number comes back. Nothing is reported where the
/// timing layer is not installed and there is no snapshot.
pub fn dump_timing<'a>(
    snapshots: &'a [TimingSnapshot],
    reports: &mut Vec<&'a TimingSnapshot>,
) -> (r: usize)
    ensures
        r == with_samples(snapshots@).len(),
        final(reports)@ == old(reports)@ + with_samples(snapshots@).map_values(
            |s: TimingSnapshot| &s,
        ),
{
    reveal(Seq::filter);
    let ghost base = reports@;
    let n: usize = snapshots.len();
    let mut i: usize = 0;
    let mut reported: usize = 0;
    assert(with_samples(snapshots@.subrange(0, 0)) =~= Seq::<TimingSnapshot>::empty());
    assert(reports@ =~= base + with_samples(snapshots@.subrange(0, 0)).map_values(
        |s: TimingSnapshot| &s,
    ));
    while i < n
        invariant
            n == snapshots@.len(),
            i <= n,
            reported <= i,
            reported == with_samples(snapshots@.subrange(0, i as int)).len(),
            reports@ == base + with_samples(snapshots@.subrange(0, i as int)).map_values(
                |s: TimingSnapshot| &s,
            ),
        decreases n - i,
    {
        let ghost before = snapshots@.subrange(0, i as int);
        let ghost part = snapshots@.subrange(0, i + 1);
        let ghost was = reports@;
        proof {
            assert(part.drop_last() =~= before);
            assert(part.last() == snapshots@[i as int]);
            reveal(Seq::filter);
        }
        if snapshots[i].count != 0 {
            reports.push(&snapshots[i]);
            reported = reported + 1;
            assert(with_samples(part) =~= with_samples(before).push(snapshots@[i as int]));
        } else {
            assert(with_samples(part) =~= with_samples(before));
        }
        assert(reports@ =~= base + with_samples(part).map_values(|s: TimingSnapshot| &s));
        i = i + 1;
    }
    assert(snapshots@.subrange(0, n as int) =~= snapshots@);
    reported
}

/// A snapshot is reported exactly where it holds a sample.
pub proof fn law_reported_iff_sampled(snapshots: Seq<TimingSnapshot>, s: TimingSnapshot)
    ensures
        with_samples(snapshots).contains(s) <==> snapshots.contains(s) && s.count != 0,
    decreases snapshots.len(),
{
    reveal(Seq::filter);
    if snapshots.len() > 0 {
        let init = snapshots.drop_last();
        let last = snapshots.last();
        law_reported_iff_sampled(init, s);
        assert(snapshots =~= init.push(last));
        lemma_push_contains(init, last, s);
        lemma_push_contains(with_samples(init), last, s);
        if last.count != 0 {
            assert(with_samples(snapshots) == with_samples(init).push(last));
        } else {
            assert(with_samples(snapshots) == with_samples(init));
        }
    }
}

proof fn lemma_push_contains(s: Seq<TimingSnapshot>, last: TimingSnapshot, x: TimingSnapshot)
    ensures
        s.push(last).contains(x) <==> s.contains(x) || x == last,
{
    if s.contains(x) {
        let i = choose|i: int| 0 <= i < s.len() && s[i] == x;
        assert(s.push(last)[i] == x);
    }
    assert(s.push(last)[s.len() as int] == last);
    if s.push(last).contains(x) && x != last {
        let i = choose|i: int| 0 <= i < s.push(last).len() && s.push(last)[i] == x;
        assert(s[i] == x);
    }
}

/// One more snapshot is reported last where it holds a sample, and not at all where
/// it holds none; nothing else changes.
pub proof fn law_reports_keep_the_order(snapshots: Seq<TimingSnapshot>, s: TimingSnapshot)
    ensures
        with_samples(Seq::<TimingSnapshot>::empty()) == Seq::<TimingSnapshot>::empty(),
        s.count > 0 ==> with_samples(snapshots.push(s)) == with_samples(snapshots).push(s),
        s.count == 0 ==> with_samples(snapshots.push(s)) == with_samples(snapshots),
{
    reveal(Seq::filter);
    assert(snapshots.push(s).drop_last() =~= snapshots);
}

}
